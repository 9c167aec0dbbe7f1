use vstd::prelude::*;

use crate::config::{CivilTime, two_digits};
use crate::logs::{jiff_signed_duration_parse, parse_signed_duration};
use crate::text::{decimal, push_str, signed_decimal, signed_decimal_string};

verus! {

/// A stretch of the configuration text: its offset and length in bytes.
#[derive(Debug, Clone, Copy, PartialEq, Eq, Structural)]
pub struct SourceSpan {
    pub offset: usize,
    pub len: usize,
}

/// Why a configuration could not be read. The errors about a place in the text carry its
/// span when known and, once attached, the whole text. Errors of the KDL parser, of I/O,
/// of jiff, of the date parser, of the URL parser and of validation carry their message.
#[derive(Debug)]
pub enum ConfigError {
    MissingField { name: String, span: Option<SourceSpan>, src: Option<String> },
    WrongType { span: Option<SourceSpan>, src: Option<String> },
    WrongTypeExpected { span: Option<SourceSpan>, src: Option<String>, expected: String },
    UnknownField { name: String, span: Option<SourceSpan>, src: Option<String> },
    DuplicateField { name: String, span: Option<SourceSpan>, src: Option<String> },
    OutOfRange { span: Option<SourceSpan>, src: Option<String> },
    ParseError(String),
    IoError(String),
    InvalidDateTime { error: String, src: Option<String>, span: Option<SourceSpan> },
    DateTimeParse { error: String, src: Option<String>, span: Option<SourceSpan> },
    InvalidUrl { error: String, src: Option<String>, span: Option<SourceSpan> },
    Validation { error: String, src: Option<String>, span: Option<SourceSpan> },
}

/// The message of a configuration error.
pub open spec fn config_error_text(e: ConfigError) -> Seq<char> {
    match e {
        ConfigError::MissingField { name, .. } => "Missing field "@ + name@,
        ConfigError::WrongType { .. } => "Wrong type"@,
        ConfigError::WrongTypeExpected { expected, .. } => "Wrong type, expected: "@ + expected@,
        ConfigError::UnknownField { name, .. } => "Unknown field "@ + name@,
        ConfigError::DuplicateField { name, .. } => "Duplicate field "@ + name@,
        ConfigError::OutOfRange { .. } => "Out of range"@,
        ConfigError::ParseError(m) => m@,
        ConfigError::IoError(m) => "IO error: "@ + m@,
        ConfigError::InvalidDateTime { .. } => "Invalid date/time"@,
        ConfigError::DateTimeParse { .. } => "Error parsing date and time"@,
        ConfigError::InvalidUrl { .. } => "Invalid url"@,
        ConfigError::Validation { error, .. } => "Config validation failed: "@ + error@,
    }
}

/// The span of an error that has one.
pub open spec fn error_span(e: ConfigError) -> Option<SourceSpan> {
    match e {
        ConfigError::MissingField { span, .. } => span,
        ConfigError::WrongType { span, .. } => span,
        ConfigError::WrongTypeExpected { span, .. } => span,
        ConfigError::UnknownField { span, .. } => span,
        ConfigError::DuplicateField { span, .. } => span,
        ConfigError::OutOfRange { span, .. } => span,
        ConfigError::InvalidDateTime { span, .. } => span,
        ConfigError::DateTimeParse { span, .. } => span,
        ConfigError::InvalidUrl { span, .. } => span,
        ConfigError::Validation { span, .. } => span,
        _ => None,
    }
}

/// The text attached to an error that can carry one.
pub open spec fn error_src(e: ConfigError) -> Option<Seq<char>> {
    let s = match e {
        ConfigError::MissingField { src, .. } => src,
        ConfigError::WrongType { src, .. } => src,
        ConfigError::WrongTypeExpected { src, .. } => src,
        ConfigError::UnknownField { src, .. } => src,
        ConfigError::DuplicateField { src, .. } => src,
        ConfigError::OutOfRange { src, .. } => src,
        ConfigError::InvalidDateTime { src, .. } => src,
        ConfigError::DateTimeParse { src, .. } => src,
        ConfigError::InvalidUrl { src, .. } => src,
        ConfigError::Validation { src, .. } => src,
        _ => None,
    };
    match s {
        Some(t) => Some(t@),
        None => None,
    }
}

/// Two errors are alike: the same kind with the same names, messages and expectations;
/// spans and attached texts aside.
pub open spec fn same_kind(a: ConfigError, b: ConfigError) -> bool {
    match (a, b) {
        (ConfigError::MissingField { name: x, .. }, ConfigError::MissingField { name: y, .. }) => x@ == y@,
        (ConfigError::WrongType { .. }, ConfigError::WrongType { .. }) => true,
        (ConfigError::WrongTypeExpected { expected: x, .. }, ConfigError::WrongTypeExpected { expected: y, .. }) => x@ == y@,
        (ConfigError::UnknownField { name: x, .. }, ConfigError::UnknownField { name: y, .. }) => x@ == y@,
        (ConfigError::DuplicateField { name: x, .. }, ConfigError::DuplicateField { name: y, .. }) => x@ == y@,
        (ConfigError::OutOfRange { .. }, ConfigError::OutOfRange { .. }) => true,
        (ConfigError::ParseError(x), ConfigError::ParseError(y)) => x@ == y@,
        (ConfigError::IoError(x), ConfigError::IoError(y)) => x@ == y@,
        (ConfigError::InvalidDateTime { error: x, .. }, ConfigError::InvalidDateTime { error: y, .. }) => x@ == y@,
        (ConfigError::DateTimeParse { error: x, .. }, ConfigError::DateTimeParse { error: y, .. }) => x@ == y@,
        (ConfigError::InvalidUrl { error: x, .. }, ConfigError::InvalidUrl { error: y, .. }) => x@ == y@,
        (ConfigError::Validation { error: x, .. }, ConfigError::Validation { error: y, .. }) => x@ == y@,
        _ => false,
    }
}

/// A configuration error as plain values, the attached text aside.
pub enum ErrorView {
    MissingField(Seq<char>, Option<SourceSpan>),
    WrongType(Option<SourceSpan>),
    WrongTypeExpected(Seq<char>, Option<SourceSpan>),
    UnknownField(Seq<char>, Option<SourceSpan>),
    DuplicateField(Seq<char>, Option<SourceSpan>),
    OutOfRange(Option<SourceSpan>),
    ParseError(Seq<char>),
    IoError(Seq<char>),
    InvalidDateTime(Seq<char>, Option<SourceSpan>),
    DateTimeParse(Seq<char>, Option<SourceSpan>),
    InvalidUrl(Seq<char>, Option<SourceSpan>),
    Validation(Seq<char>, Option<SourceSpan>),
}

/// A configuration error as plain values, with the text attached to it.
pub open spec fn err_view(e: ConfigError) -> (ErrorView, Option<Seq<char>>) {
    let v = match e {
        ConfigError::MissingField { name, span, .. } => ErrorView::MissingField(name@, span),
        ConfigError::WrongType { span, .. } => ErrorView::WrongType(span),
        ConfigError::WrongTypeExpected { expected, span, .. } => ErrorView::WrongTypeExpected(expected@, span),
        ConfigError::UnknownField { name, span, .. } => ErrorView::UnknownField(name@, span),
        ConfigError::DuplicateField { name, span, .. } => ErrorView::DuplicateField(name@, span),
        ConfigError::OutOfRange { span, .. } => ErrorView::OutOfRange(span),
        ConfigError::ParseError(m) => ErrorView::ParseError(m@),
        ConfigError::IoError(m) => ErrorView::IoError(m@),
        ConfigError::InvalidDateTime { error, span, .. } => ErrorView::InvalidDateTime(error@, span),
        ConfigError::DateTimeParse { error, span, .. } => ErrorView::DateTimeParse(error@, span),
        ConfigError::InvalidUrl { error, span, .. } => ErrorView::InvalidUrl(error@, span),
        ConfigError::Validation { error, span, .. } => ErrorView::Validation(error@, span),
    };
    (v, error_src(e))
}

/// An error given a span, unless it has one or cannot have one.
pub open spec fn with_span_view(e: ErrorView, s: SourceSpan) -> ErrorView {
    match e {
        ErrorView::MissingField(n, None) => ErrorView::MissingField(n, Some(s)),
        ErrorView::WrongType(None) => ErrorView::WrongType(Some(s)),
        ErrorView::WrongTypeExpected(x, None) => ErrorView::WrongTypeExpected(x, Some(s)),
        ErrorView::UnknownField(n, None) => ErrorView::UnknownField(n, Some(s)),
        ErrorView::DuplicateField(n, None) => ErrorView::DuplicateField(n, Some(s)),
        ErrorView::OutOfRange(None) => ErrorView::OutOfRange(Some(s)),
        ErrorView::InvalidDateTime(m, None) => ErrorView::InvalidDateTime(m, Some(s)),
        ErrorView::DateTimeParse(m, None) => ErrorView::DateTimeParse(m, Some(s)),
        ErrorView::InvalidUrl(m, None) => ErrorView::InvalidUrl(m, Some(s)),
        ErrorView::Validation(m, None) => ErrorView::Validation(m, Some(s)),
        other => other,
    }
}

/// Whether the error is `v`, with no text attached.
pub open spec fn is_error(e: ConfigError, v: ErrorView) -> bool {
    err_view(e) == (v, None::<Seq<char>>)
}

/// Whether an error kind can carry a span and a text.
pub open spec fn is_located(e: ConfigError) -> bool {
    !(e is ParseError || e is IoError)
}

impl ConfigError {
    /// A missing field.
    pub fn missing_field(name: String, span: Option<SourceSpan>) -> (e: Self)
        ensures
            e matches ConfigError::MissingField { name: n, span: s, src: None } && n@ == name@ && s == span,
    {
        ConfigError::MissingField { name, span, src: None }
    }

    /// A value of the wrong type.
    pub fn wrong_type(span: Option<SourceSpan>) -> (e: Self)
        ensures
            e matches ConfigError::WrongType { span: s, src: None } && s == span,
    {
        ConfigError::WrongType { span, src: None }
    }

    /// A field that no setting has.
    pub fn unknown_field(name: String, span: Option<SourceSpan>) -> (e: Self)
        ensures
            e matches ConfigError::UnknownField { name: n, span: s, src: None } && n@ == name@ && s == span,
    {
        ConfigError::UnknownField { name, span, src: None }
    }

    /// A field given twice.
    pub fn duplicate_field(name: String, span: Option<SourceSpan>) -> (e: Self)
        ensures
            e matches ConfigError::DuplicateField { name: n, span: s, src: None } && n@ == name@ && s == span,
    {
        ConfigError::DuplicateField { name, span, src: None }
    }

    /// A number that does not fit its setting.
    pub fn out_of_range(span: Option<SourceSpan>) -> (e: Self)
        ensures
            e matches ConfigError::OutOfRange { span: s, src: None } && s == span,
    {
        ConfigError::OutOfRange { span, src: None }
    }

    /// A wrong type, with what was expected.
    pub fn expected(self, ty: String) -> (e: Self)
        requires
            self is WrongType,
        ensures
            e matches ConfigError::WrongTypeExpected { span, src, expected } && expected@ == ty@
                && span == error_span(self) && (match src { Some(t) => Some(t@), None => None }) == error_src(self),
    {
        match self {
            ConfigError::WrongType { span, src } => ConfigError::WrongTypeExpected { span, src, expected: ty },
            other => other,
        }
    }

    /// Gives the error a span, unless it has one (or cannot have one).
    pub fn with_span_no_overwrite(self, new_span: SourceSpan) -> (e: Self)
        ensures
            same_kind(e, self) || (self matches ConfigError::ParseError(_) || self matches ConfigError::IoError(_)),
            is_located(self) == is_located(e),
            error_span(e) == if is_located(self) && error_span(self) is None { Some(new_span) } else { error_span(self) },
            error_src(e) == error_src(self),
            !is_located(self) ==> config_error_text(e) == config_error_text(self),
            !is_located(self) || error_span(self) is Some ==> e == self,
            err_view(e) == (with_span_view(err_view(self).0, new_span), err_view(self).1),
    {
        match self {
            ConfigError::MissingField { name, span: None, src } => ConfigError::MissingField { name, span: Some(new_span), src },
            ConfigError::WrongType { span: None, src } => ConfigError::WrongType { span: Some(new_span), src },
            ConfigError::WrongTypeExpected { span: None, src, expected } => ConfigError::WrongTypeExpected { span: Some(new_span), src, expected },
            ConfigError::UnknownField { name, span: None, src } => ConfigError::UnknownField { name, span: Some(new_span), src },
            ConfigError::DuplicateField { name, span: None, src } => ConfigError::DuplicateField { name, span: Some(new_span), src },
            ConfigError::OutOfRange { span: None, src } => ConfigError::OutOfRange { span: Some(new_span), src },
            ConfigError::InvalidDateTime { error, src, span: None } => ConfigError::InvalidDateTime { error, src, span: Some(new_span) },
            ConfigError::DateTimeParse { error, src, span: None } => ConfigError::DateTimeParse { error, src, span: Some(new_span) },
            ConfigError::InvalidUrl { error, src, span: None } => ConfigError::InvalidUrl { error, src, span: Some(new_span) },
            ConfigError::Validation { error, src, span: None } => ConfigError::Validation { error, src, span: Some(new_span) },
            other => other,
        }
    }

    /// Attaches the configuration text to an error that can carry it.
    pub fn with_source(self, source: String) -> (e: Self)
        ensures
            same_kind(e, self) || (self matches ConfigError::ParseError(_) || self matches ConfigError::IoError(_)),
            is_located(self) == is_located(e),
            error_span(e) == error_span(self),
            error_src(e) == if is_located(self) { Some(source@) } else { None },
            !is_located(self) ==> config_error_text(e) == config_error_text(self),
            !is_located(self) ==> e == self,
            err_view(e) == (err_view(self).0, if is_located(self) { Some(source@) } else { None::<Seq<char>> }),
    {
        match self {
            ConfigError::MissingField { name, span, .. } => ConfigError::MissingField { name, span, src: Some(source) },
            ConfigError::WrongType { span, .. } => ConfigError::WrongType { span, src: Some(source) },
            ConfigError::WrongTypeExpected { span, expected, .. } => ConfigError::WrongTypeExpected { span, src: Some(source), expected },
            ConfigError::UnknownField { name, span, .. } => ConfigError::UnknownField { name, span, src: Some(source) },
            ConfigError::DuplicateField { name, span, .. } => ConfigError::DuplicateField { name, span, src: Some(source) },
            ConfigError::OutOfRange { span, .. } => ConfigError::OutOfRange { span, src: Some(source) },
            ConfigError::InvalidDateTime { error, span, .. } => ConfigError::InvalidDateTime { error, src: Some(source), span },
            ConfigError::DateTimeParse { error, span, .. } => ConfigError::DateTimeParse { error, src: Some(source), span },
            ConfigError::InvalidUrl { error, span, .. } => ConfigError::InvalidUrl { error, src: Some(source), span },
            ConfigError::Validation { error, span, .. } => ConfigError::Validation { error, src: Some(source), span },
            other => other,
        }
    }

    /// The message of the error.
    pub fn message(&self) -> (r: String)
        ensures
            r@ == config_error_text(*self),
    {
        let (head, tail): (&str, Option<&String>) = match self {
            ConfigError::MissingField { name, .. } => ("Missing field ", Some(name)),
            ConfigError::WrongType { .. } => ("Wrong type", None),
            ConfigError::WrongTypeExpected { expected, .. } => ("Wrong type, expected: ", Some(expected)),
            ConfigError::UnknownField { name, .. } => ("Unknown field ", Some(name)),
            ConfigError::DuplicateField { name, .. } => ("Duplicate field ", Some(name)),
            ConfigError::OutOfRange { .. } => ("Out of range", None),
            ConfigError::ParseError(m) => ("", Some(m)),
            ConfigError::IoError(m) => ("IO error: ", Some(m)),
            ConfigError::InvalidDateTime { .. } => ("Invalid date/time", None),
            ConfigError::DateTimeParse { .. } => ("Error parsing date and time", None),
            ConfigError::InvalidUrl { .. } => ("Invalid url", None),
            ConfigError::Validation { error, .. } => ("Config validation failed: ", Some(error)),
        };
        proof {
            reveal_strlit("");
        }
        let mut r = head.to_owned();
        if let Some(t) = tail {
            push_str(&mut r, t.as_str());
        }
        assert(r@ =~= config_error_text(*self));
        r
    }
}

// ---------------------------------------------------------------------------
// KDL values.
// ---------------------------------------------------------------------------

/// A KDL value. A float is carried as the text that Rust prints for it.
#[derive(Debug, Clone)]
pub enum KdlValue {
    String(String),
    Integer(i128),
    Float(String),
    Bool(bool),
    Null,
}

impl KdlValue {
    /// A copy of the value.
    pub fn duplicate(&self) -> (r: KdlValue)
        ensures
            r == *self,
    {
        match self {
            KdlValue::String(s) => KdlValue::String(s.clone()),
            KdlValue::Integer(i) => KdlValue::Integer(*i),
            KdlValue::Float(f) => KdlValue::Float(f.clone()),
            KdlValue::Bool(b) => KdlValue::Bool(*b),
            KdlValue::Null => KdlValue::Null,
        }
    }
}

/// An entry of a KDL node: an argument (no name) or a property, with its value and span.
#[derive(Debug, Clone)]
pub struct KdlEntry {
    pub name: Option<String>,
    pub value: KdlValue,
    pub span: SourceSpan,
}

/// A KDL node: its name, its entries, its children block when it has one, and its span.
#[derive(Debug)]
pub struct KdlNode {
    pub name: String,
    pub entries: Vec<KdlEntry>,
    pub children: Option<Vec<KdlNode>>,
    pub span: SourceSpan,
}

/// The error for a value of the wrong type, without a span.
pub open spec fn is_bare_wrong_type(e: ConfigError) -> bool {
    e matches ConfigError::WrongType { span: None, src: None }
}

/// A text setting read from a value: a string as it is; a boolean, a float or an integer
/// as its text; anything else is of the wrong type.
pub open spec fn string_value_spec(v: KdlValue) -> Option<Seq<char>> {
    match v {
        KdlValue::String(s) => Some(s@),
        KdlValue::Bool(b) => Some(if b { "true"@ } else { "false"@ }),
        KdlValue::Float(f) => Some(f@),
        KdlValue::Integer(i) => Some(signed_decimal(i as int)),
        KdlValue::Null => None,
    }
}

/// A text setting read from a value.
pub fn string_from_kdl(v: &KdlValue) -> (r: Result<String, ConfigError>)
    ensures
        string_value_spec(*v) matches Some(s) ==> (r matches Ok(t) && t@ == s),
        string_value_spec(*v) is None ==> (r matches Err(e) && is_bare_wrong_type(e)),
{
    match v {
        KdlValue::String(s) => Ok(s.clone()),
        KdlValue::Bool(b) => Ok(if *b { "true".to_owned() } else { "false".to_owned() }),
        KdlValue::Float(f) => Ok(f.clone()),
        KdlValue::Integer(i) => Ok(signed_decimal_string(*i)),
        KdlValue::Null => Err(ConfigError::wrong_type(None)),
    }
}

/// A text setting written as a value.
pub fn string_to_kdl(s: &String) -> (v: KdlValue)
    ensures
        v matches KdlValue::String(t) && t@ == s@,
{
    KdlValue::String(s.clone())
}

/// A boolean setting read from a value: only a boolean will do.
pub fn bool_from_kdl(v: &KdlValue) -> (r: Result<bool, ConfigError>)
    ensures
        *v matches KdlValue::Bool(b) ==> (r matches Ok(c) && c == b),
        !(v is Bool) ==> (r matches Err(e) && is_bare_wrong_type(e)),
{
    match v {
        KdlValue::Bool(b) => Ok(*b),
        _ => Err(ConfigError::wrong_type(None)),
    }
}

/// The integer types that settings use.
#[derive(Debug, Clone, Copy, PartialEq, Eq, Structural)]
pub enum IntKind {
    I8,
    I16,
    I32,
    I64,
    I128,
    U8,
    U16,
    U32,
    U64,
    U128,
}

/// The range of an integer type, as far as a KDL integer reaches it.
pub open spec fn int_range(k: IntKind) -> (int, int) {
    match k {
        IntKind::I8 => (i8::MIN as int, i8::MAX as int),
        IntKind::I16 => (i16::MIN as int, i16::MAX as int),
        IntKind::I32 => (i32::MIN as int, i32::MAX as int),
        IntKind::I64 => (i64::MIN as int, i64::MAX as int),
        IntKind::I128 => (i128::MIN as int, i128::MAX as int),
        IntKind::U8 => (0, u8::MAX as int),
        IntKind::U16 => (0, u16::MAX as int),
        IntKind::U32 => (0, u32::MAX as int),
        IntKind::U64 => (0, u64::MAX as int),
        IntKind::U128 => (0, i128::MAX as int),
    }
}

fn range_of(k: IntKind) -> (r: (i128, i128))
    ensures
        r.0 as int == int_range(k).0 && r.1 as int == int_range(k).1,
{
    match k {
        IntKind::I8 => (i8::MIN as i128, i8::MAX as i128),
        IntKind::I16 => (i16::MIN as i128, i16::MAX as i128),
        IntKind::I32 => (i32::MIN as i128, i32::MAX as i128),
        IntKind::I64 => (i64::MIN as i128, i64::MAX as i128),
        IntKind::I128 => (i128::MIN, i128::MAX),
        IntKind::U8 => (0, u8::MAX as i128),
        IntKind::U16 => (0, u16::MAX as i128),
        IntKind::U32 => (0, u32::MAX as i128),
        IntKind::U64 => (0, u64::MAX as i128),
        IntKind::U128 => (0, i128::MAX),
    }
}

/// An integer setting read from a value: an integer in the type's range; an integer
/// outside it is out of range, any other value of the wrong type.
pub fn integer_from_kdl(v: &KdlValue, kind: IntKind) -> (r: Result<i128, ConfigError>)
    ensures
        *v matches KdlValue::Integer(i) ==> if int_range(kind).0 <= i <= int_range(kind).1 {
            r matches Ok(j) && j == i
        } else {
            r matches Err(ConfigError::OutOfRange { span: None, src: None })
        },
        !(v is Integer) ==> (r matches Err(e) && is_bare_wrong_type(e)),
{
    match v {
        KdlValue::Integer(i) => {
            let (lo, hi) = range_of(kind);
            if lo <= *i && *i <= hi {
                Ok(*i)
            } else {
                Err(ConfigError::out_of_range(None))
            }
        },
        _ => Err(ConfigError::wrong_type(None)),
    }
}

/// An unsigned 128-bit setting written as a KDL integer; values beyond the largest KDL
/// integer are written as that.
pub fn u128_to_kdl(n: u128) -> (v: KdlValue)
    ensures
        v matches KdlValue::Integer(i) && i as int == if n <= i128::MAX { n as int } else { i128::MAX as int },
{
    if n <= i128::MAX as u128 { KdlValue::Integer(n as i128) } else { KdlValue::Integer(i128::MAX) }
}

/// The value of a node that holds exactly one argument and no children.
pub open spec fn single_value(node: KdlNode) -> Option<KdlValue> {
    if node.children is None && node.entries@.len() == 1 && node.entries@[0].name is None {
        Some(node.entries@[0].value)
    } else {
        None
    }
}

/// The one value of a node that holds a single setting: a node with children, without
/// an argument, with more than one entry, or whose entry is a property, is refused.
pub fn node_value(node: &KdlNode) -> (r: Result<KdlValue, ConfigError>)
    ensures
        node.children is Some ==> (r matches Err(ConfigError::WrongTypeExpected { span: None, src: None, expected })
            && expected@ == "no children"@),
        node.children is None && node.entries@.len() == 0 ==> (r matches Err(ConfigError::MissingField { name, span: None, src: None })
            && name@ == "value"@),
        node.children is None && node.entries@.len() > 1 ==> (r matches Err(ConfigError::WrongTypeExpected { span: None, src: None, expected })
            && expected@ == "one argument"@),
        node.children is None && node.entries@.len() == 1 && node.entries@[0].name is Some ==> (r matches Err(ConfigError::WrongTypeExpected { span, src: None, expected })
            && expected@ == "argument"@ && span == Some(node.entries@[0].span)),
        single_value(*node) matches Some(v) ==> (r matches Ok(w) && w == v),
        single_value(*node) is None ==> r is Err,
{
    if node.children.is_some() {
        return Err(ConfigError::wrong_type(None).expected("no children".to_owned()));
    }
    if node.entries.len() == 0 {
        return Err(ConfigError::missing_field("value".to_owned(), None));
    }
    if node.entries.len() > 1 {
        return Err(ConfigError::wrong_type(None).expected("one argument".to_owned()));
    }
    let entry = &node.entries[0];
    if entry.name.is_some() {
        return Err(ConfigError::wrong_type(Some(entry.span)).expected("argument".to_owned()));
    }
    Ok(entry.value.duplicate())
}

/// Writes a setting into its node: the node holds exactly the value as its one argument,
/// at the given span, and no children; an absent optional setting is written as `null`.
pub fn set_node_value(node: &mut KdlNode, value: Option<KdlValue>, span: SourceSpan)
    ensures
        final(node).children is None,
        final(node).entries@.len() == 1,
        final(node).entries@[0].name is None,
        final(node).entries@[0].span == span,
        value matches Some(v) ==> final(node).entries@[0].value == v,
        value is None ==> final(node).entries@[0].value is Null,
        single_value(*final(node)) == Some(match value { Some(v) => v, None => KdlValue::Null }),
{
    node.entries.clear();
    let v = match value {
        Some(v) => v,
        None => KdlValue::Null,
    };
    node.entries.push(KdlEntry { name: None, value: v, span });
    node.children = None;
}

// ---------------------------------------------------------------------------
// Times and URLs.
// ---------------------------------------------------------------------------

/// What jiff's `civil::Time` parser gives for a text: the hour, minute, second and
/// nanosecond, or the message of its error.
pub uninterp spec fn jiff_time_parse(text: Seq<char>) -> Result<(i8, i8, i8, i32), Seq<char>>;

/// jiff's `civil::Time::from_str`, with the time read out by its accessors, or the
/// error's message. Which texts parse, and to what, is jiff's and only named here; jiff's
/// times have their components in range.
#[verifier::external_body]
fn parse_civil_time(text: &str) -> (r: Result<CivilTime, String>)
    ensures
        jiff_time_parse(text@) == match r {
            Ok(t) => Ok((t.hour, t.minute, t.second, t.subsec_nanosecond)),
            Err(e) => Err(e@),
        },
        r matches Ok(t) ==> t.wf(),
{
    match text.parse::<jiff::civil::Time>() {
        Ok(t) => Ok(CivilTime { hour: t.hour(), minute: t.minute(), second: t.second(), subsec_nanosecond: t.subsec_nanosecond() }),
        Err(e) => Err(e.to_string()),
    }
}

/// A time setting read from a value: a string that jiff parses as a time of day; any
/// other string is an invalid time, any other value of the wrong type.
pub fn time_from_kdl(v: &KdlValue) -> (r: Result<CivilTime, ConfigError>)
    ensures
        *v matches KdlValue::String(s) ==> match jiff_time_parse(s@) {
            Ok((h, m, sec, n)) => r matches Ok(t) && t.wf() && t.hour == h && t.minute == m && t.second == sec
                && t.subsec_nanosecond == n,
            Err(msg) => r matches Err(ConfigError::InvalidDateTime { error, src: None, span: None }) && error@ == msg,
        },
        !(v is String) ==> (r matches Err(e) && is_bare_wrong_type(e)),
{
    match v {
        KdlValue::String(s) => match parse_civil_time(s.as_str()) {
            Ok(t) => Ok(t),
            Err(e) => Err(ConfigError::InvalidDateTime { error: e, src: None, span: None }),
        },
        _ => Err(ConfigError::wrong_type(None)),
    }
}

/// The nine digits of a nanosecond count, without the zeros that end them.
pub open spec fn fraction_digits(n: nat) -> Seq<char>
    decreases n,
{
    nine_digits(n).take(significant_len(nine_digits(n)) as int)
}

/// Nine decimal digits of a number below a billion, with leading zeros.
pub open spec fn nine_digits(n: nat) -> Seq<char> {
    let d = decimal(n);
    Seq::new((9 - d.len()) as nat, |i: int| '0') + d
}

/// The length of a digit string without its trailing zeros.
pub open spec fn significant_len(s: Seq<char>) -> nat
    decreases s.len(),
{
    if s.len() == 0 {
        0
    } else if s.last() == '0' {
        significant_len(s.drop_last())
    } else {
        s.len()
    }
}

/// jiff's text of a time of day (its `Display`, which its `Debug` uses): `HH:MM:SS`, and,
/// when the second has a fraction, a dot and the digits of the fraction as far as they
/// are not zero.
pub open spec fn jiff_time_text(t: CivilTime) -> Seq<char> {
    two_digits(t.hour as int) + seq![':'] + two_digits(t.minute as int) + seq![':'] + two_digits(t.second as int)
        + if t.subsec_nanosecond == 0 { Seq::empty() } else { seq!['.'] + fraction_digits(t.subsec_nanosecond as nat) }
}

/// jiff's `Debug` of a `civil::Time`. jiff documents it as the ISO 8601 time, with the
/// fraction of a second in the fewest digits that keep it exact and left out when zero.
#[verifier::external_body]
fn debug_time(t: &CivilTime) -> (s: String)
    requires
        t.wf(),
    ensures
        s@ == jiff_time_text(*t),
{
    match jiff::civil::Time::new(t.hour, t.minute, t.second, t.subsec_nanosecond) {
        Ok(time) => format!("{time:?}"),
        Err(_) => String::new(),
    }
}

/// A time setting written as a value: `HH:MM` when it falls on a full minute, else the
/// time with its seconds.
pub fn time_to_kdl(t: &CivilTime) -> (v: KdlValue)
    requires
        t.wf(),
    ensures
        v matches KdlValue::String(s) && s@ == if t.second == 0 {
            crate::config::hour_minute_text(*t)
        } else {
            jiff_time_text(*t)
        },
{
    if t.second == 0 {
        KdlValue::String(crate::config::format_hour_minute(t))
    } else {
        KdlValue::String(debug_time(t))
    }
}

/// What the url crate gives for a text: the URL's serialization, or the message of its
/// parse error.
pub uninterp spec fn url_serialization(text: Seq<char>) -> Result<Seq<char>, Seq<char>>;

/// url's `Url::parse`, with the URL written back out (`to_string`) or the error's message.
/// Which texts parse, and how they are normalized, is the url crate's and only named here.
#[verifier::external_body]
fn serialize_url(text: &str) -> (r: Result<String, String>)
    ensures
        url_serialization(text@) == match r {
            Ok(u) => Ok(u@),
            Err(e) => Err(e@),
        },
{
    match url::Url::parse(text) {
        Ok(u) => Ok(u.to_string()),
        Err(e) => Err(e.to_string()),
    }
}

/// A URL setting read from a value: a string that parses as a URL, kept in its
/// serialized form; any other string is an invalid URL, any other value of the wrong type.
pub fn url_from_kdl(v: &KdlValue) -> (r: Result<String, ConfigError>)
    ensures
        *v matches KdlValue::String(s) ==> match url_serialization(s@) {
            Ok(u) => r matches Ok(t) && t@ == u,
            Err(msg) => r matches Err(ConfigError::InvalidUrl { error, src: None, span: None }) && error@ == msg,
        },
        !(v is String) ==> (r matches Err(e) && is_bare_wrong_type(e)),
{
    match v {
        KdlValue::String(s) => match serialize_url(s.as_str()) {
            Ok(u) => Ok(u),
            Err(e) => Err(ConfigError::InvalidUrl { error: e, src: None, span: None }),
        },
        _ => Err(ConfigError::wrong_type(None)),
    }
}

/// A duration setting read from a value: a string that jiff parses as a signed duration,
/// as its whole seconds and nanosecond fraction; any other string is an invalid
/// date/time, any other value of the wrong type.
pub fn signed_duration_from_kdl(v: &KdlValue) -> (r: Result<(i64, i32), ConfigError>)
    ensures
        *v matches KdlValue::String(s) ==> match jiff_signed_duration_parse(s@) {
            Ok(d) => r matches Ok(e) && e == d,
            Err(msg) => r matches Err(ConfigError::InvalidDateTime { error, src: None, span: None }) && error@ == msg,
        },
        !(v is String) ==> (r matches Err(e) && is_bare_wrong_type(e)),
{
    match v {
        KdlValue::String(s) => match parse_signed_duration(s.as_str()) {
            Ok(d) => Ok(d),
            Err(e) => Err(ConfigError::InvalidDateTime { error: e, src: None, span: None }),
        },
        _ => Err(ConfigError::wrong_type(None)),
    }
}

} // verus!
