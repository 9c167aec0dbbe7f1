use vstd::prelude::*;

use crate::config::{CivilTime, LauncherProvider, LauncherTypoSearch, SystemMenuWidgets};
use crate::config_value::{
    integer_from_kdl, int_range, node_value, string_from_kdl, string_value_spec, time_from_kdl, url_from_kdl,
    with_span_view, ConfigError, ErrorView, IntKind, KdlEntry, KdlNode, KdlValue, SourceSpan, err_view, is_error,
};
use crate::config_value::{jiff_time_parse, url_serialization};
use crate::text::{signed_decimal, signed_decimal_string, str_eq};
use kdl::KdlNode as KdlTreeNode;
use kdl::KdlValue as KdlTreeValue;

verus! {

// ---------------------------------------------------------------------------
// An integer read as a float setting.
// ---------------------------------------------------------------------------

// ---------------------------------------------------------------------------
// The configuration as plain values.
// ---------------------------------------------------------------------------

/// A nightlight preset as plain values.
pub struct SettingView {
    pub temperature: u32,
    pub brightness: Seq<char>,
}

/// The nightlight settings as plain values.
pub struct NightlightView {
    pub enabled: bool,
    pub use_location: bool,
    pub dawn: Option<CivilTime>,
    pub dusk: Option<CivilTime>,
    pub day: SettingView,
    pub night: SettingView,
    pub debounce_ms: u64,
}

/// The Homeassistant settings as plain values.
pub struct HomeassistantView {
    pub enabled: bool,
    pub url: Option<Seq<char>>,
    pub tracked_devices: Seq<Seq<char>>,
}

/// The Spotify settings as plain values.
pub struct SpotifyView {
    pub enabled: bool,
    pub client_id: Seq<char>,
}

/// The launcher settings as plain values.
pub struct LauncherView {
    pub providers: Seq<LauncherProvider>,
    pub fuzzy_search: LauncherTypoSearch,
}

/// The whole configuration as plain values.
pub struct ConfigView {
    pub nightlight: NightlightView,
    pub homeassistant: HomeassistantView,
    pub spotify: SpotifyView,
    pub widgets: Seq<SystemMenuWidgets>,
    pub launcher: LauncherView,
    pub indexing_enabled: bool,
}

// ---------------------------------------------------------------------------
// Reading single settings from a child node.
// ---------------------------------------------------------------------------

/// The first argument (entry without a name) among entries.
pub open spec fn first_arg(es: Seq<KdlEntry>) -> Option<KdlValue>
    decreases es.len(),
{
    if es.len() == 0 {
        None
    } else if es[0].name is None {
        Some(es[0].value)
    } else {
        first_arg(es.skip(1))
    }
}

fn first_arg_of(es: &Vec<KdlEntry>) -> (r: Option<KdlValue>)
    ensures
        r == first_arg(es@),
{
    let mut i: usize = 0;
    assert(es@.skip(0) =~= es@);
    while i < es.len()
        invariant
            i <= es@.len(),
            first_arg(es@.skip(i as int)) == first_arg(es@),
        decreases es@.len() - i,
    {
        assert(es@.skip(i as int)[0] == es@[i as int]);
        assert(es@.skip(i as int).skip(1) =~= es@.skip(i + 1));
        if es[i].name.is_none() {
            return Some(es[i].value.duplicate());
        }
        i = i + 1;
    }
    assert(es@.skip(i as int).len() == 0);
    None
}

/// A switch: no argument means on, one boolean argument gives its value; a property,
/// another value, more arguments or a children block are of the wrong type.
pub open spec fn bool_child_spec(c: KdlNode) -> Result<bool, ErrorView> {
    let es = c.entries@;
    let v = if es.len() == 0 {
        Ok(true)
    } else if es.len() == 1 {
        if es[0].name is Some {
            Err(ErrorView::WrongType(Some(c.span)))
        } else {
            match es[0].value {
                KdlValue::Bool(b) => Ok(b),
                _ => Err(ErrorView::WrongType(Some(c.span))),
            }
        }
    } else {
        Err(ErrorView::WrongType(Some(c.span)))
    };
    match v {
        Ok(b) => if c.children is Some { Err(ErrorView::WrongType(Some(c.span))) } else { Ok(b) },
        Err(e) => Err(e),
    }
}

fn bool_child(c: &KdlNode) -> (r: Result<bool, ConfigError>)
    ensures
        match r {
            Ok(b) => bool_child_spec(*c) == Ok::<bool, ErrorView>(b),
            Err(e) => bool_child_spec(*c) == Err::<bool, ErrorView>(err_view(e).0) && err_view(e).1 is None,
        },
{
    let n = c.entries.len();
    let v = if n == 0 {
        true
    } else if n == 1 {
        if c.entries[0].name.is_some() {
            return Err(ConfigError::wrong_type(Some(c.span)));
        }
        match &c.entries[0].value {
            KdlValue::Bool(b) => *b,
            _ => {
                return Err(ConfigError::wrong_type(Some(c.span)));
            },
        }
    } else {
        return Err(ConfigError::wrong_type(Some(c.span)));
    };
    if c.children.is_some() {
        return Err(ConfigError::wrong_type(Some(c.span)));
    }
    Ok(v)
}

/// An integer setting: the first argument, an integer within the type's range; without
/// an argument the field is missing.
pub open spec fn int_child_spec(c: KdlNode, field: Seq<char>, kind: IntKind) -> Result<int, ErrorView> {
    match first_arg(c.entries@) {
        None => Err(ErrorView::MissingField(field, Some(c.span))),
        Some(KdlValue::Integer(i)) => if int_range(kind).0 <= i <= int_range(kind).1 {
            Ok(i as int)
        } else {
            Err(ErrorView::OutOfRange(None))
        },
        Some(_) => Err(ErrorView::WrongType(None)),
    }
}

fn int_child(c: &KdlNode, field: &str, kind: IntKind) -> (r: Result<i128, ConfigError>)
    ensures
        match r {
            Ok(i) => int_child_spec(*c, field@, kind) == Ok::<int, ErrorView>(i as int),
            Err(e) => int_child_spec(*c, field@, kind) == Err::<int, ErrorView>(err_view(e).0) && err_view(e).1 is None,
        },
{
    match first_arg_of(&c.entries) {
        None => Err(ConfigError::missing_field(field.to_owned(), Some(c.span))),
        Some(v) => integer_from_kdl(&v, kind),
    }
}

/// A text setting: the first argument read as text; without an argument the field is
/// missing.
pub open spec fn string_child_spec(c: KdlNode, field: Seq<char>) -> Result<Seq<char>, ErrorView> {
    match first_arg(c.entries@) {
        None => Err(ErrorView::MissingField(field, Some(c.span))),
        Some(v) => match string_value_spec(v) {
            Some(s) => Ok(s),
            None => Err(ErrorView::WrongType(None)),
        },
    }
}

fn string_child(c: &KdlNode, field: &str) -> (r: Result<String, ConfigError>)
    ensures
        match r {
            Ok(s) => string_child_spec(*c, field@) == Ok::<Seq<char>, ErrorView>(s@),
            Err(e) => string_child_spec(*c, field@) == Err::<Seq<char>, ErrorView>(err_view(e).0) && err_view(e).1 is None,
        },
{
    match first_arg_of(&c.entries) {
        None => Err(ConfigError::missing_field(field.to_owned(), Some(c.span))),
        Some(v) => string_from_kdl(&v),
    }
}

/// A float setting, as the text Rust prints for it: the first argument, a float or an
/// integer (an integer as its decimal digits, which is Rust's text for it as a float up
/// to 2^53 in size; beyond that a float rounds it, and floats stay out of this library);
/// without an argument the field is missing.
pub open spec fn float_child_spec(c: KdlNode, field: Seq<char>) -> Result<Seq<char>, ErrorView> {
    match first_arg(c.entries@) {
        None => Err(ErrorView::MissingField(field, Some(c.span))),
        Some(KdlValue::Float(f)) => Ok(f@),
        Some(KdlValue::Integer(i)) => Ok(signed_decimal(i as int)),
        Some(_) => Err(ErrorView::WrongType(None)),
    }
}

fn float_child(c: &KdlNode, field: &str) -> (r: Result<String, ConfigError>)
    ensures
        match r {
            Ok(s) => float_child_spec(*c, field@) == Ok::<Seq<char>, ErrorView>(s@),
            Err(e) => float_child_spec(*c, field@) == Err::<Seq<char>, ErrorView>(err_view(e).0) && err_view(e).1 is None,
        },
{
    match first_arg_of(&c.entries) {
        None => Err(ConfigError::missing_field(field.to_owned(), Some(c.span))),
        Some(KdlValue::Float(f)) => Ok(f),
        Some(KdlValue::Integer(i)) => Ok(signed_decimal_string(i)),
        Some(_) => Err(ConfigError::wrong_type(None)),
    }
}

/// A node that holds nothing but `null`.
pub open spec fn is_null_node(c: KdlNode) -> bool {
    c.entries@.len() == 1 && c.entries@[0].name is None && c.entries@[0].value is Null && c.children is None
}

fn null_node(c: &KdlNode) -> (r: bool)
    ensures
        r == is_null_node(*c),
{
    c.entries.len() == 1 && c.entries[0].name.is_none() && matches!(c.entries[0].value, KdlValue::Null)
        && c.children.is_none()
}

/// The one value of a node that holds a single setting (see `node_value`).
pub open spec fn node_value_spec(n: KdlNode) -> Result<KdlValue, ErrorView> {
    if n.children is Some {
        Err(ErrorView::WrongTypeExpected("no children"@, None))
    } else if n.entries@.len() == 0 {
        Err(ErrorView::MissingField("value"@, None))
    } else if n.entries@.len() > 1 {
        Err(ErrorView::WrongTypeExpected("one argument"@, None))
    } else if n.entries@[0].name is Some {
        Err(ErrorView::WrongTypeExpected("argument"@, Some(n.entries@[0].span)))
    } else {
        Ok(n.entries@[0].value)
    }
}

/// An optional time setting: `null` is none; otherwise the node's one value, a string
/// that jiff reads as a time; errors take the node's span.
pub open spec fn time_child_spec(c: KdlNode) -> Result<Option<CivilTime>, ErrorView> {
    if is_null_node(c) {
        Ok(None)
    } else {
        let r = match node_value_spec(c) {
            Err(e) => Err(e),
            Ok(KdlValue::String(s)) => match jiff_time_parse(s@) {
                Ok((h, m, sec, n)) => Ok(CivilTime { hour: h, minute: m, second: sec, subsec_nanosecond: n }),
                Err(msg) => Err(ErrorView::InvalidDateTime(msg, None)),
            },
            Ok(_) => Err(ErrorView::WrongType(None)),
        };
        match r {
            Ok(t) => Ok(Some(t)),
            Err(e) => Err(with_span_view(e, c.span)),
        }
    }
}

fn time_child(c: &KdlNode) -> (r: Result<Option<CivilTime>, ConfigError>)
    ensures
        match r {
            Ok(t) => time_child_spec(*c) == Ok::<Option<CivilTime>, ErrorView>(t) && (t matches Some(x) ==> x.wf()),
            Err(e) => time_child_spec(*c) == Err::<Option<CivilTime>, ErrorView>(err_view(e).0) && err_view(e).1 is None,
        },
{
    if null_node(c) {
        return Ok(None);
    }
    let v = match node_value(c) {
        Ok(v) => v,
        Err(e) => {
            return Err(e.with_span_no_overwrite(c.span));
        },
    };
    match time_from_kdl(&v) {
        Ok(t) => Ok(Some(t)),
        Err(e) => Err(e.with_span_no_overwrite(c.span)),
    }
}

/// An optional URL setting: `null` is none; otherwise the node's one value, a string
/// that the url crate reads, in its serialized form; errors take the node's span.
pub open spec fn url_child_spec(c: KdlNode) -> Result<Option<Seq<char>>, ErrorView> {
    if is_null_node(c) {
        Ok(None)
    } else {
        let r = match node_value_spec(c) {
            Err(e) => Err(e),
            Ok(KdlValue::String(s)) => match url_serialization(s@) {
                Ok(u) => Ok(u),
                Err(msg) => Err(ErrorView::InvalidUrl(msg, None)),
            },
            Ok(_) => Err(ErrorView::WrongType(None)),
        };
        match r {
            Ok(u) => Ok(Some(u)),
            Err(e) => Err(with_span_view(e, c.span)),
        }
    }
}

fn url_child(c: &KdlNode) -> (r: Result<Option<String>, ConfigError>)
    ensures
        match r {
            Ok(u) => url_child_spec(*c) == Ok::<Option<Seq<char>>, ErrorView>(match u { Some(x) => Some(x@), None => None }),
            Err(e) => url_child_spec(*c) == Err::<Option<Seq<char>>, ErrorView>(err_view(e).0) && err_view(e).1 is None,
        },
{
    if null_node(c) {
        return Ok(None);
    }
    let v = match node_value(c) {
        Ok(v) => v,
        Err(e) => {
            return Err(e.with_span_no_overwrite(c.span));
        },
    };
    match url_from_kdl(&v) {
        Ok(u) => Ok(Some(u)),
        Err(e) => Err(e.with_span_no_overwrite(c.span)),
    }
}

// ---------------------------------------------------------------------------
// Lists and named values.
// ---------------------------------------------------------------------------

/// A system menu widget named by a string.
pub open spec fn widget_spec(v: KdlValue) -> Result<SystemMenuWidgets, ErrorView> {
    let err = Err(ErrorView::WrongTypeExpected("wifi, bluetooth, speaker, microphone, vpn, nightlight"@, None));
    match v {
        KdlValue::String(s) => if s@ == "wifi"@ {
            Ok(SystemMenuWidgets::Wifi)
        } else if s@ == "bluetooth"@ {
            Ok(SystemMenuWidgets::Bluetooth)
        } else if s@ == "speaker"@ {
            Ok(SystemMenuWidgets::Speaker)
        } else if s@ == "microphone"@ {
            Ok(SystemMenuWidgets::Microphone)
        } else if s@ == "vpn"@ {
            Ok(SystemMenuWidgets::Vpn)
        } else if s@ == "nightlight"@ {
            Ok(SystemMenuWidgets::Nightlight)
        } else {
            err
        },
        _ => err,
    }
}

fn widget_of(v: &KdlValue) -> (r: Result<SystemMenuWidgets, ConfigError>)
    ensures
        match r {
            Ok(w) => widget_spec(*v) == Ok::<SystemMenuWidgets, ErrorView>(w),
            Err(e) => widget_spec(*v) == Err::<SystemMenuWidgets, ErrorView>(err_view(e).0) && err_view(e).1 is None,
        },
{
    let err = ConfigError::wrong_type(None).expected("wifi, bluetooth, speaker, microphone, vpn, nightlight".to_owned());
    match v {
        KdlValue::String(s) => {
            let s = s.as_str();
            if str_eq(s, "wifi") {
                Ok(SystemMenuWidgets::Wifi)
            } else if str_eq(s, "bluetooth") {
                Ok(SystemMenuWidgets::Bluetooth)
            } else if str_eq(s, "speaker") {
                Ok(SystemMenuWidgets::Speaker)
            } else if str_eq(s, "microphone") {
                Ok(SystemMenuWidgets::Microphone)
            } else if str_eq(s, "vpn") {
                Ok(SystemMenuWidgets::Vpn)
            } else if str_eq(s, "nightlight") {
                Ok(SystemMenuWidgets::Nightlight)
            } else {
                Err(err)
            }
        },
        _ => Err(err),
    }
}

/// A launcher provider named by a string.
pub open spec fn provider_spec(v: KdlValue) -> Result<LauncherProvider, ErrorView> {
    let err = Err(ErrorView::WrongTypeExpected("calculator, applications, files, nix"@, None));
    match v {
        KdlValue::String(s) => if s@ == "calculator"@ {
            Ok(LauncherProvider::Calculator)
        } else if s@ == "applications"@ {
            Ok(LauncherProvider::Applications)
        } else if s@ == "files"@ {
            Ok(LauncherProvider::Files)
        } else if s@ == "nix"@ {
            Ok(LauncherProvider::Nix)
        } else {
            err
        },
        _ => err,
    }
}

fn provider_of(v: &KdlValue) -> (r: Result<LauncherProvider, ConfigError>)
    ensures
        match r {
            Ok(w) => provider_spec(*v) == Ok::<LauncherProvider, ErrorView>(w),
            Err(e) => provider_spec(*v) == Err::<LauncherProvider, ErrorView>(err_view(e).0) && err_view(e).1 is None,
        },
{
    let err = ConfigError::wrong_type(None).expected("calculator, applications, files, nix".to_owned());
    match v {
        KdlValue::String(s) => {
            let s = s.as_str();
            if str_eq(s, "calculator") {
                Ok(LauncherProvider::Calculator)
            } else if str_eq(s, "applications") {
                Ok(LauncherProvider::Applications)
            } else if str_eq(s, "files") {
                Ok(LauncherProvider::Files)
            } else if str_eq(s, "nix") {
                Ok(LauncherProvider::Nix)
            } else {
                Err(err)
            }
        },
        _ => Err(err),
    }
}

/// A text read from a value, as a list item.
pub open spec fn text_spec(v: KdlValue) -> Result<Seq<char>, ErrorView> {
    match string_value_spec(v) {
        Some(s) => Ok(s),
        None => Err(ErrorView::WrongType(None)),
    }
}

/// One item of a list setting, before its value is read.
pub enum ListItem {
    /// A value, with the span its errors take.
    Value(KdlValue, SourceSpan),
    /// An item of the wrong shape, at the span given.
    Wrong(SourceSpan),
    /// A child that is not `-`, with its name and span.
    Unknown(String, SourceSpan),
}

/// A list item as plain values: the value and its span, or the error.
pub open spec fn item_view(i: ListItem) -> Result<(KdlValue, SourceSpan), ErrorView> {
    match i {
        ListItem::Value(v, s) => Ok((v, s)),
        ListItem::Wrong(s) => Err(ErrorView::WrongType(Some(s))),
        ListItem::Unknown(n, s) => Err(ErrorView::UnknownField(n@, Some(s))),
    }
}

/// An argument of a list node as an item: a property is of the wrong type.
pub open spec fn entry_item(c: KdlNode, e: KdlEntry) -> Result<(KdlValue, SourceSpan), ErrorView> {
    if e.name is Some {
        Err(ErrorView::WrongType(Some(c.span)))
    } else {
        Ok((e.value, e.span))
    }
}

/// A child of a list node as an item: it must be `-` with exactly one argument and no
/// children.
pub open spec fn dash_item(d: KdlNode) -> Result<(KdlValue, SourceSpan), ErrorView> {
    if d.name@ != "-"@ {
        Err(ErrorView::UnknownField(d.name@, Some(d.span)))
    } else if d.entries@.len() != 1 {
        Err(ErrorView::WrongType(Some(d.span)))
    } else if d.entries@[0].name is Some || d.children is Some {
        Err(ErrorView::WrongType(Some(d.span)))
    } else {
        Ok((d.entries@[0].value, d.entries@[0].span))
    }
}

/// The children of a node (none without a children block).
pub open spec fn children_of(c: KdlNode) -> Seq<KdlNode> {
    match c.children {
        Some(ch) => ch@,
        None => Seq::empty(),
    }
}

/// The items of a list setting: its arguments, then its `-` children.
pub open spec fn list_items(c: KdlNode) -> Seq<Result<(KdlValue, SourceSpan), ErrorView>> {
    c.entries@.map_values(|e: KdlEntry| entry_item(c, e)) + children_of(c).map_values(|d: KdlNode| dash_item(d))
}

fn list_items_of(c: &KdlNode) -> (r: Vec<ListItem>)
    ensures
        r@.map_values(|i: ListItem| item_view(i)) == list_items(*c),
{
    let mut r: Vec<ListItem> = Vec::new();
    let mut i: usize = 0;
    while i < c.entries.len()
        invariant
            i <= c.entries@.len(),
            r@.map_values(|i: ListItem| item_view(i)) == c.entries@.take(i as int).map_values(|e: KdlEntry| entry_item(*c, e)),
        decreases c.entries@.len() - i,
    {
        let ghost before = r@.map_values(|i: ListItem| item_view(i));
        let e = &c.entries[i];
        let item = if e.name.is_some() { ListItem::Wrong(c.span) } else { ListItem::Value(e.value.duplicate(), e.span) };
        r.push(item);
        assert(r@.map_values(|i: ListItem| item_view(i)) =~= before.push(entry_item(*c, c.entries@[i as int])));
        assert(c.entries@.take(i + 1).map_values(|e: KdlEntry| entry_item(*c, e))
            =~= c.entries@.take(i as int).map_values(|e: KdlEntry| entry_item(*c, e)).push(entry_item(*c, c.entries@[i as int])));
        i = i + 1;
    }
    assert(c.entries@.take(c.entries@.len() as int) =~= c.entries@);
    let ghost head = r@.map_values(|i: ListItem| item_view(i));
    match &c.children {
        None => {
            assert(list_items(*c) =~= head);
        },
        Some(ch) => {
            let mut j: usize = 0;
            while j < ch.len()
                invariant
                    j <= ch@.len(),
                    r@.map_values(|i: ListItem| item_view(i)) == head + ch@.take(j as int).map_values(|d: KdlNode| dash_item(d)),
                decreases ch@.len() - j,
            {
                let ghost before = r@.map_values(|i: ListItem| item_view(i));
                let d = &ch[j];
                let item = if !str_eq(d.name.as_str(), "-") {
                    ListItem::Unknown(d.name.clone(), d.span)
                } else if d.entries.len() != 1 {
                    ListItem::Wrong(d.span)
                } else if d.entries[0].name.is_some() || d.children.is_some() {
                    ListItem::Wrong(d.span)
                } else {
                    ListItem::Value(d.entries[0].value.duplicate(), d.entries[0].span)
                };
                r.push(item);
                assert(r@.map_values(|i: ListItem| item_view(i)) =~= before.push(dash_item(ch@[j as int])));
                assert(ch@.take(j + 1).map_values(|d: KdlNode| dash_item(d))
                    =~= ch@.take(j as int).map_values(|d: KdlNode| dash_item(d)).push(dash_item(ch@[j as int])));
                j = j + 1;
            }
            assert(ch@.take(ch@.len() as int) =~= ch@);
            assert(list_items(*c) =~= r@.map_values(|i: ListItem| item_view(i)));
        },
    }
    r
}

/// The values of list items read in turn; the first error stops, taking the span of its
/// item when it has none.
pub open spec fn decode_items<T>(items: Seq<Result<(KdlValue, SourceSpan), ErrorView>>, dec: spec_fn(KdlValue) -> Result<T, ErrorView>) -> Result<Seq<T>, ErrorView>
    decreases items.len(),
{
    if items.len() == 0 {
        Ok(Seq::empty())
    } else {
        match decode_items(items.drop_last(), dec) {
            Err(e) => Err(e),
            Ok(v) => match items.last() {
                Err(e) => Err(e),
                Ok((x, sp)) => match dec(x) {
                    Ok(t) => Ok(v.push(t)),
                    Err(e) => Err(with_span_view(e, sp)),
                },
            },
        }
    }
}

/// Reading a list item as text.
pub open spec fn text_dec() -> spec_fn(KdlValue) -> Result<Seq<char>, ErrorView> {
    |v: KdlValue| text_spec(v)
}

/// Reading a list item as a system menu widget.
pub open spec fn widget_dec() -> spec_fn(KdlValue) -> Result<SystemMenuWidgets, ErrorView> {
    |v: KdlValue| widget_spec(v)
}

/// Reading a list item as a launcher provider.
pub open spec fn provider_dec() -> spec_fn(KdlValue) -> Result<LauncherProvider, ErrorView> {
    |v: KdlValue| provider_spec(v)
}

proof fn lemma_decode_err_sticks<T>(s: Seq<Result<(KdlValue, SourceSpan), ErrorView>>, dec: spec_fn(KdlValue) -> Result<T, ErrorView>, k: int)
    requires
        0 <= k <= s.len(),
        decode_items(s.take(k), dec) is Err,
    ensures
        decode_items(s, dec) == decode_items(s.take(k), dec),
    decreases s.len() - k,
{
    if k < s.len() {
        assert(s.take(k + 1).drop_last() =~= s.take(k));
        lemma_decode_err_sticks(s, dec, k + 1);
    } else {
        assert(s.take(k) =~= s);
    }
}

/// Strings of a list as plain values.
pub open spec fn texts(v: Seq<String>) -> Seq<Seq<char>> {
    v.map_values(|s: String| s@)
}

fn text_list(c: &KdlNode, out: &mut Vec<String>) -> (r: Result<(), ConfigError>)
    ensures
        match r {
            Ok(()) => decode_items(list_items(*c), text_dec()) == Ok::<Seq<Seq<char>>, ErrorView>(texts(final(out)@).skip(old(out)@.len() as int))
                && texts(final(out)@).take(old(out)@.len() as int) == texts(old(out)@)
                && final(out)@.len() >= old(out)@.len(),
            Err(e) => decode_items(list_items(*c), text_dec()) == Err::<Seq<Seq<char>>, ErrorView>(err_view(e).0) && err_view(e).1 is None,
        },
{
    let items = list_items_of(c);
    let ghost iv = items@.map_values(|i: ListItem| item_view(i));
    let ghost start = texts(out@);
    let n0 = out.len();
    let mut k: usize = 0;
    assert(iv.take(0) =~= Seq::<Result<(KdlValue, SourceSpan), ErrorView>>::empty());
    assert(texts(out@).skip(n0 as int) =~= Seq::<Seq<char>>::empty());
    assert(texts(out@).take(n0 as int) =~= start);
    while k < items.len()
        invariant
            k <= items@.len(),
            iv == items@.map_values(|i: ListItem| item_view(i)),
            iv == list_items(*c),
            n0 == start.len(),
            n0 <= out@.len(),
            texts(out@).take(n0 as int) == start,
            decode_items(iv.take(k as int), text_dec()) == Ok::<Seq<Seq<char>>, ErrorView>(texts(out@).skip(n0 as int)),
        decreases items@.len() - k,
    {
        assert(iv.take(k + 1).drop_last() =~= iv.take(k as int));
        assert(iv.take(k + 1).last() == item_view(items@[k as int]));
        let ghost before = out@;
        match &items[k] {
            ListItem::Wrong(sp) => {
                proof {
                    lemma_decode_err_sticks(iv, text_dec(), k + 1);
                }
                return Err(ConfigError::wrong_type(Some(*sp)));
            },
            ListItem::Unknown(n, sp) => {
                proof {
                    lemma_decode_err_sticks(iv, text_dec(), k + 1);
                }
                return Err(ConfigError::unknown_field(n.clone(), Some(*sp)));
            },
            ListItem::Value(v, sp) => {
                match string_from_kdl(v) {
                    Ok(s) => {
                        out.push(s);
                        assert(texts(out@).take(n0 as int) =~= texts(before).take(n0 as int));
                        assert(texts(out@).skip(n0 as int) =~= texts(before).skip(n0 as int).push(out@[out@.len() - 1]@));
                    },
                    Err(e) => {
                        proof {
                            lemma_decode_err_sticks(iv, text_dec(), k + 1);
                        }
                        return Err(e.with_span_no_overwrite(*sp));
                    },
                }
            },
        }
        k = k + 1;
    }
    assert(iv.take(items@.len() as int) =~= iv);
    Ok(())
}

fn widget_list(c: &KdlNode, out: &mut Vec<SystemMenuWidgets>) -> (r: Result<(), ConfigError>)
    ensures
        match r {
            Ok(()) => decode_items(list_items(*c), widget_dec()) == Ok::<Seq<SystemMenuWidgets>, ErrorView>(final(out)@.skip(old(out)@.len() as int))
                && final(out)@.take(old(out)@.len() as int) == old(out)@
                && final(out)@.len() >= old(out)@.len(),
            Err(e) => decode_items(list_items(*c), widget_dec()) == Err::<Seq<SystemMenuWidgets>, ErrorView>(err_view(e).0) && err_view(e).1 is None,
        },
{
    let items = list_items_of(c);
    let ghost iv = items@.map_values(|i: ListItem| item_view(i));
    let ghost start = out@;
    let n0 = out.len();
    let mut k: usize = 0;
    assert(iv.take(0) =~= Seq::<Result<(KdlValue, SourceSpan), ErrorView>>::empty());
    assert(out@.skip(n0 as int) =~= Seq::empty());
    assert(out@.take(n0 as int) =~= start);
    while k < items.len()
        invariant
            k <= items@.len(),
            iv == items@.map_values(|i: ListItem| item_view(i)),
            iv == list_items(*c),
            n0 == start.len(),
            n0 <= out@.len(),
            out@.take(n0 as int) == start,
            decode_items(iv.take(k as int), widget_dec()) == Ok::<Seq<SystemMenuWidgets>, ErrorView>(out@.skip(n0 as int)),
        decreases items@.len() - k,
    {
        assert(iv.take(k + 1).drop_last() =~= iv.take(k as int));
        assert(iv.take(k + 1).last() == item_view(items@[k as int]));
        let ghost before = out@;
        match &items[k] {
            ListItem::Wrong(sp) => {
                proof {
                    lemma_decode_err_sticks(iv, widget_dec(), k + 1);
                }
                return Err(ConfigError::wrong_type(Some(*sp)));
            },
            ListItem::Unknown(n, sp) => {
                proof {
                    lemma_decode_err_sticks(iv, widget_dec(), k + 1);
                }
                return Err(ConfigError::unknown_field(n.clone(), Some(*sp)));
            },
            ListItem::Value(v, sp) => {
                match widget_of(v) {
                    Ok(w) => {
                        out.push(w);
                        assert(out@.take(n0 as int) =~= before.take(n0 as int));
                        assert(out@.skip(n0 as int) =~= before.skip(n0 as int).push(w));
                    },
                    Err(e) => {
                        proof {
                            lemma_decode_err_sticks(iv, widget_dec(), k + 1);
                        }
                        return Err(e.with_span_no_overwrite(*sp));
                    },
                }
            },
        }
        k = k + 1;
    }
    assert(iv.take(items@.len() as int) =~= iv);
    Ok(())
}

fn provider_list(c: &KdlNode, out: &mut Vec<LauncherProvider>) -> (r: Result<(), ConfigError>)
    ensures
        match r {
            Ok(()) => decode_items(list_items(*c), provider_dec()) == Ok::<Seq<LauncherProvider>, ErrorView>(final(out)@.skip(old(out)@.len() as int))
                && final(out)@.take(old(out)@.len() as int) == old(out)@
                && final(out)@.len() >= old(out)@.len(),
            Err(e) => decode_items(list_items(*c), provider_dec()) == Err::<Seq<LauncherProvider>, ErrorView>(err_view(e).0) && err_view(e).1 is None,
        },
{
    let items = list_items_of(c);
    let ghost iv = items@.map_values(|i: ListItem| item_view(i));
    let ghost start = out@;
    let n0 = out.len();
    let mut k: usize = 0;
    assert(iv.take(0) =~= Seq::<Result<(KdlValue, SourceSpan), ErrorView>>::empty());
    assert(out@.skip(n0 as int) =~= Seq::empty());
    assert(out@.take(n0 as int) =~= start);
    while k < items.len()
        invariant
            k <= items@.len(),
            iv == items@.map_values(|i: ListItem| item_view(i)),
            iv == list_items(*c),
            n0 == start.len(),
            n0 <= out@.len(),
            out@.take(n0 as int) == start,
            decode_items(iv.take(k as int), provider_dec()) == Ok::<Seq<LauncherProvider>, ErrorView>(out@.skip(n0 as int)),
        decreases items@.len() - k,
    {
        assert(iv.take(k + 1).drop_last() =~= iv.take(k as int));
        assert(iv.take(k + 1).last() == item_view(items@[k as int]));
        let ghost before = out@;
        match &items[k] {
            ListItem::Wrong(sp) => {
                proof {
                    lemma_decode_err_sticks(iv, provider_dec(), k + 1);
                }
                return Err(ConfigError::wrong_type(Some(*sp)));
            },
            ListItem::Unknown(n, sp) => {
                proof {
                    lemma_decode_err_sticks(iv, provider_dec(), k + 1);
                }
                return Err(ConfigError::unknown_field(n.clone(), Some(*sp)));
            },
            ListItem::Value(v, sp) => {
                match provider_of(v) {
                    Ok(w) => {
                        out.push(w);
                        assert(out@.take(n0 as int) =~= before.take(n0 as int));
                        assert(out@.skip(n0 as int) =~= before.skip(n0 as int).push(w));
                    },
                    Err(e) => {
                        proof {
                            lemma_decode_err_sticks(iv, provider_dec(), k + 1);
                        }
                        return Err(e.with_span_no_overwrite(*sp));
                    },
                }
            },
        }
        k = k + 1;
    }
    assert(iv.take(items@.len() as int) =~= iv);
    Ok(())
}

// ---------------------------------------------------------------------------
// Sections.
// ---------------------------------------------------------------------------

/// Children read in turn by `step` from `init`; the first error stops.
pub open spec fn fold_children<S>(init: S, cs: Seq<KdlNode>, step: spec_fn(S, KdlNode) -> Result<S, ErrorView>) -> Result<S, ErrorView>
    decreases cs.len(),
{
    if cs.len() == 0 {
        Ok(init)
    } else {
        match fold_children(init, cs.drop_last(), step) {
            Err(e) => Err(e),
            Ok(st) => step(st, cs.last()),
        }
    }
}

proof fn lemma_fold_err_sticks<S>(init: S, cs: Seq<KdlNode>, step: spec_fn(S, KdlNode) -> Result<S, ErrorView>, k: int)
    requires
        0 <= k <= cs.len(),
        fold_children(init, cs.take(k), step) is Err,
    ensures
        fold_children(init, cs, step) == fold_children(init, cs.take(k), step),
    decreases cs.len() - k,
{
    if k < cs.len() {
        assert(cs.take(k + 1).drop_last() =~= cs.take(k));
        lemma_fold_err_sticks(init, cs, step, k + 1);
    } else {
        assert(cs.take(k) =~= cs);
    }
}

proof fn lemma_fold_step<S>(init: S, cs: Seq<KdlNode>, step: spec_fn(S, KdlNode) -> Result<S, ErrorView>, k: int)
    requires
        0 <= k < cs.len(),
    ensures
        fold_children(init, cs.take(k + 1), step) == match fold_children(init, cs.take(k), step) {
            Err(e) => Err(e),
            Ok(st) => step(st, cs[k]),
        },
{
    assert(cs.take(k + 1).drop_last() =~= cs.take(k));
}

/// A nightlight preset read so far, with the fields seen.
pub struct SettingState {
    pub temperature: u32,
    pub brightness: Seq<char>,
    pub seen_temperature: bool,
    pub seen_brightness: bool,
}

/// One child of a nightlight preset: `temperature` or `brightness`, each once.
pub open spec fn setting_step(st: SettingState, c: KdlNode) -> Result<SettingState, ErrorView> {
    if c.name@ == "temperature"@ {
        match int_child_spec(c, "temperature"@, IntKind::U32) {
            Err(e) => Err(e),
            Ok(v) => if st.seen_temperature {
                Err(ErrorView::DuplicateField("temperature"@, Some(c.span)))
            } else {
                Ok(SettingState { temperature: v as u32, seen_temperature: true, ..st })
            },
        }
    } else if c.name@ == "brightness"@ {
        match float_child_spec(c, "brightness"@) {
            Err(e) => Err(e),
            Ok(v) => if st.seen_brightness {
                Err(ErrorView::DuplicateField("brightness"@, Some(c.span)))
            } else {
                Ok(SettingState { brightness: v, seen_brightness: true, ..st })
            },
        }
    } else {
        Err(ErrorView::UnknownField(c.name@, Some(c.span)))
    }
}

/// Nothing of a nightlight preset read yet.
pub open spec fn setting_init() -> SettingState {
    SettingState { temperature: 6500, brightness: "1"@, seen_temperature: false, seen_brightness: false }
}

/// Reading the children of a nightlight preset.
pub open spec fn setting_step_fn() -> spec_fn(SettingState, KdlNode) -> Result<SettingState, ErrorView> {
    |st: SettingState, c: KdlNode| setting_step(st, c)
}

/// A nightlight preset read from its node: both fields are required.
pub open spec fn setting_spec(n: KdlNode) -> Result<SettingView, ErrorView> {
    match fold_children(setting_init(), children_of(n), setting_step_fn()) {
        Err(e) => Err(e),
        Ok(st) => if !st.seen_temperature {
            Err(ErrorView::MissingField("temperature"@, Some(n.span)))
        } else if !st.seen_brightness {
            Err(ErrorView::MissingField("brightness"@, Some(n.span)))
        } else {
            Ok(SettingView { temperature: st.temperature, brightness: st.brightness })
        },
    }
}

fn empty_children() -> (v: Vec<KdlNode>)
    ensures
        v@.len() == 0,
{
    Vec::new()
}

fn setting_from(n: &KdlNode) -> (r: Result<crate::config::NightlightSetting, ConfigError>)
    ensures
        match r {
            Ok(s) => setting_spec(*n) == Ok::<SettingView, ErrorView>(SettingView { temperature: s.temperature, brightness: s.brightness@ }),
            Err(e) => setting_spec(*n) == Err::<SettingView, ErrorView>(err_view(e).0) && err_view(e).1 is None,
        },
{
    let ghost step = setting_step_fn();
    let ghost init = setting_init();
    let mut temperature: u32 = 6500;
    let mut brightness = "1".to_owned();
    proof {
        reveal_strlit("1");
    }
    let mut seen_t = false;
    let mut seen_b = false;
    let none = empty_children();
    let cs = match &n.children {
        Some(ch) => ch,
        None => &none,
    };
    assert(cs@ == children_of(*n));
    let mut i: usize = 0;
    assert(cs@.take(0) =~= Seq::<KdlNode>::empty());
    while i < cs.len()
        invariant
            i <= cs@.len(),
            cs@ == children_of(*n),
            step == setting_step_fn(),
            init == setting_init(),
            fold_children(init, cs@.take(i as int), step) == Ok::<SettingState, ErrorView>(SettingState {
                temperature, brightness: brightness@, seen_temperature: seen_t, seen_brightness: seen_b }),
        decreases cs@.len() - i,
    {
        proof {
            lemma_fold_step(init, cs@, step, i as int);
        }
        let c = &cs[i];
        if str_eq(c.name.as_str(), "temperature") {
            match int_child(c, "temperature", IntKind::U32) {
                Err(e) => {
                    proof { lemma_fold_err_sticks(init, cs@, step, i + 1); }
                    return Err(e);
                },
                Ok(v) => {
                    if seen_t {
                        proof { lemma_fold_err_sticks(init, cs@, step, i + 1); }
                        return Err(ConfigError::duplicate_field("temperature".to_owned(), Some(c.span)));
                    }
                    temperature = v as u32;
                    seen_t = true;
                },
            }
        } else if str_eq(c.name.as_str(), "brightness") {
            match float_child(c, "brightness") {
                Err(e) => {
                    proof { lemma_fold_err_sticks(init, cs@, step, i + 1); }
                    return Err(e);
                },
                Ok(v) => {
                    if seen_b {
                        proof { lemma_fold_err_sticks(init, cs@, step, i + 1); }
                        return Err(ConfigError::duplicate_field("brightness".to_owned(), Some(c.span)));
                    }
                    brightness = v;
                    seen_b = true;
                },
            }
        } else {
            proof { lemma_fold_err_sticks(init, cs@, step, i + 1); }
            return Err(ConfigError::unknown_field(c.name.clone(), Some(c.span)));
        }
        i = i + 1;
    }
    assert(cs@.take(cs@.len() as int) =~= cs@);
    if !seen_t {
        return Err(ConfigError::missing_field("temperature".to_owned(), Some(n.span)));
    }
    if !seen_b {
        return Err(ConfigError::missing_field("brightness".to_owned(), Some(n.span)));
    }
    Ok(crate::config::NightlightSetting { temperature, brightness })
}

/// A nightlight preset as plain values.
pub open spec fn setting_view(s: crate::config::NightlightSetting) -> SettingView {
    SettingView { temperature: s.temperature, brightness: s.brightness@ }
}

/// The nightlight settings read so far, with the fields seen.
pub struct NightlightState {
    pub v: NightlightView,
    pub seen_enabled: bool,
    pub seen_use_location: bool,
    pub seen_dawn: bool,
    pub seen_dusk: bool,
    pub seen_day: bool,
    pub seen_night: bool,
    pub seen_debounce_ms: bool,
}

/// A time of day on the full hour.
pub open spec fn hour_time(h: i8) -> CivilTime {
    CivilTime { hour: h, minute: 0, second: 0, subsec_nanosecond: 0 }
}

/// Nothing of the nightlight read yet: its defaults.
pub open spec fn nightlight_init() -> NightlightState {
    NightlightState {
        v: NightlightView {
            enabled: false,
            use_location: false,
            dawn: Some(hour_time(7)),
            dusk: Some(hour_time(20)),
            day: SettingView { temperature: 6500, brightness: "1"@ },
            night: SettingView { temperature: 2500, brightness: "0.7"@ },
            debounce_ms: 500,
        },
        seen_enabled: false,
        seen_use_location: false,
        seen_dawn: false,
        seen_dusk: false,
        seen_day: false,
        seen_night: false,
        seen_debounce_ms: false,
    }
}

/// One child of the nightlight section; each field at most once.
pub open spec fn nightlight_step(st: NightlightState, c: KdlNode) -> Result<NightlightState, ErrorView> {
    let dup = |name: Seq<char>| Err(ErrorView::DuplicateField(name, Some(c.span)));
    if c.name@ == "enabled"@ {
        match bool_child_spec(c) {
            Err(e) => Err(e),
            Ok(b) => if st.seen_enabled { dup("enabled"@) } else {
                Ok(NightlightState { v: NightlightView { enabled: b, ..st.v }, seen_enabled: true, ..st })
            },
        }
    } else if c.name@ == "use_location"@ {
        match bool_child_spec(c) {
            Err(e) => Err(e),
            Ok(b) => if st.seen_use_location { dup("use_location"@) } else {
                Ok(NightlightState { v: NightlightView { use_location: b, ..st.v }, seen_use_location: true, ..st })
            },
        }
    } else if c.name@ == "dawn"@ {
        match time_child_spec(c) {
            Err(e) => Err(e),
            Ok(t) => if st.seen_dawn { dup("dawn"@) } else {
                Ok(NightlightState { v: NightlightView { dawn: t, ..st.v }, seen_dawn: true, ..st })
            },
        }
    } else if c.name@ == "dusk"@ {
        match time_child_spec(c) {
            Err(e) => Err(e),
            Ok(t) => if st.seen_dusk { dup("dusk"@) } else {
                Ok(NightlightState { v: NightlightView { dusk: t, ..st.v }, seen_dusk: true, ..st })
            },
        }
    } else if c.name@ == "day"@ {
        match setting_spec(c) {
            Err(e) => Err(with_span_view(e, c.span)),
            Ok(x) => if st.seen_day { dup("day"@) } else {
                Ok(NightlightState { v: NightlightView { day: x, ..st.v }, seen_day: true, ..st })
            },
        }
    } else if c.name@ == "night"@ {
        match setting_spec(c) {
            Err(e) => Err(with_span_view(e, c.span)),
            Ok(x) => if st.seen_night { dup("night"@) } else {
                Ok(NightlightState { v: NightlightView { night: x, ..st.v }, seen_night: true, ..st })
            },
        }
    } else if c.name@ == "debounce_ms"@ {
        match int_child_spec(c, "debounce_ms"@, IntKind::U64) {
            Err(e) => Err(e),
            Ok(x) => if st.seen_debounce_ms { dup("debounce_ms"@) } else {
                Ok(NightlightState { v: NightlightView { debounce_ms: x as u64, ..st.v }, seen_debounce_ms: true, ..st })
            },
        }
    } else {
        Err(ErrorView::UnknownField(c.name@, Some(c.span)))
    }
}

/// Reading the children of the nightlight section.
pub open spec fn nightlight_step_fn() -> spec_fn(NightlightState, KdlNode) -> Result<NightlightState, ErrorView> {
    |st: NightlightState, c: KdlNode| nightlight_step(st, c)
}

/// The nightlight section read from its node; fields left out keep their defaults.
pub open spec fn nightlight_spec(n: KdlNode) -> Result<NightlightView, ErrorView> {
    match fold_children(nightlight_init(), children_of(n), nightlight_step_fn()) {
        Err(e) => Err(e),
        Ok(st) => Ok(st.v),
    }
}

/// The nightlight settings as plain values.
pub open spec fn nightlight_view(n: crate::config::Nightlight) -> NightlightView {
    NightlightView {
        enabled: n.enabled,
        use_location: n.use_location,
        dawn: n.dawn,
        dusk: n.dusk,
        day: setting_view(n.day),
        night: setting_view(n.night),
        debounce_ms: n.debounce_ms,
    }
}

fn nightlight_from(n: &KdlNode) -> (r: Result<crate::config::Nightlight, ConfigError>)
    ensures
        match r {
            Ok(x) => nightlight_spec(*n) == Ok::<NightlightView, ErrorView>(nightlight_view(x)),
            Err(e) => nightlight_spec(*n) == Err::<NightlightView, ErrorView>(err_view(e).0) && err_view(e).1 is None,
        },
{
    let ghost step = nightlight_step_fn();
    let ghost init = nightlight_init();
    let mut x = crate::config::Nightlight {
        enabled: false,
        use_location: false,
        dawn: Some(CivilTime { hour: 7, minute: 0, second: 0, subsec_nanosecond: 0 }),
        dusk: Some(CivilTime { hour: 20, minute: 0, second: 0, subsec_nanosecond: 0 }),
        day: crate::config::NightlightSetting::day(),
        night: crate::config::NightlightSetting::night(),
        debounce_ms: 500,
    };
    let mut seen: [bool; 7] = [false, false, false, false, false, false, false];
    let none = empty_children();
    let cs = match &n.children {
        Some(ch) => ch,
        None => &none,
    };
    let mut i: usize = 0;
    assert(cs@.take(0) =~= Seq::<KdlNode>::empty());
    while i < cs.len()
        invariant
            i <= cs@.len(),
            cs@ == children_of(*n),
            step == nightlight_step_fn(),
            init == nightlight_init(),
            fold_children(init, cs@.take(i as int), step) == Ok::<NightlightState, ErrorView>(NightlightState {
                v: nightlight_view(x),
                seen_enabled: seen@[0],
                seen_use_location: seen@[1],
                seen_dawn: seen@[2],
                seen_dusk: seen@[3],
                seen_day: seen@[4],
                seen_night: seen@[5],
                seen_debounce_ms: seen@[6],
            }),
        decreases cs@.len() - i,
    {
        proof {
            lemma_fold_step(init, cs@, step, i as int);
        }
        let c = &cs[i];
        let name = c.name.as_str();
        let slot: usize = if str_eq(name, "enabled") {
            0
        } else if str_eq(name, "use_location") {
            1
        } else if str_eq(name, "dawn") {
            2
        } else if str_eq(name, "dusk") {
            3
        } else if str_eq(name, "day") {
            4
        } else if str_eq(name, "night") {
            5
        } else if str_eq(name, "debounce_ms") {
            6
        } else {
            proof { lemma_fold_err_sticks(init, cs@, step, i + 1); }
            return Err(ConfigError::unknown_field(c.name.clone(), Some(c.span)));
        };
        let field = if slot == 0 { "enabled" } else if slot == 1 { "use_location" } else if slot == 2 { "dawn" }
            else if slot == 3 { "dusk" } else if slot == 4 { "day" } else if slot == 5 { "night" } else { "debounce_ms" };
        let read: Result<(), ConfigError> = if slot == 0 || slot == 1 {
            match bool_child(c) {
                Ok(b) => {
                    if !seen[slot] {
                        if slot == 0 { x.enabled = b; } else { x.use_location = b; }
                    }
                    Ok(())
                },
                Err(e) => Err(e),
            }
        } else if slot == 2 || slot == 3 {
            match time_child(c) {
                Ok(t) => {
                    if !seen[slot] {
                        if slot == 2 { x.dawn = t; } else { x.dusk = t; }
                    }
                    Ok(())
                },
                Err(e) => Err(e),
            }
        } else if slot == 4 || slot == 5 {
            match setting_from(c) {
                Ok(v) => {
                    if !seen[slot] {
                        if slot == 4 { x.day = v; } else { x.night = v; }
                    }
                    Ok(())
                },
                Err(e) => Err(e.with_span_no_overwrite(c.span)),
            }
        } else {
            match int_child(c, "debounce_ms", IntKind::U64) {
                Ok(v) => {
                    if !seen[slot] {
                        x.debounce_ms = v as u64;
                    }
                    Ok(())
                },
                Err(e) => Err(e),
            }
        };
        match read {
            Err(e) => {
                proof { lemma_fold_err_sticks(init, cs@, step, i + 1); }
                return Err(e);
            },
            Ok(()) => {},
        }
        if seen[slot] {
            proof { lemma_fold_err_sticks(init, cs@, step, i + 1); }
            return Err(ConfigError::duplicate_field(field.to_owned(), Some(c.span)));
        }
        seen.set(slot, true);
        i = i + 1;
    }
    assert(cs@.take(cs@.len() as int) =~= cs@);
    Ok(x)
}

/// The Homeassistant settings read so far, with the fields seen.
pub struct HomeassistantState {
    pub v: HomeassistantView,
    pub seen_enabled: bool,
    pub seen_url: bool,
}

/// Nothing of the Homeassistant section read yet.
pub open spec fn homeassistant_init() -> HomeassistantState {
    HomeassistantState {
        v: HomeassistantView { enabled: false, url: None, tracked_devices: Seq::empty() },
        seen_enabled: false,
        seen_url: false,
    }
}

/// One child of the Homeassistant section: `enabled` and `url` at most once, while
/// every `tracked_devices` adds to the list.
pub open spec fn homeassistant_step(st: HomeassistantState, c: KdlNode) -> Result<HomeassistantState, ErrorView> {
    if c.name@ == "enabled"@ {
        match bool_child_spec(c) {
            Err(e) => Err(e),
            Ok(b) => if st.seen_enabled { Err(ErrorView::DuplicateField("enabled"@, Some(c.span))) } else {
                Ok(HomeassistantState { v: HomeassistantView { enabled: b, ..st.v }, seen_enabled: true, ..st })
            },
        }
    } else if c.name@ == "url"@ {
        match url_child_spec(c) {
            Err(e) => Err(e),
            Ok(u) => if st.seen_url { Err(ErrorView::DuplicateField("url"@, Some(c.span))) } else {
                Ok(HomeassistantState { v: HomeassistantView { url: u, ..st.v }, seen_url: true, ..st })
            },
        }
    } else if c.name@ == "tracked_devices"@ {
        match decode_items(list_items(c), text_dec()) {
            Err(e) => Err(e),
            Ok(vs) => Ok(HomeassistantState {
                v: HomeassistantView { tracked_devices: st.v.tracked_devices + vs, ..st.v },
                ..st
            }),
        }
    } else {
        Err(ErrorView::UnknownField(c.name@, Some(c.span)))
    }
}

/// Reading the children of the Homeassistant section.
pub open spec fn homeassistant_step_fn() -> spec_fn(HomeassistantState, KdlNode) -> Result<HomeassistantState, ErrorView> {
    |st: HomeassistantState, c: KdlNode| homeassistant_step(st, c)
}

/// The Homeassistant section read from its node.
pub open spec fn homeassistant_spec(n: KdlNode) -> Result<HomeassistantView, ErrorView> {
    match fold_children(homeassistant_init(), children_of(n), homeassistant_step_fn()) {
        Err(e) => Err(e),
        Ok(st) => Ok(st.v),
    }
}

/// The Homeassistant settings as plain values.
pub open spec fn homeassistant_view(h: crate::config::Homeassistant) -> HomeassistantView {
    HomeassistantView {
        enabled: h.enabled,
        url: match h.url { Some(u) => Some(u@), None => None },
        tracked_devices: texts(h.tracked_devices@),
    }
}

fn homeassistant_from(n: &KdlNode) -> (r: Result<crate::config::Homeassistant, ConfigError>)
    ensures
        match r {
            Ok(x) => homeassistant_spec(*n) == Ok::<HomeassistantView, ErrorView>(homeassistant_view(x)),
            Err(e) => homeassistant_spec(*n) == Err::<HomeassistantView, ErrorView>(err_view(e).0) && err_view(e).1 is None,
        },
{
    let ghost step = homeassistant_step_fn();
    let ghost init = homeassistant_init();
    let mut x = crate::config::Homeassistant { enabled: false, url: None, tracked_devices: Vec::new() };
    assert(texts(x.tracked_devices@) =~= Seq::<Seq<char>>::empty());
    let mut seen_enabled = false;
    let mut seen_url = false;
    let none = empty_children();
    let cs = match &n.children {
        Some(ch) => ch,
        None => &none,
    };
    let mut i: usize = 0;
    assert(cs@.take(0) =~= Seq::<KdlNode>::empty());
    while i < cs.len()
        invariant
            i <= cs@.len(),
            cs@ == children_of(*n),
            step == homeassistant_step_fn(),
            init == homeassistant_init(),
            fold_children(init, cs@.take(i as int), step) == Ok::<HomeassistantState, ErrorView>(HomeassistantState {
                v: homeassistant_view(x), seen_enabled, seen_url }),
        decreases cs@.len() - i,
    {
        proof {
            lemma_fold_step(init, cs@, step, i as int);
        }
        let c = &cs[i];
        let name = c.name.as_str();
        if str_eq(name, "enabled") {
            match bool_child(c) {
                Err(e) => {
                    proof { lemma_fold_err_sticks(init, cs@, step, i + 1); }
                    return Err(e);
                },
                Ok(b) => {
                    if seen_enabled {
                        proof { lemma_fold_err_sticks(init, cs@, step, i + 1); }
                        return Err(ConfigError::duplicate_field("enabled".to_owned(), Some(c.span)));
                    }
                    x.enabled = b;
                    seen_enabled = true;
                },
            }
        } else if str_eq(name, "url") {
            match url_child(c) {
                Err(e) => {
                    proof { lemma_fold_err_sticks(init, cs@, step, i + 1); }
                    return Err(e);
                },
                Ok(u) => {
                    if seen_url {
                        proof { lemma_fold_err_sticks(init, cs@, step, i + 1); }
                        return Err(ConfigError::duplicate_field("url".to_owned(), Some(c.span)));
                    }
                    x.url = u;
                    seen_url = true;
                },
            }
        } else if str_eq(name, "tracked_devices") {
            let ghost before = texts(x.tracked_devices@);
            let ghost n0 = x.tracked_devices@.len();
            match text_list(c, &mut x.tracked_devices) {
                Err(e) => {
                    proof { lemma_fold_err_sticks(init, cs@, step, i + 1); }
                    return Err(e);
                },
                Ok(()) => {
                    let ghost t = texts(x.tracked_devices@);
                    assert(t =~= t.take(n0 as int) + t.skip(n0 as int));
                },
            }
        } else {
            proof { lemma_fold_err_sticks(init, cs@, step, i + 1); }
            return Err(ConfigError::unknown_field(c.name.clone(), Some(c.span)));
        }
        i = i + 1;
    }
    assert(cs@.take(cs@.len() as int) =~= cs@);
    Ok(x)
}

/// The Spotify settings read so far, with the fields seen.
pub struct SpotifyState {
    pub v: SpotifyView,
    pub seen_enabled: bool,
    pub seen_client_id: bool,
}

/// One child of the Spotify section; each field at most once.
pub open spec fn spotify_step(st: SpotifyState, c: KdlNode) -> Result<SpotifyState, ErrorView> {
    if c.name@ == "enabled"@ {
        match bool_child_spec(c) {
            Err(e) => Err(e),
            Ok(b) => if st.seen_enabled { Err(ErrorView::DuplicateField("enabled"@, Some(c.span))) } else {
                Ok(SpotifyState { v: SpotifyView { enabled: b, ..st.v }, seen_enabled: true, ..st })
            },
        }
    } else if c.name@ == "client_id"@ {
        match string_child_spec(c, "client_id"@) {
            Err(e) => Err(e),
            Ok(t) => if st.seen_client_id { Err(ErrorView::DuplicateField("client_id"@, Some(c.span))) } else {
                Ok(SpotifyState { v: SpotifyView { client_id: t, ..st.v }, seen_client_id: true, ..st })
            },
        }
    } else {
        Err(ErrorView::UnknownField(c.name@, Some(c.span)))
    }
}

/// Reading the children of the Spotify section.
pub open spec fn spotify_step_fn() -> spec_fn(SpotifyState, KdlNode) -> Result<SpotifyState, ErrorView> {
    |st: SpotifyState, c: KdlNode| spotify_step(st, c)
}

/// Nothing of the Spotify section read yet.
pub open spec fn spotify_init() -> SpotifyState {
    SpotifyState { v: SpotifyView { enabled: false, client_id: Seq::empty() }, seen_enabled: false, seen_client_id: false }
}

/// The Spotify section read from its node.
pub open spec fn spotify_spec(n: KdlNode) -> Result<SpotifyView, ErrorView> {
    match fold_children(spotify_init(), children_of(n), spotify_step_fn()) {
        Err(e) => Err(e),
        Ok(st) => Ok(st.v),
    }
}

fn spotify_from(n: &KdlNode) -> (r: Result<crate::config::Spotify, ConfigError>)
    ensures
        match r {
            Ok(x) => spotify_spec(*n) == Ok::<SpotifyView, ErrorView>(SpotifyView { enabled: x.enabled, client_id: x.client_id@ }),
            Err(e) => spotify_spec(*n) == Err::<SpotifyView, ErrorView>(err_view(e).0) && err_view(e).1 is None,
        },
{
    let ghost step = spotify_step_fn();
    let ghost init = spotify_init();
    let mut x = crate::config::Spotify { enabled: false, client_id: String::new() };
    let mut seen_enabled = false;
    let mut seen_client_id = false;
    let none = empty_children();
    let cs = match &n.children {
        Some(ch) => ch,
        None => &none,
    };
    let mut i: usize = 0;
    assert(cs@.take(0) =~= Seq::<KdlNode>::empty());
    while i < cs.len()
        invariant
            i <= cs@.len(),
            cs@ == children_of(*n),
            step == spotify_step_fn(),
            init == spotify_init(),
            fold_children(init, cs@.take(i as int), step) == Ok::<SpotifyState, ErrorView>(SpotifyState {
                v: SpotifyView { enabled: x.enabled, client_id: x.client_id@ }, seen_enabled, seen_client_id }),
        decreases cs@.len() - i,
    {
        proof {
            lemma_fold_step(init, cs@, step, i as int);
        }
        let c = &cs[i];
        let name = c.name.as_str();
        if str_eq(name, "enabled") {
            match bool_child(c) {
                Err(e) => {
                    proof { lemma_fold_err_sticks(init, cs@, step, i + 1); }
                    return Err(e);
                },
                Ok(b) => {
                    if seen_enabled {
                        proof { lemma_fold_err_sticks(init, cs@, step, i + 1); }
                        return Err(ConfigError::duplicate_field("enabled".to_owned(), Some(c.span)));
                    }
                    x.enabled = b;
                    seen_enabled = true;
                },
            }
        } else if str_eq(name, "client_id") {
            match string_child(c, "client_id") {
                Err(e) => {
                    proof { lemma_fold_err_sticks(init, cs@, step, i + 1); }
                    return Err(e);
                },
                Ok(t) => {
                    if seen_client_id {
                        proof { lemma_fold_err_sticks(init, cs@, step, i + 1); }
                        return Err(ConfigError::duplicate_field("client_id".to_owned(), Some(c.span)));
                    }
                    x.client_id = t;
                    seen_client_id = true;
                },
            }
        } else {
            proof { lemma_fold_err_sticks(init, cs@, step, i + 1); }
            return Err(ConfigError::unknown_field(c.name.clone(), Some(c.span)));
        }
        i = i + 1;
    }
    assert(cs@.take(cs@.len() as int) =~= cs@);
    Ok(x)
}

/// One child of the system menu section: every `widgets` adds to the list.
pub open spec fn system_menu_step(st: Seq<SystemMenuWidgets>, c: KdlNode) -> Result<Seq<SystemMenuWidgets>, ErrorView> {
    if c.name@ == "widgets"@ {
        match decode_items(list_items(c), widget_dec()) {
            Err(e) => Err(e),
            Ok(vs) => Ok(st + vs),
        }
    } else {
        Err(ErrorView::UnknownField(c.name@, Some(c.span)))
    }
}

/// Reading the children of the system menu section.
pub open spec fn system_menu_step_fn() -> spec_fn(Seq<SystemMenuWidgets>, KdlNode) -> Result<Seq<SystemMenuWidgets>, ErrorView> {
    |st: Seq<SystemMenuWidgets>, c: KdlNode| system_menu_step(st, c)
}

/// The system menu's widgets read from its node.
pub open spec fn system_menu_spec(n: KdlNode) -> Result<Seq<SystemMenuWidgets>, ErrorView> {
    fold_children(Seq::empty(), children_of(n), system_menu_step_fn())
}

fn system_menu_from(n: &KdlNode) -> (r: Result<crate::config::SystemMenu, ConfigError>)
    ensures
        match r {
            Ok(x) => system_menu_spec(*n) == Ok::<Seq<SystemMenuWidgets>, ErrorView>(x.widgets@),
            Err(e) => system_menu_spec(*n) == Err::<Seq<SystemMenuWidgets>, ErrorView>(err_view(e).0) && err_view(e).1 is None,
        },
{
    let ghost step = system_menu_step_fn();
    let ghost init = Seq::<SystemMenuWidgets>::empty();
    let mut x = crate::config::SystemMenu { widgets: Vec::new() };
    let none = empty_children();
    let cs = match &n.children {
        Some(ch) => ch,
        None => &none,
    };
    let mut i: usize = 0;
    assert(cs@.take(0) =~= Seq::<KdlNode>::empty());
    assert(x.widgets@ =~= init);
    while i < cs.len()
        invariant
            i <= cs@.len(),
            cs@ == children_of(*n),
            step == system_menu_step_fn(),
            init == Seq::<SystemMenuWidgets>::empty(),
            fold_children(init, cs@.take(i as int), step) == Ok::<Seq<SystemMenuWidgets>, ErrorView>(x.widgets@),
        decreases cs@.len() - i,
    {
        proof {
            lemma_fold_step(init, cs@, step, i as int);
        }
        let c = &cs[i];
        if str_eq(c.name.as_str(), "widgets") {
            let ghost n0 = x.widgets@.len();
            match widget_list(c, &mut x.widgets) {
                Err(e) => {
                    proof { lemma_fold_err_sticks(init, cs@, step, i + 1); }
                    return Err(e);
                },
                Ok(()) => {
                    let ghost t = x.widgets@;
                    assert(t =~= t.take(n0 as int) + t.skip(n0 as int));
                },
            }
        } else {
            proof { lemma_fold_err_sticks(init, cs@, step, i + 1); }
            return Err(ConfigError::unknown_field(c.name.clone(), Some(c.span)));
        }
        i = i + 1;
    }
    assert(cs@.take(cs@.len() as int) =~= cs@);
    Ok(x)
}

/// The typo tolerance read so far, with the fields seen (in field order).
pub struct TypoState {
    pub v: LauncherTypoSearch,
    pub seen: Seq<bool>,
}

/// The fields of the typo tolerance, in order.
pub open spec fn typo_fields() -> Seq<Seq<char>> {
    seq!["min_chars"@, "short_query_chars"@, "short_max_distance"@, "medium_query_chars"@, "medium_max_distance"@,
        "long_max_distance"@]
}

/// The typo tolerance with field `k` set.
pub open spec fn typo_with(t: LauncherTypoSearch, k: int, v: u32) -> LauncherTypoSearch {
    if k == 0 {
        LauncherTypoSearch { min_chars: v, ..t }
    } else if k == 1 {
        LauncherTypoSearch { short_query_chars: v, ..t }
    } else if k == 2 {
        LauncherTypoSearch { short_max_distance: v, ..t }
    } else if k == 3 {
        LauncherTypoSearch { medium_query_chars: v, ..t }
    } else if k == 4 {
        LauncherTypoSearch { medium_max_distance: v, ..t }
    } else {
        LauncherTypoSearch { long_max_distance: v, ..t }
    }
}

/// The position of a field name among the typo tolerance fields.
pub open spec fn typo_field_index(name: Seq<char>) -> Option<int> {
    if name == typo_fields()[0] {
        Some(0)
    } else if name == typo_fields()[1] {
        Some(1)
    } else if name == typo_fields()[2] {
        Some(2)
    } else if name == typo_fields()[3] {
        Some(3)
    } else if name == typo_fields()[4] {
        Some(4)
    } else if name == typo_fields()[5] {
        Some(5)
    } else {
        None
    }
}

/// One child of the typo tolerance: each field, a 32-bit integer, at most once.
pub open spec fn typo_step(st: TypoState, c: KdlNode) -> Result<TypoState, ErrorView> {
    match typo_field_index(c.name@) {
        None => Err(ErrorView::UnknownField(c.name@, Some(c.span))),
        Some(k) => match int_child_spec(c, typo_fields()[k], IntKind::U32) {
            Err(e) => Err(e),
            Ok(v) => if st.seen[k] {
                Err(ErrorView::DuplicateField(typo_fields()[k], Some(c.span)))
            } else {
                Ok(TypoState { v: typo_with(st.v, k, v as u32), seen: st.seen.update(k, true) })
            },
        },
    }
}

/// Reading the children of the typo tolerance.
pub open spec fn typo_step_fn() -> spec_fn(TypoState, KdlNode) -> Result<TypoState, ErrorView> {
    |st: TypoState, c: KdlNode| typo_step(st, c)
}

/// The default typo tolerance.
pub open spec fn typo_default() -> LauncherTypoSearch {
    LauncherTypoSearch {
        min_chars: 3,
        short_query_chars: 4,
        short_max_distance: 1,
        medium_query_chars: 7,
        medium_max_distance: 2,
        long_max_distance: 3,
    }
}

/// The typo tolerance read from its node; fields left out keep their defaults.
pub open spec fn typo_spec(n: KdlNode) -> Result<LauncherTypoSearch, ErrorView> {
    let init = TypoState { v: typo_default(), seen: seq![false, false, false, false, false, false] };
    match fold_children(init, children_of(n), typo_step_fn()) {
        Err(e) => Err(e),
        Ok(st) => Ok(st.v),
    }
}

fn typo_from(n: &KdlNode) -> (r: Result<LauncherTypoSearch, ConfigError>)
    ensures
        match r {
            Ok(x) => typo_spec(*n) == Ok::<LauncherTypoSearch, ErrorView>(x),
            Err(e) => typo_spec(*n) == Err::<LauncherTypoSearch, ErrorView>(err_view(e).0) && err_view(e).1 is None,
        },
{
    let ghost step = typo_step_fn();
    let ghost init = TypoState { v: typo_default(), seen: seq![false, false, false, false, false, false] };
    let mut x = LauncherTypoSearch {
        min_chars: 3,
        short_query_chars: 4,
        short_max_distance: 1,
        medium_query_chars: 7,
        medium_max_distance: 2,
        long_max_distance: 3,
    };
    let mut seen: [bool; 6] = [false, false, false, false, false, false];
    assert(seen@ =~= init.seen);
    let none = empty_children();
    let cs = match &n.children {
        Some(ch) => ch,
        None => &none,
    };
    let mut i: usize = 0;
    assert(cs@.take(0) =~= Seq::<KdlNode>::empty());
    while i < cs.len()
        invariant
            i <= cs@.len(),
            cs@ == children_of(*n),
            step == typo_step_fn(),
            init == (TypoState { v: typo_default(), seen: seq![false, false, false, false, false, false] }),
            fold_children(init, cs@.take(i as int), step) == Ok::<TypoState, ErrorView>(TypoState { v: x, seen: seen@ }),
        decreases cs@.len() - i,
    {
        proof {
            lemma_fold_step(init, cs@, step, i as int);
        }
        let c = &cs[i];
        let name = c.name.as_str();
        let k: usize = if str_eq(name, "min_chars") {
            0
        } else if str_eq(name, "short_query_chars") {
            1
        } else if str_eq(name, "short_max_distance") {
            2
        } else if str_eq(name, "medium_query_chars") {
            3
        } else if str_eq(name, "medium_max_distance") {
            4
        } else if str_eq(name, "long_max_distance") {
            5
        } else {
            proof { lemma_fold_err_sticks(init, cs@, step, i + 1); }
            return Err(ConfigError::unknown_field(c.name.clone(), Some(c.span)));
        };
        let field = if k == 0 { "min_chars" } else if k == 1 { "short_query_chars" } else if k == 2 { "short_max_distance" }
            else if k == 3 { "medium_query_chars" } else if k == 4 { "medium_max_distance" } else { "long_max_distance" };
        assert(field@ == typo_fields()[k as int]);
        match int_child(c, field, IntKind::U32) {
            Err(e) => {
                proof { lemma_fold_err_sticks(init, cs@, step, i + 1); }
                return Err(e);
            },
            Ok(v) => {
                if seen[k] {
                    proof { lemma_fold_err_sticks(init, cs@, step, i + 1); }
                    return Err(ConfigError::duplicate_field(field.to_owned(), Some(c.span)));
                }
                let v = v as u32;
                if k == 0 {
                    x.min_chars = v;
                } else if k == 1 {
                    x.short_query_chars = v;
                } else if k == 2 {
                    x.short_max_distance = v;
                } else if k == 3 {
                    x.medium_query_chars = v;
                } else if k == 4 {
                    x.medium_max_distance = v;
                } else {
                    x.long_max_distance = v;
                }
                seen.set(k, true);
            },
        }
        i = i + 1;
    }
    assert(cs@.take(cs@.len() as int) =~= cs@);
    Ok(x)
}

/// The launcher settings read so far, with the typo tolerance seen or not.
pub struct LauncherState {
    pub v: LauncherView,
    pub seen_providers: bool,
    pub seen_fuzzy_search: bool,
}

/// The providers the launcher starts from; every `providers` child adds to them.
pub open spec fn default_providers() -> Seq<LauncherProvider> {
    seq![LauncherProvider::Calculator, LauncherProvider::Applications, LauncherProvider::Files]
}

/// One child of the launcher section: the first `providers` takes the place of the
/// default providers and every later one adds to the list; `fuzzy_search` comes at most
/// once.
pub open spec fn launcher_step(st: LauncherState, c: KdlNode) -> Result<LauncherState, ErrorView> {
    if c.name@ == "providers"@ {
        match decode_items(list_items(c), provider_dec()) {
            Err(e) => Err(e),
            Ok(vs) => Ok(LauncherState {
                v: LauncherView { providers: if st.seen_providers { st.v.providers + vs } else { vs }, ..st.v },
                seen_providers: true,
                ..st
            }),
        }
    } else if c.name@ == "fuzzy_search"@ {
        match typo_spec(c) {
            Err(e) => Err(with_span_view(e, c.span)),
            Ok(t) => if st.seen_fuzzy_search {
                Err(ErrorView::DuplicateField("fuzzy_search"@, Some(c.span)))
            } else {
                Ok(LauncherState { v: LauncherView { fuzzy_search: t, ..st.v }, seen_fuzzy_search: true, ..st })
            },
        }
    } else {
        Err(ErrorView::UnknownField(c.name@, Some(c.span)))
    }
}

/// Reading the children of the launcher section.
pub open spec fn launcher_step_fn() -> spec_fn(LauncherState, KdlNode) -> Result<LauncherState, ErrorView> {
    |st: LauncherState, c: KdlNode| launcher_step(st, c)
}

/// Nothing of the launcher read yet.
pub open spec fn launcher_init() -> LauncherState {
    LauncherState {
        v: LauncherView { providers: default_providers(), fuzzy_search: typo_default() },
        seen_providers: false,
        seen_fuzzy_search: false,
    }
}

/// The launcher section read from its node.
pub open spec fn launcher_spec(n: KdlNode) -> Result<LauncherView, ErrorView> {
    match fold_children(launcher_init(), children_of(n), launcher_step_fn()) {
        Err(e) => Err(e),
        Ok(st) => Ok(st.v),
    }
}

fn launcher_from(n: &KdlNode) -> (r: Result<crate::config::Launcher, ConfigError>)
    ensures
        match r {
            Ok(x) => launcher_spec(*n) == Ok::<LauncherView, ErrorView>(LauncherView { providers: x.providers@, fuzzy_search: x.fuzzy_search }),
            Err(e) => launcher_spec(*n) == Err::<LauncherView, ErrorView>(err_view(e).0) && err_view(e).1 is None,
        },
{
    let ghost step = launcher_step_fn();
    let ghost init = launcher_init();
    let mut x = crate::config::Launcher {
        providers: LauncherProvider::all(),
        fuzzy_search: LauncherTypoSearch {
            min_chars: 3,
            short_query_chars: 4,
            short_max_distance: 1,
            medium_query_chars: 7,
            medium_max_distance: 2,
            long_max_distance: 3,
        },
    };
    let mut seen_fuzzy = false;
    let mut seen_providers = false;
    let none = empty_children();
    let cs = match &n.children {
        Some(ch) => ch,
        None => &none,
    };
    let mut i: usize = 0;
    assert(cs@.take(0) =~= Seq::<KdlNode>::empty());
    while i < cs.len()
        invariant
            i <= cs@.len(),
            cs@ == children_of(*n),
            step == launcher_step_fn(),
            init == launcher_init(),
            fold_children(init, cs@.take(i as int), step) == Ok::<LauncherState, ErrorView>(LauncherState {
                v: LauncherView { providers: x.providers@, fuzzy_search: x.fuzzy_search },
                seen_providers,
                seen_fuzzy_search: seen_fuzzy,
            }),
        decreases cs@.len() - i,
    {
        proof {
            lemma_fold_step(init, cs@, step, i as int);
        }
        let c = &cs[i];
        let name = c.name.as_str();
        if str_eq(name, "providers") {
            if !seen_providers {
                x.providers = Vec::new();
            }
            let ghost n0 = x.providers@.len();
            match provider_list(c, &mut x.providers) {
                Err(e) => {
                    proof { lemma_fold_err_sticks(init, cs@, step, i + 1); }
                    return Err(e);
                },
                Ok(()) => {
                    let ghost t = x.providers@;
                    assert(t =~= t.take(n0 as int) + t.skip(n0 as int));
                    seen_providers = true;
                },
            }
        } else if str_eq(name, "fuzzy_search") {
            match typo_from(c) {
                Err(e) => {
                    proof { lemma_fold_err_sticks(init, cs@, step, i + 1); }
                    return Err(e.with_span_no_overwrite(c.span));
                },
                Ok(t) => {
                    if seen_fuzzy {
                        proof { lemma_fold_err_sticks(init, cs@, step, i + 1); }
                        return Err(ConfigError::duplicate_field("fuzzy_search".to_owned(), Some(c.span)));
                    }
                    x.fuzzy_search = t;
                    seen_fuzzy = true;
                },
            }
        } else {
            proof { lemma_fold_err_sticks(init, cs@, step, i + 1); }
            return Err(ConfigError::unknown_field(c.name.clone(), Some(c.span)));
        }
        i = i + 1;
    }
    assert(cs@.take(cs@.len() as int) =~= cs@);
    Ok(x)
}

/// One child of the indexing section: `enabled` at most once.
pub open spec fn indexing_step(st: (bool, bool), c: KdlNode) -> Result<(bool, bool), ErrorView> {
    if c.name@ == "enabled"@ {
        match bool_child_spec(c) {
            Err(e) => Err(e),
            Ok(b) => if st.1 { Err(ErrorView::DuplicateField("enabled"@, Some(c.span))) } else { Ok((b, true)) },
        }
    } else {
        Err(ErrorView::UnknownField(c.name@, Some(c.span)))
    }
}

/// Reading the children of the indexing section.
pub open spec fn indexing_step_fn() -> spec_fn((bool, bool), KdlNode) -> Result<(bool, bool), ErrorView> {
    |st: (bool, bool), c: KdlNode| indexing_step(st, c)
}

/// Whether indexing is on, read from its node: on unless said otherwise.
pub open spec fn indexing_spec(n: KdlNode) -> Result<bool, ErrorView> {
    match fold_children((true, false), children_of(n), indexing_step_fn()) {
        Err(e) => Err(e),
        Ok(st) => Ok(st.0),
    }
}

fn indexing_from(n: &KdlNode) -> (r: Result<crate::config::Indexing, ConfigError>)
    ensures
        match r {
            Ok(x) => indexing_spec(*n) == Ok::<bool, ErrorView>(x.enabled),
            Err(e) => indexing_spec(*n) == Err::<bool, ErrorView>(err_view(e).0) && err_view(e).1 is None,
        },
{
    let ghost step = indexing_step_fn();
    let mut enabled = true;
    let mut seen = false;
    let none = empty_children();
    let cs = match &n.children {
        Some(ch) => ch,
        None => &none,
    };
    let mut i: usize = 0;
    assert(cs@.take(0) =~= Seq::<KdlNode>::empty());
    while i < cs.len()
        invariant
            i <= cs@.len(),
            cs@ == children_of(*n),
            step == indexing_step_fn(),
            fold_children((true, false), cs@.take(i as int), step) == Ok::<(bool, bool), ErrorView>((enabled, seen)),
        decreases cs@.len() - i,
    {
        proof {
            lemma_fold_step((true, false), cs@, step, i as int);
        }
        let c = &cs[i];
        if str_eq(c.name.as_str(), "enabled") {
            match bool_child(c) {
                Err(e) => {
                    proof { lemma_fold_err_sticks((true, false), cs@, step, i + 1); }
                    return Err(e);
                },
                Ok(b) => {
                    if seen {
                        proof { lemma_fold_err_sticks((true, false), cs@, step, i + 1); }
                        return Err(ConfigError::duplicate_field("enabled".to_owned(), Some(c.span)));
                    }
                    enabled = b;
                    seen = true;
                },
            }
        } else {
            proof { lemma_fold_err_sticks((true, false), cs@, step, i + 1); }
            return Err(ConfigError::unknown_field(c.name.clone(), Some(c.span)));
        }
        i = i + 1;
    }
    assert(cs@.take(cs@.len() as int) =~= cs@);
    Ok(crate::config::Indexing { enabled })
}

// ---------------------------------------------------------------------------
// The whole file.
// ---------------------------------------------------------------------------

/// The configuration as plain values.
pub open spec fn config_view(c: crate::config::ConfigFile) -> ConfigView {
    ConfigView {
        nightlight: nightlight_view(c.nightlight),
        homeassistant: homeassistant_view(c.homeassistant),
        spotify: SpotifyView { enabled: c.spotify.enabled, client_id: c.spotify.client_id@ },
        widgets: c.system_menu.widgets@,
        launcher: LauncherView { providers: c.launcher.providers@, fuzzy_search: c.launcher.fuzzy_search },
        indexing_enabled: c.indexing.enabled,
    }
}

/// The configuration read so far, with the sections seen (in field order).
pub struct ConfigState {
    pub v: ConfigView,
    pub seen: Seq<bool>,
}

/// The sections of the file, in field order.
pub open spec fn section_names() -> Seq<Seq<char>> {
    seq!["nightlight"@, "homeassistant"@, "spotify"@, "system_menu"@, "launcher"@, "indexing"@]
}

/// Every section at its defaults, none seen.
pub open spec fn config_init() -> ConfigState {
    ConfigState {
        v: ConfigView {
            nightlight: nightlight_init().v,
            homeassistant: homeassistant_init().v,
            spotify: spotify_init().v,
            widgets: Seq::empty(),
            launcher: launcher_init().v,
            indexing_enabled: true,
        },
        seen: seq![false, false, false, false, false, false],
    }
}

/// A section read, its errors taking the node's span, and checked to come only once.
pub open spec fn section_done(st: ConfigState, c: KdlNode, k: int, r: Result<ConfigView, ErrorView>) -> Result<ConfigState, ErrorView> {
    match r {
        Err(e) => Err(with_span_view(e, c.span)),
        Ok(v) => if st.seen[k] {
            Err(ErrorView::DuplicateField(section_names()[k], Some(c.span)))
        } else {
            Ok(ConfigState { v, seen: st.seen.update(k, true) })
        },
    }
}

/// One top-level node of the file: a section, each at most once.
pub open spec fn config_step(st: ConfigState, c: KdlNode) -> Result<ConfigState, ErrorView> {
    let v = st.v;
    if c.name@ == "nightlight"@ {
        section_done(st, c, 0, match nightlight_spec(c) {
            Err(e) => Err(e),
            Ok(x) => Ok(ConfigView { nightlight: x, ..v }),
        })
    } else if c.name@ == "homeassistant"@ {
        section_done(st, c, 1, match homeassistant_spec(c) {
            Err(e) => Err(e),
            Ok(x) => Ok(ConfigView { homeassistant: x, ..v }),
        })
    } else if c.name@ == "spotify"@ {
        section_done(st, c, 2, match spotify_spec(c) {
            Err(e) => Err(e),
            Ok(x) => Ok(ConfigView { spotify: x, ..v }),
        })
    } else if c.name@ == "system_menu"@ {
        section_done(st, c, 3, match system_menu_spec(c) {
            Err(e) => Err(e),
            Ok(x) => Ok(ConfigView { widgets: x, ..v }),
        })
    } else if c.name@ == "launcher"@ {
        section_done(st, c, 4, match launcher_spec(c) {
            Err(e) => Err(e),
            Ok(x) => Ok(ConfigView { launcher: x, ..v }),
        })
    } else if c.name@ == "indexing"@ {
        section_done(st, c, 5, match indexing_spec(c) {
            Err(e) => Err(e),
            Ok(x) => Ok(ConfigView { indexing_enabled: x, ..v }),
        })
    } else {
        Err(ErrorView::UnknownField(c.name@, Some(c.span)))
    }
}

/// Reading the top-level nodes of the file.
pub open spec fn config_step_fn() -> spec_fn(ConfigState, KdlNode) -> Result<ConfigState, ErrorView> {
    |st: ConfigState, c: KdlNode| config_step(st, c)
}

/// The configuration read from the nodes of a KDL document: each known section at most
/// once, unknown nodes refused, sections left out at their defaults.
pub open spec fn config_from_nodes_spec(nodes: Seq<KdlNode>) -> Result<ConfigView, ErrorView> {
    match fold_children(config_init(), nodes, config_step_fn()) {
        Err(e) => Err(e),
        Ok(st) => Ok(st.v),
    }
}

/// The configuration read from the nodes of a KDL document.
pub fn config_from_nodes(nodes: &Vec<KdlNode>) -> (r: Result<crate::config::ConfigFile, ConfigError>)
    ensures
        match r {
            Ok(c) => config_from_nodes_spec(nodes@) == Ok::<ConfigView, ErrorView>(config_view(c)),
            Err(e) => config_from_nodes_spec(nodes@) == Err::<ConfigView, ErrorView>(err_view(e).0) && err_view(e).1 is None,
        },
{
    let ghost step = config_step_fn();
    let ghost init = config_init();
    let mut x = crate::config::ConfigFile {
        nightlight: crate::config::Nightlight {
            enabled: false,
            use_location: false,
            dawn: Some(CivilTime { hour: 7, minute: 0, second: 0, subsec_nanosecond: 0 }),
            dusk: Some(CivilTime { hour: 20, minute: 0, second: 0, subsec_nanosecond: 0 }),
            day: crate::config::NightlightSetting::day(),
            night: crate::config::NightlightSetting::night(),
            debounce_ms: 500,
        },
        homeassistant: crate::config::Homeassistant { enabled: false, url: None, tracked_devices: Vec::new() },
        spotify: crate::config::Spotify { enabled: false, client_id: String::new() },
        system_menu: crate::config::SystemMenu { widgets: Vec::new() },
        launcher: crate::config::Launcher {
            providers: LauncherProvider::all(),
            fuzzy_search: LauncherTypoSearch {
                min_chars: 3,
                short_query_chars: 4,
                short_max_distance: 1,
                medium_query_chars: 7,
                medium_max_distance: 2,
                long_max_distance: 3,
            },
        },
        indexing: crate::config::Indexing { enabled: true },
    };
    proof {
        reveal_strlit("1");
        reveal_strlit("0.7");
    }
    assert(texts(x.homeassistant.tracked_devices@) =~= Seq::<Seq<char>>::empty());
    assert(x.system_menu.widgets@ =~= Seq::<SystemMenuWidgets>::empty());
    assert(config_view(x) == init.v);
    let mut seen: [bool; 6] = [false, false, false, false, false, false];
    assert(seen@ =~= init.seen);
    let mut i: usize = 0;
    assert(nodes@.take(0) =~= Seq::<KdlNode>::empty());
    while i < nodes.len()
        invariant
            i <= nodes@.len(),
            step == config_step_fn(),
            init == config_init(),
            fold_children(init, nodes@.take(i as int), step) == Ok::<ConfigState, ErrorView>(ConfigState { v: config_view(x), seen: seen@ }),
        decreases nodes@.len() - i,
    {
        proof {
            lemma_fold_step(init, nodes@, step, i as int);
        }
        let c = &nodes[i];
        let name = c.name.as_str();
        let k: usize = if str_eq(name, "nightlight") {
            0
        } else if str_eq(name, "homeassistant") {
            1
        } else if str_eq(name, "spotify") {
            2
        } else if str_eq(name, "system_menu") {
            3
        } else if str_eq(name, "launcher") {
            4
        } else if str_eq(name, "indexing") {
            5
        } else {
            proof { lemma_fold_err_sticks(init, nodes@, step, i + 1); }
            return Err(ConfigError::unknown_field(c.name.clone(), Some(c.span)));
        };
        let field = if k == 0 { "nightlight" } else if k == 1 { "homeassistant" } else if k == 2 { "spotify" }
            else if k == 3 { "system_menu" } else if k == 4 { "launcher" } else { "indexing" };
        assert(field@ == section_names()[k as int]);
        let read: Result<(), ConfigError> = if k == 0 {
            match nightlight_from(c) {
                Ok(v) => {
                    if !seen[k] { x.nightlight = v; }
                    Ok(())
                },
                Err(e) => Err(e),
            }
        } else if k == 1 {
            match homeassistant_from(c) {
                Ok(v) => {
                    if !seen[k] { x.homeassistant = v; }
                    Ok(())
                },
                Err(e) => Err(e),
            }
        } else if k == 2 {
            match spotify_from(c) {
                Ok(v) => {
                    if !seen[k] { x.spotify = v; }
                    Ok(())
                },
                Err(e) => Err(e),
            }
        } else if k == 3 {
            match system_menu_from(c) {
                Ok(v) => {
                    if !seen[k] { x.system_menu = v; }
                    Ok(())
                },
                Err(e) => Err(e),
            }
        } else if k == 4 {
            match launcher_from(c) {
                Ok(v) => {
                    if !seen[k] { x.launcher = v; }
                    Ok(())
                },
                Err(e) => Err(e),
            }
        } else {
            match indexing_from(c) {
                Ok(v) => {
                    if !seen[k] { x.indexing = v; }
                    Ok(())
                },
                Err(e) => Err(e),
            }
        };
        match read {
            Err(e) => {
                proof { lemma_fold_err_sticks(init, nodes@, step, i + 1); }
                return Err(e.with_span_no_overwrite(c.span));
            },
            Ok(()) => {},
        }
        if seen[k] {
            proof { lemma_fold_err_sticks(init, nodes@, step, i + 1); }
            return Err(ConfigError::duplicate_field(field.to_owned(), Some(c.span)));
        }
        seen.set(k, true);
        i = i + 1;
    }
    assert(nodes@.take(nodes@.len() as int) =~= nodes@);
    Ok(x)
}

// ---------------------------------------------------------------------------
// Parsing the file.
// ---------------------------------------------------------------------------

#[verifier::external_type_specification]
#[verifier::external_body]
pub struct ExKdlTreeNode(KdlTreeNode);

#[verifier::external_type_specification]
#[verifier::external_body]
pub struct ExKdlTreeValue(KdlTreeValue);

/// What the kdl crate's document parser gives for a text: its nodes as the library holds
/// them, or the message of its error.
pub uninterp spec fn kdl_document_parse(text: Seq<char>) -> Result<Seq<KdlNode>, Seq<char>>;

/// kdl's `KdlDocument::parse`, with the document's nodes converted one for one into the
/// library's nodes (names, entries with their names, values and spans, children blocks and
/// spans), or the error's message. Which texts parse, and into what, is kdl's and only
/// named here; kdl's `KdlError` always displays as "Failed to parse KDL document".
#[verifier::external_body]
fn parse_kdl_document(text: &str) -> (r: Result<Vec<KdlNode>, String>)
    ensures
        kdl_document_parse(text@) == match r {
            Ok(ns) => Ok(ns@),
            Err(m) => Err(m@),
        },
        r matches Err(m) ==> m@ == "Failed to parse KDL document"@,
{
    match kdl::KdlDocument::parse(text) {
        Ok(doc) => Ok(doc.nodes().iter().map(kdl_node_model).collect()),
        Err(e) => Err(e.to_string()),
    }
}

/// Converts a node of the kdl crate into the library's node, one for one; used by
/// `parse_kdl_document` only.
#[verifier::external_body]
fn kdl_node_model(n: &KdlTreeNode) -> KdlNode {
    KdlNode {
        name: n.name().value().to_owned(),
        entries: n.entries().iter().map(|e| KdlEntry {
            name: e.name().map(|i| i.value().to_owned()),
            value: kdl_value_model(e.value()),
            span: SourceSpan { offset: e.span().offset(), len: e.span().len() },
        }).collect(),
        children: n.children().map(|d| d.nodes().iter().map(kdl_node_model).collect()),
        span: SourceSpan { offset: n.span().offset(), len: n.span().len() },
    }
}

/// Converts a value of the kdl crate into the library's value, one for one (a float as
/// the text Rust prints for it); used by `kdl_node_model` only.
#[verifier::external_body]
fn kdl_value_model(v: &KdlTreeValue) -> KdlValue {
    match v {
        KdlTreeValue::String(s) => KdlValue::String(s.clone()),
        KdlTreeValue::Integer(i) => KdlValue::Integer(*i),
        KdlTreeValue::Float(f) => KdlValue::Float(f.to_string()),
        KdlTreeValue::Bool(b) => KdlValue::Bool(*b),
        KdlTreeValue::Null => KdlValue::Null,
    }
}

/// The configuration file read from its text: the KDL document's nodes and the
/// configuration. A text that is no KDL document gives the parse error; an error in
/// reading the configuration comes with the text attached.
pub fn parse_config(text: &str) -> (r: Result<(Vec<KdlNode>, crate::config::ConfigFile), ConfigError>)
    ensures
        match kdl_document_parse(text@) {
            Err(m) => r matches Err(ConfigError::ParseError(e)) && e@ == m && m == "Failed to parse KDL document"@,
            Ok(ns) => match config_from_nodes_spec(ns) {
                Ok(c) => r matches Ok((v, x)) && v@ == ns && config_view(x) == c,
                Err(ev) => r matches Err(e) && err_view(e) == (ev, if ev is ParseError || ev is IoError { None } else { Some(text@) }),
            },
        },
{
    let nodes = match parse_kdl_document(text) {
        Ok(ns) => ns,
        Err(m) => {
            return Err(ConfigError::ParseError(m));
        },
    };
    match config_from_nodes(&nodes) {
        Ok(c) => Ok((nodes, c)),
        Err(e) => Err(e.with_source(text.to_owned())),
    }
}

} // verus!
