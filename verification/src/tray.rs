use vstd::prelude::*;

use crate::dbusmenu::{ToggleState, ToggleType};
use crate::text::{chars_of, push_str, str_eq, string_of};

verus! {

/// Errors of the tray protocol logic.
#[derive(Debug, Clone, Copy, PartialEq, Eq, Structural)]
pub enum TrayError {
    /// A service registered by object path alone, or with an empty name, but the call
    /// carried no sender.
    MissingSender,
    /// The bus-name part of an item address is not a valid D-Bus bus name.
    InvalidBusName,
    /// The path part of an item address is not a valid D-Bus object path.
    InvalidObjectPath,
}

/// The item signals after which a tray item's snapshot is read again.
pub open spec fn refreshes_tray_item_spec(member: Seq<char>) -> bool {
    ||| member == "NewTitle"@
    ||| member == "NewIcon"@
    ||| member == "NewAttentionIcon"@
    ||| member == "NewOverlayIcon"@
    ||| member == "NewToolTip"@
    ||| member == "NewStatus"@
    ||| member == "NewMenu"@
    ||| member == "NewIconThemePath"@
}

/// Whether a signal of a StatusNotifierItem announces a change of its snapshot.
pub fn refreshes_tray_item(member: &str) -> (r: bool)
    ensures
        r == refreshes_tray_item_spec(member@),
{
    str_eq(member, "NewTitle") || str_eq(member, "NewIcon") || str_eq(member, "NewAttentionIcon")
        || str_eq(member, "NewOverlayIcon") || str_eq(member, "NewToolTip") || str_eq(
        member,
        "NewStatus",
    ) || str_eq(member, "NewMenu") || str_eq(member, "NewIconThemePath")
}

/// The service name under which an item is registered: a bare object path is prefixed
/// with the sender's unique name, an empty name stands for the sender itself.
pub open spec fn normalize_service_spec(service: Seq<char>, sender: Option<Seq<char>>) -> Result<Seq<char>, TrayError> {
    if service.len() > 0 && service[0] == '/' {
        match sender {
            Some(s) => Ok(s + service),
            None => Err(TrayError::MissingSender),
        }
    } else if service.len() == 0 {
        match sender {
            Some(s) => Ok(s),
            None => Err(TrayError::MissingSender),
        }
    } else {
        Ok(service)
    }
}

/// The service name under which an item registers, given the registration's argument and
/// the unique name of the caller.
pub fn normalize_service(service: String, sender: Option<&str>) -> (r: Result<String, TrayError>)
    ensures
        match (r, normalize_service_spec(service@, match sender { Some(s) => Some(s@), None => None })) {
            (Ok(a), Ok(b)) => a@ == b,
            (Err(a), Err(b)) => a == b,
            _ => false,
        },
{
    let chars = chars_of(service.as_str());
    if chars.len() > 0 && chars[0] == '/' {
        match sender {
            Some(s) => {
                let mut out = s.to_owned();
                push_str(&mut out, service.as_str());
                Ok(out)
            },
            None => Err(TrayError::MissingSender),
        }
    } else if chars.len() == 0 {
        match sender {
            Some(s) => Ok(s.to_owned()),
            None => Err(TrayError::MissingSender),
        }
    } else {
        Ok(service)
    }
}

/// A character that an element of a bus name may hold: an ASCII letter or digit, `_` or `-`.
pub open spec fn bus_name_char(c: char) -> bool {
    ('a' <= c && c <= 'z') || ('A' <= c && c <= 'Z') || ('0' <= c && c <= '9') || c == '_' || c == '-'
}

/// Non-empty elements of bus-name characters joined by single dots, at least two of them.
pub open spec fn dotted_elements(s: Seq<char>) -> bool {
    &&& s.len() > 0
    &&& s[0] != '.'
    &&& s.last() != '.'
    &&& exists|i: int| 0 <= i < s.len() && s[i] == '.'
    &&& forall|i: int| 0 <= i < s.len() ==> bus_name_char(#[trigger] s[i]) || (s[i] == '.' && i > 0 && s[i - 1] != '.')
}

/// A unique bus name: `org.freedesktop.DBus`, or `:` followed by dotted elements.
pub open spec fn unique_name_grammar(s: Seq<char>) -> bool {
    s == "org.freedesktop.DBus"@ || (s.len() > 0 && s[0] == ':' && dotted_elements(s.skip(1)))
}

/// A well-known bus name: dotted elements, none of which begins with a digit.
pub open spec fn well_known_name_grammar(s: Seq<char>) -> bool {
    &&& dotted_elements(s)
    &&& forall|i: int| 0 <= i < s.len() && (i == 0 || s[i - 1] == '.') ==> !('0' <= #[trigger] s[i] && s[i] <= '9')
}

/// A D-Bus bus name: a unique or a well-known name, of at most 255 characters.
pub open spec fn bus_name_grammar(s: Seq<char>) -> bool {
    (unique_name_grammar(s) || well_known_name_grammar(s)) && s.len() <= 255
}

/// A character that an element of an object path may hold: an ASCII letter or digit,
/// or `_`.
pub open spec fn path_element_char(c: char) -> bool {
    ('a' <= c && c <= 'z') || ('A' <= c && c <= 'Z') || ('0' <= c && c <= '9') || c == '_'
}

/// A D-Bus object path: `/` alone, or `/` followed by non-empty elements of letters,
/// digits and `_` separated by single slashes, with no slash at the end.
pub open spec fn object_path_grammar(p: Seq<char>) -> bool {
    &&& p.len() >= 1
    &&& p[0] == '/'
    &&& p.len() == 1 || p.last() != '/'
    &&& forall|i: int| 1 <= i < p.len() ==> path_element_char(#[trigger] p[i]) || (p[i] == '/' && p[i - 1] != '/')
}

/// zbus's `OwnedBusName::try_from(String)`: whether the text is a valid bus name.
/// zbus_names checks the bytes against the D-Bus rules: a unique name
/// (`org.freedesktop.DBus`, or `:` and at least two dot-separated elements of ASCII
/// letters, digits, `_` and `-`) or a well-known name (at least two such elements, none
/// beginning with a digit), at most 255 bytes long.
#[verifier::external_body]
fn bus_name_is_valid(name: &str) -> (r: bool)
    ensures
        r == bus_name_grammar(name@),
{
    zbus::names::OwnedBusName::try_from(name.to_owned()).is_ok()
}

/// zvariant's `OwnedObjectPath::try_from(String)`: whether the text is a valid object
/// path. zvariant checks the bytes against the D-Bus rules: a leading `/`, elements of
/// ASCII letters, digits and `_` separated by single slashes, no trailing slash but for
/// the root path.
#[verifier::external_body]
fn object_path_is_valid(path: &str) -> (r: bool)
    ensures
        r == object_path_grammar(path@),
{
    zbus::zvariant::OwnedObjectPath::try_from(path.to_owned()).is_ok()
}

/// The object path at which an item that registered by bus name alone is served.
pub open spec fn default_item_path() -> Seq<char> {
    "/StatusNotifierItem"@
}

/// Position of the first `/` in a text, if any.
pub open spec fn first_slash(s: Seq<char>) -> Option<int> {
    if exists|i: int| 0 <= i < s.len() && s[i] == '/' {
        Some(choose|i: int| 0 <= i < s.len() && s[i] == '/' && forall|j: int| 0 <= j < i ==> s[j] != '/')
    } else {
        None
    }
}

/// The bus name and object path that a registered service name stands for: the text
/// before the first `/` and the rest from that `/` on, or the whole text and the default
/// item path.
pub open spec fn split_item_address_spec(service: Seq<char>) -> (Seq<char>, Seq<char>) {
    match first_slash(service) {
        Some(i) => (service.take(i), service.skip(i)),
        None => (service, default_item_path()),
    }
}

fn split_item_address(service: &str) -> (r: (String, String))
    ensures
        (r.0@, r.1@) == split_item_address_spec(service@),
{
    let chars = chars_of(service);
    let mut i: usize = 0;
    while i < chars.len()
        invariant
            i <= chars@.len(),
            chars@ == service@,
            forall|j: int| 0 <= j < i ==> chars@[j] != '/',
        decreases chars@.len() - i,
    {
        if chars[i] == '/' {
            let ghost s = service@;
            proof {
                let k = choose|k: int| 0 <= k < s.len() && s[k] == '/' && forall|j: int| 0 <= j < k ==> s[j] != '/';
                assert(k == i) by {
                    if k < i {
                        assert(s[k] != '/');
                    }
                    if k > i {
                        assert(s[i as int] == '/');
                    }
                }
            }
            let bus = string_of(&chars.as_slice()[0..i]);
            let path = string_of(&chars.as_slice()[i..chars.len()]);
            assert(chars@.subrange(0, i as int) == s.take(i as int));
            assert(chars@.subrange(i as int, chars@.len() as int) == s.skip(i as int));
            return (bus, path);
        }
        i = i + 1;
    }
    (service.to_owned(), "/StatusNotifierItem".to_owned())
}

/// Where a tray item is served: its bus name and object path.
#[derive(Debug, Clone)]
pub struct ItemAddress {
    pub bus_name: String,
    pub object_path: String,
}

impl ItemAddress {
    /// The address that a registered service name stands for; fails when zbus rejects the
    /// bus name or the object path.
    pub fn parse(service: &str) -> (r: Result<ItemAddress, TrayError>)
        ensures
            ({
                let (bus, path) = split_item_address_spec(service@);
                match r {
                    Ok(a) => bus_name_grammar(bus) && object_path_grammar(path)
                        && a.bus_name@ == bus && a.object_path@ == path,
                    Err(e) => if !bus_name_grammar(bus) {
                        e == TrayError::InvalidBusName
                    } else {
                        !object_path_grammar(path) && e == TrayError::InvalidObjectPath
                    },
                }
            }),
    {
        let (bus_name, object_path) = split_item_address(service);
        if !bus_name_is_valid(bus_name.as_str()) {
            return Err(TrayError::InvalidBusName);
        }
        if !object_path_is_valid(object_path.as_str()) {
            return Err(TrayError::InvalidObjectPath);
        }
        Ok(ItemAddress { bus_name, object_path })
    }
}


/// What an item reports as its state.
#[derive(Debug, Clone, Copy, PartialEq, Eq, Structural)]
pub enum TrayItemStatus {
    Passive,
    Active,
    NeedsAttention,
    Unknown,
}

/// How pressing an item is answered.
#[derive(Debug, Clone, Copy, PartialEq, Eq, Structural)]
pub enum Activation {
    Activate,
    ContextMenu,
    DbusMenu,
    Unsupported,
}

/// The status that an item's `Status` property names; `None` when it could not be read.
pub open spec fn status_of_spec(status: Option<Seq<char>>) -> TrayItemStatus {
    match status {
        Some(s) => if s == "Passive"@ {
            TrayItemStatus::Passive
        } else if s == "Active"@ {
            TrayItemStatus::Active
        } else if s == "NeedsAttention"@ {
            TrayItemStatus::NeedsAttention
        } else {
            TrayItemStatus::Unknown
        },
        None => TrayItemStatus::Unknown,
    }
}

/// The status that an item's `Status` property names.
pub fn status_of(status: Option<&str>) -> (r: TrayItemStatus)
    ensures
        r == status_of_spec(match status { Some(s) => Some(s@), None => None }),
{
    match status {
        Some(s) => if str_eq(s, "Passive") {
            TrayItemStatus::Passive
        } else if str_eq(s, "Active") {
            TrayItemStatus::Active
        } else if str_eq(s, "NeedsAttention") {
            TrayItemStatus::NeedsAttention
        } else {
            TrayItemStatus::Unknown
        },
        None => TrayItemStatus::Unknown,
    }
}

/// How an item is activated, from whether it says it is only a menu, whether it exports
/// a DBusMenu, and which of the `Activate` and `ContextMenu` methods it implements.
pub open spec fn choose_activation_spec(
    menu_only: Option<bool>,
    has_dbus_menu: bool,
    has_activate: bool,
    has_context_menu: bool,
) -> Activation {
    if menu_only == Some(true) {
        if has_dbus_menu {
            Activation::DbusMenu
        } else if has_context_menu {
            Activation::ContextMenu
        } else {
            Activation::Unsupported
        }
    } else if has_activate {
        Activation::Activate
    } else if has_context_menu {
        Activation::ContextMenu
    } else if has_dbus_menu {
        Activation::DbusMenu
    } else {
        Activation::Unsupported
    }
}

/// How an item is activated: a menu-only item opens its DBusMenu (or its context menu);
/// any other item prefers `Activate`, then `ContextMenu`, then its DBusMenu.
pub fn choose_activation(
    menu_only: Option<bool>,
    has_dbus_menu: bool,
    has_activate: bool,
    has_context_menu: bool,
) -> (r: Activation)
    ensures
        r == choose_activation_spec(menu_only, has_dbus_menu, has_activate, has_context_menu),
{
    if menu_only == Some(true) {
        if has_dbus_menu {
            Activation::DbusMenu
        } else if has_context_menu {
            Activation::ContextMenu
        } else {
            Activation::Unsupported
        }
    } else if has_activate {
        Activation::Activate
    } else if has_context_menu {
        Activation::ContextMenu
    } else if has_dbus_menu {
        Activation::DbusMenu
    } else {
        Activation::Unsupported
    }
}

/// The interfaces an object describes in its D-Bus introspection XML, each with the
/// names of its methods, in document order; `None` when zbus_xml does not read the text.
pub uninterp spec fn introspection_interfaces(xml: Seq<char>) -> Option<Seq<(Seq<char>, Seq<Seq<char>>)>>;

/// Interfaces with their method names, as plain values.
pub open spec fn interfaces_view(v: Seq<(String, Vec<String>)>) -> Seq<(Seq<char>, Seq<Seq<char>>)> {
    v.map_values(|p: (String, Vec<String>)| (p.0@, p.1@.map_values(|m: String| m@)))
}

/// zbus_xml's `Node::try_from(&str)` with each interface's name and the names of its
/// methods read out (`interfaces`, `Interface::name`, `Interface::methods`,
/// `Method::name`). Which texts parse, and to what, is zbus_xml's and only named here.
#[verifier::external_body]
fn parse_introspection(xml: &str) -> (r: Option<Vec<(String, Vec<String>)>>)
    ensures
        r matches Some(v) ==> introspection_interfaces(xml@) == Some(interfaces_view(v@)),
        r is None ==> introspection_interfaces(xml@) is None,
{
    zbus_xml::Node::try_from(xml).ok().map(|node| {
        node.interfaces()
            .iter()
            .map(|i| (i.name().to_string(), i.methods().iter().map(|m| m.name().to_string()).collect()))
            .collect()
    })
}

/// The interface through which tray items are served.
pub open spec fn item_interface() -> Seq<char> {
    "org.kde.StatusNotifierItem"@
}

/// The method names of the first interface that is the tray item interface, if any.
pub open spec fn item_methods(ifs: Seq<(Seq<char>, Seq<Seq<char>>)>) -> Option<Seq<Seq<char>>>
    decreases ifs.len(),
{
    if ifs.len() == 0 {
        None
    } else if ifs[0].0 == item_interface() {
        Some(ifs[0].1)
    } else {
        item_methods(ifs.skip(1))
    }
}

/// How an item is activated, from its introspection XML (`None` when it could not be
/// read): when the XML does not parse or describes no tray item interface, the item is
/// activated; otherwise `choose_activation` decides from the methods that interface has.
pub open spec fn activation_from_introspection_spec(
    xml: Option<Seq<char>>,
    menu_only: Option<bool>,
    has_dbus_menu: bool,
) -> Activation {
    match xml {
        None => Activation::Activate,
        Some(x) => match introspection_interfaces(x) {
            None => Activation::Activate,
            Some(ifs) => match item_methods(ifs) {
                None => Activation::Activate,
                Some(ms) => choose_activation_spec(menu_only, has_dbus_menu, ms.contains("Activate"@),
                    ms.contains("ContextMenu"@)),
            },
        },
    }
}

fn find_item_methods(ifs: &Vec<(String, Vec<String>)>) -> (r: Option<&Vec<String>>)
    ensures
        match r {
            Some(ms) => item_methods(interfaces_view(ifs@)) == Some(ms@.map_values(|m: String| m@)),
            None => item_methods(interfaces_view(ifs@)) is None,
        },
{
    let ghost v = interfaces_view(ifs@);
    let mut i: usize = 0;
    assert(v.skip(0) =~= v);
    while i < ifs.len()
        invariant
            i <= ifs@.len(),
            v == interfaces_view(ifs@),
            v.len() == ifs@.len(),
            item_methods(v.skip(i as int)) == item_methods(v),
        decreases ifs@.len() - i,
    {
        assert(v.skip(i as int)[0] == v[i as int]);
        assert(v.skip(i as int).skip(1) =~= v.skip(i + 1));
        proof { reveal_strlit("org.kde.StatusNotifierItem"); }
        if str_eq(ifs[i].0.as_str(), "org.kde.StatusNotifierItem") {
            return Some(&ifs[i].1);
        }
        i = i + 1;
    }
    assert(v.skip(i as int).len() == 0);
    None
}

fn has_method(ms: &Vec<String>, name: &str) -> (r: bool)
    ensures
        r == ms@.map_values(|m: String| m@).contains(name@),
{
    let ghost v = ms@.map_values(|m: String| m@);
    let mut i: usize = 0;
    while i < ms.len()
        invariant
            i <= ms@.len(),
            v == ms@.map_values(|m: String| m@),
            forall|k: int| 0 <= k < i ==> v[k] != name@,
        decreases ms@.len() - i,
    {
        if str_eq(ms[i].as_str(), name) {
            assert(v[i as int] == name@);
            return true;
        }
        i = i + 1;
    }
    false
}

/// How an item is activated, from its introspection XML and its other properties.
pub fn activation_from_introspection(xml: Option<&str>, menu_only: Option<bool>, has_dbus_menu: bool) -> (r: Activation)
    ensures
        r == activation_from_introspection_spec(match xml { Some(x) => Some(x@), None => None }, menu_only, has_dbus_menu),
{
    let x = match xml {
        Some(x) => x,
        None => return Activation::Activate,
    };
    let ifs = match parse_introspection(x) {
        Some(ifs) => ifs,
        None => return Activation::Activate,
    };
    match find_item_methods(&ifs) {
        None => Activation::Activate,
        Some(ms) => {
            proof { reveal_strlit("Activate"); reveal_strlit("ContextMenu"); }
            choose_activation(menu_only, has_dbus_menu, has_method(ms, "Activate"), has_method(ms, "ContextMenu"))
        },
    }
}

/// An item's DBusMenu path: none when it has none or names the root path `/`.
pub fn item_menu_path(path: Option<String>) -> (r: Option<String>)
    ensures
        r matches Some(p) ==> path matches Some(q) && p@ == q@ && p@ != "/"@,
        r is None ==> (path is None || path->0@ == "/"@),
{
    proof { reveal_strlit("/"); }
    match path {
        Some(p) => if str_eq(p.as_str(), "/") { None } else { Some(p) },
        None => None,
    }
}

/// An item's window id: none when it has none or gives 0.
pub fn item_window_id(id: Option<u32>) -> (r: Option<u32>)
    ensures
        r == match id { Some(i) => if i == 0 { None } else { Some(i) }, None => None },
{
    match id {
        Some(i) => if i == 0 { None } else { Some(i) },
        None => None,
    }
}

/// A key name as the menu shows it: `Control` is written `Ctrl`.
pub open spec fn shortcut_key_text(key: Seq<char>) -> Seq<char> {
    if key == "Control"@ { "Ctrl"@ } else { key }
}

/// Items joined by `+`.
pub open spec fn join_plus(items: Seq<Seq<char>>) -> Seq<char>
    decreases items.len(),
{
    if items.len() == 0 {
        seq![]
    } else if items.len() == 1 {
        items[0]
    } else {
        join_plus(items.drop_last()) + seq!['+'] + items.last()
    }
}

/// The text of an entry's first shortcut, keys joined by `+`; empty without a shortcut.
pub open spec fn format_shortcut_spec(shortcuts: Seq<Seq<Seq<char>>>) -> Seq<char> {
    if shortcuts.len() == 0 {
        seq![]
    } else {
        join_plus(shortcuts[0].map_values(|k: Seq<char>| shortcut_key_text(k)))
    }
}

/// The text of an entry's first shortcut, as the menu shows it.
pub fn format_shortcut(shortcuts: &Vec<Vec<String>>) -> (s: String)
    ensures
        s@ == format_shortcut_spec(crate::dbusmenu::str_lists_view(shortcuts@)),
{
    if shortcuts.len() == 0 {
        return String::new();
    }
    let keys = &shortcuts[0];
    let ghost items = keys@.map_values(|k: String| shortcut_key_text(k@));
    assert(crate::dbusmenu::str_lists_view(shortcuts@)[0].map_values(|k: Seq<char>| shortcut_key_text(k)) =~= items);
    let mut out = String::new();
    let mut i: usize = 0;
    while i < keys.len()
        invariant
            i <= keys@.len(),
            items == keys@.map_values(|k: String| shortcut_key_text(k@)),
            out@ == join_plus(items.take(i as int)),
        decreases keys@.len() - i,
    {
        if i > 0 {
            push_str(&mut out, "+");
            proof { reveal_strlit("+"); }
        }
        if str_eq(keys[i].as_str(), "Control") {
            push_str(&mut out, "Ctrl");
        } else {
            push_str(&mut out, keys[i].as_str());
        }
        assert(items.take(i + 1).drop_last() == items.take(i as int));
        i = i + 1;
    }
    assert(items.take(keys@.len() as int) == items);
    out
}

/// A run of label text, underlined when it is the mnemonic character.
#[derive(Debug, Clone)]
pub struct LabelSpan {
    pub text: String,
    pub underline: bool,
}

/// The plain text gathered so far, as a span list (empty when there is none).
pub open spec fn flush_plain(plain: Seq<char>) -> Seq<(Seq<char>, bool)> {
    if plain.len() > 0 { seq![(plain, false)] } else { seq![] }
}

/// The spans of a label given the plain text gathered before it: `__` is a literal
/// underscore, `_` followed by another character marks that character as the mnemonic,
/// and a trailing `_` is kept as is.
pub open spec fn mnemonic_spans(s: Seq<char>, plain: Seq<char>) -> Seq<(Seq<char>, bool)>
    decreases s.len(),
{
    if s.len() == 0 {
        flush_plain(plain)
    } else if s[0] != '_' {
        mnemonic_spans(s.drop_first(), plain.push(s[0]))
    } else if s.len() == 1 {
        mnemonic_spans(s.drop_first(), plain.push('_'))
    } else if s[1] == '_' {
        mnemonic_spans(s.skip(2), plain.push('_'))
    } else {
        flush_plain(plain) + seq![(seq![s[1]], true)] + mnemonic_spans(s.skip(2), seq![])
    }
}

/// The text and underline flag of each span.
pub open spec fn spans_view(v: Seq<LabelSpan>) -> Seq<(Seq<char>, bool)> {
    v.map_values(|sp: LabelSpan| (sp.text@, sp.underline))
}

/// Splits a menu label into plain runs and underlined mnemonic characters.
pub fn decode_mnemonics(label: &str) -> (r: Vec<LabelSpan>)
    ensures
        spans_view(r@) == mnemonic_spans(label@, seq![]),
{
    let chars = chars_of(label);
    let ghost s = label@;
    let mut spans: Vec<LabelSpan> = Vec::new();
    let mut plain: Vec<char> = Vec::new();
    let mut i: usize = 0;
    assert(s.skip(0) == s);
    while i < chars.len()
        invariant
            i <= chars@.len(),
            chars@ == s,
            spans_view(spans@) + mnemonic_spans(s.skip(i as int), plain@) == mnemonic_spans(s, seq![]),
        decreases chars@.len() - i,
    {
        let c = chars[i];
        let ghost rest = s.skip(i as int);
        if c != '_' {
            assert(rest.drop_first() == s.skip(i + 1));
            plain.push(c);
            i = i + 1;
        } else if i + 1 == chars.len() {
            assert(rest.drop_first() == s.skip(i + 1));
            plain.push('_');
            i = i + 1;
        } else if chars[i + 1] == '_' {
            assert(rest.skip(2) == s.skip(i + 2));
            plain.push('_');
            i = i + 2;
        } else {
            assert(rest.skip(2) == s.skip(i + 2));
            let ghost before = spans_view(spans@);
            if plain.len() > 0 {
                let text = string_of(plain.as_slice());
                spans.push(LabelSpan { text, underline: false });
                assert(spans_view(spans@) =~= before + flush_plain(plain@));
            } else {
                assert(spans_view(spans@) =~= before + flush_plain(plain@));
            }
            let ghost mid = spans_view(spans@);
            let m = string_of(&[chars[i + 1]]);
            assert(m@ == seq![s[i + 1]]);
            spans.push(LabelSpan { text: m, underline: true });
            assert(spans_view(spans@) =~= mid + seq![(seq![s[i + 1]], true)]);
            plain = Vec::new();
            assert(plain@ =~= seq![]);
            i = i + 2;
        }
    }
    assert(s.skip(i as int).len() == 0);
    let ghost before = spans_view(spans@);
    if plain.len() > 0 {
        let text = string_of(plain.as_slice());
        spans.push(LabelSpan { text, underline: false });
        assert(spans_view(spans@) =~= before + flush_plain(plain@));
    } else {
        assert(spans_view(spans@) =~= before + flush_plain(plain@));
    }
    spans
}

/// The indicator drawn before a menu entry that toggles.
#[derive(Debug, Clone, Copy, PartialEq, Eq, Structural)]
pub enum ToggleIndicator {
    Check,
    FilledCircle,
    Circle,
    Dash,
}

/// The indicator of an entry: a check for a checked check box, a filled circle for a
/// selected radio button, a circle for another radio button, a dash for an undecided
/// toggle, nothing otherwise.
pub open spec fn toggle_indicator_spec(t: ToggleType, s: ToggleState) -> Option<ToggleIndicator> {
    if t == ToggleType::Checkmark && s == ToggleState::On {
        Some(ToggleIndicator::Check)
    } else if t == ToggleType::Radio && s == ToggleState::On {
        Some(ToggleIndicator::FilledCircle)
    } else if t == ToggleType::Radio {
        Some(ToggleIndicator::Circle)
    } else if s == ToggleState::Indeterminate && t != ToggleType::Empty {
        Some(ToggleIndicator::Dash)
    } else {
        None
    }
}

/// The indicator drawn before a menu entry.
pub fn toggle_indicator(t: ToggleType, s: ToggleState) -> (r: Option<ToggleIndicator>)
    ensures
        r == toggle_indicator_spec(t, s),
{
    match (t, s) {
        (ToggleType::Checkmark, ToggleState::On) => Some(ToggleIndicator::Check),
        (ToggleType::Radio, ToggleState::On) => Some(ToggleIndicator::FilledCircle),
        (ToggleType::Radio, _) => Some(ToggleIndicator::Circle),
        (_, ToggleState::Indeterminate) if t != ToggleType::Empty => Some(ToggleIndicator::Dash),
        _ => None,
    }
}

} // verus!
