use vstd::prelude::*;

use crate::text::str_eq;

verus! {

/// Kind of a menu entry.
#[derive(Debug, Clone, Copy, PartialEq, Eq, Structural)]
pub enum LayoutItemType {
    Standard,
    Separator,
    Unknown,
}

/// Whether a menu entry shows a check mark or a radio button.
#[derive(Debug, Clone, Copy, PartialEq, Eq, Structural)]
pub enum ToggleType {
    Empty,
    Checkmark,
    Radio,
}

/// State of a toggle.
#[derive(Debug, Clone, Copy, PartialEq, Eq, Structural)]
pub enum ToggleState {
    Off,
    On,
    Indeterminate,
}

/// How the children of a menu entry are shown.
#[derive(Debug, Clone, Copy, PartialEq, Eq, Structural)]
pub enum ChildrenDisplay {
    NoDisplay,
    Submenu,
    Unknown,
}

/// How a menu entry should be presented.
#[derive(Debug, Clone, Copy, PartialEq, Eq, Structural)]
pub enum Disposition {
    Normal,
    Informative,
    Warning,
    Alert,
    Unknown,
}

/// The entry kind that a `type` property names.
pub open spec fn item_type_of(t: Seq<char>) -> LayoutItemType {
    if t == "standard"@ {
        LayoutItemType::Standard
    } else if t == "separator"@ {
        LayoutItemType::Separator
    } else {
        LayoutItemType::Unknown
    }
}

fn parse_item_type(t: &str) -> (r: LayoutItemType)
    ensures
        r == item_type_of(t@),
{
    if str_eq(t, "standard") {
        LayoutItemType::Standard
    } else if str_eq(t, "separator") {
        LayoutItemType::Separator
    } else {
        LayoutItemType::Unknown
    }
}

/// The toggle kind that a `toggle-type` property names.
pub open spec fn toggle_type_of(t: Seq<char>) -> ToggleType {
    if t == "checkmark"@ {
        ToggleType::Checkmark
    } else if t == "radio"@ {
        ToggleType::Radio
    } else {
        ToggleType::Empty
    }
}

fn parse_toggle_type(t: &str) -> (r: ToggleType)
    ensures
        r == toggle_type_of(t@),
{
    if str_eq(t, "checkmark") {
        ToggleType::Checkmark
    } else if str_eq(t, "radio") {
        ToggleType::Radio
    } else {
        ToggleType::Empty
    }
}

/// The toggle state that a `toggle-state` number stands for.
pub open spec fn toggle_state_of(n: i32) -> ToggleState {
    if n == 0 {
        ToggleState::Off
    } else if n == 1 {
        ToggleState::On
    } else {
        ToggleState::Indeterminate
    }
}

/// The children display that a `children-display` property names.
pub open spec fn children_display_of(t: Seq<char>) -> ChildrenDisplay {
    if t == "none"@ {
        ChildrenDisplay::NoDisplay
    } else if t == "submenu"@ {
        ChildrenDisplay::Submenu
    } else {
        ChildrenDisplay::Unknown
    }
}

fn parse_children_display(t: &str) -> (r: ChildrenDisplay)
    ensures
        r == children_display_of(t@),
{
    if str_eq(t, "none") {
        ChildrenDisplay::NoDisplay
    } else if str_eq(t, "submenu") {
        ChildrenDisplay::Submenu
    } else {
        ChildrenDisplay::Unknown
    }
}

/// The disposition that a `disposition` property names.
pub open spec fn disposition_of(t: Seq<char>) -> Disposition {
    if t == "informative"@ {
        Disposition::Informative
    } else if t == "warning"@ {
        Disposition::Warning
    } else if t == "alert"@ {
        Disposition::Alert
    } else {
        Disposition::Unknown
    }
}

fn parse_disposition(t: &str) -> (r: Disposition)
    ensures
        r == disposition_of(t@),
{
    if str_eq(t, "informative") {
        Disposition::Informative
    } else if str_eq(t, "warning") {
        Disposition::Warning
    } else if str_eq(t, "alert") {
        Disposition::Alert
    } else {
        Disposition::Unknown
    }
}

/// A DBusMenu property value, sorted by the shapes that the menu logic reads: a string, a
/// boolean, a 32-bit integer, a byte array, an array of string arrays, or anything else.
#[derive(Debug)]
pub enum PropValue {
    Str(String),
    Bool(bool),
    Int32(i32),
    Bytes(Vec<u8>),
    StrLists(Vec<Vec<String>>),
    Other,
}

/// The mathematical content of a property value.
pub enum PropValueView {
    Str(Seq<char>),
    Bool(bool),
    Int32(i32),
    Bytes(Seq<u8>),
    StrLists(Seq<Seq<Seq<char>>>),
    Other,
}

/// The characters of each string of a list.
pub open spec fn strings_view(v: Vec<String>) -> Seq<Seq<char>> {
    v@.map_values(|s: String| s@)
}

/// The characters of each string of each list.
pub open spec fn str_lists_view(v: Seq<Vec<String>>) -> Seq<Seq<Seq<char>>> {
    v.map_values(|row: Vec<String>| strings_view(row))
}

impl View for PropValue {
    type V = PropValueView;

    open spec fn view(&self) -> PropValueView {
        match self {
            PropValue::Str(s) => PropValueView::Str(s@),
            PropValue::Bool(b) => PropValueView::Bool(*b),
            PropValue::Int32(n) => PropValueView::Int32(*n),
            PropValue::Bytes(b) => PropValueView::Bytes(b@),
            PropValue::StrLists(v) => PropValueView::StrLists(str_lists_view(v@)),
            PropValue::Other => PropValueView::Other,
        }
    }
}

fn clone_strings(v: &Vec<String>) -> (r: Vec<String>)
    ensures
        strings_view(r) == strings_view(*v),
{
    let mut r: Vec<String> = Vec::new();
    let mut i: usize = 0;
    while i < v.len()
        invariant
            i <= v@.len(),
            r@.len() == i,
            forall|j: int| 0 <= j < i ==> #[trigger] r@[j]@ == v@[j]@,
        decreases v@.len() - i,
    {
        r.push(v[i].clone());
        i = i + 1;
    }
    assert(strings_view(r) =~= strings_view(*v));
    r
}

fn clone_str_lists(v: &Vec<Vec<String>>) -> (r: Vec<Vec<String>>)
    ensures
        str_lists_view(r@) == str_lists_view(v@),
{
    let mut r: Vec<Vec<String>> = Vec::new();
    let mut i: usize = 0;
    while i < v.len()
        invariant
            i <= v@.len(),
            r@.len() == i,
            forall|j: int| 0 <= j < i ==> #[trigger] strings_view(r@[j]) == strings_view(v@[j]),
        decreases v@.len() - i,
    {
        r.push(clone_strings(&v[i]));
        i = i + 1;
    }
    assert(str_lists_view(r@) =~= str_lists_view(v@));
    r
}

fn clone_bytes(v: &Vec<u8>) -> (r: Vec<u8>)
    ensures
        r@ == v@,
{
    let mut r: Vec<u8> = Vec::new();
    let mut i: usize = 0;
    while i < v.len()
        invariant
            i <= v@.len(),
            r@ == v@.take(i as int),
        decreases v@.len() - i,
    {
        r.push(v[i]);
        assert(v@.take(i + 1) == v@.take(i as int).push(v@[i as int]));
        i = i + 1;
    }
    assert(v@.take(v@.len() as int) == v@);
    r
}

impl PropValue {
    /// A copy of the value.
    pub fn duplicate(&self) -> (r: PropValue)
        ensures
            r@ == self@,
    {
        match self {
            PropValue::Str(s) => PropValue::Str(s.clone()),
            PropValue::Bool(b) => PropValue::Bool(*b),
            PropValue::Int32(n) => PropValue::Int32(*n),
            PropValue::Bytes(b) => PropValue::Bytes(clone_bytes(b)),
            PropValue::StrLists(v) => PropValue::StrLists(clone_str_lists(v)),
            PropValue::Other => PropValue::Other,
        }
    }
}


/// The properties of one menu entry, with the values that the protocol defines as defaults
/// for absent properties; properties that the menu does not interpret are kept by name.
#[derive(Debug)]
pub struct LayoutProperties {
    pub ty: LayoutItemType,
    pub label: String,
    pub enabled: bool,
    pub visible: bool,
    pub icon_name: String,
    pub icon_data: Vec<u8>,
    pub shortcut: Vec<Vec<String>>,
    pub toggle_type: ToggleType,
    pub toggle_state: ToggleState,
    pub children_display: ChildrenDisplay,
    pub disposition: Disposition,
    pub unknown: Vec<(String, PropValue)>,
}

/// The mathematical content of the properties of a menu entry.
#[verifier::ext_equal]
pub struct LayoutPropertiesView {
    pub ty: LayoutItemType,
    pub label: Seq<char>,
    pub enabled: bool,
    pub visible: bool,
    pub icon_name: Seq<char>,
    pub icon_data: Seq<u8>,
    pub shortcut: Seq<Seq<Seq<char>>>,
    pub toggle_type: ToggleType,
    pub toggle_state: ToggleState,
    pub children_display: ChildrenDisplay,
    pub disposition: Disposition,
    pub unknown: Seq<(Seq<char>, PropValueView)>,
}

/// The names and values of the uninterpreted properties.
pub open spec fn pairs_view(v: Seq<(String, PropValue)>) -> Seq<(Seq<char>, PropValueView)> {
    v.map_values(|p: (String, PropValue)| (p.0@, p.1@))
}

impl View for LayoutProperties {
    type V = LayoutPropertiesView;

    open spec fn view(&self) -> LayoutPropertiesView {
        LayoutPropertiesView {
            ty: self.ty,
            label: self.label@,
            enabled: self.enabled,
            visible: self.visible,
            icon_name: self.icon_name@,
            icon_data: self.icon_data@,
            shortcut: str_lists_view(self.shortcut@),
            toggle_type: self.toggle_type,
            toggle_state: self.toggle_state,
            children_display: self.children_display,
            disposition: self.disposition,
            unknown: pairs_view(self.unknown@),
        }
    }
}

/// The protocol's defaults: a standard, enabled, visible entry with no label, icon,
/// shortcut or toggle, no special children display and a normal disposition.
pub open spec fn default_properties() -> LayoutPropertiesView {
    LayoutPropertiesView {
        ty: LayoutItemType::Standard,
        label: Seq::empty(),
        enabled: true,
        visible: true,
        icon_name: Seq::empty(),
        icon_data: Seq::empty(),
        shortcut: Seq::empty(),
        toggle_type: ToggleType::Empty,
        toggle_state: ToggleState::Indeterminate,
        children_display: ChildrenDisplay::NoDisplay,
        disposition: Disposition::Normal,
        unknown: Seq::empty(),
    }
}

/// Position of the first pair with the given name, or -1.
pub open spec fn key_position(s: Seq<(Seq<char>, PropValueView)>, key: Seq<char>) -> int
    decreases s.len(),
{
    if s.len() == 0 {
        -1
    } else {
        let p = key_position(s.drop_last(), key);
        if p >= 0 {
            p
        } else if s.last().0 == key {
            s.len() - 1
        } else {
            -1
        }
    }
}

proof fn lemma_key_position_bounds(s: Seq<(Seq<char>, PropValueView)>, key: Seq<char>)
    ensures
        -1 <= key_position(s, key) < s.len(),
        key_position(s, key) >= 0 ==> s[key_position(s, key)].0 == key,
        key_position(s, key) == -1 ==> forall|i: int| 0 <= i < s.len() ==> s[i].0 != key,
        key_position(s, key) >= 0 ==> forall|i: int| 0 <= i < key_position(s, key) ==> s[i].0 != key,
    decreases s.len(),
{
    if s.len() > 0 {
        lemma_key_position_bounds(s.drop_last(), key);
        assert forall|i: int| 0 <= i < s.len() - 1 implies s.drop_last()[i] == s[i] by {}
    }
}

proof fn lemma_key_position_found(s: Seq<(Seq<char>, PropValueView)>, key: Seq<char>, i: int)
    requires
        0 <= i < s.len(),
        s[i].0 == key,
        forall|j: int| 0 <= j < i ==> s[j].0 != key,
    ensures
        key_position(s, key) == i,
    decreases s.len(),
{
    if i < s.len() - 1 {
        lemma_key_position_found(s.drop_last(), key, i);
    } else {
        lemma_key_position_bounds(s.drop_last(), key);
        if key_position(s.drop_last(), key) >= 0 {
            let p = key_position(s.drop_last(), key);
            assert(s.drop_last()[p] == s[p]);
        }
    }
}

/// Sets the value of a named property: replaces the first pair with that name, or appends
/// a new pair.
pub open spec fn assoc_insert(
    s: Seq<(Seq<char>, PropValueView)>,
    key: Seq<char>,
    value: PropValueView,
) -> Seq<(Seq<char>, PropValueView)> {
    let p = key_position(s, key);
    if p >= 0 {
        s.update(p, (key, value))
    } else {
        s.push((key, value))
    }
}

/// Drops every pair with the given name.
pub open spec fn assoc_remove(s: Seq<(Seq<char>, PropValueView)>, key: Seq<char>) -> Seq<
    (Seq<char>, PropValueView),
>
    decreases s.len(),
{
    if s.len() == 0 {
        s
    } else if s.last().0 == key {
        assoc_remove(s.drop_last(), key)
    } else {
        assoc_remove(s.drop_last(), key).push(s.last())
    }
}

/// Whether some pair has the given name.
pub open spec fn assoc_contains(s: Seq<(Seq<char>, PropValueView)>, key: Seq<char>) -> bool {
    exists|i: int| 0 <= i < s.len() && s[i].0 == key
}

/// The effect of one property update on the properties of an entry: a known property takes
/// the value when it has the expected shape and is left alone otherwise; any other property
/// is stored under its name.
pub open spec fn apply_update(
    p: LayoutPropertiesView,
    key: Seq<char>,
    value: PropValueView,
) -> LayoutPropertiesView {
    if key == "type"@ {
        match value {
            PropValueView::Str(t) => LayoutPropertiesView { ty: item_type_of(t), ..p },
            _ => p,
        }
    } else if key == "label"@ {
        match value {
            PropValueView::Str(t) => LayoutPropertiesView { label: t, ..p },
            _ => p,
        }
    } else if key == "enabled"@ {
        match value {
            PropValueView::Bool(b) => LayoutPropertiesView { enabled: b, ..p },
            _ => p,
        }
    } else if key == "visible"@ {
        match value {
            PropValueView::Bool(b) => LayoutPropertiesView { visible: b, ..p },
            _ => p,
        }
    } else if key == "icon-name"@ {
        match value {
            PropValueView::Str(t) => LayoutPropertiesView { icon_name: t, ..p },
            _ => p,
        }
    } else if key == "icon-data"@ {
        match value {
            PropValueView::Bytes(b) => LayoutPropertiesView { icon_data: b, ..p },
            _ => p,
        }
    } else if key == "shortcut"@ {
        match value {
            PropValueView::StrLists(l) => LayoutPropertiesView { shortcut: l, ..p },
            _ => p,
        }
    } else if key == "toggle-type"@ {
        match value {
            PropValueView::Str(t) => LayoutPropertiesView { toggle_type: toggle_type_of(t), ..p },
            _ => p,
        }
    } else if key == "toggle-state"@ {
        match value {
            PropValueView::Int32(n) => LayoutPropertiesView { toggle_state: toggle_state_of(n), ..p },
            _ => p,
        }
    } else if key == "children-display"@ {
        match value {
            PropValueView::Str(t) => LayoutPropertiesView {
                children_display: children_display_of(t),
                ..p
            },
            _ => p,
        }
    } else if key == "disposition"@ {
        match value {
            PropValueView::Str(t) => LayoutPropertiesView { disposition: disposition_of(t), ..p },
            _ => p,
        }
    } else {
        LayoutPropertiesView { unknown: assoc_insert(p.unknown, key, value), ..p }
    }
}

/// The effect of a list of property updates, applied in order.
pub open spec fn apply_updates_spec(
    p: LayoutPropertiesView,
    updates: Seq<(Seq<char>, PropValueView)>,
) -> LayoutPropertiesView
    decreases updates.len(),
{
    if updates.len() == 0 {
        p
    } else {
        let last = updates.last();
        apply_update(apply_updates_spec(p, updates.drop_last()), last.0, last.1)
    }
}

/// The effect of removing one property: a known property returns to its default, any
/// other property is forgotten.
pub open spec fn remove_property(p: LayoutPropertiesView, name: Seq<char>) -> LayoutPropertiesView {
    let d = default_properties();
    if name == "type"@ {
        LayoutPropertiesView { ty: d.ty, ..p }
    } else if name == "label"@ {
        LayoutPropertiesView { label: Seq::empty(), ..p }
    } else if name == "enabled"@ {
        LayoutPropertiesView { enabled: d.enabled, ..p }
    } else if name == "visible"@ {
        LayoutPropertiesView { visible: d.visible, ..p }
    } else if name == "icon-name"@ {
        LayoutPropertiesView { icon_name: Seq::empty(), ..p }
    } else if name == "icon-data"@ {
        LayoutPropertiesView { icon_data: Seq::empty(), ..p }
    } else if name == "shortcut"@ {
        LayoutPropertiesView { shortcut: Seq::empty(), ..p }
    } else if name == "toggle-type"@ {
        LayoutPropertiesView { toggle_type: d.toggle_type, ..p }
    } else if name == "toggle-state"@ {
        LayoutPropertiesView { toggle_state: d.toggle_state, ..p }
    } else if name == "children-display"@ {
        LayoutPropertiesView { children_display: d.children_display, ..p }
    } else if name == "disposition"@ {
        LayoutPropertiesView { disposition: d.disposition, ..p }
    } else {
        LayoutPropertiesView { unknown: assoc_remove(p.unknown, name), ..p }
    }
}

/// The effect of removing a list of properties, in order.
pub open spec fn remove_properties_spec(
    p: LayoutPropertiesView,
    names: Seq<Seq<char>>,
) -> LayoutPropertiesView
    decreases names.len(),
{
    if names.len() == 0 {
        p
    } else {
        remove_property(remove_properties_spec(p, names.drop_last()), names.last())
    }
}

impl Default for LayoutProperties {
    fn default() -> (p: LayoutProperties)
        ensures
            p@ == default_properties(),
    {
        let p = LayoutProperties {
            ty: LayoutItemType::Standard,
            label: String::new(),
            enabled: true,
            visible: true,
            icon_name: String::new(),
            icon_data: Vec::new(),
            shortcut: Vec::new(),
            toggle_type: ToggleType::Empty,
            toggle_state: ToggleState::Indeterminate,
            children_display: ChildrenDisplay::NoDisplay,
            disposition: Disposition::Normal,
            unknown: Vec::new(),
        };
        assert(p@.shortcut =~= Seq::empty());
        assert(p@.unknown =~= Seq::empty());
        p
    }
}

impl LayoutProperties {
    fn insert_unknown(&mut self, key: &String, value: &PropValue)
        ensures
            final(self)@ == (LayoutPropertiesView {
                unknown: assoc_insert(old(self)@.unknown, key@, value@),
                ..old(self)@
            }),
    {
        let ghost s = pairs_view(self.unknown@);
        let mut i: usize = 0;
        while i < self.unknown.len()
            invariant
                i <= self.unknown@.len(),
                s == pairs_view(self.unknown@),
                self@ == old(self)@,
                forall|j: int| 0 <= j < i ==> #[trigger] s[j].0 != key@,
            decreases self.unknown@.len() - i,
        {
            if str_eq(self.unknown[i].0.as_str(), key.as_str()) {
                proof {
                    lemma_key_position_found(s, key@, i as int);
                }
                let pair = (key.clone(), value.duplicate());
                self.unknown.set(i, pair);
                assert(pairs_view(self.unknown@) =~= s.update(i as int, (key@, value@)));
                return;
            }
            i = i + 1;
        }
        proof {
            lemma_key_position_bounds(s, key@);
            if key_position(s, key@) >= 0 {
                assert(s[key_position(s, key@)].0 == key@);
            }
        }
        self.unknown.push((key.clone(), value.duplicate()));
        assert(pairs_view(self.unknown@) =~= s.push((key@, value@)));
    }

    fn remove_unknown(&mut self, key: &String)
        ensures
            final(self)@ == (LayoutPropertiesView {
                unknown: assoc_remove(old(self)@.unknown, key@),
                ..old(self)@
            }),
    {
        let ghost s = pairs_view(self.unknown@);
        let mut kept: Vec<(String, PropValue)> = Vec::new();
        let mut old_pairs: Vec<(String, PropValue)> = Vec::new();
        std::mem::swap(&mut old_pairs, &mut self.unknown);
        assert(pairs_view(old_pairs@) == s);
        let mut i: usize = 0;
        while i < old_pairs.len()
            invariant
                i <= old_pairs@.len(),
                s == pairs_view(old_pairs@),
                pairs_view(kept@) == assoc_remove(s.take(i as int), key@),
            decreases old_pairs@.len() - i,
        {
            assert(s.take(i + 1).drop_last() == s.take(i as int));
            if !str_eq(old_pairs[i].0.as_str(), key.as_str()) {
                let pair = (old_pairs[i].0.clone(), old_pairs[i].1.duplicate());
                kept.push(pair);
                assert(pairs_view(kept@) =~= assoc_remove(s.take(i as int), key@).push(s[i as int]));
            }
            i = i + 1;
        }
        assert(s.take(old_pairs@.len() as int) == s);
        self.unknown = kept;
    }

    fn apply_one(&mut self, key: &String, value: &PropValue)
        ensures
            final(self)@ == apply_update(old(self)@, key@, value@),
    {
        let k = key.as_str();
        if str_eq(k, "type") {
            if let PropValue::Str(t) = value {
                self.ty = parse_item_type(t.as_str());
            }
        } else if str_eq(k, "label") {
            if let PropValue::Str(t) = value {
                self.label = t.clone();
            }
        } else if str_eq(k, "enabled") {
            if let PropValue::Bool(b) = value {
                self.enabled = *b;
            }
        } else if str_eq(k, "visible") {
            if let PropValue::Bool(b) = value {
                self.visible = *b;
            }
        } else if str_eq(k, "icon-name") {
            if let PropValue::Str(t) = value {
                self.icon_name = t.clone();
            }
        } else if str_eq(k, "icon-data") {
            if let PropValue::Bytes(b) = value {
                self.icon_data = clone_bytes(b);
            }
        } else if str_eq(k, "shortcut") {
            if let PropValue::StrLists(l) = value {
                self.shortcut = clone_str_lists(l);
            }
        } else if str_eq(k, "toggle-type") {
            if let PropValue::Str(t) = value {
                self.toggle_type = parse_toggle_type(t.as_str());
            }
        } else if str_eq(k, "toggle-state") {
            if let PropValue::Int32(n) = value {
                self.toggle_state = if *n == 0 {
                    ToggleState::Off
                } else if *n == 1 {
                    ToggleState::On
                } else {
                    ToggleState::Indeterminate
                };
            }
        } else if str_eq(k, "children-display") {
            if let PropValue::Str(t) = value {
                self.children_display = parse_children_display(t.as_str());
            }
        } else if str_eq(k, "disposition") {
            if let PropValue::Str(t) = value {
                self.disposition = parse_disposition(t.as_str());
            }
        } else {
            self.insert_unknown(key, value);
        }
    }

    /// Applies property updates in order: known properties take values of the expected
    /// shape, other properties are stored under their names.
    pub fn apply_updates(&mut self, updates: &Vec<(String, PropValue)>)
        ensures
            final(self)@ == apply_updates_spec(old(self)@, pairs_view(updates@)),
    {
        let ghost u = pairs_view(updates@);
        let mut i: usize = 0;
        while i < updates.len()
            invariant
                i <= updates@.len(),
                u == pairs_view(updates@),
                self@ == apply_updates_spec(old(self)@, u.take(i as int)),
            decreases updates@.len() - i,
        {
            assert(u.take(i + 1).drop_last() == u.take(i as int));
            self.apply_one(&updates[i].0, &updates[i].1);
            i = i + 1;
        }
        assert(u.take(updates@.len() as int) == u);
    }

    fn remove_one(&mut self, name: &String)
        ensures
            final(self)@ == remove_property(old(self)@, name@),
    {
        let k = name.as_str();
        if str_eq(k, "type") {
            self.ty = LayoutItemType::Standard;
        } else if str_eq(k, "label") {
            self.label = String::new();
        } else if str_eq(k, "enabled") {
            self.enabled = true;
        } else if str_eq(k, "visible") {
            self.visible = true;
        } else if str_eq(k, "icon-name") {
            self.icon_name = String::new();
        } else if str_eq(k, "icon-data") {
            self.icon_data = Vec::new();
        } else if str_eq(k, "shortcut") {
            self.shortcut = Vec::new();
            assert(self@.shortcut =~= Seq::empty());
        } else if str_eq(k, "toggle-type") {
            self.toggle_type = ToggleType::Empty;
        } else if str_eq(k, "toggle-state") {
            self.toggle_state = ToggleState::Indeterminate;
        } else if str_eq(k, "children-display") {
            self.children_display = ChildrenDisplay::NoDisplay;
        } else if str_eq(k, "disposition") {
            self.disposition = Disposition::Normal;
        } else {
            self.remove_unknown(name);
        }
    }

    /// Removes properties in order: a known property returns to its default, any other
    /// property is forgotten.
    pub fn remove(&mut self, names: &Vec<String>)
        ensures
            final(self)@ == remove_properties_spec(old(self)@, names@.map_values(|s: String| s@)),
    {
        let ghost u = names@.map_values(|s: String| s@);
        let mut i: usize = 0;
        while i < names.len()
            invariant
                i <= names@.len(),
                u == names@.map_values(|s: String| s@),
                self@ == remove_properties_spec(old(self)@, u.take(i as int)),
            decreases names@.len() - i,
        {
            assert(u.take(i + 1).drop_last() == u.take(i as int));
            self.remove_one(&names[i]);
            i = i + 1;
        }
        assert(u.take(names@.len() as int) == u);
    }

    /// Whether an uninterpreted property of this name is stored.
    pub fn has_unknown(&self, name: &str) -> (r: bool)
        ensures
            r == assoc_contains(self@.unknown, name@),
    {
        let mut i: usize = 0;
        while i < self.unknown.len()
            invariant
                i <= self.unknown@.len(),
                forall|j: int| 0 <= j < i ==> #[trigger] pairs_view(self.unknown@)[j].0 != name@,
            decreases self.unknown@.len() - i,
        {
            if str_eq(self.unknown[i].0.as_str(), name) {
                assert(pairs_view(self.unknown@)[i as int].0 == name@);
                return true;
            }
            i = i + 1;
        }
        false
    }
}


/// One entry of a DBusMenu, with its submenu entries.
#[derive(Debug)]
pub struct Layout {
    pub id: i32,
    pub properties: LayoutProperties,
    pub children: Vec<Layout>,
}

/// The mathematical content of a menu tree.
#[verifier::ext_equal]
pub struct LayoutView {
    pub id: i32,
    pub properties: LayoutPropertiesView,
    pub children: Seq<LayoutView>,
}

/// The content of a menu tree.
pub open spec fn layout_view(l: Layout) -> LayoutView
    decreases l,
{
    LayoutView { id: l.id, properties: l.properties@, children: children_view(l.children@) }
}

/// The contents of a list of menu trees.
pub open spec fn children_view(s: Seq<Layout>) -> Seq<LayoutView>
    decreases s,
{
    if s.len() == 0 {
        Seq::empty()
    } else {
        children_view(s.drop_last()).push(layout_view(s.last()))
    }
}

impl View for Layout {
    type V = LayoutView;

    open spec fn view(&self) -> LayoutView {
        layout_view(*self)
    }
}

proof fn lemma_children_view(s: Seq<Layout>)
    ensures
        children_view(s).len() == s.len(),
        forall|i: int| 0 <= i < s.len() ==> #[trigger] children_view(s)[i] == layout_view(s[i]),
    decreases s.len(),
{
    if s.len() > 0 {
        lemma_children_view(s.drop_last());
        assert forall|i: int| 0 <= i < s.len() implies #[trigger] children_view(s)[i] == layout_view(s[i]) by {
            if i < s.len() - 1 {
                assert(s.drop_last()[i] == s[i]);
            }
        }
    }
}

/// The first entry, in depth-first order with a parent before its children, that has
/// the given id.
pub open spec fn find_view(v: LayoutView, id: i32) -> Option<LayoutView>
    decreases v,
{
    if v.id == id {
        Some(v)
    } else {
        find_in(v.children, id)
    }
}

/// The first entry with the given id among a list of trees, in order.
pub open spec fn find_in(s: Seq<LayoutView>, id: i32) -> Option<LayoutView>
    decreases s,
{
    if s.len() == 0 {
        None
    } else {
        match find_in(s.drop_last(), id) {
            Some(x) => Some(x),
            None => find_view(s.last(), id),
        }
    }
}

proof fn lemma_find_in_first(s: Seq<LayoutView>, id: i32, i: int)
    requires
        0 <= i < s.len(),
        find_in(s.take(i), id) is None,
    ensures
        find_in(s.take(i + 1), id) == find_view(s[i], id),
{
    assert(s.take(i + 1).drop_last() == s.take(i));
}

proof fn lemma_find_in_prefix(s: Seq<LayoutView>, id: i32, i: int)
    requires
        0 <= i <= s.len(),
        find_in(s.take(i), id) is Some,
    ensures
        find_in(s, id) == find_in(s.take(i), id),
    decreases s.len() - i,
{
    if i < s.len() {
        assert(s.take(i + 1).drop_last() == s.take(i));
        lemma_find_in_prefix(s, id, i + 1);
    } else {
        assert(s.take(i) == s);
    }
}

/// A change to one menu entry: the entry replaced by another tree, or its properties
/// updated, or some of its properties removed.
pub enum NodeEdit<'a> {
    Replace(Layout),
    Update(&'a Vec<(String, PropValue)>),
    Remove(&'a Vec<String>),
}

/// The content of a change to one menu entry.
pub enum NodeEditView {
    Replace(LayoutView),
    Update(Seq<(Seq<char>, PropValueView)>),
    Remove(Seq<Seq<char>>),
}

/// The content of a change.
pub open spec fn edit_view(e: NodeEdit) -> NodeEditView {
    match e {
        NodeEdit::Replace(l) => NodeEditView::Replace(l@),
        NodeEdit::Update(u) => NodeEditView::Update(pairs_view(u@)),
        NodeEdit::Remove(n) => NodeEditView::Remove(n@.map_values(|s: String| s@)),
    }
}

/// The entry after the change.
pub open spec fn edit_node(n: LayoutView, e: NodeEditView) -> LayoutView {
    match e {
        NodeEditView::Replace(r) => r,
        NodeEditView::Update(u) => LayoutView { properties: apply_updates_spec(n.properties, u), ..n },
        NodeEditView::Remove(names) => LayoutView {
            properties: remove_properties_spec(n.properties, names),
            ..n
        },
    }
}

/// The tree after the change is made to the entry that `find_view` finds; unchanged when
/// no entry has the id.
pub open spec fn edit_first(v: LayoutView, id: i32, e: NodeEditView) -> LayoutView
    decreases v,
{
    if v.id == id {
        edit_node(v, e)
    } else {
        LayoutView { children: edit_first_in(v.children, id, e), ..v }
    }
}

/// A list of trees after the change is made to the first entry with the id.
pub open spec fn edit_first_in(s: Seq<LayoutView>, id: i32, e: NodeEditView) -> Seq<LayoutView>
    decreases s,
{
    if s.len() == 0 {
        s
    } else if find_in(s.drop_last(), id) is Some {
        edit_first_in(s.drop_last(), id, e).push(s.last())
    } else {
        s.drop_last().push(edit_first(s.last(), id, e))
    }
}

proof fn lemma_edit_absent(v: LayoutView, id: i32, e: NodeEditView)
    requires
        find_view(v, id) is None,
    ensures
        edit_first(v, id, e) == v,
    decreases v,
{
    lemma_edit_in_absent(v.children, id, e);
}

proof fn lemma_edit_in_absent(s: Seq<LayoutView>, id: i32, e: NodeEditView)
    requires
        find_in(s, id) is None,
    ensures
        edit_first_in(s, id, e) == s,
    decreases s,
{
    if s.len() > 0 {
        lemma_edit_in_absent(s.drop_last(), id, e);
        lemma_edit_absent(s.last(), id, e);
        assert(s.drop_last().push(s.last()) == s);
    }
}

proof fn lemma_edit_in_at(s: Seq<LayoutView>, id: i32, e: NodeEditView, i: int)
    requires
        0 <= i < s.len(),
        find_in(s.take(i), id) is None,
        find_view(s[i], id) is Some,
    ensures
        edit_first_in(s, id, e) == s.update(i, edit_first(s[i], id, e)),
    decreases s.len(),
{
    if i == s.len() - 1 {
        assert(s.take(i) == s.drop_last());
        assert(s.drop_last().push(edit_first(s[i], id, e)) == s.update(i, edit_first(s[i], id, e)));
    } else {
        assert(s.drop_last().take(i) == s.take(i));
        assert(s.drop_last()[i] == s[i]);
        lemma_edit_in_at(s.drop_last(), id, e, i);
        lemma_find_in_first(s.drop_last(), id, i);
        lemma_find_in_prefix(s.drop_last(), id, i + 1);
        assert(edit_first_in(s.drop_last(), id, e).push(s.last()) == s.update(i, edit_first(s[i], id, e)));
    }
}

impl Layout {
    /// The first entry, parent before children, with the given id.
    pub fn find(&self, id: i32) -> (r: Option<&Layout>)
        ensures
            match r {
                Some(x) => find_view(self@, id) == Some(x@),
                None => find_view(self@, id) is None,
            },
        decreases self,
    {
        if self.id == id {
            return Some(self);
        }
        proof {
            lemma_children_view(self.children@);
        }
        let ghost cs = children_view(self.children@);
        let mut i: usize = 0;
        while i < self.children.len()
            invariant
                i <= self.children@.len(),
                self.id != id,
                cs == children_view(self.children@),
                cs.len() == self.children@.len(),
                forall|j: int| 0 <= j < cs.len() ==> #[trigger] cs[j] == layout_view(self.children@[j]),
                find_in(cs.take(i as int), id) is None,
            decreases self.children@.len() - i,
        {
            proof {
                lemma_find_in_first(cs, id, i as int);
            }
            match self.children[i].find(id) {
                Some(x) => {
                    proof {
                        lemma_find_in_prefix(cs, id, i + 1);
                    }
                    return Some(x);
                },
                None => {},
            }
            i = i + 1;
        }
        assert(cs.take(cs.len() as int) == cs);
        None
    }

    /// Makes the change to the first entry with the given id; returns whether there was
    /// one, and for a replacement the entry that was replaced.
    pub fn edit_first(&mut self, id: i32, edit: NodeEdit) -> (r: (bool, Option<Layout>))
        ensures
            r.0 == (find_view(old(self)@, id) is Some),
            final(self)@ == edit_first(old(self)@, id, edit_view(edit)),
            match r.1 {
                Some(o) => edit is Replace && find_view(old(self)@, id) == Some(o@),
                None => !(edit is Replace && r.0),
            },
        decreases *old(self),
    {
        if self.id == id {
            match edit {
                NodeEdit::Replace(rep) => {
                    let mut rep = rep;
                    std::mem::swap(self, &mut rep);
                    return (true, Some(rep));
                },
                NodeEdit::Update(u) => {
                    self.properties.apply_updates(u);
                    return (true, None);
                },
                NodeEdit::Remove(n) => {
                    self.properties.remove(n);
                    return (true, None);
                },
            }
        }
        proof {
            lemma_children_view(self.children@);
        }
        let ghost cs = children_view(self.children@);
        let mut i: usize = 0;
        while i < self.children.len()
            invariant
                i <= self.children@.len(),
                self.id != id,
                *self == *old(self),
                cs == children_view(self.children@),
                cs.len() == self.children@.len(),
                forall|j: int| 0 <= j < cs.len() ==> #[trigger] cs[j] == layout_view(self.children@[j]),
                find_in(cs.take(i as int), id) is None,
            decreases self.children@.len() - i,
        {
            proof {
                lemma_find_in_first(cs, id, i as int);
            }
            if self.children[i].find(id).is_some() {
                proof {
                    lemma_find_in_prefix(cs, id, i + 1);
                    lemma_edit_in_at(cs, id, edit_view(edit), i as int);
                }
                let ghost before = self.children@;
                let r = self.children[i].edit_first(id, edit);
                proof {
                    lemma_children_view(self.children@);
                    assert(self.children@ == before.update(i as int, self.children@[i as int]));
                    assert(children_view(self.children@) =~= cs.update(i as int, edit_first(cs[i as int], id, edit_view(edit))));
                }
                return r;
            }
            i = i + 1;
        }
        proof {
            assert(cs.take(cs.len() as int) == cs);
            lemma_edit_in_absent(cs, id, edit_view(edit));
        }
        (false, None)
    }
}


/// The properties updates of a property-change signal, entry by entry.
pub open spec fn updated_view(v: Seq<(i32, Vec<(String, PropValue)>)>) -> Seq<(i32, Seq<(Seq<char>, PropValueView)>)> {
    v.map_values(|p: (i32, Vec<(String, PropValue)>)| (p.0, pairs_view(p.1@)))
}

/// The property removals of a property-change signal, entry by entry.
pub open spec fn removed_view(v: Seq<(i32, Vec<String>)>) -> Seq<(i32, Seq<Seq<char>>)> {
    v.map_values(|p: (i32, Vec<String>)| (p.0, p.1@.map_values(|s: String| s@)))
}

/// The tree after each entry's updates, in order.
pub open spec fn apply_updated_spec(
    v: LayoutView,
    updated: Seq<(i32, Seq<(Seq<char>, PropValueView)>)>,
) -> LayoutView
    decreases updated.len(),
{
    if updated.len() == 0 {
        v
    } else {
        let last = updated.last();
        edit_first(apply_updated_spec(v, updated.drop_last()), last.0, NodeEditView::Update(last.1))
    }
}

/// The tree after each entry's removals, in order.
pub open spec fn apply_removed_spec(v: LayoutView, removed: Seq<(i32, Seq<Seq<char>>)>) -> LayoutView
    decreases removed.len(),
{
    if removed.len() == 0 {
        v
    } else {
        let last = removed.last();
        edit_first(apply_removed_spec(v, removed.drop_last()), last.0, NodeEditView::Remove(last.1))
    }
}

impl Layout {
    /// Replaces the first entry with the replacement's id by the replacement; gives back
    /// the entry that was replaced, or `None` (and no change) when no entry has that id.
    pub fn replace_subtree(&mut self, replacement: Layout) -> (r: Option<Layout>)
        ensures
            match r {
                Some(o) => find_view(old(self)@, replacement.id) == Some(o@),
                None => find_view(old(self)@, replacement.id) is None,
            },
            final(self)@ == edit_first(old(self)@, replacement.id, NodeEditView::Replace(replacement@)),
    {
        let id = replacement.id;
        let (_, old_entry) = self.edit_first(id, NodeEdit::Replace(replacement));
        old_entry
    }

    /// Applies a property-change signal: first each entry's updates, then each entry's
    /// removals; entries that are not in the tree are skipped.
    pub fn apply_property_updates(
        &mut self,
        updated: &Vec<(i32, Vec<(String, PropValue)>)>,
        removed: &Vec<(i32, Vec<String>)>,
    )
        ensures
            final(self)@ == apply_removed_spec(
                apply_updated_spec(old(self)@, updated_view(updated@)),
                removed_view(removed@),
            ),
    {
        let ghost u = updated_view(updated@);
        let mut i: usize = 0;
        while i < updated.len()
            invariant
                i <= updated@.len(),
                u == updated_view(updated@),
                self@ == apply_updated_spec(old(self)@, u.take(i as int)),
            decreases updated@.len() - i,
        {
            assert(u.take(i + 1).drop_last() == u.take(i as int));
            let (id, props) = (updated[i].0, &updated[i].1);
            self.edit_first(id, NodeEdit::Update(props));
            i = i + 1;
        }
        assert(u.take(updated@.len() as int) == u);
        let ghost mid = self@;
        let ghost r = removed_view(removed@);
        let mut k: usize = 0;
        while k < removed.len()
            invariant
                k <= removed@.len(),
                r == removed_view(removed@),
                self@ == apply_removed_spec(mid, r.take(k as int)),
            decreases removed@.len() - k,
        {
            assert(r.take(k + 1).drop_last() == r.take(k as int));
            let (id, names) = (removed[k].0, &removed[k].1);
            self.edit_first(id, NodeEdit::Remove(names));
            k = k + 1;
        }
        assert(r.take(removed@.len() as int) == r);
    }
}


/// A menu tree as the `GetLayout` call delivers it: an id, the properties that the entry
/// sets, and the submenu entries.
#[derive(Debug)]
pub struct LayoutWire {
    pub id: i32,
    pub properties: Vec<(String, PropValue)>,
    pub children: Vec<LayoutWire>,
}

/// The menu tree that a delivered tree stands for: each entry starts from the protocol's
/// defaults and takes the properties it sets.
pub open spec fn wire_layout(w: LayoutWire) -> LayoutView
    decreases w,
{
    LayoutView {
        id: w.id,
        properties: apply_updates_spec(default_properties(), pairs_view(w.properties@)),
        children: wire_children(w.children@),
    }
}

/// The menu trees that a list of delivered trees stands for.
pub open spec fn wire_children(s: Seq<LayoutWire>) -> Seq<LayoutView>
    decreases s,
{
    if s.len() == 0 {
        Seq::empty()
    } else {
        wire_children(s.drop_last()).push(wire_layout(s.last()))
    }
}

impl Layout {
    /// The menu tree that a delivered tree stands for.
    pub fn from_wire(wire: LayoutWire) -> (l: Layout)
        ensures
            l@ == wire_layout(wire),
        decreases wire,
    {
        let ghost ws = wire.children@;
        let n = wire.children.len();
        let LayoutWire { id, properties, children: wire_kids } = wire;
        let mut props = LayoutProperties::default();
        props.apply_updates(&properties);
        let mut children: Vec<Layout> = Vec::new();
        let mut rest = wire_kids;
        let mut i: usize = 0;
        assert(ws.skip(0) == ws);
        while rest.len() > 0
            invariant
                i + rest@.len() == ws.len(),
                n == ws.len(),
                children@.len() == i,
                rest@ == ws.skip(i as int),
                ws == wire.children@,
                children_view(children@) == wire_children(ws.take(i as int)),
            decreases rest@.len(),
        {
            let w = rest.remove(0);
            assert(w == ws[i as int]);
            assert(rest@ == ws.skip(i + 1));
            assert(ws.take(i + 1).drop_last() == ws.take(i as int));
            assert(decreases_to!(wire => w));
            let c = Layout::from_wire(w);
            let ghost before = children@;
            children.push(c);
            assert(children@.drop_last() == before);
            i = i + 1;
        }
        assert(ws.take(ws.len() as int) == ws);
        Layout { id, properties: props, children }
    }
}


/// After an entry is replaced by a tree with its id, looking that id up finds the
/// replacement itself.
pub proof fn lemma_replace_then_find(v: LayoutView, r: LayoutView)
    requires
        find_view(v, r.id) is Some,
    ensures
        find_view(edit_first(v, r.id, NodeEditView::Replace(r)), r.id) == Some(r),
    decreases v,
{
    if v.id != r.id {
        lemma_replace_then_find_in(v.children, r);
    }
}

proof fn lemma_replace_then_find_in(s: Seq<LayoutView>, r: LayoutView)
    requires
        find_in(s, r.id) is Some,
    ensures
        find_in(edit_first_in(s, r.id, NodeEditView::Replace(r)), r.id) == Some(r),
    decreases s,
{
    let e = NodeEditView::Replace(r);
    if find_in(s.drop_last(), r.id) is Some {
        lemma_replace_then_find_in(s.drop_last(), r);
        let t = edit_first_in(s.drop_last(), r.id, e).push(s.last());
        assert(t.drop_last() == edit_first_in(s.drop_last(), r.id, e));
    } else {
        lemma_replace_then_find(s.last(), r);
        let t = s.drop_last().push(edit_first(s.last(), r.id, e));
        assert(t.drop_last() == s.drop_last());
        assert(t.last() == edit_first(s.last(), r.id, e));
    }
}

/// The entries of a tree in depth-first order, each parent before its children.
pub open spec fn preorder(v: LayoutView) -> Seq<LayoutView>
    decreases v,
{
    seq![v] + preorder_in(v.children)
}

/// The entries of a list of trees in depth-first order, tree after tree.
pub open spec fn preorder_in(s: Seq<LayoutView>) -> Seq<LayoutView>
    decreases s,
{
    if s.len() == 0 {
        Seq::empty()
    } else {
        preorder_in(s.drop_last()) + preorder(s.last())
    }
}

/// The first entry of a list with the given id.
pub open spec fn first_with_id(s: Seq<LayoutView>, id: i32) -> Option<LayoutView>
    decreases s.len(),
{
    if s.len() == 0 {
        None
    } else if s[0].id == id {
        Some(s[0])
    } else {
        first_with_id(s.skip(1), id)
    }
}

proof fn lemma_first_with_id_concat(a: Seq<LayoutView>, b: Seq<LayoutView>, id: i32)
    ensures
        first_with_id(a + b, id) == match first_with_id(a, id) {
            Some(x) => Some(x),
            None => first_with_id(b, id),
        },
    decreases a.len(),
{
    if a.len() > 0 {
        assert((a + b).skip(1) =~= a.skip(1) + b);
        assert((a + b)[0] == a[0]);
        lemma_first_with_id_concat(a.skip(1), b, id);
    } else {
        assert(a + b =~= b);
    }
}

proof fn lemma_first_with_id_found(s: Seq<LayoutView>, id: i32)
    ensures
        first_with_id(s, id) matches Some(n) ==> n.id == id && s.contains(n),
        first_with_id(s, id) is None <==> forall|k: int| 0 <= k < s.len() ==> (#[trigger] s[k]).id != id,
    decreases s.len(),
{
    if s.len() > 0 {
        lemma_first_with_id_found(s.skip(1), id);
        if s[0].id != id {
            assert forall|k: int| 0 <= k < s.len() && (forall|j: int| 0 <= j < s.skip(1).len() ==> (#[trigger] s.skip(1)[j]).id != id)
                implies (#[trigger] s[k]).id != id by {
                if k > 0 {
                    assert(s[k] == s.skip(1)[k - 1]);
                }
            }
            if first_with_id(s.skip(1), id) is Some {
                let n = first_with_id(s.skip(1), id)->0;
                let j = choose|j: int| 0 <= j < s.skip(1).len() && s.skip(1)[j] == n;
                assert(s[j + 1] == n);
                assert(s.contains(n));
            }
        } else {
            assert(s.contains(s[0]));
        }
    }
}

/// Looking an id up finds the first entry with that id in depth-first order, a parent
/// before its children: the entry found has the id and is one of the tree's entries, and
/// nothing is found exactly when no entry has the id.
pub proof fn lemma_find_is_first_in_preorder(v: LayoutView, id: i32)
    ensures
        find_view(v, id) == first_with_id(preorder(v), id),
        find_view(v, id) matches Some(n) ==> n.id == id && preorder(v).contains(n),
        find_view(v, id) is None <==> forall|k: int| 0 <= k < preorder(v).len() ==> (#[trigger] preorder(v)[k]).id != id,
    decreases v,
{
    lemma_find_in_is_first(v.children, id);
    let a = seq![v];
    lemma_first_with_id_concat(a, preorder_in(v.children), id);
    assert(a.skip(1) =~= Seq::<LayoutView>::empty());
    assert(first_with_id(a.skip(1), id) is None);
    assert(a[0] == v);
    assert(first_with_id(a, id) == if v.id == id { Some(v) } else { None });
    assert(preorder(v) == a + preorder_in(v.children));
    lemma_first_with_id_found(preorder(v), id);
}

proof fn lemma_find_in_is_first(s: Seq<LayoutView>, id: i32)
    ensures
        find_in(s, id) == first_with_id(preorder_in(s), id),
    decreases s,
{
    if s.len() > 0 {
        lemma_find_in_is_first(s.drop_last(), id);
        lemma_find_is_first_in_preorder(s.last(), id);
        lemma_first_with_id_concat(preorder_in(s.drop_last()), preorder(s.last()), id);
    }
}

/// Whether a property name is one the entry keeps in a field of its own.
pub open spec fn is_known_property(k: Seq<char>) -> bool {
    k == "type"@
        || k == "label"@
        || k == "enabled"@
        || k == "visible"@
        || k == "icon-name"@
        || k == "icon-data"@
        || k == "shortcut"@
        || k == "toggle-type"@
        || k == "toggle-state"@
        || k == "children-display"@
        || k == "disposition"@
}

/// The names of a list of property updates.
pub open spec fn update_names(u: Seq<(Seq<char>, PropValueView)>) -> Seq<Seq<char>> {
    u.map_values(|x: (Seq<char>, PropValueView)| x.0)
}

proof fn lemma_assoc_insert_elements(s: Seq<(Seq<char>, PropValueView)>, key: Seq<char>, value: PropValueView)
    ensures
        forall|i: int| 0 <= i < assoc_insert(s, key, value).len() ==> (#[trigger] assoc_insert(s, key, value)[i]).0 == key
            || s.contains(assoc_insert(s, key, value)[i]),
{
    lemma_key_position_bounds(s, key);
    let r = assoc_insert(s, key, value);
    assert forall|i: int| 0 <= i < r.len() implies (#[trigger] r[i]).0 == key || s.contains(r[i]) by {
        if i < s.len() && r[i] == s[i] {
            assert(s.contains(s[i]));
        }
    }
}

proof fn lemma_assoc_remove_elements(s: Seq<(Seq<char>, PropValueView)>, key: Seq<char>)
    ensures
        forall|i: int| 0 <= i < assoc_remove(s, key).len() ==> (#[trigger] assoc_remove(s, key)[i]).0 != key
            && s.contains(assoc_remove(s, key)[i]),
    decreases s.len(),
{
    if s.len() > 0 {
        lemma_assoc_remove_elements(s.drop_last(), key);
        let r = assoc_remove(s, key);
        let r0 = assoc_remove(s.drop_last(), key);
        assert forall|i: int| 0 <= i < r.len() implies (#[trigger] r[i]).0 != key && s.contains(r[i]) by {
            if i < r0.len() {
                assert(r[i] == r0[i]);
                let j = choose|j: int| 0 <= j < s.drop_last().len() && s.drop_last()[j] == r0[i];
                assert(s[j] == r0[i]);
            } else {
                assert(r[i] == s.last());
                assert(s[s.len() - 1] == s.last());
            }
        }
    }
}

proof fn lemma_applied_fields_are_named(u: Seq<(Seq<char>, PropValueView)>)
    ensures
        ({
            let q = apply_updates_spec(default_properties(), u);
            let d = default_properties();
            let keys = update_names(u);
            &&& forall|i: int| 0 <= i < q.unknown.len() ==> keys.contains(#[trigger] q.unknown[i].0)
                && !is_known_property(q.unknown[i].0)
            &&& q.ty != d.ty ==> keys.contains("type"@)
            &&& q.label != d.label ==> keys.contains("label"@)
            &&& q.enabled != d.enabled ==> keys.contains("enabled"@)
            &&& q.visible != d.visible ==> keys.contains("visible"@)
            &&& q.icon_name != d.icon_name ==> keys.contains("icon-name"@)
            &&& q.icon_data != d.icon_data ==> keys.contains("icon-data"@)
            &&& q.shortcut != d.shortcut ==> keys.contains("shortcut"@)
            &&& q.toggle_type != d.toggle_type ==> keys.contains("toggle-type"@)
            &&& q.toggle_state != d.toggle_state ==> keys.contains("toggle-state"@)
            &&& q.children_display != d.children_display ==> keys.contains("children-display"@)
            &&& q.disposition != d.disposition ==> keys.contains("disposition"@)
        }),
    decreases u.len(),
{
    if u.len() > 0 {
        lemma_applied_fields_are_named(u.drop_last());
        let keys = update_names(u);
        let k0 = update_names(u.drop_last());
        assert(k0 =~= keys.drop_last());
        assert(keys.last() == u.last().0);
        assert forall|x: Seq<char>| k0.contains(x) implies keys.contains(x) by {
            let j = choose|j: int| 0 <= j < k0.len() && k0[j] == x;
            assert(keys[j] == x);
        }
        assert(keys.contains(u.last().0)) by {
            assert(keys[keys.len() - 1] == u.last().0);
        }
        let q0 = apply_updates_spec(default_properties(), u.drop_last());
        lemma_assoc_insert_elements(q0.unknown, u.last().0, u.last().1);
        let q = apply_updates_spec(default_properties(), u);
        assert forall|i: int| 0 <= i < q.unknown.len() implies keys.contains(#[trigger] q.unknown[i].0)
            && !is_known_property(q.unknown[i].0) by {
            if q.unknown != q0.unknown {
                if q.unknown[i].0 != u.last().0 {
                    let j = choose|j: int| 0 <= j < q0.unknown.len() && q0.unknown[j] == q.unknown[i];
                    assert(k0.contains(q0.unknown[j].0));
                }
            } else {
                assert(k0.contains(q0.unknown[i].0));
            }
        }
    }
}

proof fn lemma_property_names_differ()
    ensures
        "type"@ != "label"@,
        "type"@ != "enabled"@,
        "type"@ != "visible"@,
        "type"@ != "icon-name"@,
        "type"@ != "icon-data"@,
        "type"@ != "shortcut"@,
        "type"@ != "toggle-type"@,
        "type"@ != "toggle-state"@,
        "type"@ != "children-display"@,
        "type"@ != "disposition"@,
        "label"@ != "enabled"@,
        "label"@ != "visible"@,
        "label"@ != "icon-name"@,
        "label"@ != "icon-data"@,
        "label"@ != "shortcut"@,
        "label"@ != "toggle-type"@,
        "label"@ != "toggle-state"@,
        "label"@ != "children-display"@,
        "label"@ != "disposition"@,
        "enabled"@ != "visible"@,
        "enabled"@ != "icon-name"@,
        "enabled"@ != "icon-data"@,
        "enabled"@ != "shortcut"@,
        "enabled"@ != "toggle-type"@,
        "enabled"@ != "toggle-state"@,
        "enabled"@ != "children-display"@,
        "enabled"@ != "disposition"@,
        "visible"@ != "icon-name"@,
        "visible"@ != "icon-data"@,
        "visible"@ != "shortcut"@,
        "visible"@ != "toggle-type"@,
        "visible"@ != "toggle-state"@,
        "visible"@ != "children-display"@,
        "visible"@ != "disposition"@,
        "icon-name"@ != "icon-data"@,
        "icon-name"@ != "shortcut"@,
        "icon-name"@ != "toggle-type"@,
        "icon-name"@ != "toggle-state"@,
        "icon-name"@ != "children-display"@,
        "icon-name"@ != "disposition"@,
        "icon-data"@ != "shortcut"@,
        "icon-data"@ != "toggle-type"@,
        "icon-data"@ != "toggle-state"@,
        "icon-data"@ != "children-display"@,
        "icon-data"@ != "disposition"@,
        "shortcut"@ != "toggle-type"@,
        "shortcut"@ != "toggle-state"@,
        "shortcut"@ != "children-display"@,
        "shortcut"@ != "disposition"@,
        "toggle-type"@ != "toggle-state"@,
        "toggle-type"@ != "children-display"@,
        "toggle-type"@ != "disposition"@,
        "toggle-state"@ != "children-display"@,
        "toggle-state"@ != "disposition"@,
        "children-display"@ != "disposition"@,
{
    reveal_strlit("type");
    reveal_strlit("label");
    reveal_strlit("enabled");
    reveal_strlit("visible");
    reveal_strlit("icon-name");
    reveal_strlit("icon-data");
    reveal_strlit("shortcut");
    reveal_strlit("toggle-type");
    reveal_strlit("toggle-state");
    reveal_strlit("children-display");
    reveal_strlit("disposition");
    assert("type"@.len() != "label"@.len());
    assert("type"@.len() != "enabled"@.len());
    assert("type"@.len() != "visible"@.len());
    assert("type"@.len() != "icon-name"@.len());
    assert("type"@.len() != "icon-data"@.len());
    assert("type"@.len() != "shortcut"@.len());
    assert("type"@.len() != "toggle-type"@.len());
    assert("type"@.len() != "toggle-state"@.len());
    assert("type"@.len() != "children-display"@.len());
    assert("type"@.len() != "disposition"@.len());
    assert("label"@.len() != "enabled"@.len());
    assert("label"@.len() != "visible"@.len());
    assert("label"@.len() != "icon-name"@.len());
    assert("label"@.len() != "icon-data"@.len());
    assert("label"@.len() != "shortcut"@.len());
    assert("label"@.len() != "toggle-type"@.len());
    assert("label"@.len() != "toggle-state"@.len());
    assert("label"@.len() != "children-display"@.len());
    assert("label"@.len() != "disposition"@.len());
    assert("enabled"@[0] != "visible"@[0]);
    assert("enabled"@.len() != "icon-name"@.len());
    assert("enabled"@.len() != "icon-data"@.len());
    assert("enabled"@.len() != "shortcut"@.len());
    assert("enabled"@.len() != "toggle-type"@.len());
    assert("enabled"@.len() != "toggle-state"@.len());
    assert("enabled"@.len() != "children-display"@.len());
    assert("enabled"@.len() != "disposition"@.len());
    assert("visible"@.len() != "icon-name"@.len());
    assert("visible"@.len() != "icon-data"@.len());
    assert("visible"@.len() != "shortcut"@.len());
    assert("visible"@.len() != "toggle-type"@.len());
    assert("visible"@.len() != "toggle-state"@.len());
    assert("visible"@.len() != "children-display"@.len());
    assert("visible"@.len() != "disposition"@.len());
    assert("icon-name"@[5] != "icon-data"@[5]);
    assert("icon-name"@.len() != "shortcut"@.len());
    assert("icon-name"@.len() != "toggle-type"@.len());
    assert("icon-name"@.len() != "toggle-state"@.len());
    assert("icon-name"@.len() != "children-display"@.len());
    assert("icon-name"@.len() != "disposition"@.len());
    assert("icon-data"@.len() != "shortcut"@.len());
    assert("icon-data"@.len() != "toggle-type"@.len());
    assert("icon-data"@.len() != "toggle-state"@.len());
    assert("icon-data"@.len() != "children-display"@.len());
    assert("icon-data"@.len() != "disposition"@.len());
    assert("shortcut"@.len() != "toggle-type"@.len());
    assert("shortcut"@.len() != "toggle-state"@.len());
    assert("shortcut"@.len() != "children-display"@.len());
    assert("shortcut"@.len() != "disposition"@.len());
    assert("toggle-type"@.len() != "toggle-state"@.len());
    assert("toggle-type"@.len() != "children-display"@.len());
    assert("toggle-type"@[0] != "disposition"@[0]);
    assert("toggle-state"@.len() != "children-display"@.len());
    assert("toggle-state"@.len() != "disposition"@.len());
    assert("children-display"@.len() != "disposition"@.len());
}

proof fn lemma_removed_fields(p: LayoutPropertiesView, names: Seq<Seq<char>>)
    requires
        forall|i: int| 0 <= i < p.unknown.len() ==> !is_known_property(#[trigger] p.unknown[i].0),
    ensures
        ({
            let r = remove_properties_spec(p, names);
            let d = default_properties();
            &&& forall|i: int| 0 <= i < r.unknown.len() ==> !names.contains((#[trigger] r.unknown[i]).0) && p.unknown.contains(r.unknown[i])
                && !is_known_property(r.unknown[i].0)
            &&& r.ty == if names.contains("type"@) { d.ty } else { p.ty }
            &&& r.label == if names.contains("label"@) { d.label } else { p.label }
            &&& r.enabled == if names.contains("enabled"@) { d.enabled } else { p.enabled }
            &&& r.visible == if names.contains("visible"@) { d.visible } else { p.visible }
            &&& r.icon_name == if names.contains("icon-name"@) { d.icon_name } else { p.icon_name }
            &&& r.icon_data == if names.contains("icon-data"@) { d.icon_data } else { p.icon_data }
            &&& r.shortcut == if names.contains("shortcut"@) { d.shortcut } else { p.shortcut }
            &&& r.toggle_type == if names.contains("toggle-type"@) { d.toggle_type } else { p.toggle_type }
            &&& r.toggle_state == if names.contains("toggle-state"@) { d.toggle_state } else { p.toggle_state }
            &&& r.children_display == if names.contains("children-display"@) { d.children_display } else { p.children_display }
            &&& r.disposition == if names.contains("disposition"@) { d.disposition } else { p.disposition }
        }),
    decreases names.len(),
{
    if names.len() > 0 {
        let n0 = names.drop_last();
        lemma_removed_fields(p, n0);
        let r0 = remove_properties_spec(p, n0);
        let last = names.last();
        assert forall|x: Seq<char>| names.contains(x) <==> (n0.contains(x) || x == last) by {
            if names.contains(x) {
                let j = choose|j: int| 0 <= j < names.len() && names[j] == x;
                if j < names.len() - 1 {
                    assert(n0[j] == x);
                }
            }
            if n0.contains(x) {
                let j = choose|j: int| 0 <= j < n0.len() && n0[j] == x;
                assert(names[j] == x);
            }
            if x == last {
                assert(names[names.len() - 1] == x);
            }
        }
        lemma_assoc_remove_elements(r0.unknown, last);
        let r = remove_properties_spec(p, names);
        lemma_property_names_differ();
        assert forall|i: int| 0 <= i < r.unknown.len() implies !names.contains((#[trigger] r.unknown[i]).0) && p.unknown.contains(r.unknown[i])
            && !is_known_property(r.unknown[i].0) by {
            if is_known_property(last) {
                assert(r.unknown == r0.unknown);
                assert(!n0.contains(r0.unknown[i].0));
                assert(!is_known_property(r0.unknown[i].0));
            } else {
                let j = choose|j: int| 0 <= j < r0.unknown.len() && r0.unknown[j] == r.unknown[i];
                assert(!n0.contains(r0.unknown[j].0));
            }
        }
    } else {
        assert forall|i: int| 0 <= i < p.unknown.len() implies p.unknown.contains(#[trigger] p.unknown[i]) by {
        }
    }
}

/// Removing every property that a list of updates named, from an entry that had the
/// defaults and took those updates, gives the defaults back: every known property returns
/// to its default and no other property stays.
pub proof fn lemma_remove_undoes_updates(u: Seq<(Seq<char>, PropValueView)>)
    ensures
        remove_properties_spec(apply_updates_spec(default_properties(), u), update_names(u)) == default_properties(),
{
    let q = apply_updates_spec(default_properties(), u);
    let names = update_names(u);
    lemma_applied_fields_are_named(u);
    lemma_removed_fields(q, names);
    let r = remove_properties_spec(q, names);
    assert(r.unknown.len() == 0) by {
        if r.unknown.len() > 0 {
            let x = r.unknown[0];
            let j = choose|j: int| 0 <= j < q.unknown.len() && q.unknown[j] == x;
            assert(names.contains(q.unknown[j].0));
        }
    }
    assert(r.unknown =~= default_properties().unknown);
    assert(r =~= default_properties());
}


/// The entries of a tree in depth-first order, a parent before its children, each as its
/// id and properties.
pub open spec fn entries(v: LayoutView) -> Seq<(i32, LayoutPropertiesView)>
    decreases v,
{
    seq![(v.id, v.properties)] + entries_in(v.children)
}

/// The entries of a list of trees in depth-first order, tree after tree.
pub open spec fn entries_in(s: Seq<LayoutView>) -> Seq<(i32, LayoutPropertiesView)>
    decreases s,
{
    if s.len() == 0 {
        Seq::empty()
    } else {
        entries_in(s.drop_last()) + entries(s.last())
    }
}

proof fn lemma_absent_entries_in(s: Seq<LayoutView>, id: i32)
    requires
        find_in(s, id) is None,
    ensures
        forall|k: int| 0 <= k < entries_in(s).len() ==> (#[trigger] entries_in(s)[k]).0 != id,
    decreases s,
{
    if s.len() > 0 {
        lemma_absent_entries_in(s.drop_last(), id);
        lemma_absent_entries(s.last(), id);
        let p = entries_in(s.drop_last());
        let q = entries(s.last());
        assert(entries_in(s) == p + q);
        assert forall|k: int| 0 <= k < (p + q).len() implies (#[trigger] (p + q)[k]).0 != id by {
            if k < p.len() {
                assert((p + q)[k] == p[k]);
            } else {
                assert((p + q)[k] == q[k - p.len()]);
            }
        }
    }
}

proof fn lemma_absent_entries(v: LayoutView, id: i32)
    requires
        find_view(v, id) is None,
    ensures
        forall|k: int| 0 <= k < entries(v).len() ==> (#[trigger] entries(v)[k]).0 != id,
    decreases v,
{
    lemma_absent_entries_in(v.children, id);
    let p = seq![(v.id, v.properties)];
    let q = entries_in(v.children);
    assert(entries(v) == p + q);
    assert forall|k: int| 0 <= k < (p + q).len() implies (#[trigger] (p + q)[k]).0 != id by {
        if k > 0 {
            assert((p + q)[k] == q[k - 1]);
        }
    }
}

proof fn lemma_replace_split(v: LayoutView, id: i32, r: LayoutView) -> (ab: (Seq<(i32, LayoutPropertiesView)>, Seq<(i32, LayoutPropertiesView)>))
    requires
        find_view(v, id) is Some,
    ensures
        entries(v) == ab.0 + entries(find_view(v, id)->0) + ab.1,
        entries(edit_first(v, id, NodeEditView::Replace(r))) == ab.0 + entries(r) + ab.1,
        forall|k: int| 0 <= k < ab.0.len() ==> (#[trigger] ab.0[k]).0 != id,
    decreases v,
{
    if v.id == id {
        let e: Seq<(i32, LayoutPropertiesView)> = Seq::empty();
        assert(entries(v) =~= e + entries(v) + e);
        assert(entries(r) =~= e + entries(r) + e);
        (e, e)
    } else {
        let (a, b) = lemma_replace_split_in(v.children, id, r);
        let head = seq![(v.id, v.properties)];
        let w = edit_first(v, id, NodeEditView::Replace(r));
        assert(w.children == edit_first_in(v.children, id, NodeEditView::Replace(r)));
        assert(entries(v) =~= (head + a) + entries(find_view(v, id)->0) + b);
        assert(entries(w) =~= (head + a) + entries(r) + b);
        assert forall|k: int| 0 <= k < (head + a).len() implies (#[trigger] (head + a)[k]).0 != id by {
            if k > 0 {
                assert((head + a)[k] == a[k - 1]);
            }
        }
        (head + a, b)
    }
}

proof fn lemma_replace_split_in(s: Seq<LayoutView>, id: i32, r: LayoutView) -> (ab: (Seq<(i32, LayoutPropertiesView)>, Seq<(i32, LayoutPropertiesView)>))
    requires
        find_in(s, id) is Some,
    ensures
        entries_in(s) == ab.0 + entries(find_in(s, id)->0) + ab.1,
        entries_in(edit_first_in(s, id, NodeEditView::Replace(r))) == ab.0 + entries(r) + ab.1,
        forall|k: int| 0 <= k < ab.0.len() ==> (#[trigger] ab.0[k]).0 != id,
    decreases s,
{
    let e = NodeEditView::Replace(r);
    let t = edit_first_in(s, id, e);
    if find_in(s.drop_last(), id) is Some {
        let (a, b) = lemma_replace_split_in(s.drop_last(), id, r);
        assert(t == edit_first_in(s.drop_last(), id, e).push(s.last()));
        assert(t.drop_last() == edit_first_in(s.drop_last(), id, e));
        assert(t.last() == s.last());
        assert(entries_in(s) =~= a + entries(find_in(s, id)->0) + (b + entries(s.last())));
        assert(entries_in(t) =~= a + entries(r) + (b + entries(s.last())));
        (a, b + entries(s.last()))
    } else {
        let (a, b) = lemma_replace_split(s.last(), id, r);
        lemma_absent_entries_in(s.drop_last(), id);
        let p = entries_in(s.drop_last());
        assert(t == s.drop_last().push(edit_first(s.last(), id, e)));
        assert(t.drop_last() == s.drop_last());
        assert(t.last() == edit_first(s.last(), id, e));
        assert(entries_in(s) =~= (p + a) + entries(find_in(s, id)->0) + b);
        assert(entries_in(t) =~= (p + a) + entries(r) + b);
        assert forall|k: int| 0 <= k < (p + a).len() implies (#[trigger] (p + a)[k]).0 != id by {
            if k >= p.len() {
                assert((p + a)[k] == a[k - p.len()]);
            } else {
                assert((p + a)[k] == p[k]);
            }
        }
        (p + a, b)
    }
}

/// Replacing an entry whose id no entry of the tree has changes nothing (and, by
/// `replace_subtree`'s contract, gives back `None`).
pub proof fn lemma_replace_absent_id_changes_nothing(v: LayoutView, r: LayoutView)
    requires
        find_view(v, r.id) is None,
    ensures
        edit_first(v, r.id, NodeEditView::Replace(r)) == v,
{
    lemma_edit_absent(v, r.id, NodeEditView::Replace(r));
}

/// Replacing an entry changes nothing outside the entry's subtree: in depth-first order
/// (a parent before its children), the entries before the one replaced and those after
/// its subtree keep their ids and properties, and the replaced subtree's entries give way
/// to the replacement's. No entry before the one replaced has its id.
pub proof fn lemma_replace_keeps_the_rest(v: LayoutView, r: LayoutView)
    requires
        find_view(v, r.id) is Some,
    ensures
        exists|a: Seq<(i32, LayoutPropertiesView)>, b: Seq<(i32, LayoutPropertiesView)>| {
            &&& entries(v) == a + entries(find_view(v, r.id)->0) + b
            &&& entries(edit_first(v, r.id, NodeEditView::Replace(r))) == a + entries(r) + b
            &&& forall|k: int| 0 <= k < a.len() ==> (#[trigger] a[k]).0 != r.id
        },
{
    let (a, b) = lemma_replace_split(v, r.id, r);
    assert(entries(v) == a + entries(find_view(v, r.id)->0) + b);
}

} // verus!
