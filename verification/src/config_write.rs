use vstd::prelude::*;

use crate::config::{
    CivilTime, ConfigFile, Homeassistant, Indexing, Launcher, LauncherProvider, LauncherTypoSearch, Nightlight,
    NightlightSetting, Spotify, SystemMenu, SystemMenuWidgets, hour_minute_text,
};
use crate::config_parse::{
    SpotifyState, SpotifyView, children_of, first_arg, fold_children, indexing_spec, indexing_step_fn, node_value_spec,
    spotify_init, spotify_spec, spotify_step_fn, SettingState, SettingView, setting_init, setting_spec,
    setting_step_fn, setting_view, NightlightState, NightlightView, nightlight_init, nightlight_spec, nightlight_step,
    nightlight_step_fn, nightlight_view, time_child_spec, TypoState, typo_default, typo_field_index, typo_spec,
    typo_step_fn, typo_with, typo_fields, decode_items, list_items, entry_item, dash_item, texts, text_dec,
    HomeassistantState, HomeassistantView, homeassistant_init, homeassistant_spec, homeassistant_step_fn,
    homeassistant_view, url_child_spec, widget_spec, widget_dec, provider_spec, provider_dec, system_menu_spec,
    system_menu_step_fn, LauncherState, LauncherView, launcher_init, launcher_spec, launcher_step_fn,
    ConfigState, ConfigView, config_init, config_step, config_step_fn, config_from_nodes_spec,
    config_view,
};
use crate::config_value::{ErrorView, KdlEntry, KdlNode, KdlValue, SourceSpan, jiff_time_parse, jiff_time_text, time_to_kdl,
    url_serialization};
use crate::nix::{
    config_times_wf, launcher_provider_name, launcher_provider_name_spec, system_menu_widget_name, system_menu_widget_name_spec,
};

verus! {

// ---------------------------------------------------------------------------
// Documents as plain values.
// ---------------------------------------------------------------------------

/// A KDL value as plain values.
pub enum ValueShape {
    Str(Seq<char>),
    Int(int),
    Float(Seq<char>),
    Bool(bool),
    Null,
}

/// A KDL node as plain values: its name, the values of its entries in order, and its
/// children block when it has one.
pub struct NodeShape {
    pub name: Seq<char>,
    pub args: Seq<ValueShape>,
    pub children: Option<Seq<NodeShape>>,
}

/// A value as plain values.
pub open spec fn value_shape(v: KdlValue) -> ValueShape {
    match v {
        KdlValue::String(s) => ValueShape::Str(s@),
        KdlValue::Integer(i) => ValueShape::Int(i as int),
        KdlValue::Float(f) => ValueShape::Float(f@),
        KdlValue::Bool(b) => ValueShape::Bool(b),
        KdlValue::Null => ValueShape::Null,
    }
}

/// Whether a node has exactly this shape, looking `depth` levels of children deep; every
/// entry is an argument.
pub open spec fn has_shape(n: KdlNode, s: NodeShape, depth: nat) -> bool
    decreases depth,
{
    &&& n.name@ == s.name
    &&& n.entries@.len() == s.args.len()
    &&& forall|i: int| 0 <= i < s.args.len() ==> #[trigger] n.entries@[i].name is None
        && value_shape(n.entries@[i].value) == s.args[i]
    &&& match (n.children, s.children) {
        (None, None) => true,
        (Some(cs), Some(ss)) => depth > 0 && cs@.len() == ss.len() && forall|i: int|
            0 <= i < ss.len() ==> has_shape(#[trigger] cs@[i], ss[i], (depth - 1) as nat),
        _ => false,
    }
}

/// Whether a document has exactly these nodes, each `depth` levels deep.
pub open spec fn has_shapes(ns: Seq<KdlNode>, ss: Seq<NodeShape>, depth: nat) -> bool {
    ns.len() == ss.len() && forall|i: int| 0 <= i < ss.len() ==> has_shape(#[trigger] ns[i], ss[i], depth)
}

/// A node that holds one value and no children.
pub open spec fn leaf(name: Seq<char>, v: ValueShape) -> NodeShape {
    NodeShape { name, args: seq![v], children: None }
}

/// A node with no entries and these children.
pub open spec fn parent(name: Seq<char>, kids: Seq<NodeShape>) -> NodeShape {
    NodeShape { name, args: Seq::empty(), children: Some(kids) }
}

/// A list written one `-` child per item.
pub open spec fn dash_list(name: Seq<char>, items: Seq<ValueShape>) -> NodeShape {
    parent(name, items.map_values(|v: ValueShape| leaf("-"@, v)))
}

/// A list written inline as the node's arguments, or as `-` children when it has more
/// than three items.
pub open spec fn auto_list(name: Seq<char>, items: Seq<ValueShape>) -> NodeShape {
    if items.len() > 3 {
        dash_list(name, items)
    } else {
        NodeShape { name, args: items, children: None }
    }
}

// ---------------------------------------------------------------------------
// What a configuration is written as.
// ---------------------------------------------------------------------------

/// A time of day as written: `HH:MM` on a full minute, else the time with its seconds;
/// no time is `null`.
pub open spec fn time_shape(t: Option<CivilTime>) -> ValueShape {
    match t {
        Some(t) => ValueShape::Str(if t.second == 0 { hour_minute_text(t) } else { jiff_time_text(t) }),
        None => ValueShape::Null,
    }
}

/// A nightlight preset as written.
pub open spec fn setting_shape(name: Seq<char>, s: NightlightSetting) -> NodeShape {
    parent(name, seq![leaf("temperature"@, ValueShape::Int(s.temperature as int)),
        leaf("brightness"@, ValueShape::Float(s.brightness@))])
}

/// The nightlight section as written.
pub open spec fn nightlight_shape(n: Nightlight) -> NodeShape {
    parent("nightlight"@, seq![
        leaf("enabled"@, ValueShape::Bool(n.enabled)),
        leaf("use_location"@, ValueShape::Bool(n.use_location)),
        leaf("dawn"@, time_shape(n.dawn)),
        leaf("dusk"@, time_shape(n.dusk)),
        setting_shape("day"@, n.day),
        setting_shape("night"@, n.night),
        leaf("debounce_ms"@, ValueShape::Int(n.debounce_ms as int)),
    ])
}

/// The homeassistant section as written; its devices are always one `-` child each.
pub open spec fn homeassistant_shape(h: Homeassistant) -> NodeShape {
    parent("homeassistant"@, seq![
        leaf("enabled"@, ValueShape::Bool(h.enabled)),
        leaf("url"@, match h.url { Some(u) => ValueShape::Str(u@), None => ValueShape::Null }),
        dash_list("tracked_devices"@, h.tracked_devices@.map_values(|d: String| ValueShape::Str(d@))),
    ])
}

/// The spotify section as written.
pub open spec fn spotify_shape(s: Spotify) -> NodeShape {
    parent("spotify"@, seq![
        leaf("enabled"@, ValueShape::Bool(s.enabled)),
        leaf("client_id"@, ValueShape::Str(s.client_id@)),
    ])
}

/// The system menu section as written.
pub open spec fn system_menu_shape(m: SystemMenu) -> NodeShape {
    parent("system_menu"@, seq![auto_list("widgets"@,
        m.widgets@.map_values(|w: SystemMenuWidgets| ValueShape::Str(system_menu_widget_name_spec(w))))])
}

/// The typo tolerance as written.
pub open spec fn typo_shape(t: LauncherTypoSearch) -> NodeShape {
    parent("fuzzy_search"@, seq![
        leaf("min_chars"@, ValueShape::Int(t.min_chars as int)),
        leaf("short_query_chars"@, ValueShape::Int(t.short_query_chars as int)),
        leaf("short_max_distance"@, ValueShape::Int(t.short_max_distance as int)),
        leaf("medium_query_chars"@, ValueShape::Int(t.medium_query_chars as int)),
        leaf("medium_max_distance"@, ValueShape::Int(t.medium_max_distance as int)),
        leaf("long_max_distance"@, ValueShape::Int(t.long_max_distance as int)),
    ])
}

/// The launcher section as written.
pub open spec fn launcher_shape(l: Launcher) -> NodeShape {
    parent("launcher"@, seq![
        auto_list("providers"@,
            l.providers@.map_values(|p: LauncherProvider| ValueShape::Str(launcher_provider_name_spec(p)))),
        typo_shape(l.fuzzy_search),
    ])
}

/// The indexing section as written.
pub open spec fn indexing_shape(i: Indexing) -> NodeShape {
    parent("indexing"@, seq![leaf("enabled"@, ValueShape::Bool(i.enabled))])
}

/// The document that a configuration is written as: one node per section, in order.
pub open spec fn config_shapes(c: ConfigFile) -> Seq<NodeShape> {
    seq![
        nightlight_shape(c.nightlight),
        homeassistant_shape(c.homeassistant),
        spotify_shape(c.spotify),
        system_menu_shape(c.system_menu),
        launcher_shape(c.launcher),
        indexing_shape(c.indexing),
    ]
}

// ---------------------------------------------------------------------------
// Writing.
// ---------------------------------------------------------------------------

fn no_span() -> (s: SourceSpan)
    ensures
        s.offset == 0 && s.len == 0,
{
    SourceSpan { offset: 0, len: 0 }
}

/// A node with one value and no children.
fn leaf_node(name: &str, v: KdlValue) -> (n: KdlNode)
    ensures
        has_shape(n, leaf(name@, value_shape(v)), 0),
{
    let mut entries = Vec::new();
    entries.push(KdlEntry { name: None, value: v, span: no_span() });
    KdlNode { name: name.to_owned(), entries, children: None, span: no_span() }
}

/// A node with no entries and these children.
fn parent_node(name: &str, kids: Vec<KdlNode>, Ghost(ss): Ghost<Seq<NodeShape>>, Ghost(d): Ghost<nat>) -> (n: KdlNode)
    requires
        has_shapes(kids@, ss, d),
    ensures
        has_shape(n, parent(name@, ss), d + 1),
{
    KdlNode { name: name.to_owned(), entries: Vec::new(), children: Some(kids), span: no_span() }
}

/// A node with these values as its arguments and no children.
fn inline_node(name: &str, vs: Vec<KdlValue>) -> (n: KdlNode)
    ensures
        has_shape(n, NodeShape { name: name@, args: vs@.map_values(|v: KdlValue| value_shape(v)), children: None }, 0),
{
    let mut entries: Vec<KdlEntry> = Vec::new();
    let mut i: usize = 0;
    while i < vs.len()
        invariant
            i <= vs.len(),
            entries@.len() == i,
            forall|k: int| 0 <= k < i ==> #[trigger] entries@[k].name is None && entries@[k].value == vs@[k],
        decreases vs.len() - i,
    {
        entries.push(KdlEntry { name: None, value: vs[i].duplicate(), span: no_span() });
        i = i + 1;
    }
    KdlNode { name: name.to_owned(), entries, children: None, span: no_span() }
}

/// A node with one `-` child per value.
fn dash_node(name: &str, vs: Vec<KdlValue>) -> (n: KdlNode)
    ensures
        has_shape(n, dash_list(name@, vs@.map_values(|v: KdlValue| value_shape(v))), 1),
{
    let ghost items = vs@.map_values(|v: KdlValue| value_shape(v));
    let ghost ss = items.map_values(|v: ValueShape| leaf("-"@, v));
    let mut kids: Vec<KdlNode> = Vec::new();
    let mut i: usize = 0;
    while i < vs.len()
        invariant
            i <= vs.len(),
            items == vs@.map_values(|v: KdlValue| value_shape(v)),
            ss == items.map_values(|v: ValueShape| leaf("-"@, v)),
            kids@.len() == i,
            forall|k: int| 0 <= k < i ==> has_shape(#[trigger] kids@[k], ss[k], 0),
        decreases vs.len() - i,
    {
        kids.push(leaf_node("-", vs[i].duplicate()));
        i = i + 1;
    }
    let ghost d: nat = 0;
    parent_node(name, kids, Ghost(ss), Ghost(d))
}

/// A list written inline when it has at most three items, else as `-` children.
fn auto_node(name: &str, vs: Vec<KdlValue>) -> (n: KdlNode)
    ensures
        has_shape(n, auto_list(name@, vs@.map_values(|v: KdlValue| value_shape(v))), 1),
{
    if vs.len() > 3 {
        dash_node(name, vs)
    } else {
        inline_node(name, vs)
    }
}

/// The text of a time setting, or `null`.
pub(crate) fn time_value(t: &Option<CivilTime>) -> (v: KdlValue)
    requires
        t matches Some(x) ==> x.wf(),
    ensures
        value_shape(v) == time_shape(*t),
{
    match t {
        Some(x) => time_to_kdl(x),
        None => KdlValue::Null,
    }
}

pub(crate) fn int_value(n: u64) -> (v: KdlValue)
    ensures
        value_shape(v) == ValueShape::Int(n as int),
{
    KdlValue::Integer(n as i128)
}

fn setting_node(name: &str, s: &NightlightSetting) -> (n: KdlNode)
    ensures
        has_shape(n, setting_shape(name@, *s), 1),
{
    proof { reveal_strlit("temperature"); reveal_strlit("brightness"); }
    let mut kids = Vec::new();
    kids.push(leaf_node("temperature", int_value(s.temperature as u64)));
    kids.push(leaf_node("brightness", KdlValue::Float(s.brightness.clone())));
    let ghost ss = seq![leaf("temperature"@, ValueShape::Int(s.temperature as int)),
        leaf("brightness"@, ValueShape::Float(s.brightness@))];
    let ghost d: nat = 0;
    parent_node(name, kids, Ghost(ss), Ghost(d))
}

fn nightlight_node(n: &Nightlight) -> (r: KdlNode)
    requires
        n.dawn matches Some(t) ==> t.wf(),
        n.dusk matches Some(t) ==> t.wf(),
    ensures
        has_shape(r, nightlight_shape(*n), 2),
{
    let mut kids = Vec::new();
    kids.push(leaf_node("enabled", KdlValue::Bool(n.enabled)));
    kids.push(leaf_node("use_location", KdlValue::Bool(n.use_location)));
    kids.push(leaf_node("dawn", time_value(&n.dawn)));
    kids.push(leaf_node("dusk", time_value(&n.dusk)));
    kids.push(setting_node("day", &n.day));
    kids.push(setting_node("night", &n.night));
    kids.push(leaf_node("debounce_ms", int_value(n.debounce_ms)));
    let ghost ss = nightlight_shape(*n).children.unwrap();
    proof {
        reveal_strlit("enabled"); reveal_strlit("use_location"); reveal_strlit("dawn"); reveal_strlit("dusk");
        reveal_strlit("day"); reveal_strlit("night"); reveal_strlit("debounce_ms");
        assert forall|i: int| 0 <= i < ss.len() implies has_shape(#[trigger] kids@[i], ss[i], 1) by {
            if i != 4 && i != 5 {
                lemma_deeper(kids@[i], ss[i], 0, 1);
            }
        }
    }
    proof { reveal_strlit("nightlight"); }
    let ghost d: nat = 1;
    parent_node("nightlight", kids, Ghost(ss), Ghost(d))
}

fn homeassistant_node(h: &Homeassistant) -> (r: KdlNode)
    ensures
        has_shape(r, homeassistant_shape(*h), 2),
{
    let mut devices: Vec<KdlValue> = Vec::new();
    let mut i: usize = 0;
    while i < h.tracked_devices.len()
        invariant
            i <= h.tracked_devices.len(),
            devices@.len() == i,
            forall|k: int| 0 <= k < i ==> value_shape(#[trigger] devices@[k]) == ValueShape::Str(h.tracked_devices@[k]@),
        decreases h.tracked_devices.len() - i,
    {
        devices.push(KdlValue::String(h.tracked_devices[i].clone()));
        i = i + 1;
    }
    let url = match &h.url {
        Some(u) => KdlValue::String(u.clone()),
        None => KdlValue::Null,
    };
    let ghost items = devices@.map_values(|v: KdlValue| value_shape(v));
    proof {
        assert(items =~= h.tracked_devices@.map_values(|d: String| ValueShape::Str(d@)));
    }
    let mut kids = Vec::new();
    kids.push(leaf_node("enabled", KdlValue::Bool(h.enabled)));
    kids.push(leaf_node("url", url));
    kids.push(dash_node("tracked_devices", devices));
    let ghost ss = homeassistant_shape(*h).children.unwrap();
    proof {
        reveal_strlit("enabled"); reveal_strlit("url"); reveal_strlit("tracked_devices");
        assert forall|i: int| 0 <= i < ss.len() implies has_shape(#[trigger] kids@[i], ss[i], 1) by {
            if i != 2 {
                lemma_deeper(kids@[i], ss[i], 0, 1);
            }
        }
        reveal_strlit("homeassistant");
    }
    let ghost d: nat = 1;
    parent_node("homeassistant", kids, Ghost(ss), Ghost(d))
}

fn spotify_node(sp: &Spotify) -> (r: KdlNode)
    ensures
        has_shape(r, spotify_shape(*sp), 1),
{
    let mut kids = Vec::new();
    kids.push(leaf_node("enabled", KdlValue::Bool(sp.enabled)));
    kids.push(leaf_node("client_id", KdlValue::String(sp.client_id.clone())));
    let ghost ss = spotify_shape(*sp).children.unwrap();
    proof { reveal_strlit("enabled"); reveal_strlit("client_id"); reveal_strlit("spotify"); }
    let ghost d: nat = 0;
    parent_node("spotify", kids, Ghost(ss), Ghost(d))
}

fn system_menu_node(m: &SystemMenu) -> (r: KdlNode)
    ensures
        has_shape(r, system_menu_shape(*m), 2),
{
    let mut names: Vec<KdlValue> = Vec::new();
    let mut i: usize = 0;
    while i < m.widgets.len()
        invariant
            i <= m.widgets.len(),
            names@.len() == i,
            forall|k: int| 0 <= k < i ==> value_shape(#[trigger] names@[k])
                == ValueShape::Str(system_menu_widget_name_spec(m.widgets@[k])),
        decreases m.widgets.len() - i,
    {
        names.push(KdlValue::String(system_menu_widget_name(m.widgets[i]).to_owned()));
        i = i + 1;
    }
    let ghost items = names@.map_values(|v: KdlValue| value_shape(v));
    proof {
        assert(items =~= m.widgets@.map_values(|w: SystemMenuWidgets| ValueShape::Str(system_menu_widget_name_spec(w))));
    }
    let mut kids = Vec::new();
    kids.push(auto_node("widgets", names));
    let ghost ss = system_menu_shape(*m).children.unwrap();
    proof { reveal_strlit("widgets"); reveal_strlit("system_menu"); }
    let ghost d: nat = 1;
    parent_node("system_menu", kids, Ghost(ss), Ghost(d))
}

fn typo_node(t: &LauncherTypoSearch) -> (r: KdlNode)
    ensures
        has_shape(r, typo_shape(*t), 1),
{
    let mut kids = Vec::new();
    kids.push(leaf_node("min_chars", int_value(t.min_chars as u64)));
    kids.push(leaf_node("short_query_chars", int_value(t.short_query_chars as u64)));
    kids.push(leaf_node("short_max_distance", int_value(t.short_max_distance as u64)));
    kids.push(leaf_node("medium_query_chars", int_value(t.medium_query_chars as u64)));
    kids.push(leaf_node("medium_max_distance", int_value(t.medium_max_distance as u64)));
    kids.push(leaf_node("long_max_distance", int_value(t.long_max_distance as u64)));
    let ghost ss = typo_shape(*t).children.unwrap();
    proof {
        reveal_strlit("min_chars"); reveal_strlit("short_query_chars"); reveal_strlit("short_max_distance");
        reveal_strlit("medium_query_chars"); reveal_strlit("medium_max_distance"); reveal_strlit("long_max_distance");
        reveal_strlit("fuzzy_search");
    }
    let ghost d: nat = 0;
    parent_node("fuzzy_search", kids, Ghost(ss), Ghost(d))
}

fn launcher_node(l: &Launcher) -> (r: KdlNode)
    ensures
        has_shape(r, launcher_shape(*l), 2),
{
    let mut names: Vec<KdlValue> = Vec::new();
    let mut i: usize = 0;
    while i < l.providers.len()
        invariant
            i <= l.providers.len(),
            names@.len() == i,
            forall|k: int| 0 <= k < i ==> value_shape(#[trigger] names@[k])
                == ValueShape::Str(launcher_provider_name_spec(l.providers@[k])),
        decreases l.providers.len() - i,
    {
        names.push(KdlValue::String(launcher_provider_name(l.providers[i]).to_owned()));
        i = i + 1;
    }
    let ghost items = names@.map_values(|v: KdlValue| value_shape(v));
    proof {
        assert(items =~= l.providers@.map_values(|p: LauncherProvider| ValueShape::Str(launcher_provider_name_spec(p))));
    }
    let mut kids = Vec::new();
    kids.push(auto_node("providers", names));
    kids.push(typo_node(&l.fuzzy_search));
    let ghost ss = launcher_shape(*l).children.unwrap();
    proof { reveal_strlit("providers"); reveal_strlit("launcher"); }
    let ghost d: nat = 1;
    parent_node("launcher", kids, Ghost(ss), Ghost(d))
}

fn indexing_node(x: &Indexing) -> (r: KdlNode)
    ensures
        has_shape(r, indexing_shape(*x), 1),
{
    let mut kids = Vec::new();
    kids.push(leaf_node("enabled", KdlValue::Bool(x.enabled)));
    let ghost ss = indexing_shape(*x).children.unwrap();
    proof { reveal_strlit("enabled"); reveal_strlit("indexing"); }
    let ghost d: nat = 0;
    parent_node("indexing", kids, Ghost(ss), Ghost(d))
}

impl ConfigFile {
    /// The configuration written into an empty document: one node per section, in the
    /// order of the fields, each setting a child node that holds its value. This is the
    /// document written where no configuration file exists yet.
    pub fn to_nodes(&self) -> (r: Vec<KdlNode>)
        requires
            config_times_wf(*self),
        ensures
            has_shapes(r@, config_shapes(*self), 2),
    {
        let mut r = Vec::new();
        r.push(nightlight_node(&self.nightlight));
        r.push(homeassistant_node(&self.homeassistant));
        r.push(spotify_node(&self.spotify));
        r.push(system_menu_node(&self.system_menu));
        r.push(launcher_node(&self.launcher));
        r.push(indexing_node(&self.indexing));
        proof {
            let ss = config_shapes(*self);
            assert forall|i: int| 0 <= i < ss.len() implies has_shape(#[trigger] r@[i], ss[i], 2) by {
                if i == 2 || i == 5 {
                    lemma_deeper(r@[i], ss[i], 1, 2);
                }
            }
        }
        r
    }
}

/// A node of some shape keeps it when looked at more deeply.
proof fn lemma_deeper(n: KdlNode, s: NodeShape, d: nat, e: nat)
    requires
        has_shape(n, s, d),
        d <= e,
    ensures
        has_shape(n, s, e),
    decreases d,
{
    match (n.children, s.children) {
        (Some(cs), Some(ss)) => {
            assert forall|i: int| 0 <= i < ss.len() implies has_shape(#[trigger] cs@[i], ss[i], (e - 1) as nat) by {
                lemma_deeper(cs@[i], ss[i], (d - 1) as nat, (e - 1) as nat);
            }
        },
        _ => {},
    }
}

// ---------------------------------------------------------------------------
// Reading back what was written.
// ---------------------------------------------------------------------------

/// Children read one after another through the given states.
proof fn lemma_fold_through<S>(init: S, cs: Seq<KdlNode>, step: spec_fn(S, KdlNode) -> Result<S, ErrorView>, sts: Seq<S>)
    requires
        sts.len() == cs.len() + 1,
        sts[0] == init,
        forall|k: int| 0 <= k < cs.len() ==> step(sts[k], #[trigger] cs[k]) == Ok::<S, ErrorView>(sts[k + 1]),
    ensures
        fold_children(init, cs, step) == Ok::<S, ErrorView>(sts.last()),
    decreases cs.len(),
{
    if cs.len() > 0 {
        let cs2 = cs.drop_last();
        let sts2 = sts.drop_last();
        assert forall|k: int| 0 <= k < cs2.len() implies step(sts2[k], #[trigger] cs2[k]) == Ok::<S, ErrorView>(sts2[k + 1]) by {
            assert(cs2[k] == cs[k]);
        }
        lemma_fold_through(init, cs2, step, sts2);
        assert(step(sts[cs.len() - 1], cs[cs.len() - 1]) == Ok::<S, ErrorView>(sts[cs.len() as int]));
    }
}

/// What a node written with one value holds.
proof fn lemma_leaf(c: KdlNode, name: Seq<char>, v: ValueShape, d: nat)
    requires
        has_shape(c, leaf(name, v), d),
    ensures
        c.name@ == name,
        c.children is None,
        children_of(c).len() == 0,
        c.entries@.len() == 1,
        c.entries@[0].name is None,
        value_shape(c.entries@[0].value) == v,
        first_arg(c.entries@) == Some(c.entries@[0].value),
        node_value_spec(c) == Ok::<KdlValue, ErrorView>(c.entries@[0].value),
{
    assert(c.entries@[0].name is None);
}

/// The children of a node written with children.
proof fn lemma_parent(n: KdlNode, name: Seq<char>, kids: Seq<NodeShape>, d: nat)
    requires
        has_shape(n, parent(name, kids), d + 1),
    ensures
        n.name@ == name,
        children_of(n).len() == kids.len(),
        forall|i: int| 0 <= i < kids.len() ==> has_shape(#[trigger] children_of(n)[i], kids[i], d),
{
}

proof fn lemma_indexing_reads_back(n: KdlNode, x: Indexing, d: nat)
    requires
        has_shape(n, indexing_shape(x), d + 1),
    ensures
        indexing_spec(n) == Ok::<bool, ErrorView>(x.enabled),
{
    let cs = children_of(n);
    lemma_parent(n, "indexing"@, indexing_shape(x).children.unwrap(), d);
    lemma_leaf(cs[0], "enabled"@, ValueShape::Bool(x.enabled), d);
    reveal_strlit("enabled");
    let sts = seq![(true, false), (x.enabled, true)];
    lemma_fold_through((true, false), cs, indexing_step_fn(), sts);
}

proof fn lemma_spotify_reads_back(n: KdlNode, x: Spotify, d: nat)
    requires
        has_shape(n, spotify_shape(x), d + 1),
    ensures
        spotify_spec(n) == Ok::<SpotifyView, ErrorView>(SpotifyView { enabled: x.enabled, client_id: x.client_id@ }),
{
    let cs = children_of(n);
    lemma_parent(n, "spotify"@, spotify_shape(x).children.unwrap(), d);
    lemma_leaf(cs[0], "enabled"@, ValueShape::Bool(x.enabled), d);
    lemma_leaf(cs[1], "client_id"@, ValueShape::Str(x.client_id@), d);
    reveal_strlit("enabled");
    reveal_strlit("client_id");
    let s0 = spotify_init();
    let s1 = SpotifyState { v: SpotifyView { enabled: x.enabled, ..s0.v }, seen_enabled: true, ..s0 };
    let s2 = SpotifyState { v: SpotifyView { client_id: x.client_id@, ..s1.v }, seen_client_id: true, ..s1 };
    assert("client_id"@.len() != "enabled"@.len());
    lemma_fold_through(s0, cs, spotify_step_fn(), seq![s0, s1, s2]);
}

proof fn lemma_setting_reads_back(n: KdlNode, name: Seq<char>, x: NightlightSetting, d: nat)
    requires
        has_shape(n, setting_shape(name, x), d + 1),
    ensures
        setting_spec(n) == Ok::<SettingView, ErrorView>(setting_view(x)),
{
    let cs = children_of(n);
    lemma_parent(n, name, setting_shape(name, x).children.unwrap(), d);
    lemma_leaf(cs[0], "temperature"@, ValueShape::Int(x.temperature as int), d);
    lemma_leaf(cs[1], "brightness"@, ValueShape::Float(x.brightness@), d);
    reveal_strlit("temperature");
    reveal_strlit("brightness");
    assert("temperature"@.len() != "brightness"@.len());
    let s0 = setting_init();
    let s1 = SettingState { temperature: x.temperature, seen_temperature: true, ..s0 };
    let s2 = SettingState { brightness: x.brightness@, seen_brightness: true, ..s1 };
    lemma_fold_through(s0, cs, setting_step_fn(), seq![s0, s1, s2]);
}

/// A time written as text that jiff reads back as the same time.
pub open spec fn time_reads_back(t: Option<CivilTime>) -> bool {
    t matches Some(t) ==> jiff_time_parse(if t.second == 0 { hour_minute_text(t) } else { jiff_time_text(t) })
        == Ok::<(i8, i8, i8, i32), Seq<char>>((t.hour, t.minute, t.second, t.subsec_nanosecond))
}

proof fn lemma_time_reads_back(c: KdlNode, name: Seq<char>, t: Option<CivilTime>, d: nat)
    requires
        has_shape(c, leaf(name, time_shape(t)), d),
        time_reads_back(t),
    ensures
        time_child_spec(c) == Ok::<Option<CivilTime>, ErrorView>(t),
{
    lemma_leaf(c, name, time_shape(t), d);
}

proof fn lemma_nightlight_reads_back(n: KdlNode, x: Nightlight, d: nat)
    requires
        has_shape(n, nightlight_shape(x), d + 2),
        time_reads_back(x.dawn),
        time_reads_back(x.dusk),
    ensures
        nightlight_spec(n) == Ok::<NightlightView, ErrorView>(nightlight_view(x)),
{
    let cs = children_of(n);
    lemma_parent(n, "nightlight"@, nightlight_shape(x).children.unwrap(), d + 1);
    lemma_leaf(cs[0], "enabled"@, ValueShape::Bool(x.enabled), d + 1);
    lemma_leaf(cs[1], "use_location"@, ValueShape::Bool(x.use_location), d + 1);
    lemma_time_reads_back(cs[2], "dawn"@, x.dawn, d + 1);
    lemma_time_reads_back(cs[3], "dusk"@, x.dusk, d + 1);
    lemma_leaf(cs[2], "dawn"@, time_shape(x.dawn), d + 1);
    lemma_leaf(cs[3], "dusk"@, time_shape(x.dusk), d + 1);
    lemma_setting_reads_back(cs[4], "day"@, x.day, d);
    lemma_setting_reads_back(cs[5], "night"@, x.night, d);
    lemma_leaf(cs[6], "debounce_ms"@, ValueShape::Int(x.debounce_ms as int), d + 1);
    reveal_strlit("enabled");
    reveal_strlit("use_location");
    reveal_strlit("dawn");
    reveal_strlit("dusk");
    reveal_strlit("day");
    reveal_strlit("night");
    reveal_strlit("debounce_ms");
    reveal_strlit("nightlight");
    assert("dawn"@[1] != "dusk"@[1]);
    assert("enabled"@.len() == 7 && "use_location"@.len() == 12 && "dawn"@.len() == 4 && "dusk"@.len() == 4);
    assert("day"@.len() == 3 && "night"@.len() == 5 && "debounce_ms"@.len() == 11);
    let s0 = nightlight_init();
    let s1 = NightlightState { v: NightlightView { enabled: x.enabled, ..s0.v }, seen_enabled: true, ..s0 };
    let s2 = NightlightState { v: NightlightView { use_location: x.use_location, ..s1.v }, seen_use_location: true, ..s1 };
    let s3 = NightlightState { v: NightlightView { dawn: x.dawn, ..s2.v }, seen_dawn: true, ..s2 };
    let s4 = NightlightState { v: NightlightView { dusk: x.dusk, ..s3.v }, seen_dusk: true, ..s3 };
    let s5 = NightlightState { v: NightlightView { day: setting_view(x.day), ..s4.v }, seen_day: true, ..s4 };
    let s6 = NightlightState { v: NightlightView { night: setting_view(x.night), ..s5.v }, seen_night: true, ..s5 };
    let s7 = NightlightState { v: NightlightView { debounce_ms: x.debounce_ms, ..s6.v }, seen_debounce_ms: true, ..s6 };
    assert(nightlight_step(s0, cs[0]) == Ok::<NightlightState, ErrorView>(s1));
    assert(nightlight_step(s1, cs[1]) == Ok::<NightlightState, ErrorView>(s2));
    assert(nightlight_step(s2, cs[2]) == Ok::<NightlightState, ErrorView>(s3));
    assert(nightlight_step(s3, cs[3]) == Ok::<NightlightState, ErrorView>(s4));
    assert(nightlight_step(s4, cs[4]) == Ok::<NightlightState, ErrorView>(s5));
    assert(nightlight_step(s5, cs[5]) == Ok::<NightlightState, ErrorView>(s6));
    assert(nightlight_step(s6, cs[6]) == Ok::<NightlightState, ErrorView>(s7));
    lemma_fold_through(s0, cs, nightlight_step_fn(), seq![s0, s1, s2, s3, s4, s5, s6, s7]);
}

proof fn lemma_typo_reads_back(n: KdlNode, x: LauncherTypoSearch, d: nat)
    requires
        has_shape(n, typo_shape(x), d + 1),
    ensures
        typo_spec(n) == Ok::<LauncherTypoSearch, ErrorView>(x),
{
    let cs = children_of(n);
    let ss = typo_shape(x).children.unwrap();
    lemma_parent(n, "fuzzy_search"@, ss, d);
    lemma_leaf(cs[0], "min_chars"@, ValueShape::Int(x.min_chars as int), d);
    lemma_leaf(cs[1], "short_query_chars"@, ValueShape::Int(x.short_query_chars as int), d);
    lemma_leaf(cs[2], "short_max_distance"@, ValueShape::Int(x.short_max_distance as int), d);
    lemma_leaf(cs[3], "medium_query_chars"@, ValueShape::Int(x.medium_query_chars as int), d);
    lemma_leaf(cs[4], "medium_max_distance"@, ValueShape::Int(x.medium_max_distance as int), d);
    lemma_leaf(cs[5], "long_max_distance"@, ValueShape::Int(x.long_max_distance as int), d);
    reveal_strlit("min_chars");
    reveal_strlit("short_query_chars");
    reveal_strlit("short_max_distance");
    reveal_strlit("medium_query_chars");
    reveal_strlit("medium_max_distance");
    reveal_strlit("long_max_distance");
    assert("short_query_chars"@[0] != "long_max_distance"@[0]);
    assert("short_max_distance"@[0] != "medium_query_chars"@[0]);
    assert("min_chars"@.len() == 9 && "short_query_chars"@.len() == 17 && "short_max_distance"@.len() == 18);
    assert("medium_query_chars"@.len() == 18 && "medium_max_distance"@.len() == 19 && "long_max_distance"@.len() == 17);
    assert(typo_fields() == seq!["min_chars"@, "short_query_chars"@, "short_max_distance"@, "medium_query_chars"@,
        "medium_max_distance"@, "long_max_distance"@]);
    let f = seq![false, false, false, false, false, false];
    let s0 = TypoState { v: typo_default(), seen: f };
    let s1 = TypoState { v: typo_with(s0.v, 0, x.min_chars), seen: s0.seen.update(0, true) };
    let s2 = TypoState { v: typo_with(s1.v, 1, x.short_query_chars), seen: s1.seen.update(1, true) };
    let s3 = TypoState { v: typo_with(s2.v, 2, x.short_max_distance), seen: s2.seen.update(2, true) };
    let s4 = TypoState { v: typo_with(s3.v, 3, x.medium_query_chars), seen: s3.seen.update(3, true) };
    let s5 = TypoState { v: typo_with(s4.v, 4, x.medium_max_distance), seen: s4.seen.update(4, true) };
    let s6 = TypoState { v: typo_with(s5.v, 5, x.long_max_distance), seen: s5.seen.update(5, true) };
    assert(typo_field_index(cs[0].name@) == Some(0int));
    assert(typo_field_index(cs[1].name@) == Some(1int));
    assert(typo_field_index(cs[2].name@) == Some(2int));
    assert(typo_field_index(cs[3].name@) == Some(3int));
    assert(typo_field_index(cs[4].name@) == Some(4int));
    assert(typo_field_index(cs[5].name@) == Some(5int));
    lemma_fold_through(s0, cs, typo_step_fn(), seq![s0, s1, s2, s3, s4, s5, s6]);
    assert(s6.v == x);
}

/// Items read one after another, each giving the value expected of it.
proof fn lemma_decode_all<T>(items: Seq<Result<(KdlValue, SourceSpan), ErrorView>>, dec: spec_fn(KdlValue) -> Result<T, ErrorView>, out: Seq<T>)
    requires
        items.len() == out.len(),
        forall|k: int| 0 <= k < items.len() ==> (#[trigger] items[k] matches Ok(p) && dec(p.0) == Ok::<T, ErrorView>(out[k])),
    ensures
        decode_items(items, dec) == Ok::<Seq<T>, ErrorView>(out),
    decreases items.len(),
{
    if items.len() > 0 {
        let i2 = items.drop_last();
        let o2 = out.drop_last();
        assert forall|k: int| 0 <= k < i2.len() implies (#[trigger] i2[k] matches Ok(p) && dec(p.0) == Ok::<T, ErrorView>(o2[k])) by {
            assert(i2[k] == items[k]);
        }
        lemma_decode_all(i2, dec, o2);
        assert(items[items.len() - 1] matches Ok(p) && dec(p.0) == Ok::<T, ErrorView>(out[out.len() - 1]));
        assert(o2.push(out.last()) =~= out);
        assert(items.last() == items[items.len() - 1]);
        assert(out.last() == out[out.len() - 1]);
    } else {
        assert(out =~= Seq::<T>::empty());
    }
}

/// The items of a list written by `auto_list` or `dash_list`, read back with `dec`.
proof fn lemma_list_reads_back<T>(c: KdlNode, name: Seq<char>, vs: Seq<ValueShape>, dashed: bool,
    dec: spec_fn(KdlValue) -> Result<T, ErrorView>, out: Seq<T>, d: nat)
    requires
        has_shape(c, if dashed { dash_list(name, vs) } else { NodeShape { name, args: vs, children: None } }, d + 1),
        vs.len() == out.len(),
        forall|k: int, v: KdlValue| #![trigger dec(v), vs[k]] 0 <= k < vs.len() && value_shape(v) == vs[k] ==> dec(v) == Ok::<T, ErrorView>(out[k]),
    ensures
        c.name@ == name,
        decode_items(list_items(c), dec) == Ok::<Seq<T>, ErrorView>(out),
{
    let items = list_items(c);
    if dashed {
        let ss = vs.map_values(|v: ValueShape| leaf("-"@, v));
        lemma_parent(c, name, ss, d);
        reveal_strlit("-");
        assert(c.entries@.map_values(|e: KdlEntry| entry_item(c, e)) =~= Seq::empty());
        assert forall|k: int| 0 <= k < items.len() implies (#[trigger] items[k] matches Ok(p) && dec(p.0) == Ok::<T, ErrorView>(out[k])) by {
            lemma_leaf(children_of(c)[k], "-"@, vs[k], d);
            assert(items[k] == dash_item(children_of(c)[k]));
        }
    } else {
        assert(children_of(c) =~= Seq::<KdlNode>::empty());
        assert forall|k: int| 0 <= k < items.len() implies (#[trigger] items[k] matches Ok(p) && dec(p.0) == Ok::<T, ErrorView>(out[k])) by {
            assert(c.entries@[k].name is None);
            assert(items[k] == entry_item(c, c.entries@[k]));
        }
    }
    lemma_decode_all(items, dec, out);
}

/// A URL written in serialized form that the url crate serializes the same again.
pub open spec fn url_reads_back(u: Option<String>) -> bool {
    u matches Some(u) ==> url_serialization(u@) == Ok::<Seq<char>, Seq<char>>(u@)
}

proof fn lemma_homeassistant_reads_back(n: KdlNode, x: Homeassistant, d: nat)
    requires
        has_shape(n, homeassistant_shape(x), d + 2),
        url_reads_back(x.url),
    ensures
        homeassistant_spec(n) == Ok::<HomeassistantView, ErrorView>(homeassistant_view(x)),
{
    let cs = children_of(n);
    lemma_parent(n, "homeassistant"@, homeassistant_shape(x).children.unwrap(), d + 1);
    let uv = match x.url { Some(u) => ValueShape::Str(u@), None => ValueShape::Null };
    lemma_leaf(cs[0], "enabled"@, ValueShape::Bool(x.enabled), d + 1);
    lemma_leaf(cs[1], "url"@, uv, d + 1);
    let vs = x.tracked_devices@.map_values(|t: String| ValueShape::Str(t@));
    let out = texts(x.tracked_devices@);
    assert forall|k: int, v: KdlValue| #![trigger text_dec()(v), vs[k]] 0 <= k < vs.len() && value_shape(v) == vs[k] implies text_dec()(v)
        == Ok::<Seq<char>, ErrorView>(out[k]) by {}
    lemma_list_reads_back(cs[2], "tracked_devices"@, vs, true, text_dec(), out, d);
    reveal_strlit("enabled");
    reveal_strlit("url");
    reveal_strlit("tracked_devices");
    assert("enabled"@.len() == 7 && "url"@.len() == 3 && "tracked_devices"@.len() == 15);
    let s0 = homeassistant_init();
    let s1 = HomeassistantState { v: HomeassistantView { enabled: x.enabled, ..s0.v }, seen_enabled: true, ..s0 };
    let s2 = HomeassistantState {
        v: HomeassistantView { url: match x.url { Some(u) => Some(u@), None => None }, ..s1.v },
        seen_url: true,
        ..s1
    };
    let s3 = HomeassistantState { v: HomeassistantView { tracked_devices: s2.v.tracked_devices + out, ..s2.v }, ..s2 };
    assert(url_child_spec(cs[1]) == Ok::<Option<Seq<char>>, ErrorView>(s2.v.url));
    assert(s2.v.tracked_devices + out =~= out);
    lemma_fold_through(s0, cs, homeassistant_step_fn(), seq![s0, s1, s2, s3]);
}

proof fn lemma_widget_names()
    ensures
        forall|v: KdlValue, w: SystemMenuWidgets| #![trigger widget_spec(v), system_menu_widget_name_spec(w)]
            value_shape(v) == ValueShape::Str(system_menu_widget_name_spec(w)) ==> widget_spec(v) == Ok::<SystemMenuWidgets, ErrorView>(w),
{
    reveal_strlit("wifi");
    reveal_strlit("bluetooth");
    reveal_strlit("speaker");
    reveal_strlit("microphone");
    reveal_strlit("vpn");
    reveal_strlit("nightlight");
    assert("wifi"@.len() == 4 && "bluetooth"@.len() == 9 && "speaker"@.len() == 7 && "vpn"@.len() == 3);
    assert("microphone"@.len() == 10 && "nightlight"@.len() == 10 && "microphone"@[0] != "nightlight"@[0]);
}

proof fn lemma_provider_names()
    ensures
        forall|v: KdlValue, p: LauncherProvider| #![trigger provider_spec(v), launcher_provider_name_spec(p)]
            value_shape(v) == ValueShape::Str(launcher_provider_name_spec(p)) ==> provider_spec(v) == Ok::<LauncherProvider, ErrorView>(p),
{
    reveal_strlit("calculator");
    reveal_strlit("applications");
    reveal_strlit("files");
    reveal_strlit("nix");
    assert("calculator"@.len() == 10 && "applications"@.len() == 12 && "files"@.len() == 5 && "nix"@.len() == 3);
}

proof fn lemma_system_menu_reads_back(n: KdlNode, x: SystemMenu, d: nat)
    requires
        has_shape(n, system_menu_shape(x), d + 2),
    ensures
        system_menu_spec(n) == Ok::<Seq<SystemMenuWidgets>, ErrorView>(x.widgets@),
{
    let cs = children_of(n);
    lemma_parent(n, "system_menu"@, system_menu_shape(x).children.unwrap(), d + 1);
    let vs = x.widgets@.map_values(|w: SystemMenuWidgets| ValueShape::Str(system_menu_widget_name_spec(w)));
    lemma_widget_names();
    assert forall|k: int, v: KdlValue| #![trigger widget_dec()(v), vs[k]] 0 <= k < vs.len() && value_shape(v) == vs[k] implies widget_dec()(v)
        == Ok::<SystemMenuWidgets, ErrorView>(x.widgets@[k]) by {
        assert(widget_spec(v) == Ok::<SystemMenuWidgets, ErrorView>(x.widgets@[k]));
    }
    lemma_list_reads_back(cs[0], "widgets"@, vs, vs.len() > 3, widget_dec(), x.widgets@, d);
    reveal_strlit("widgets");
    let e: Seq<SystemMenuWidgets> = Seq::empty();
    assert(e + x.widgets@ =~= x.widgets@);
    lemma_fold_through(e, cs, system_menu_step_fn(), seq![e, x.widgets@]);
}

proof fn lemma_launcher_reads_back(n: KdlNode, x: Launcher, d: nat)
    requires
        has_shape(n, launcher_shape(x), d + 2),
    ensures
        launcher_spec(n) == Ok::<LauncherView, ErrorView>(
            LauncherView { providers: x.providers@, fuzzy_search: x.fuzzy_search },
        ),
{
    let cs = children_of(n);
    lemma_parent(n, "launcher"@, launcher_shape(x).children.unwrap(), d + 1);
    let vs = x.providers@.map_values(|p: LauncherProvider| ValueShape::Str(launcher_provider_name_spec(p)));
    lemma_provider_names();
    assert forall|k: int, v: KdlValue| #![trigger provider_dec()(v), vs[k]] 0 <= k < vs.len() && value_shape(v) == vs[k] implies provider_dec()(v)
        == Ok::<LauncherProvider, ErrorView>(x.providers@[k]) by {
        assert(provider_spec(v) == Ok::<LauncherProvider, ErrorView>(x.providers@[k]));
    }
    lemma_list_reads_back(cs[0], "providers"@, vs, vs.len() > 3, provider_dec(), x.providers@, d);
    lemma_typo_reads_back(cs[1], x.fuzzy_search, d);
    reveal_strlit("providers");
    reveal_strlit("fuzzy_search");
    assert("providers"@.len() == 9 && "fuzzy_search"@.len() == 12);
    let s0 = launcher_init();
    let s1 = LauncherState { v: LauncherView { providers: x.providers@, ..s0.v }, seen_providers: true, ..s0 };
    let s2 = LauncherState { v: LauncherView { fuzzy_search: x.fuzzy_search, ..s1.v }, seen_fuzzy_search: true, ..s1 };
    lemma_fold_through(s0, cs, launcher_step_fn(), seq![s0, s1, s2]);
}

/// A configuration written into an empty document reads back as itself. The times must be
/// ones that jiff reads back from the text they are written as, and the URL one that the
/// url crate serializes unchanged.
pub proof fn lemma_written_config_reads_back(c: ConfigFile, nodes: Seq<KdlNode>)
    requires
        has_shapes(nodes, config_shapes(c), 2),
        time_reads_back(c.nightlight.dawn),
        time_reads_back(c.nightlight.dusk),
        url_reads_back(c.homeassistant.url),
    ensures
        config_from_nodes_spec(nodes) == Ok::<ConfigView, ErrorView>(config_view(c)),
{
    lemma_nightlight_reads_back(nodes[0], c.nightlight, 0);
    lemma_homeassistant_reads_back(nodes[1], c.homeassistant, 0);
    lemma_spotify_reads_back(nodes[2], c.spotify, 1);
    lemma_system_menu_reads_back(nodes[3], c.system_menu, 0);
    lemma_launcher_reads_back(nodes[4], c.launcher, 0);
    lemma_indexing_reads_back(nodes[5], c.indexing, 1);
    reveal_strlit("nightlight");
    reveal_strlit("homeassistant");
    reveal_strlit("spotify");
    reveal_strlit("system_menu");
    reveal_strlit("launcher");
    reveal_strlit("indexing");
    assert("nightlight"@.len() == 10 && "homeassistant"@.len() == 13 && "spotify"@.len() == 7);
    assert("system_menu"@.len() == 11 && "launcher"@.len() == 8 && "indexing"@.len() == 8);
    assert("launcher"@[0] != "indexing"@[0]);
    let s0 = config_init();
    let s1 = ConfigState { v: ConfigView { nightlight: nightlight_view(c.nightlight), ..s0.v }, seen: s0.seen.update(0, true) };
    let s2 = ConfigState { v: ConfigView { homeassistant: homeassistant_view(c.homeassistant), ..s1.v }, seen: s1.seen.update(1, true) };
    let s3 = ConfigState {
        v: ConfigView { spotify: SpotifyView { enabled: c.spotify.enabled, client_id: c.spotify.client_id@ }, ..s2.v },
        seen: s2.seen.update(2, true),
    };
    let s4 = ConfigState { v: ConfigView { widgets: c.system_menu.widgets@, ..s3.v }, seen: s3.seen.update(3, true) };
    let s5 = ConfigState {
        v: ConfigView {
            launcher: LauncherView { providers: c.launcher.providers@, fuzzy_search: c.launcher.fuzzy_search },
            ..s4.v
        },
        seen: s4.seen.update(4, true),
    };
    let s6 = ConfigState { v: ConfigView { indexing_enabled: c.indexing.enabled, ..s5.v }, seen: s5.seen.update(5, true) };
    assert(config_step(s0, nodes[0]) == Ok::<ConfigState, ErrorView>(s1));
    assert(config_step(s1, nodes[1]) == Ok::<ConfigState, ErrorView>(s2));
    assert(config_step(s2, nodes[2]) == Ok::<ConfigState, ErrorView>(s3));
    assert(config_step(s3, nodes[3]) == Ok::<ConfigState, ErrorView>(s4));
    assert(config_step(s4, nodes[4]) == Ok::<ConfigState, ErrorView>(s5));
    assert(config_step(s5, nodes[5]) == Ok::<ConfigState, ErrorView>(s6));
    lemma_fold_through(s0, nodes, config_step_fn(), seq![s0, s1, s2, s3, s4, s5, s6]);
}

} // verus!
