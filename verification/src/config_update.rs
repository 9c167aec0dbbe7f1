use vstd::prelude::*;

use crate::config::{
    ConfigFile, Homeassistant, Indexing, Launcher, LauncherProvider, LauncherTypoSearch, Nightlight,
    NightlightSetting, Spotify, SystemMenu, SystemMenuWidgets,
};
use crate::config_value::{KdlEntry, KdlNode, KdlValue, SourceSpan};
use crate::config_write::{
    NodeShape, ValueShape, auto_list, config_shapes, dash_list, has_shape, has_shapes, homeassistant_shape, indexing_shape,
    int_value, launcher_shape, leaf, lemma_written_config_reads_back, nightlight_shape, parent, setting_shape,
    spotify_shape, system_menu_shape, time_reads_back, time_shape, time_value, typo_shape, url_reads_back, value_shape,
};
use crate::config_parse::{config_from_nodes_spec, config_view};
use crate::config_value::ErrorView;
use crate::nix::{
    config_times_wf, launcher_provider_name, launcher_provider_name_spec, system_menu_widget_name,
    system_menu_widget_name_spec,
};
use crate::text::str_eq;

verus! {

// ---------------------------------------------------------------------------
// What is written into a node.
// ---------------------------------------------------------------------------

/// What a setting writes into the node that holds it: one value; a list written as
/// arguments; a list written as `-` children; or the settings of a group, each into the
/// child named after it.
pub enum FieldWrite {
    Value(KdlValue),
    Inline(Vec<KdlValue>),
    Dashes(Vec<KdlValue>),
    Group(Vec<(String, FieldWrite)>),
}

/// What a setting writes, as plain values.
pub enum FieldShape {
    Value(ValueShape),
    Inline(Seq<ValueShape>),
    Dashes(Seq<ValueShape>),
    Group(Seq<(Seq<char>, FieldShape)>),
}

/// The values of a list, as plain values.
pub open spec fn value_shapes(vs: Seq<KdlValue>) -> Seq<ValueShape> {
    vs.map_values(|v: KdlValue| value_shape(v))
}

/// What a setting writes, as plain values.
pub open spec fn write_view(w: FieldWrite) -> FieldShape
    decreases w,
{
    match w {
        FieldWrite::Value(v) => FieldShape::Value(value_shape(v)),
        FieldWrite::Inline(vs) => FieldShape::Inline(value_shapes(vs@)),
        FieldWrite::Dashes(vs) => FieldShape::Dashes(value_shapes(vs@)),
        FieldWrite::Group(fs) => FieldShape::Group(fields_view(fs@)),
    }
}

/// The settings of a group, each with its name, as plain values.
pub open spec fn fields_view(s: Seq<(String, FieldWrite)>) -> Seq<(Seq<char>, FieldShape)>
    decreases s,
{
    if s.len() == 0 {
        Seq::empty()
    } else {
        fields_view(s.drop_last()).push((s.last().0@, write_view(s.last().1)))
    }
}

proof fn lemma_fields_view(s: Seq<(String, FieldWrite)>)
    ensures
        fields_view(s).len() == s.len(),
        forall|i: int| 0 <= i < s.len() ==> #[trigger] fields_view(s)[i] == (s[i].0@, write_view(s[i].1)),
    decreases s.len(),
{
    if s.len() > 0 {
        lemma_fields_view(s.drop_last());
        assert forall|i: int| 0 <= i < s.len() implies #[trigger] fields_view(s)[i] == (s[i].0@, write_view(s[i].1)) by {
            if i < s.len() - 1 {
                assert(s.drop_last()[i] == s[i]);
            }
        }
    }
}

/// Whether groups nest at most `fuel` deep.
pub open spec fn fits(w: FieldShape, fuel: nat) -> bool
    decreases fuel,
{
    match w {
        FieldShape::Group(fs) => fuel > 0 && names_distinct(fs) && forall|k: int| 0 <= k < fs.len()
            ==> fits(#[trigger] fs[k].1, (fuel - 1) as nat),
        _ => true,
    }
}

/// Whether no two settings of a group share a name.
pub open spec fn names_distinct(fs: Seq<(Seq<char>, FieldShape)>) -> bool {
    forall|a: int, b: int| 0 <= a < fs.len() && 0 <= b < fs.len() && a != b ==> fs[a].0 != fs[b].0
}

// ---------------------------------------------------------------------------
// Where a setting is written.
// ---------------------------------------------------------------------------

/// The position of the first node with the name.
pub open spec fn first_index(ns: Seq<KdlNode>, name: Seq<char>) -> Option<int>
    decreases ns.len(),
{
    if ns.len() == 0 {
        None
    } else {
        match first_index(ns.drop_last(), name) {
            Some(i) => Some(i),
            None => if ns.last().name@ == name { Some(ns.len() - 1) } else { None },
        }
    }
}

/// The first node with a name has it, and none before it has; without one, no node has it.
proof fn lemma_first_index(ns: Seq<KdlNode>, name: Seq<char>)
    ensures
        first_index(ns, name) matches Some(i) ==> 0 <= i < ns.len() && ns[i].name@ == name
            && forall|k: int| 0 <= k < i ==> ns[k].name@ != name,
        first_index(ns, name) is None ==> forall|k: int| 0 <= k < ns.len() ==> ns[k].name@ != name,
    decreases ns.len(),
{
    if ns.len() > 0 {
        lemma_first_index(ns.drop_last(), name);
        assert forall|k: int| 0 <= k < ns.len() - 1 implies ns[k] == ns.drop_last()[k] by {}
    }
}

/// A position is the first with a name when the node there has it and none before it has.
proof fn lemma_first_index_at(ns: Seq<KdlNode>, name: Seq<char>, i: int)
    requires
        0 <= i < ns.len(),
        ns[i].name@ == name,
        forall|k: int| 0 <= k < i ==> ns[k].name@ != name,
    ensures
        first_index(ns, name) == Some(i),
{
    lemma_first_index(ns, name);
    if first_index(ns, name) is Some {
        let j = first_index(ns, name)->0;
        if j < i {
            assert(ns[j].name@ != name);
        } else if j > i {
            assert(ns[i].name@ != name);
        }
    }
}

/// Two lists whose nodes have the same names up to the length of the first, the second
/// holding no node of the name after that, have the same first node of the name.
proof fn lemma_first_index_same(old: Seq<KdlNode>, cur: Seq<KdlNode>, name: Seq<char>)
    requires
        old.len() <= cur.len(),
        forall|j: int| 0 <= j < old.len() ==> #[trigger] cur[j].name@ == old[j].name@,
        forall|j: int| old.len() <= j < cur.len() ==> #[trigger] cur[j].name@ != name,
    ensures
        first_index(cur, name) == first_index(old, name),
{
    lemma_first_index(old, name);
    lemma_first_index(cur, name);
    match first_index(old, name) {
        Some(i) => {
            assert(cur[i].name@ == old[i].name@);
            assert forall|k: int| 0 <= k < i implies cur[k].name@ != name by {
                assert(cur[k].name@ == old[k].name@);
            }
            lemma_first_index_at(cur, name, i);
        },
        None => {
            if first_index(cur, name) is Some {
                let j = first_index(cur, name)->0;
                if j < old.len() {
                    assert(cur[j].name@ == old[j].name@);
                }
            }
        },
    }
}

/// The settings of a group that no node of the list is named after, in order: they are
/// written into new nodes added at the end.
pub open spec fn missing_fields(ns: Seq<KdlNode>, fs: Seq<(Seq<char>, FieldShape)>) -> Seq<(Seq<char>, FieldShape)> {
    fs.filter(|f: (Seq<char>, FieldShape)| first_index(ns, f.0) is None)
}

/// The entries a node had before (none for a new node).
pub open spec fn old_entries(old: Option<KdlNode>) -> Seq<KdlEntry> {
    match old {
        Some(o) => o.entries@,
        None => Seq::empty(),
    }
}

/// The children a node had before (none without a children block, or for a new node).
pub open spec fn old_children(old: Option<KdlNode>) -> Seq<KdlNode> {
    match old {
        Some(o) => match o.children {
            Some(cs) => cs@,
            None => Seq::empty(),
        },
        None => Seq::empty(),
    }
}

/// The span a node had before (nothing for a new node).
pub open spec fn old_span(old: Option<KdlNode>) -> SourceSpan {
    match old {
        Some(o) => o.span,
        None => SourceSpan { offset: 0, len: 0 },
    }
}

/// Whether entries are exactly arguments with these values, at no span.
pub open spec fn written_args(es: Seq<KdlEntry>, vs: Seq<ValueShape>) -> bool {
    &&& es.len() == vs.len()
    &&& forall|i: int| 0 <= i < vs.len() ==> #[trigger] es[i].name is None && value_shape(es[i].value) == vs[i]
        && es[i].span == (SourceSpan { offset: 0, len: 0 })
}

/// The `-` children of a list node as written: the first ones, kept in place, hold the
/// items in turn (a `-` child added where there are more items); `-` children beyond the
/// items stay as they were, and other children are dropped.
pub open spec fn dashes_written(kept: Seq<KdlNode>, new: Seq<KdlNode>, vs: Seq<ValueShape>) -> bool {
    &&& new.len() == if vs.len() > kept.len() { vs.len() } else { kept.len() }
    &&& forall|i: int| 0 <= i < vs.len() ==> {
        &&& (#[trigger] new[i]).name@ == "-"@
        &&& new[i].children is None
        &&& written_args(new[i].entries@, seq![vs[i]])
        &&& new[i].span == if i < kept.len() { kept[i].span } else { SourceSpan { offset: 0, len: 0 } }
    }
    &&& forall|i: int| vs.len() <= i < kept.len() ==> #[trigger] new[i] == kept[i]
}

/// A node after a setting was written into it (`old` is the node it was, or none for a
/// node made for the setting). It keeps its name and span. One value or a list written
/// inline becomes its arguments, without children. A list written as `-` children
/// takes the place of the arguments and of the children but the `-` ones. A group keeps
/// the node's arguments and its other children, and writes each setting into its child.
pub open spec fn field_written(old: Option<KdlNode>, n: KdlNode, name: Seq<char>, w: FieldShape, fuel: nat) -> bool
    decreases fuel, 0nat,
{
    &&& n.name@ == name
    &&& n.span == old_span(old)
    &&& match w {
        FieldShape::Value(v) => n.children is None && written_args(n.entries@, seq![v]),
        FieldShape::Inline(vs) => n.children is None && written_args(n.entries@, vs),
        FieldShape::Dashes(vs) => n.entries@.len() == 0 && match n.children {
            Some(cs) => dashes_written(old_children(old).filter(|c: KdlNode| c.name@ == "-"@), cs@, vs),
            None => false,
        },
        FieldShape::Group(fs) => fuel > 0 && n.entries@ == old_entries(old) && match n.children {
            Some(cs) => fields_written(old_children(old), cs@, fs, (fuel - 1) as nat),
            None => false,
        },
    }
}

/// A list of nodes after the settings of a group were written into it: each setting into
/// the first node named after it, in place, or into a new node added at the end, in the
/// order of the settings; the other nodes stay as they were.
pub open spec fn fields_written(old: Seq<KdlNode>, new: Seq<KdlNode>, fs: Seq<(Seq<char>, FieldShape)>, fuel: nat) -> bool
    decreases fuel, 1nat,
{
    let missing = missing_fields(old, fs);
    &&& new.len() == old.len() + missing.len()
    &&& forall|j: int| 0 <= j < old.len() && (forall|k: int| 0 <= k < fs.len() ==> first_index(old, #[trigger] fs[k].0) != Some(j))
        ==> #[trigger] new[j] == old[j]
    &&& forall|k: int| 0 <= k < fs.len() ==> match first_index(old, #[trigger] fs[k].0) {
        Some(i) => field_written(Some(old[i]), new[i], fs[k].0, fs[k].1, fuel),
        None => true,
    }
    &&& forall|m: int| 0 <= m < missing.len() ==> field_written(None, #[trigger] new[old.len() + m], missing[m].0, missing[m].1, fuel)
}


// ---------------------------------------------------------------------------
// Writing.
// ---------------------------------------------------------------------------

fn blank_span() -> (s: SourceSpan)
    ensures
        s == (SourceSpan { offset: 0, len: 0 }),
{
    SourceSpan { offset: 0, len: 0 }
}

/// Arguments holding the values, at no span.
fn args_of(vs: &Vec<KdlValue>) -> (es: Vec<KdlEntry>)
    ensures
        written_args(es@, value_shapes(vs@)),
{
    let mut es: Vec<KdlEntry> = Vec::new();
    let mut i: usize = 0;
    while i < vs.len()
        invariant
            i <= vs@.len(),
            es@.len() == i,
            forall|k: int| 0 <= k < i ==> #[trigger] es@[k].name is None && es@[k].value == vs@[k]
                && es@[k].span == (SourceSpan { offset: 0, len: 0 }),
        decreases vs@.len() - i,
    {
        es.push(KdlEntry { name: None, value: vs[i].duplicate(), span: blank_span() });
        i = i + 1;
    }
    es
}

/// One argument holding the value, at no span.
fn arg_of(v: &KdlValue) -> (es: Vec<KdlEntry>)
    ensures
        written_args(es@, seq![value_shape(*v)]),
{
    let mut es: Vec<KdlEntry> = Vec::new();
    es.push(KdlEntry { name: None, value: v.duplicate(), span: blank_span() });
    es
}

/// The position of the first node with the name.
fn find_first(ns: &Vec<KdlNode>, name: &str) -> (r: Option<usize>)
    ensures
        r matches Some(i) ==> first_index(ns@, name@) == Some(i as int),
        r is None ==> first_index(ns@, name@) is None,
{
    let mut i: usize = 0;
    while i < ns.len()
        invariant
            i <= ns@.len(),
            forall|k: int| 0 <= k < i ==> ns@[k].name@ != name@,
        decreases ns@.len() - i,
    {
        if str_eq(ns[i].name.as_str(), name) {
            proof { lemma_first_index_at(ns@, name@, i as int); }
            return Some(i);
        }
        i = i + 1;
    }
    proof {
        lemma_first_index(ns@, name@);
        if first_index(ns@, name@) is Some {
            let j = first_index(ns@, name@)->0;
            assert(ns@[j].name@ != name@);
        }
    }
    None
}

/// The `-` children among children, in order.
fn keep_dashes(cs: Vec<KdlNode>) -> (kept: Vec<KdlNode>)
    ensures
        kept@ == cs@.filter(|c: KdlNode| c.name@ == "-"@),
{
    let ghost orig = cs@;
    let ghost p = |c: KdlNode| c.name@ == "-"@;
    let total = cs.len();
    assert(orig.len() == total);
    let mut rest = cs;
    let mut kept: Vec<KdlNode> = Vec::new();
    let mut i: usize = 0;
    proof { reveal(Seq::filter); }
    assert(orig.take(0).filter(p) =~= Seq::<KdlNode>::empty());
    assert(orig.skip(0) =~= orig);
    while rest.len() > 0
        invariant
            i <= orig.len(),
            i + rest@.len() == orig.len(),
            rest@ == orig.skip(i as int),
            kept@ == orig.take(i as int).filter(p),
            p == (|c: KdlNode| c.name@ == "-"@),
            orig.len() <= usize::MAX,
        decreases rest@.len(),
    {
        let c = rest.remove(0);
        proof {
            reveal(Seq::filter);
            assert(orig.take(i + 1).drop_last() =~= orig.take(i as int));
            assert(orig.take(i + 1).last() == orig[i as int]);
            assert(rest@ =~= orig.skip(i + 1));
        }
        if str_eq(c.name.as_str(), "-") {
            proof { reveal_strlit("-"); }
            kept.push(c);
        } else {
            proof { reveal_strlit("-"); }
        }
        i = i + 1;
    }
    assert(orig.take(i as int) =~= orig);
    kept
}

/// The `-` children of a list written as `-` children, from the `-` children it had.
fn write_dashes(kept: Vec<KdlNode>, vs: &Vec<KdlValue>) -> (new: Vec<KdlNode>)
    ensures
        dashes_written(kept@, new@, value_shapes(vs@)),
{
    let ghost k0 = kept@;
    let mut kept = kept;
    let mut new: Vec<KdlNode> = Vec::new();
    let mut i: usize = 0;
    proof { reveal_strlit("-"); }
    while i < vs.len()
        invariant
            i <= vs@.len(),
            kept@ == k0,
            new@.len() == i,
            forall|j: int| 0 <= j < i ==> {
                &&& (#[trigger] new@[j]).name@ == "-"@
                &&& new@[j].children is None
                &&& written_args(new@[j].entries@, seq![value_shapes(vs@)[j]])
                &&& new@[j].span == if j < k0.len() { k0[j].span } else { SourceSpan { offset: 0, len: 0 } }
            },
        decreases vs@.len() - i,
    {
        let span = if i < kept.len() { kept[i].span } else { blank_span() };
        let entries = arg_of(&vs[i]);
        new.push(KdlNode { name: "-".to_owned(), entries, children: None, span });
        i = i + 1;
    }
    if vs.len() < kept.len() {
        let mut tail = kept.split_off(vs.len());
        let ghost before = new@;
        new.append(&mut tail);
        assert(forall|j: int| vs@.len() <= j < k0.len() ==> new@[j] == k0[j]);
    }
    new
}

/// Writes a setting into the node that holds it.
fn apply_field(node: &mut KdlNode, w: &FieldWrite, Ghost(fuel): Ghost<nat>)
    requires
        fits(write_view(*w), fuel),
    ensures
        field_written(Some(*old(node)), *final(node), old(node).name@, write_view(*w), fuel),
    decreases fuel, 0nat,
{
    let ghost before = *node;
    match w {
        FieldWrite::Value(v) => {
            node.entries = arg_of(v);
            node.children = None;
        },
        FieldWrite::Inline(vs) => {
            node.entries = args_of(vs);
            node.children = None;
        },
        FieldWrite::Dashes(vs) => {
            node.entries = Vec::new();
            let cs = match node.children.take() {
                Some(cs) => cs,
                None => Vec::new(),
            };
            assert(cs@ == old_children(Some(before)));
            let kept = keep_dashes(cs);
            node.children = Some(write_dashes(kept, vs));
        },
        FieldWrite::Group(fs) => {
            let mut cs = match node.children.take() {
                Some(cs) => cs,
                None => Vec::new(),
            };
            assert(cs@ == old_children(Some(before)));
            proof {
                lemma_fields_view(fs@);
                let fv = fields_view(fs@);
                assert(write_view(*w) == FieldShape::Group(fv));
                assert(fits(FieldShape::Group(fv), fuel));
                assert forall|k: int| 0 <= k < fs@.len() implies fits(#[trigger] write_view(fs@[k].1), (fuel - 1) as nat) by {
                    assert(fv[k] == (fs@[k].0@, write_view(fs@[k].1)));
                    assert(fits(fv[k].1, (fuel - 1) as nat));
                }
            }
            apply_fields(&mut cs, fs, Ghost((fuel - 1) as nat));
            node.children = Some(cs);
        },
    }
}

/// Writes the settings of a group into a list of nodes.
fn apply_fields(ns: &mut Vec<KdlNode>, fs: &Vec<(String, FieldWrite)>, Ghost(fuel): Ghost<nat>)
    requires
        names_distinct(fields_view(fs@)),
        forall|k: int| 0 <= k < fs@.len() ==> fits(#[trigger] write_view(fs@[k].1), fuel),
    ensures
        fields_written(old(ns)@, final(ns)@, fields_view(fs@), fuel),
    decreases fuel, 2nat,
{
    let ghost old0 = ns@;
    let ghost fsv = fields_view(fs@);
    proof { lemma_fields_view(fs@); }
    let mut k: usize = 0;
    assert(fsv.take(0) =~= Seq::<(Seq<char>, FieldShape)>::empty());
    proof { reveal(Seq::filter); }
    assert(missing_fields(old0, fsv.take(0)).len() == 0);
    while k < fs.len()
        invariant
            k <= fs@.len(),
            fsv == fields_view(fs@),
            fsv.len() == fs@.len(),
            forall|i: int| 0 <= i < fs@.len() ==> #[trigger] fsv[i] == (fs@[i].0@, write_view(fs@[i].1)),
            names_distinct(fsv),
            forall|i: int| 0 <= i < fs@.len() ==> fits(#[trigger] write_view(fs@[i].1), fuel),
            ns@.len() == old0.len() + missing_fields(old0, fsv.take(k as int)).len(),
            forall|j: int| 0 <= j < old0.len() ==> #[trigger] ns@[j].name@ == old0[j].name@,
            forall|j: int| 0 <= j < old0.len() && (forall|k2: int| 0 <= k2 < k ==> first_index(old0, #[trigger] fsv[k2].0) != Some(j))
                ==> #[trigger] ns@[j] == old0[j],
            forall|k2: int| 0 <= k2 < k ==> match first_index(old0, #[trigger] fsv[k2].0) {
                Some(i) => field_written(Some(old0[i]), ns@[i], fsv[k2].0, fsv[k2].1, fuel),
                None => true,
            },
            forall|m: int| 0 <= m < missing_fields(old0, fsv.take(k as int)).len() ==> field_written(None,
                #[trigger] ns@[old0.len() + m], missing_fields(old0, fsv.take(k as int))[m].0,
                missing_fields(old0, fsv.take(k as int))[m].1, fuel),
        decreases fs@.len() - k,
    {
        let ghost cur = ns@;
        let ghost name = fsv[k as int].0;
        let ghost miss = missing_fields(old0, fsv.take(k as int));
        proof {
            assert forall|j: int| old0.len() <= j < cur.len() implies #[trigger] cur[j].name@ != name by {
                let m = j - old0.len();
                assert(field_written(None, cur[old0.len() + m], miss[m].0, miss[m].1, fuel));
                assert(miss.contains(miss[m]));
                fsv.take(k as int).lemma_filter_contains_rev(|f: (Seq<char>, FieldShape)| first_index(old0, f.0) is None, miss[m]);
                let k2 = choose|k2: int| 0 <= k2 < fsv.take(k as int).len() && fsv.take(k as int)[k2] == miss[m];
                assert(fsv[k2] == miss[m]);
                assert(k2 != k);
            }
            lemma_first_index_same(old0, cur, name);
            lemma_first_index(old0, name);
            assert(fsv.take(k + 1).drop_last() =~= fsv.take(k as int));
            assert(fsv.take(k + 1).last() == fsv[k as int]);
            reveal(Seq::filter);
        }
        match find_first(ns, fs[k].0.as_str()) {
            Some(i) => {
                proof {
                    assert forall|k2: int| 0 <= k2 < k implies first_index(old0, #[trigger] fsv[k2].0) != Some(i as int) by {
                        if first_index(old0, fsv[k2].0) == Some(i as int) {
                            lemma_first_index(old0, fsv[k2].0);
                            assert(fsv[k2].0 != fsv[k as int].0);
                        }
                    }
                    assert(cur[i as int] == old0[i as int]);
                    assert(fs@[k as int].0@ == name);
                }
                let mut n = ns.remove(i);
                apply_field(&mut n, &fs[k].1, Ghost(fuel));
                ns.insert(i, n);
                proof {
                    assert(missing_fields(old0, fsv.take(k + 1)) == miss);
                    assert(ns@ =~= cur.update(i as int, ns@[i as int]));
                    assert(field_written(Some(old0[i as int]), ns@[i as int], fsv[k as int].0, fsv[k as int].1, fuel));
                    assert forall|k2: int| 0 <= k2 < k + 1 implies match first_index(old0, #[trigger] fsv[k2].0) {
                        Some(i2) => field_written(Some(old0[i2]), ns@[i2], fsv[k2].0, fsv[k2].1, fuel),
                        None => true,
                    } by {
                        if k2 < k {
                            if first_index(old0, fsv[k2].0) is Some {
                                let i2 = first_index(old0, fsv[k2].0)->0;
                                lemma_first_index(old0, fsv[k2].0);
                                assert(i2 != i);
                                assert(ns@[i2] == cur[i2]);
                            }
                        }
                    }
                    assert forall|j: int| 0 <= j < old0.len() implies #[trigger] ns@[j].name@ == old0[j].name@ by {
                        if j != i {
                            assert(ns@[j] == cur[j]);
                        }
                    }
                    assert forall|m: int| 0 <= m < miss.len() implies #[trigger] ns@[old0.len() + m] == cur[old0.len() + m] by {}
                }
            },
            None => {
                let n = new_field(fs[k].0.as_str(), &fs[k].1, Ghost(fuel));
                ns.push(n);
                proof {
                    assert(fs@[k as int].0@ == name);
                    assert(missing_fields(old0, fsv.take(k + 1)) == miss.push(fsv[k as int]));
                    assert(ns@ == cur.push(ns@[cur.len() as int]));
                    assert forall|k2: int| 0 <= k2 < k + 1 implies match first_index(old0, #[trigger] fsv[k2].0) {
                        Some(i2) => field_written(Some(old0[i2]), ns@[i2], fsv[k2].0, fsv[k2].1, fuel),
                        None => true,
                    } by {
                        if first_index(old0, fsv[k2].0) is Some {
                            let i2 = first_index(old0, fsv[k2].0)->0;
                            lemma_first_index(old0, fsv[k2].0);
                            assert(ns@[i2] == cur[i2]);
                        }
                    }
                    let miss2 = miss.push(fsv[k as int]);
                    assert forall|m: int| 0 <= m < miss2.len() implies field_written(None,
                        #[trigger] ns@[old0.len() + m], miss2[m].0, miss2[m].1, fuel) by {
                        if m < miss.len() {
                            assert(ns@[old0.len() + m] == cur[old0.len() + m]);
                        }
                    }
                }
            },
        }
        k = k + 1;
    }
    assert(fsv.take(fs@.len() as int) =~= fsv);
}

/// A node made for a setting.
fn new_field(name: &str, w: &FieldWrite, Ghost(fuel): Ghost<nat>) -> (n: KdlNode)
    requires
        fits(write_view(*w), fuel),
    ensures
        field_written(None, n, name@, write_view(*w), fuel),
    decreases fuel, 1nat,
{
    let mut n = KdlNode { name: name.to_owned(), entries: Vec::new(), children: None, span: blank_span() };
    let ghost blank = n;
    apply_field(&mut n, w, Ghost(fuel));
    assert(old_children(Some(blank)) =~= old_children(None));
    assert(old_entries(Some(blank)) =~= old_entries(None));
    n
}


// ---------------------------------------------------------------------------
// What the configuration writes.
// ---------------------------------------------------------------------------

/// A list written inline when it has at most three items, else as `-` children.
pub open spec fn list_shape(items: Seq<ValueShape>) -> FieldShape {
    if items.len() > 3 { FieldShape::Dashes(items) } else { FieldShape::Inline(items) }
}

/// What a nightlight preset writes.
pub open spec fn setting_writes(s: NightlightSetting) -> Seq<(Seq<char>, FieldShape)> {
    seq![
        ("temperature"@, FieldShape::Value(ValueShape::Int(s.temperature as int))),
        ("brightness"@, FieldShape::Value(ValueShape::Float(s.brightness@))),
    ]
}

/// What the nightlight settings write.
pub open spec fn nightlight_writes(n: Nightlight) -> Seq<(Seq<char>, FieldShape)> {
    seq![
        ("enabled"@, FieldShape::Value(ValueShape::Bool(n.enabled))),
        ("use_location"@, FieldShape::Value(ValueShape::Bool(n.use_location))),
        ("dawn"@, FieldShape::Value(time_shape(n.dawn))),
        ("dusk"@, FieldShape::Value(time_shape(n.dusk))),
        ("day"@, FieldShape::Group(setting_writes(n.day))),
        ("night"@, FieldShape::Group(setting_writes(n.night))),
        ("debounce_ms"@, FieldShape::Value(ValueShape::Int(n.debounce_ms as int))),
    ]
}

/// What the Homeassistant settings write; the devices are always `-` children.
pub open spec fn homeassistant_writes(h: Homeassistant) -> Seq<(Seq<char>, FieldShape)> {
    seq![
        ("enabled"@, FieldShape::Value(ValueShape::Bool(h.enabled))),
        ("url"@, FieldShape::Value(match h.url { Some(u) => ValueShape::Str(u@), None => ValueShape::Null })),
        ("tracked_devices"@, FieldShape::Dashes(h.tracked_devices@.map_values(|d: String| ValueShape::Str(d@)))),
    ]
}

/// What the Spotify settings write.
pub open spec fn spotify_writes(s: Spotify) -> Seq<(Seq<char>, FieldShape)> {
    seq![
        ("enabled"@, FieldShape::Value(ValueShape::Bool(s.enabled))),
        ("client_id"@, FieldShape::Value(ValueShape::Str(s.client_id@))),
    ]
}

/// What the system menu settings write.
pub open spec fn system_menu_writes(m: SystemMenu) -> Seq<(Seq<char>, FieldShape)> {
    seq![("widgets"@, list_shape(m.widgets@.map_values(|w: SystemMenuWidgets| ValueShape::Str(system_menu_widget_name_spec(w)))))]
}

/// What the typo tolerance writes.
pub open spec fn typo_writes(t: LauncherTypoSearch) -> Seq<(Seq<char>, FieldShape)> {
    seq![
        ("min_chars"@, FieldShape::Value(ValueShape::Int(t.min_chars as int))),
        ("short_query_chars"@, FieldShape::Value(ValueShape::Int(t.short_query_chars as int))),
        ("short_max_distance"@, FieldShape::Value(ValueShape::Int(t.short_max_distance as int))),
        ("medium_query_chars"@, FieldShape::Value(ValueShape::Int(t.medium_query_chars as int))),
        ("medium_max_distance"@, FieldShape::Value(ValueShape::Int(t.medium_max_distance as int))),
        ("long_max_distance"@, FieldShape::Value(ValueShape::Int(t.long_max_distance as int))),
    ]
}

/// What the launcher settings write.
pub open spec fn launcher_writes(l: Launcher) -> Seq<(Seq<char>, FieldShape)> {
    seq![
        ("providers"@, list_shape(l.providers@.map_values(|p: LauncherProvider| ValueShape::Str(launcher_provider_name_spec(p))))),
        ("fuzzy_search"@, FieldShape::Group(typo_writes(l.fuzzy_search))),
    ]
}

/// What the indexing settings write.
pub open spec fn indexing_writes(i: Indexing) -> Seq<(Seq<char>, FieldShape)> {
    seq![("enabled"@, FieldShape::Value(ValueShape::Bool(i.enabled)))]
}

/// What a configuration writes into a document: each section into the node named after it.
pub open spec fn config_writes(c: ConfigFile) -> Seq<(Seq<char>, FieldShape)> {
    seq![
        ("nightlight"@, FieldShape::Group(nightlight_writes(c.nightlight))),
        ("homeassistant"@, FieldShape::Group(homeassistant_writes(c.homeassistant))),
        ("spotify"@, FieldShape::Group(spotify_writes(c.spotify))),
        ("system_menu"@, FieldShape::Group(system_menu_writes(c.system_menu))),
        ("launcher"@, FieldShape::Group(launcher_writes(c.launcher))),
        ("indexing"@, FieldShape::Group(indexing_writes(c.indexing))),
    ]
}

fn value_write(name: &str, v: KdlValue) -> (r: (String, FieldWrite))
    ensures
        r.0@ == name@,
        write_view(r.1) == FieldShape::Value(value_shape(v)),
{
    (name.to_owned(), FieldWrite::Value(v))
}

fn list_write(name: &str, vs: Vec<KdlValue>) -> (r: (String, FieldWrite))
    ensures
        r.0@ == name@,
        write_view(r.1) == list_shape(value_shapes(vs@)),
{
    if vs.len() > 3 { (name.to_owned(), FieldWrite::Dashes(vs)) } else { (name.to_owned(), FieldWrite::Inline(vs)) }
}

fn group_write(name: &str, fs: Vec<(String, FieldWrite)>, Ghost(spec): Ghost<Seq<(Seq<char>, FieldShape)>>) -> (r: (String, FieldWrite))
    requires
        fields_view(fs@) == spec,
    ensures
        r.0@ == name@,
        write_view(r.1) == FieldShape::Group(spec),
{
    (name.to_owned(), FieldWrite::Group(fs))
}

fn setting_write(name: &str, s: &NightlightSetting) -> (r: (String, FieldWrite))
    ensures
        r.0@ == name@,
        write_view(r.1) == FieldShape::Group(setting_writes(*s)),
{
    let mut fs = Vec::new();
    fs.push(value_write("temperature", int_value(s.temperature as u64)));
    fs.push(value_write("brightness", KdlValue::Float(s.brightness.clone())));
    proof { lemma_fields_view(fs@); reveal_strlit("temperature"); reveal_strlit("brightness"); }
    assert(fields_view(fs@) =~= setting_writes(*s));
    group_write(name, fs, Ghost(setting_writes(*s)))
}

fn nightlight_write(n: &Nightlight) -> (r: (String, FieldWrite))
    requires
        n.dawn matches Some(t) ==> t.wf(),
        n.dusk matches Some(t) ==> t.wf(),
    ensures
        r.0@ == "nightlight"@,
        write_view(r.1) == FieldShape::Group(nightlight_writes(*n)),
{
    let mut fs = Vec::new();
    fs.push(value_write("enabled", KdlValue::Bool(n.enabled)));
    fs.push(value_write("use_location", KdlValue::Bool(n.use_location)));
    fs.push(value_write("dawn", time_value(&n.dawn)));
    fs.push(value_write("dusk", time_value(&n.dusk)));
    fs.push(setting_write("day", &n.day));
    fs.push(setting_write("night", &n.night));
    fs.push(value_write("debounce_ms", int_value(n.debounce_ms)));
    proof {
        lemma_fields_view(fs@);
        reveal_strlit("enabled"); reveal_strlit("use_location"); reveal_strlit("dawn"); reveal_strlit("dusk");
        reveal_strlit("day"); reveal_strlit("night"); reveal_strlit("debounce_ms");
    }
    assert(fields_view(fs@) =~= nightlight_writes(*n));
    group_write("nightlight", fs, Ghost(nightlight_writes(*n)))
}

fn homeassistant_write(h: &Homeassistant) -> (r: (String, FieldWrite))
    ensures
        r.0@ == "homeassistant"@,
        write_view(r.1) == FieldShape::Group(homeassistant_writes(*h)),
{
    let mut devices: Vec<KdlValue> = Vec::new();
    let mut i: usize = 0;
    while i < h.tracked_devices.len()
        invariant
            i <= h.tracked_devices@.len(),
            devices@.len() == i,
            forall|k: int| 0 <= k < i ==> value_shape(#[trigger] devices@[k]) == ValueShape::Str(h.tracked_devices@[k]@),
        decreases h.tracked_devices@.len() - i,
    {
        devices.push(KdlValue::String(h.tracked_devices[i].clone()));
        i = i + 1;
    }
    assert(value_shapes(devices@) =~= h.tracked_devices@.map_values(|d: String| ValueShape::Str(d@)));
    let url = match &h.url {
        Some(u) => KdlValue::String(u.clone()),
        None => KdlValue::Null,
    };
    let mut fs = Vec::new();
    fs.push(value_write("enabled", KdlValue::Bool(h.enabled)));
    fs.push(value_write("url", url));
    fs.push(("tracked_devices".to_owned(), FieldWrite::Dashes(devices)));
    proof {
        lemma_fields_view(fs@);
        reveal_strlit("enabled"); reveal_strlit("url"); reveal_strlit("tracked_devices");
    }
    assert(fields_view(fs@) =~= homeassistant_writes(*h));
    group_write("homeassistant", fs, Ghost(homeassistant_writes(*h)))
}

fn spotify_write(sp: &Spotify) -> (r: (String, FieldWrite))
    ensures
        r.0@ == "spotify"@,
        write_view(r.1) == FieldShape::Group(spotify_writes(*sp)),
{
    let mut fs = Vec::new();
    fs.push(value_write("enabled", KdlValue::Bool(sp.enabled)));
    fs.push(value_write("client_id", KdlValue::String(sp.client_id.clone())));
    proof { lemma_fields_view(fs@); reveal_strlit("enabled"); reveal_strlit("client_id"); }
    assert(fields_view(fs@) =~= spotify_writes(*sp));
    group_write("spotify", fs, Ghost(spotify_writes(*sp)))
}

fn system_menu_write(m: &SystemMenu) -> (r: (String, FieldWrite))
    ensures
        r.0@ == "system_menu"@,
        write_view(r.1) == FieldShape::Group(system_menu_writes(*m)),
{
    let mut names: Vec<KdlValue> = Vec::new();
    let mut i: usize = 0;
    while i < m.widgets.len()
        invariant
            i <= m.widgets@.len(),
            names@.len() == i,
            forall|k: int| 0 <= k < i ==> value_shape(#[trigger] names@[k])
                == ValueShape::Str(system_menu_widget_name_spec(m.widgets@[k])),
        decreases m.widgets@.len() - i,
    {
        names.push(KdlValue::String(system_menu_widget_name(m.widgets[i]).to_owned()));
        i = i + 1;
    }
    assert(value_shapes(names@) =~= m.widgets@.map_values(|w: SystemMenuWidgets| ValueShape::Str(system_menu_widget_name_spec(w))));
    let mut fs = Vec::new();
    fs.push(list_write("widgets", names));
    proof { lemma_fields_view(fs@); reveal_strlit("widgets"); }
    assert(fields_view(fs@) =~= system_menu_writes(*m));
    group_write("system_menu", fs, Ghost(system_menu_writes(*m)))
}

fn launcher_write(l: &Launcher) -> (r: (String, FieldWrite))
    ensures
        r.0@ == "launcher"@,
        write_view(r.1) == FieldShape::Group(launcher_writes(*l)),
{
    let mut names: Vec<KdlValue> = Vec::new();
    let mut i: usize = 0;
    while i < l.providers.len()
        invariant
            i <= l.providers@.len(),
            names@.len() == i,
            forall|k: int| 0 <= k < i ==> value_shape(#[trigger] names@[k])
                == ValueShape::Str(launcher_provider_name_spec(l.providers@[k])),
        decreases l.providers@.len() - i,
    {
        names.push(KdlValue::String(launcher_provider_name(l.providers[i]).to_owned()));
        i = i + 1;
    }
    assert(value_shapes(names@) =~= l.providers@.map_values(|p: LauncherProvider| ValueShape::Str(launcher_provider_name_spec(p))));
    let t = &l.fuzzy_search;
    let mut ts = Vec::new();
    ts.push(value_write("min_chars", int_value(t.min_chars as u64)));
    ts.push(value_write("short_query_chars", int_value(t.short_query_chars as u64)));
    ts.push(value_write("short_max_distance", int_value(t.short_max_distance as u64)));
    ts.push(value_write("medium_query_chars", int_value(t.medium_query_chars as u64)));
    ts.push(value_write("medium_max_distance", int_value(t.medium_max_distance as u64)));
    ts.push(value_write("long_max_distance", int_value(t.long_max_distance as u64)));
    proof {
        lemma_fields_view(ts@);
        reveal_strlit("min_chars"); reveal_strlit("short_query_chars"); reveal_strlit("short_max_distance");
        reveal_strlit("medium_query_chars"); reveal_strlit("medium_max_distance"); reveal_strlit("long_max_distance");
    }
    assert(fields_view(ts@) =~= typo_writes(*t));
    let mut fs = Vec::new();
    fs.push(list_write("providers", names));
    fs.push(group_write("fuzzy_search", ts, Ghost(typo_writes(*t))));
    proof { lemma_fields_view(fs@); reveal_strlit("providers"); reveal_strlit("fuzzy_search"); }
    assert(fields_view(fs@) =~= launcher_writes(*l));
    group_write("launcher", fs, Ghost(launcher_writes(*l)))
}

fn indexing_write(x: &Indexing) -> (r: (String, FieldWrite))
    ensures
        r.0@ == "indexing"@,
        write_view(r.1) == FieldShape::Group(indexing_writes(*x)),
{
    let mut fs = Vec::new();
    fs.push(value_write("enabled", KdlValue::Bool(x.enabled)));
    proof { lemma_fields_view(fs@); reveal_strlit("enabled"); }
    assert(fields_view(fs@) =~= indexing_writes(*x));
    group_write("indexing", fs, Ghost(indexing_writes(*x)))
}

/// The settings of every section have names of their own, and groups nest two deep.
proof fn lemma_config_writes_fit(c: ConfigFile)
    ensures
        names_distinct(config_writes(c)),
        names_distinct(nightlight_writes(c.nightlight)),
        names_distinct(setting_writes(c.nightlight.day)),
        names_distinct(setting_writes(c.nightlight.night)),
        names_distinct(homeassistant_writes(c.homeassistant)),
        names_distinct(spotify_writes(c.spotify)),
        names_distinct(system_menu_writes(c.system_menu)),
        names_distinct(launcher_writes(c.launcher)),
        names_distinct(typo_writes(c.launcher.fuzzy_search)),
        names_distinct(indexing_writes(c.indexing)),
        forall|k: int| 0 <= k < config_writes(c).len() ==> fits(#[trigger] config_writes(c)[k].1, 2),
{
    reveal_strlit("nightlight"); reveal_strlit("homeassistant"); reveal_strlit("spotify");
    reveal_strlit("system_menu"); reveal_strlit("launcher"); reveal_strlit("indexing");
    assert("launcher"@[0] != "indexing"@[0]);
    reveal_strlit("enabled"); reveal_strlit("use_location"); reveal_strlit("dawn"); reveal_strlit("dusk");
    reveal_strlit("day"); reveal_strlit("night"); reveal_strlit("debounce_ms");
    assert("dawn"@[1] != "dusk"@[1]);
    reveal_strlit("temperature"); reveal_strlit("brightness");
    reveal_strlit("url"); reveal_strlit("tracked_devices"); reveal_strlit("client_id"); reveal_strlit("widgets");
    reveal_strlit("providers"); reveal_strlit("fuzzy_search");
    reveal_strlit("min_chars"); reveal_strlit("short_query_chars"); reveal_strlit("short_max_distance");
    reveal_strlit("medium_query_chars"); reveal_strlit("medium_max_distance"); reveal_strlit("long_max_distance");
    assert("short_query_chars"@[0] != "long_max_distance"@[0]);
    assert("short_max_distance"@[0] != "medium_query_chars"@[0]);
    assert("nightlight"@.len() == 10 && "homeassistant"@.len() == 13 && "spotify"@.len() == 7);
    assert("system_menu"@.len() == 11 && "launcher"@.len() == 8 && "indexing"@.len() == 8);
    assert("enabled"@.len() == 7 && "use_location"@.len() == 12 && "dawn"@.len() == 4 && "dusk"@.len() == 4);
    assert("day"@.len() == 3 && "night"@.len() == 5 && "debounce_ms"@.len() == 11);
    assert("temperature"@.len() == 11 && "brightness"@.len() == 10 && "url"@.len() == 3);
    assert("tracked_devices"@.len() == 15 && "client_id"@.len() == 9 && "widgets"@.len() == 7);
    assert("providers"@.len() == 9 && "fuzzy_search"@.len() == 12);
    assert("min_chars"@.len() == 9 && "short_query_chars"@.len() == 17 && "short_max_distance"@.len() == 18);
    assert("medium_query_chars"@.len() == 18 && "medium_max_distance"@.len() == 19 && "long_max_distance"@.len() == 17);
    let ws = config_writes(c);
    assert(names_distinct(ws));
    assert(names_distinct(nightlight_writes(c.nightlight)));
    assert(names_distinct(setting_writes(c.nightlight.day)));
    assert(names_distinct(setting_writes(c.nightlight.night)));
    assert(names_distinct(homeassistant_writes(c.homeassistant)));
    assert(names_distinct(spotify_writes(c.spotify)));
    assert(names_distinct(system_menu_writes(c.system_menu)));
    assert(names_distinct(launcher_writes(c.launcher)));
    assert(names_distinct(typo_writes(c.launcher.fuzzy_search)));
    assert(names_distinct(indexing_writes(c.indexing)));
    lemma_config_writes_nest(c);
}

proof fn lemma_config_writes_nest(c: ConfigFile)
    requires
        names_distinct(nightlight_writes(c.nightlight)),
        names_distinct(setting_writes(c.nightlight.day)),
        names_distinct(setting_writes(c.nightlight.night)),
        names_distinct(homeassistant_writes(c.homeassistant)),
        names_distinct(spotify_writes(c.spotify)),
        names_distinct(system_menu_writes(c.system_menu)),
        names_distinct(launcher_writes(c.launcher)),
        names_distinct(typo_writes(c.launcher.fuzzy_search)),
        names_distinct(indexing_writes(c.indexing)),
    ensures
        forall|k: int| 0 <= k < config_writes(c).len() ==> fits(#[trigger] config_writes(c)[k].1, 2),
{
    let ws = config_writes(c);
    let n = nightlight_writes(c.nightlight);
    assert(fits(n[4].1, 1)) by {
        assert(fits(setting_writes(c.nightlight.day)[0].1, 0));
        assert(fits(setting_writes(c.nightlight.day)[1].1, 0));
    }
    assert(fits(n[5].1, 1)) by {
        assert(fits(setting_writes(c.nightlight.night)[0].1, 0));
        assert(fits(setting_writes(c.nightlight.night)[1].1, 0));
    }
    assert(fits(n[0].1, 1) && fits(n[1].1, 1) && fits(n[2].1, 1) && fits(n[3].1, 1) && fits(n[6].1, 1));
    assert(fits(ws[0].1, 2));
    let h = homeassistant_writes(c.homeassistant);
    assert(fits(h[0].1, 1) && fits(h[1].1, 1) && fits(h[2].1, 1));
    assert(fits(ws[1].1, 2));
    let sp = spotify_writes(c.spotify);
    assert(fits(sp[0].1, 1) && fits(sp[1].1, 1));
    assert(fits(ws[2].1, 2));
    let m = system_menu_writes(c.system_menu);
    assert(fits(m[0].1, 1));
    assert(fits(ws[3].1, 2));
    let l = launcher_writes(c.launcher);
    let t = typo_writes(c.launcher.fuzzy_search);
    assert(fits(l[1].1, 1)) by {
        assert(fits(t[0].1, 0) && fits(t[1].1, 0) && fits(t[2].1, 0) && fits(t[3].1, 0) && fits(t[4].1, 0) && fits(t[5].1, 0));
    }
    assert(fits(l[0].1, 1));
    assert(fits(ws[4].1, 2));
    let x = indexing_writes(c.indexing);
    assert(fits(x[0].1, 1));
    assert(fits(ws[5].1, 2));
}

impl ConfigFile {
    /// Writes the configuration into a document that may already hold settings and other
    /// nodes: each section into the first node named after it (a new node at the end when
    /// there is none), and in it each setting into the first child named after it (a new
    /// child at the end when there is none). A setting that holds one value or a list of
    /// at most three items becomes the child's arguments; a longer list, and the
    /// Homeassistant devices, becomes its `-` children, the first of those in place and
    /// any beyond the list kept. Every other node, argument and child stays as it was.
    pub fn apply_to_nodes(&self, nodes: &mut Vec<KdlNode>)
        requires
            config_times_wf(*self),
        ensures
            fields_written(old(nodes)@, final(nodes)@, config_writes(*self), 2),
    {
        let mut fs = Vec::new();
        fs.push(nightlight_write(&self.nightlight));
        fs.push(homeassistant_write(&self.homeassistant));
        fs.push(spotify_write(&self.spotify));
        fs.push(system_menu_write(&self.system_menu));
        fs.push(launcher_write(&self.launcher));
        fs.push(indexing_write(&self.indexing));
        proof {
            lemma_fields_view(fs@);
            assert(fields_view(fs@) =~= config_writes(*self));
            lemma_config_writes_fit(*self);
            assert forall|k: int| 0 <= k < fs@.len() implies fits(#[trigger] write_view(fs@[k].1), 2) by {
                assert(fields_view(fs@)[k] == (fs@[k].0@, write_view(fs@[k].1)));
                assert(fits(config_writes(*self)[k].1, 2));
            }
        }
        apply_fields(nodes, &fs, Ghost(2));
    }
}


// ---------------------------------------------------------------------------
// The shape of what was written.
// ---------------------------------------------------------------------------

/// The node a setting is written as when nothing was there before.
pub open spec fn written_shape(name: Seq<char>, w: FieldShape, fuel: nat) -> NodeShape
    decreases fuel,
{
    match w {
        FieldShape::Value(v) => leaf(name, v),
        FieldShape::Inline(vs) => NodeShape { name, args: vs, children: None },
        FieldShape::Dashes(vs) => dash_list(name, vs),
        FieldShape::Group(fs) => if fuel == 0 {
            parent(name, Seq::empty())
        } else {
            parent(name, Seq::new(fs.len(), |i: int| written_shape(fs[i].0, fs[i].1, (fuel - 1) as nat)))
        },
    }
}

/// Whether a setting's node is deep enough for its shape: a list written as `-` children
/// needs one level, a group one more than its settings.
pub open spec fn deep_enough(w: FieldShape, fuel: nat) -> bool
    decreases fuel,
{
    match w {
        FieldShape::Dashes(_) => fuel >= 1,
        FieldShape::Group(fs) => fuel > 0 && names_distinct(fs)
            && forall|k: int| 0 <= k < fs.len() ==> deep_enough(#[trigger] fs[k].1, (fuel - 1) as nat),
        _ => true,
    }
}

/// The `-` children of a node written for a setting.
pub open spec fn dash_count(w: FieldShape) -> nat {
    match w {
        FieldShape::Dashes(vs) => vs.len(),
        _ => 0,
    }
}

/// Whether writing `new` over a node written for `old` leaves nothing of `old` behind: a
/// group over a group with the same settings in the same order, each in turn; a list
/// written as `-` children over no more `-` children than it has items; and one value or
/// an inline list over anything but a group.
pub open spec fn overwrites(old: FieldShape, new: FieldShape, fuel: nat) -> bool
    decreases fuel,
{
    match (old, new) {
        (FieldShape::Group(a), FieldShape::Group(b)) => fuel > 0 && a.len() == b.len()
            && forall|k: int| 0 <= k < b.len() ==> #[trigger] a[k].0 == b[k].0 && overwrites(a[k].1, b[k].1, (fuel - 1) as nat),
        (FieldShape::Group(_), _) => false,
        (_, FieldShape::Dashes(vs)) => dash_count(old) <= vs.len(),
        (_, FieldShape::Group(_)) => false,
        _ => true,
    }
}

proof fn lemma_filter_all_dashes(s: Seq<KdlNode>)
    requires
        forall|i: int| 0 <= i < s.len() ==> (#[trigger] s[i]).name@ == "-"@,
    ensures
        s.filter(|c: KdlNode| c.name@ == "-"@) == s,
    decreases s.len(),
{
    reveal(Seq::filter);
    if s.len() > 0 {
        lemma_filter_all_dashes(s.drop_last());
        assert(s.drop_last().push(s.last()) =~= s);
    }
}

/// The settings of a group, each in the node named after it, in order.
proof fn lemma_first_index_in_order(ns: Seq<KdlNode>, fs: Seq<(Seq<char>, FieldShape)>, k: int)
    requires
        ns.len() == fs.len(),
        names_distinct(fs),
        forall|j: int| 0 <= j < ns.len() ==> (#[trigger] ns[j]).name@ == fs[j].0,
        0 <= k < fs.len(),
    ensures
        first_index(ns, fs[k].0) == Some(k),
{
    assert forall|j: int| 0 <= j < k implies ns[j].name@ != fs[k].0 by {
        assert(ns[j].name@ == fs[j].0);
    }
    lemma_first_index_at(ns, fs[k].0, k);
}

proof fn lemma_no_missing(ns: Seq<KdlNode>, fs: Seq<(Seq<char>, FieldShape)>)
    requires
        ns.len() == fs.len(),
        names_distinct(fs),
        forall|j: int| 0 <= j < ns.len() ==> (#[trigger] ns[j]).name@ == fs[j].0,
    ensures
        missing_fields(ns, fs).len() == 0,
{
    assert forall|k: int| 0 <= k < fs.len() implies first_index(ns, #[trigger] fs[k].0) is Some by {
        lemma_first_index_in_order(ns, fs, k);
    }
    if missing_fields(ns, fs).len() > 0 {
        let p = |f: (Seq<char>, FieldShape)| first_index(ns, f.0) is None;
        fs.lemma_filter_pred(p, 0);
        assert(missing_fields(ns, fs).contains(missing_fields(ns, fs)[0]));
        fs.lemma_filter_contains_rev(p, missing_fields(ns, fs)[0]);
        let k = choose|k: int| 0 <= k < fs.len() && fs[k] == missing_fields(ns, fs)[0];
        assert(first_index(ns, fs[k].0) is Some);
    }
}

proof fn lemma_all_missing(fs: Seq<(Seq<char>, FieldShape)>)
    ensures
        missing_fields(Seq::empty(), fs) == fs,
    decreases fs.len(),
{
    reveal(Seq::filter);
    if fs.len() > 0 {
        lemma_all_missing(fs.drop_last());
        assert(fs.drop_last().push(fs.last()) =~= fs);
    }
}

/// A setting written into a new node has the shape it is written as.
proof fn lemma_fresh_shape(n: KdlNode, name: Seq<char>, w: FieldShape, fuel: nat)
    requires
        field_written(None, n, name, w, fuel),
        deep_enough(w, fuel),
    ensures
        has_shape(n, written_shape(name, w, fuel), fuel),
    decreases fuel,
{
    match w {
        FieldShape::Value(v) => {
            assert(seq![v][0] == v);
            assert(n.entries@[0].name is None && value_shape(n.entries@[0].value) == seq![v][0]);
            assert(leaf(name, v).args == seq![v]);
            assert(written_shape(name, w, fuel) == leaf(name, v));
            let sh = leaf(name, v);
            assert(n.name@ == sh.name);
            assert(n.entries@.len() == sh.args.len());
            assert(forall|i: int| 0 <= i < sh.args.len() ==> #[trigger] n.entries@[i].name is None
                && value_shape(n.entries@[i].value) == sh.args[i]);
            assert(n.children is None && sh.children is None);
            assert(has_shape(n, sh, fuel));
        },
        FieldShape::Inline(vs) => {
            let sh = NodeShape { name, args: vs, children: None };
            assert(written_shape(name, w, fuel) == sh);
            assert(forall|i: int| 0 <= i < sh.args.len() ==> #[trigger] n.entries@[i].name is None
                && value_shape(n.entries@[i].value) == sh.args[i]);
            assert(has_shape(n, sh, fuel));
        },
        FieldShape::Dashes(vs) => {
            let cs = n.children->0@;
            let kept = old_children(None).filter(|c: KdlNode| c.name@ == "-"@);
            reveal(Seq::filter);
            assert(kept.len() == 0);
            let ss = vs.map_values(|v: ValueShape| leaf("-"@, v));
            assert forall|i: int| 0 <= i < ss.len() implies has_shape(#[trigger] cs[i], ss[i], (fuel - 1) as nat) by {
                assert(cs[i].entries@[0].name is None);
                assert(seq![vs[i]][0] == vs[i]);
                assert(value_shape(cs[i].entries@[0].value) == seq![vs[i]][0]);
            }
            assert(written_shape(name, w, fuel) == dash_list(name, vs));
            assert(has_shape(n, dash_list(name, vs), fuel));
        },
        FieldShape::Group(fs) => {
            let cs = n.children->0@;
            let f1 = (fuel - 1) as nat;
            lemma_all_missing(fs);
            let ss = Seq::new(fs.len(), |i: int| written_shape(fs[i].0, fs[i].1, f1));
            assert forall|i: int| 0 <= i < ss.len() implies has_shape(#[trigger] cs[i], ss[i], f1) by {
                assert(field_written(None, cs[0 + i], fs[i].0, fs[i].1, f1));
                lemma_fresh_shape(cs[i], fs[i].0, fs[i].1, f1);
            }
        },
    }
}

/// A setting written over a node written for a setting it overwrites has the shape it
/// is written as.
proof fn lemma_overwritten_shape(o: KdlNode, n: KdlNode, name: Seq<char>, w_old: FieldShape, w: FieldShape, fuel: nat)
    requires
        has_shape(o, written_shape(name, w_old, fuel), fuel),
        field_written(Some(o), n, name, w, fuel),
        overwrites(w_old, w, fuel),
        deep_enough(w, fuel),
        deep_enough(w_old, fuel),
    ensures
        has_shape(n, written_shape(name, w, fuel), fuel),
    decreases fuel,
{
    match w {
        FieldShape::Value(v) => {
            assert(seq![v][0] == v);
            assert(n.entries@[0].name is None && value_shape(n.entries@[0].value) == seq![v][0]);
            assert(leaf(name, v).args == seq![v]);
            assert(written_shape(name, w, fuel) == leaf(name, v));
            let sh = leaf(name, v);
            assert(n.name@ == sh.name);
            assert(n.entries@.len() == sh.args.len());
            assert(forall|i: int| 0 <= i < sh.args.len() ==> #[trigger] n.entries@[i].name is None
                && value_shape(n.entries@[i].value) == sh.args[i]);
            assert(n.children is None && sh.children is None);
            assert(has_shape(n, sh, fuel));
        },
        FieldShape::Inline(vs) => {
            let sh = NodeShape { name, args: vs, children: None };
            assert(written_shape(name, w, fuel) == sh);
            assert(forall|i: int| 0 <= i < sh.args.len() ==> #[trigger] n.entries@[i].name is None
                && value_shape(n.entries@[i].value) == sh.args[i]);
            assert(has_shape(n, sh, fuel));
        },
        FieldShape::Dashes(vs) => {
            let cs = n.children->0@;
            let oc = old_children(Some(o));
            let kept = oc.filter(|c: KdlNode| c.name@ == "-"@);
            match w_old {
                FieldShape::Dashes(us) => {
                    assert forall|i: int| 0 <= i < oc.len() implies (#[trigger] oc[i]).name@ == "-"@ by {
                        assert(has_shape(oc[i], us.map_values(|u: ValueShape| leaf("-"@, u))[i], (fuel - 1) as nat));
                    }
                    lemma_filter_all_dashes(oc);
                },
                _ => {
                    reveal(Seq::filter);
                    assert(oc.len() == 0);
                },
            }
            assert(kept.len() <= vs.len());
            let ss = vs.map_values(|v: ValueShape| leaf("-"@, v));
            assert forall|i: int| 0 <= i < ss.len() implies has_shape(#[trigger] cs[i], ss[i], (fuel - 1) as nat) by {
                assert(cs[i].entries@[0].name is None);
                assert(seq![vs[i]][0] == vs[i]);
                assert(value_shape(cs[i].entries@[0].value) == seq![vs[i]][0]);
            }
            assert(written_shape(name, w, fuel) == dash_list(name, vs));
            assert(has_shape(n, dash_list(name, vs), fuel));
        },
        FieldShape::Group(fs) => {
            let a = w_old->Group_0;
            let f1 = (fuel - 1) as nat;
            let oc = old_children(Some(o));
            let cs = n.children->0@;
            let os = Seq::new(a.len(), |i: int| written_shape(a[i].0, a[i].1, f1));
            assert(oc.len() == a.len());
            assert forall|j: int| 0 <= j < oc.len() implies (#[trigger] oc[j]).name@ == fs[j].0 by {
                assert(has_shape(oc[j], os[j], f1));
                assert(a[j].0 == fs[j].0);
                match a[j].1 {
                    FieldShape::Group(_) => {},
                    _ => {},
                }
            }
            lemma_no_missing(oc, fs);
            let ss = Seq::new(fs.len(), |i: int| written_shape(fs[i].0, fs[i].1, f1));
            assert forall|i: int| 0 <= i < ss.len() implies has_shape(#[trigger] cs[i], ss[i], f1) by {
                lemma_first_index_in_order(oc, fs, i);
                assert(field_written(Some(oc[i]), cs[i], fs[i].0, fs[i].1, f1));
                assert(has_shape(oc[i], os[i], f1));
                assert(a[i].0 == fs[i].0);
                lemma_overwritten_shape(oc[i], cs[i], fs[i].0, a[i].1, fs[i].1, f1);
            }
            assert(n.entries@ == o.entries@);
        },
    }
}


// ---------------------------------------------------------------------------
// A configuration written over a document.
// ---------------------------------------------------------------------------

proof fn lemma_group_shape(name: Seq<char>, fs: Seq<(Seq<char>, FieldShape)>, fuel: nat, kids: Seq<NodeShape>)
    requires
        fuel > 0,
        fs.len() == kids.len(),
        forall|i: int| 0 <= i < fs.len() ==> written_shape(#[trigger] fs[i].0, fs[i].1, (fuel - 1) as nat) == kids[i],
    ensures
        written_shape(name, FieldShape::Group(fs), fuel) == parent(name, kids),
{
    let ws = written_shape(name, FieldShape::Group(fs), fuel);
    assert(ws.children->0 =~= kids);
    assert(ws.args =~= Seq::<ValueShape>::empty());
    assert(ws == parent(name, kids));
}

proof fn lemma_list_shape(name: Seq<char>, items: Seq<ValueShape>, fuel: nat)
    ensures
        written_shape(name, list_shape(items), fuel) == auto_list(name, items),
{
}

/// The node each section is written as is the one `ConfigFile::to_nodes` makes.
proof fn lemma_section_shapes(c: ConfigFile)
    ensures
        forall|k: int| 0 <= k < 6 ==> #[trigger] written_shape(config_writes(c)[k].0, config_writes(c)[k].1, 2)
            == config_shapes(c)[k],
{
    let w = config_writes(c);
    let cs = config_shapes(c);
    let n = c.nightlight;
    let nw = nightlight_writes(n);
    lemma_group_shape("day"@, setting_writes(n.day), 1, setting_shape("day"@, n.day).children->0);
    lemma_group_shape("night"@, setting_writes(n.night), 1, setting_shape("night"@, n.night).children->0);
    lemma_group_shape("nightlight"@, nw, 2, nightlight_shape(n).children->0);
    let h = c.homeassistant;
    lemma_group_shape("homeassistant"@, homeassistant_writes(h), 2, homeassistant_shape(h).children->0);
    lemma_group_shape("spotify"@, spotify_writes(c.spotify), 2, spotify_shape(c.spotify).children->0);
    let m = c.system_menu;
    lemma_list_shape("widgets"@, m.widgets@.map_values(|x: SystemMenuWidgets| ValueShape::Str(system_menu_widget_name_spec(x))), 1);
    lemma_group_shape("system_menu"@, system_menu_writes(m), 2, system_menu_shape(m).children->0);
    let l = c.launcher;
    lemma_list_shape("providers"@, l.providers@.map_values(|p: LauncherProvider| ValueShape::Str(launcher_provider_name_spec(p))), 1);
    lemma_group_shape("fuzzy_search"@, typo_writes(l.fuzzy_search), 1, typo_shape(l.fuzzy_search).children->0);
    lemma_group_shape("launcher"@, launcher_writes(l), 2, launcher_shape(l).children->0);
    lemma_group_shape("indexing"@, indexing_writes(c.indexing), 2, indexing_shape(c.indexing).children->0);
    assert forall|k: int| 0 <= k < 6 implies #[trigger] written_shape(w[k].0, w[k].1, 2) == cs[k] by {
        if k == 0 {
        } else if k == 1 {
        } else if k == 2 {
        } else if k == 3 {
        } else if k == 4 {
        } else {
        }
    }
}

/// Writing `c` over the document of `d` leaves no `-` child of `d` behind: where a list
/// of `c` is written as `-` children over one of `d` written the same way, it has at
/// least as many items (the Homeassistant devices are always `-` children, the other
/// lists only beyond three items).
pub open spec fn leaves_no_stale_items(d: ConfigFile, c: ConfigFile) -> bool {
    &&& d.homeassistant.tracked_devices@.len() <= c.homeassistant.tracked_devices@.len()
    &&& d.system_menu.widgets@.len() > 3 && c.system_menu.widgets@.len() > 3
        ==> d.system_menu.widgets@.len() <= c.system_menu.widgets@.len()
    &&& d.launcher.providers@.len() > 3 && c.launcher.providers@.len() > 3
        ==> d.launcher.providers@.len() <= c.launcher.providers@.len()
}

proof fn lemma_sections_overwrite(d: ConfigFile, c: ConfigFile)
    requires
        leaves_no_stale_items(d, c),
    ensures
        forall|k: int| 0 <= k < 6 ==> #[trigger] overwrites(config_writes(d)[k].1, config_writes(c)[k].1, 2),
        forall|k: int| 0 <= k < 6 ==> #[trigger] deep_enough(config_writes(c)[k].1, 2),
{
    lemma_config_writes_fit(c);
    lemma_config_writes_fit(d);
    let a = config_writes(d);
    let b = config_writes(c);
    let (na, nb) = (nightlight_writes(d.nightlight), nightlight_writes(c.nightlight));
    let (da, db) = (setting_writes(d.nightlight.day), setting_writes(c.nightlight.day));
    assert(overwrites(da[0].1, db[0].1, 0) && overwrites(da[1].1, db[1].1, 0));
    assert(overwrites(na[4].1, nb[4].1, 1));
    let (ga, gb) = (setting_writes(d.nightlight.night), setting_writes(c.nightlight.night));
    assert(overwrites(ga[0].1, gb[0].1, 0) && overwrites(ga[1].1, gb[1].1, 0));
    assert(overwrites(na[5].1, nb[5].1, 1));
    assert(overwrites(na[0].1, nb[0].1, 1) && overwrites(na[1].1, nb[1].1, 1) && overwrites(na[2].1, nb[2].1, 1)
        && overwrites(na[3].1, nb[3].1, 1) && overwrites(na[6].1, nb[6].1, 1));
    assert(forall|k: int| 0 <= k < nb.len() ==> #[trigger] na[k].0 == nb[k].0 && overwrites(na[k].1, nb[k].1, 1));
    assert(overwrites(a[0].1, b[0].1, 2));
    let (ha, hb) = (homeassistant_writes(d.homeassistant), homeassistant_writes(c.homeassistant));
    assert(dash_count(ha[2].1) == d.homeassistant.tracked_devices@.len());
    assert(overwrites(ha[0].1, hb[0].1, 1) && overwrites(ha[1].1, hb[1].1, 1) && overwrites(ha[2].1, hb[2].1, 1));
    assert(forall|k: int| 0 <= k < hb.len() ==> #[trigger] ha[k].0 == hb[k].0 && overwrites(ha[k].1, hb[k].1, 1));
    assert(overwrites(a[1].1, b[1].1, 2));
    let (sa, sb) = (spotify_writes(d.spotify), spotify_writes(c.spotify));
    assert(overwrites(sa[0].1, sb[0].1, 1) && overwrites(sa[1].1, sb[1].1, 1));
    assert(forall|k: int| 0 <= k < sb.len() ==> #[trigger] sa[k].0 == sb[k].0 && overwrites(sa[k].1, sb[k].1, 1));
    assert(overwrites(a[2].1, b[2].1, 2));
    let (ma, mb) = (system_menu_writes(d.system_menu), system_menu_writes(c.system_menu));
    assert(overwrites(ma[0].1, mb[0].1, 1));
    assert(forall|k: int| 0 <= k < mb.len() ==> #[trigger] ma[k].0 == mb[k].0 && overwrites(ma[k].1, mb[k].1, 1));
    assert(overwrites(a[3].1, b[3].1, 2));
    let (la, lb) = (launcher_writes(d.launcher), launcher_writes(c.launcher));
    let (ta, tb) = (typo_writes(d.launcher.fuzzy_search), typo_writes(c.launcher.fuzzy_search));
    assert(overwrites(ta[0].1, tb[0].1, 0) && overwrites(ta[1].1, tb[1].1, 0) && overwrites(ta[2].1, tb[2].1, 0));
    assert(overwrites(ta[3].1, tb[3].1, 0) && overwrites(ta[4].1, tb[4].1, 0) && overwrites(ta[5].1, tb[5].1, 0));
    assert(overwrites(la[1].1, lb[1].1, 1));
    assert(overwrites(la[0].1, lb[0].1, 1));
    assert(forall|k: int| 0 <= k < lb.len() ==> #[trigger] la[k].0 == lb[k].0 && overwrites(la[k].1, lb[k].1, 1));
    assert(overwrites(a[4].1, b[4].1, 2));
    let (xa, xb) = (indexing_writes(d.indexing), indexing_writes(c.indexing));
    assert(overwrites(xa[0].1, xb[0].1, 1));
    assert(forall|k: int| 0 <= k < xb.len() ==> #[trigger] xa[k].0 == xb[k].0 && overwrites(xa[k].1, xb[k].1, 1));
    assert(overwrites(a[5].1, b[5].1, 2));
    assert forall|k: int| 0 <= k < 6 implies #[trigger] deep_enough(b[k].1, 2) by {
        lemma_deep_enough_section(c, k);
    }
}

proof fn lemma_deep_enough_section(c: ConfigFile, k: int)
    requires
        0 <= k < 6,
    ensures
        deep_enough(config_writes(c)[k].1, 2),
{
    lemma_config_writes_fit(c);
    let b = config_writes(c);
    assert(fits(b[k].1, 2));
    if k == 0 {
        let n = nightlight_writes(c.nightlight);
        let sd = setting_writes(c.nightlight.day);
        let sn = setting_writes(c.nightlight.night);
        assert(deep_enough(sd[0].1, 0) && deep_enough(sd[1].1, 0));
        assert(deep_enough(sn[0].1, 0) && deep_enough(sn[1].1, 0));
        assert(deep_enough(n[4].1, 1));
        assert(deep_enough(n[5].1, 1));
        assert(deep_enough(n[0].1, 1) && deep_enough(n[1].1, 1) && deep_enough(n[2].1, 1) && deep_enough(n[3].1, 1)
            && deep_enough(n[6].1, 1));
    } else if k == 4 {
        let l = launcher_writes(c.launcher);
        let t = typo_writes(c.launcher.fuzzy_search);
        assert(deep_enough(t[0].1, 0) && deep_enough(t[1].1, 0) && deep_enough(t[2].1, 0) && deep_enough(t[3].1, 0)
            && deep_enough(t[4].1, 0) && deep_enough(t[5].1, 0));
        assert(deep_enough(l[1].1, 1));
        assert(deep_enough(l[0].1, 1));
    } else if k == 1 {
        let h = homeassistant_writes(c.homeassistant);
        assert(deep_enough(h[0].1, 1) && deep_enough(h[1].1, 1) && deep_enough(h[2].1, 1));
    } else if k == 2 {
        let x = spotify_writes(c.spotify);
        assert(deep_enough(x[0].1, 1) && deep_enough(x[1].1, 1));
    } else if k == 3 {
        let x = system_menu_writes(c.system_menu);
        assert(deep_enough(x[0].1, 1));
    } else {
        let x = indexing_writes(c.indexing);
        assert(deep_enough(x[0].1, 1));
    }
}

/// Writing a configuration into an empty document gives the document that
/// `ConfigFile::to_nodes` makes.
pub proof fn lemma_written_into_nothing(c: ConfigFile, new: Seq<KdlNode>)
    requires
        fields_written(Seq::empty(), new, config_writes(c), 2),
    ensures
        has_shapes(new, config_shapes(c), 2),
{
    let w = config_writes(c);
    lemma_all_missing(w);
    lemma_section_shapes(c);
    assert forall|k: int| 0 <= k < 6 implies has_shape(#[trigger] new[k], config_shapes(c)[k], 2) by {
        lemma_deep_enough_section(c, k);
        assert(field_written(None, new[0 + k], w[k].0, w[k].1, 2));
        lemma_fresh_shape(new[k], w[k].0, w[k].1, 2);
    }
}

/// Writing a configuration over the document of another one (as `ConfigFile::to_nodes`
/// makes it) gives the document the configuration is written as, as long as no `-` child
/// of the other one is left behind.
pub proof fn lemma_written_over(d: ConfigFile, c: ConfigFile, old: Seq<KdlNode>, new: Seq<KdlNode>)
    requires
        has_shapes(old, config_shapes(d), 2),
        fields_written(old, new, config_writes(c), 2),
        leaves_no_stale_items(d, c),
    ensures
        has_shapes(new, config_shapes(c), 2),
{
    let w = config_writes(c);
    let wd = config_writes(d);
    lemma_section_shapes(c);
    lemma_section_shapes(d);
    lemma_config_writes_fit(c);
    lemma_sections_overwrite(d, c);
    assert forall|j: int| 0 <= j < old.len() implies (#[trigger] old[j]).name@ == w[j].0 by {
        assert(has_shape(old[j], config_shapes(d)[j], 2));
    }
    lemma_no_missing(old, w);
    assert forall|k: int| 0 <= k < 6 implies has_shape(#[trigger] new[k], config_shapes(c)[k], 2) by {
        lemma_first_index_in_order(old, w, k);
        lemma_deep_enough_section(d, k);
        assert(wd[k].0 == w[k].0);
        assert(written_shape(wd[k].0, wd[k].1, 2) == config_shapes(d)[k]);
        assert(has_shape(old[k], config_shapes(d)[k], 2));
        assert(has_shape(old[k], written_shape(w[k].0, wd[k].1, 2), 2));
        lemma_overwritten_shape(old[k], new[k], w[k].0, wd[k].1, w[k].1, 2);
    }
}

/// A configuration written over the document of another one reads back as itself, as
/// long as no `-` child of the other one is left behind, jiff reads its times back from
/// their text and the url crate keeps its URL as it is.
pub proof fn lemma_rewritten_config_reads_back(d: ConfigFile, c: ConfigFile, old: Seq<KdlNode>, new: Seq<KdlNode>)
    requires
        has_shapes(old, config_shapes(d), 2),
        fields_written(old, new, config_writes(c), 2),
        leaves_no_stale_items(d, c),
        time_reads_back(c.nightlight.dawn),
        time_reads_back(c.nightlight.dusk),
        url_reads_back(c.homeassistant.url),
    ensures
        config_from_nodes_spec(new) == Ok::<_, ErrorView>(config_view(c)),
{
    lemma_written_over(d, c, old, new);
    lemma_written_config_reads_back(c, new);
}

} // verus!
