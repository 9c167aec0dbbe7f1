use vstd::prelude::*;

use crate::connection::{default_node_name, json_name_field, lost_spec, ConnectionAction, ConnectionState};
use crate::text::{chars_of, decimal_string, push_str, str_eq};

verus! {

// ---------------------------------------------------------------------------
// Globals announced by PipeWire.
// ---------------------------------------------------------------------------

/// An audio node the volume module tracks (its volume aside).
#[derive(Debug, Clone)]
pub struct AudioNode {
    pub id: u32,
    pub device_id: Option<u32>,
    pub name: Option<String>,
    pub label: String,
    pub is_sink: bool,
    pub is_source: bool,
}

/// The value of a decimal digit character.
pub open spec fn digit_value(c: char) -> int {
    (c as u32) - ('0' as u32)
}

/// The number that a string of decimal digits writes.
pub open spec fn digits_value(s: Seq<char>) -> int
    decreases s.len(),
{
    if s.len() == 0 {
        0
    } else {
        digits_value(s.drop_last()) * 10 + digit_value(s.last())
    }
}

/// A text without the `+` it may start with.
pub open spec fn unsigned_part(s: Seq<char>) -> Seq<char> {
    if s.len() > 0 && s[0] == '+' { s.drop_first() } else { s }
}

/// Whether every character is a decimal digit.
pub open spec fn all_digits(d: Seq<char>) -> bool {
    forall|i: int| 0 <= i < d.len() ==> '0' <= #[trigger] d[i] <= '9'
}

/// What std's `str::parse::<u32>` gives for a text: an optional `+` followed by at least
/// one decimal digit and nothing else, whose value fits in 32 bits.
pub open spec fn parse_u32_spec(s: Seq<char>) -> Option<u32> {
    let d = unsigned_part(s);
    if d.len() > 0 && all_digits(d) && digits_value(d) <= u32::MAX {
        Some(digits_value(d) as u32)
    } else {
        None
    }
}

/// The number a text writes in decimal, as std's `str::parse::<u32>` reads it.
pub fn parse_u32(text: &str) -> (r: Option<u32>)
    ensures
        r == parse_u32_spec(text@),
{
    let s = chars_of(text);
    let start: usize = if s.len() > 0 && s[0] == '+' { 1 } else { 0 };
    let ghost d = unsigned_part(s@);
    assert(d =~= s@.skip(start as int));
    if start >= s.len() {
        return None;
    }
    let mut v: u64 = 0;
    let mut i: usize = start;
    while i < s.len()
        invariant
            start <= i <= s@.len(),
            d == s@.skip(start as int),
            s@ == text@,
            d == unsigned_part(text@),
            v == digits_value(d.take(i - start)),
            v <= u32::MAX,
            forall|j: int| 0 <= j < i - start ==> '0' <= #[trigger] d[j] <= '9',
        decreases s@.len() - i,
    {
        assert(d.take(i - start + 1).drop_last() =~= d.take(i - start));
        assert(d[i - start] == s@[i as int]);
        let c = s[i];
        if c < '0' || c > '9' {
            assert(!('0' <= d[i - start] <= '9'));
            assert(!all_digits(d));
            return None;
        }
        let digit = (c as u32 - '0' as u32) as u64;
        let next = v * 10 + digit;
        if next > u32::MAX as u64 {
            proof {
                assert(d.take(i - start + 1).last() == c);
                assert(digits_value(d.take(i - start + 1)) == next);
                if all_digits(d) {
                    lemma_digits_grow(d, (i - start + 1) as int);
                }
            }
            return None;
        }
        v = next;
        i = i + 1;
    }
    assert(d.take(d.len() as int) =~= d);
    Some(v as u32)
}

proof fn lemma_digits_grow(d: Seq<char>, k: int)
    requires
        0 < k <= d.len(),
        forall|j: int| 0 <= j < d.len() ==> '0' <= #[trigger] d[j] <= '9',
    ensures
        digits_value(d) >= digits_value(d.take(k)),
    decreases d.len() - k,
{
    if k < d.len() {
        lemma_digits_grow(d, k + 1);
        assert(d.take(k + 1).drop_last() =~= d.take(k));
        assert(digits_value(d.take(k)) >= 0) by {
            lemma_digits_nonneg(d.take(k));
        }
    } else {
        assert(d.take(k) =~= d);
    }
}

proof fn lemma_digits_nonneg(d: Seq<char>)
    requires
        forall|j: int| 0 <= j < d.len() ==> '0' <= #[trigger] d[j] <= '9',
    ensures
        digits_value(d) >= 0,
    decreases d.len(),
{
    if d.len() > 0 {
        lemma_digits_nonneg(d.drop_last());
    }
}

/// The label of a node without a naming property: `Node` and its id.
pub open spec fn fallback_label(id: u32) -> Seq<char> {
    "Node "@ + crate::text::decimal(id as nat)
}

/// Whether a media class makes a node an audio sink, source or duplex.
pub open spec fn is_audio_class(c: Option<Seq<char>>) -> bool {
    c == Some("Audio/Source"@) || c == Some("Audio/Sink"@) || c == Some("Audio/Duplex"@)
}

/// A node global as the volume module keeps it, from its id, media class, name (the first
/// naming property, see `node_name`), `node.name` and `device.id` properties: nodes that
/// are no audio sink, source or duplex are left out; without a name it is labelled by its
/// id; a device id that is no number is none.
pub open spec fn classify_global_spec(
    id: u32,
    media_class: Option<Seq<char>>,
    label: Option<Seq<char>>,
    node_name: Option<Seq<char>>,
    device_id: Option<Seq<char>>,
) -> Option<(u32, Option<u32>, Option<Seq<char>>, Seq<char>, bool, bool)> {
    if !is_audio_class(media_class) {
        None
    } else {
        Some((
            id,
            match device_id {
                Some(d) => parse_u32_spec(d),
                None => None,
            },
            node_name,
            match label {
                Some(l) => l,
                None => fallback_label(id),
            },
            media_class == Some("Audio/Sink"@),
            media_class == Some("Audio/Source"@),
        ))
    }
}

/// A node global is kept exactly when its media class is that of an audio source, sink or
/// duplex node; a kept node has the global's id, is a source exactly when its media class is
/// `Audio/Source` and a sink exactly when it is `Audio/Sink` (so never both, and a duplex
/// node neither), and is labelled by its name, else by its id.
pub proof fn lemma_kept_nodes_follow_media_class(
    id: u32,
    media_class: Option<Seq<char>>,
    label: Option<Seq<char>>,
    node_name: Option<Seq<char>>,
    device_id: Option<Seq<char>>,
)
    ensures
        classify_global_spec(id, media_class, label, node_name, device_id) is Some <==> (media_class == Some("Audio/Source"@)
            || media_class == Some("Audio/Sink"@) || media_class == Some("Audio/Duplex"@)),
        classify_global_spec(id, media_class, label, node_name, device_id) matches Some(t) ==> {
            &&& t.0 == id
            &&& t.5 <==> media_class == Some("Audio/Source"@)
            &&& t.4 <==> media_class == Some("Audio/Sink"@)
            &&& !(t.4 && t.5)
            &&& media_class == Some("Audio/Duplex"@) ==> !t.4 && !t.5
            &&& t.3 == (match label { Some(l) => l, None => fallback_label(id) })
        },
{
    reveal_strlit("Audio/Source");
    reveal_strlit("Audio/Sink");
    reveal_strlit("Audio/Duplex");
    assert("Audio/Source"@.len() == 12 && "Audio/Sink"@.len() == 10 && "Audio/Duplex"@.len() == 12);
    assert("Audio/Source"@[6] != "Audio/Duplex"@[6]);
}

/// An audio node as plain values.
pub open spec fn node_view(n: AudioNode) -> (u32, Option<u32>, Option<Seq<char>>, Seq<char>, bool, bool) {
    (n.id, n.device_id, match n.name { Some(s) => Some(s@), None => None }, n.label@, n.is_sink, n.is_source)
}

/// Optional text as plain values.
pub open spec fn opt_str_view(o: Option<&str>) -> Option<Seq<char>> {
    match o {
        Some(s) => Some(s@),
        None => None,
    }
}

/// The node the volume module keeps for a PipeWire node global, if any.
pub fn classify_global(
    id: u32,
    media_class: Option<&str>,
    label: Option<String>,
    node_name: Option<&str>,
    device_id: Option<&str>,
) -> (r: Option<AudioNode>)
    ensures
        match r {
            Some(n) => classify_global_spec(id, opt_str_view(media_class), match label { Some(l) => Some(l@), None => None },
                opt_str_view(node_name), opt_str_view(device_id)) == Some(node_view(n)),
            None => classify_global_spec(id, opt_str_view(media_class), match label { Some(l) => Some(l@), None => None },
                opt_str_view(node_name), opt_str_view(device_id)) is None,
        },
        r is Some <==> is_audio_class(opt_str_view(media_class)),
        r matches Some(n) ==> n.id == id && n.is_source == (opt_str_view(media_class) == Some("Audio/Source"@))
            && n.is_sink == (opt_str_view(media_class) == Some("Audio/Sink"@)),
{
    let (is_source, is_sink, is_duplex) = match media_class {
        Some(c) => (str_eq(c, "Audio/Source"), str_eq(c, "Audio/Sink"), str_eq(c, "Audio/Duplex")),
        None => (false, false, false),
    };
    if !(is_source || is_sink || is_duplex) {
        return None;
    }
    let label = match label {
        Some(l) => l,
        None => {
            let mut t = "Node ".to_owned();
            let d = decimal_string(id as u64);
            push_str(&mut t, d.as_str());
            proof {
                reveal_strlit("Node ");
            }
            t
        },
    };
    let device = match device_id {
        Some(d) => parse_u32(d),
        None => None,
    };
    let name = match node_name {
        Some(n) => Some(n.to_owned()),
        None => None,
    };
    Some(AudioNode { id, device_id: device, name, label, is_sink, is_source })
}

/// What a change of PipeWire's default metadata asks for.
#[derive(Debug, Clone, PartialEq, Eq)]
pub enum MetadataAction {
    /// The default sink is now the node of this `node.name`.
    DefaultSink(String),
    /// The default source is now the node of this `node.name`.
    DefaultSource(String),
    /// Nothing to do.
    Ignore,
}

/// A metadata change as plain values: 0 for nothing, 1 for the sink, 2 for the source.
pub open spec fn metadata_action_view(a: MetadataAction) -> (int, Seq<char>) {
    match a {
        MetadataAction::DefaultSink(n) => (1, n@),
        MetadataAction::DefaultSource(n) => (2, n@),
        MetadataAction::Ignore => (0, Seq::empty()),
    }
}

/// What a change of the default metadata asks for: for `default.audio.sink` or
/// `default.audio.source`, the name that the value's JSON holds, when it holds one.
pub open spec fn metadata_action_spec(key: Option<Seq<char>>, value: Option<Seq<char>>) -> (int, Seq<char>) {
    let name = match value {
        Some(v) => json_name_field(v),
        None => None,
    };
    match name {
        None => (0, Seq::empty()),
        Some(n) => if key == Some("default.audio.sink"@) {
            (1, n)
        } else if key == Some("default.audio.source"@) {
            (2, n)
        } else {
            (0, Seq::empty())
        },
    }
}

/// What a change of PipeWire's default metadata asks the volume module for.
pub fn metadata_action(key: Option<&str>, value: Option<&str>) -> (r: MetadataAction)
    ensures
        metadata_action_view(r) == metadata_action_spec(opt_str_view(key), opt_str_view(value)),
{
    let sink = match key {
        Some(k) => str_eq(k, "default.audio.sink"),
        None => false,
    };
    let source = match key {
        Some(k) => str_eq(k, "default.audio.source"),
        None => false,
    };
    if !sink && !source {
        proof {
            if value is Some {
                assert(opt_str_view(key) != Some("default.audio.sink"@));
            }
        }
        return MetadataAction::Ignore;
    }
    match default_node_name(value) {
        Some(n) => if sink { MetadataAction::DefaultSink(n) } else { MetadataAction::DefaultSource(n) },
        None => MetadataAction::Ignore,
    }
}

// ---------------------------------------------------------------------------
// The devices the volume module knows.
// ---------------------------------------------------------------------------

/// The audio nodes of the volume module, the devices with a route, and the default sink
/// and source, as they were announced over the connection.
#[derive(Debug)]
pub struct AudioDevices {
    pub nodes: Vec<AudioNode>,
    pub routed_devices: Vec<u32>,
    pub default_sink: Option<u32>,
    pub default_source: Option<u32>,
    pub connection: ConnectionState,
}

/// The ids of the nodes.
pub open spec fn node_ids(ns: Seq<AudioNode>) -> Seq<u32> {
    ns.map_values(|n: AudioNode| n.id)
}

impl AudioDevices {
    /// No node is kept twice, no routed device twice.
    pub open spec fn wf(&self) -> bool {
        node_ids(self.nodes@).no_duplicates() && self.routed_devices@.no_duplicates()
    }

    /// Connected, with nothing known yet.
    pub fn new() -> (d: Self)
        ensures
            d.wf(),
            d.nodes@.len() == 0,
            d.routed_devices@.len() == 0,
            d.default_sink is None,
            d.default_source is None,
            d.connection == ConnectionState::connected_spec(),
    {
        let d = AudioDevices {
            nodes: Vec::new(),
            routed_devices: Vec::new(),
            default_sink: None,
            default_source: None,
            connection: ConnectionState::connected(),
        };
        assert(node_ids(d.nodes@) =~= Seq::<u32>::empty());
        d
    }

    /// The connection was lost: every node, route and default is forgotten, and the
    /// connection's bookkeeping asks for a reconnection (see `ConnectionState`).
    pub fn connection_lost(&mut self) -> (a: ConnectionAction)
        ensures
            final(self).wf(),
            final(self).nodes@.len() == 0,
            final(self).routed_devices@.len() == 0,
            final(self).default_sink is None,
            final(self).default_source is None,
            (final(self).connection, a) == lost_spec(old(self).connection),
    {
        self.nodes = Vec::new();
        self.routed_devices = Vec::new();
        self.default_sink = None;
        self.default_source = None;
        assert(node_ids(self.nodes@) =~= Seq::<u32>::empty());
        self.connection.connection_lost()
    }

    /// The default sink or source changed to the node of that `node.name`: the first node
    /// of that name, or none when no node has it.
    pub fn default_changed(&mut self, sink: bool, name: &str)
        ensures
            final(self).nodes == old(self).nodes,
            final(self).routed_devices == old(self).routed_devices,
            final(self).connection == old(self).connection,
            sink ==> final(self).default_source == old(self).default_source
                && final(self).default_sink == first_named(old(self).nodes@, name@),
            !sink ==> final(self).default_sink == old(self).default_sink
                && final(self).default_source == first_named(old(self).nodes@, name@),
    {
        let found = find_named(&self.nodes, name);
        if sink {
            self.default_sink = found;
        } else {
            self.default_source = found;
        }
    }
}

/// Where an id stands in a list of ids that holds it at most once.
pub open spec fn position_of(ids: Seq<u32>, id: u32) -> Option<int> {
    if ids.contains(id) {
        Some(choose|i: int| 0 <= i < ids.len() && ids[i] == id)
    } else {
        None
    }
}

/// A list without the item at `i` keeps no item twice.
proof fn lemma_remove_no_duplicates(s: Seq<u32>, i: int)
    requires
        s.no_duplicates(),
        0 <= i < s.len(),
    ensures
        s.remove(i).no_duplicates(),
{
    let r = s.remove(i);
    assert forall|a: int, b: int| 0 <= a < r.len() && 0 <= b < r.len() && a != b implies r[a] != r[b] by {
        let sa = if a < i { a } else { a + 1 };
        let sb = if b < i { b } else { b + 1 };
        assert(r[a] == s[sa]);
        assert(r[b] == s[sb]);
    }
}

/// Finds an id in a list that holds it at most once.
fn find_id(ids: &Vec<u32>, id: u32) -> (r: Option<usize>)
    requires
        ids@.no_duplicates(),
    ensures
        r matches Some(i) ==> position_of(ids@, id) == Some(i as int),
        r is None ==> position_of(ids@, id) is None,
{
    let mut i: usize = 0;
    while i < ids.len()
        invariant
            i <= ids@.len(),
            forall|k: int| 0 <= k < i ==> ids@[k] != id,
            ids@.no_duplicates(),
        decreases ids@.len() - i,
    {
        if ids[i] == id {
            assert(ids@.contains(id));
            let ghost c = choose|j: int| 0 <= j < ids@.len() && ids@[j] == id;
            assert(c == i);
            return Some(i);
        }
        i = i + 1;
    }
    assert(!ids@.contains(id));
    None
}

fn ids_of(nodes: &Vec<AudioNode>) -> (r: Vec<u32>)
    ensures
        r@ == node_ids(nodes@),
{
    let mut r: Vec<u32> = Vec::new();
    let mut i: usize = 0;
    while i < nodes.len()
        invariant
            i <= nodes@.len(),
            r@ == node_ids(nodes@.take(i as int)),
        decreases nodes@.len() - i,
    {
        r.push(nodes[i].id);
        assert(node_ids(nodes@.take(i + 1)) =~= node_ids(nodes@.take(i as int)).push(nodes@[i as int].id));
        i = i + 1;
    }
    assert(nodes@.take(nodes@.len() as int) =~= nodes@);
    r
}

impl AudioDevices {
    /// PipeWire announced a node, or announced it again: it takes the place of the node
    /// with its id, or is added after the others.
    pub fn node_upserted(&mut self, node: AudioNode)
        requires
            old(self).wf(),
        ensures
            final(self).wf(),
            final(self).nodes@ == match position_of(node_ids(old(self).nodes@), node.id) {
                Some(i) => old(self).nodes@.update(i, node),
                None => old(self).nodes@.push(node),
            },
            final(self).routed_devices == old(self).routed_devices,
            final(self).default_sink == old(self).default_sink,
            final(self).default_source == old(self).default_source,
            final(self).connection == old(self).connection,
    {
        let ids = ids_of(&self.nodes);
        let ghost before = self.nodes@;
        let ghost nid = node.id;
        match find_id(&ids, node.id) {
            Some(i) => {
                self.nodes.set(i, node);
                assert(node_ids(self.nodes@) =~= node_ids(before));
            },
            None => {
                self.nodes.push(node);
                assert(node_ids(self.nodes@) =~= node_ids(before).push(nid));
            },
        }
    }

    /// A device reported a route: it is counted among the devices with a route, once.
    pub fn route_upserted(&mut self, device_id: u32)
        requires
            old(self).wf(),
        ensures
            final(self).wf(),
            final(self).routed_devices@ == if old(self).routed_devices@.contains(device_id) {
                old(self).routed_devices@
            } else {
                old(self).routed_devices@.push(device_id)
            },
            final(self).nodes == old(self).nodes,
            final(self).default_sink == old(self).default_sink,
            final(self).default_source == old(self).default_source,
            final(self).connection == old(self).connection,
    {
        match find_id(&self.routed_devices, device_id) {
            Some(_) => {},
            None => {
                self.routed_devices.push(device_id);
            },
        }
    }

    /// PipeWire reported a global gone: the node and the routed device of that id are
    /// forgotten; nothing else changes (the defaults keep their ids).
    pub fn node_removed(&mut self, id: u32)
        requires
            old(self).wf(),
        ensures
            final(self).wf(),
            final(self).nodes@ == match position_of(node_ids(old(self).nodes@), id) {
                Some(i) => old(self).nodes@.remove(i),
                None => old(self).nodes@,
            },
            final(self).routed_devices@ == match position_of(old(self).routed_devices@, id) {
                Some(i) => old(self).routed_devices@.remove(i),
                None => old(self).routed_devices@,
            },
            !node_ids(final(self).nodes@).contains(id),
            !final(self).routed_devices@.contains(id),
            final(self).default_sink == old(self).default_sink,
            final(self).default_source == old(self).default_source,
            final(self).connection == old(self).connection,
    {
        let ids = ids_of(&self.nodes);
        let ghost before = self.nodes@;
        match find_id(&ids, id) {
            Some(i) => {
                let _gone = self.nodes.remove(i);
                assert(node_ids(self.nodes@) =~= node_ids(before).remove(i as int));
                proof { lemma_remove_no_duplicates(node_ids(before), i as int); }
                assert forall|k: int| 0 <= k < node_ids(self.nodes@).len() implies node_ids(self.nodes@)[k] != id by {
                    let sk = if k < i { k } else { k + 1 };
                    assert(node_ids(self.nodes@)[k] == node_ids(before)[sk]);
                }
            },
            None => {},
        }
        let ghost routed = self.routed_devices@;
        match find_id(&self.routed_devices, id) {
            Some(i) => {
                self.routed_devices.remove(i);
                proof { lemma_remove_no_duplicates(routed, i as int); }
                assert forall|k: int| 0 <= k < self.routed_devices@.len() implies self.routed_devices@[k] != id by {
                    let sk = if k < i { k } else { k + 1 };
                    assert(self.routed_devices@[k] == routed[sk]);
                }
            },
            None => {},
        }
    }
}

fn find_named(nodes: &Vec<AudioNode>, name: &str) -> (r: Option<u32>)
    ensures
        r == first_named(nodes@, name@),
{
    let mut i: usize = 0;
    while i < nodes.len()
        invariant
            i <= nodes@.len(),
            first_named(nodes@.take(i as int), name@) is None,
        decreases nodes@.len() - i,
    {
        assert(nodes@.take(i + 1).drop_last() =~= nodes@.take(i as int));
        let hit = match &nodes[i].name {
            Some(n) => str_eq(n.as_str(), name),
            None => false,
        };
        if hit {
            proof {
                lemma_first_named_prefix(nodes@, i + 1, name@);
            }
            return Some(nodes[i].id);
        }
        i = i + 1;
    }
    assert(nodes@.take(nodes@.len() as int) =~= nodes@);
    None
}

/// The id of the first node of the given `node.name`.
pub open spec fn first_named(ns: Seq<AudioNode>, name: Seq<char>) -> Option<u32>
    decreases ns.len(),
{
    if ns.len() == 0 {
        None
    } else {
        match first_named(ns.drop_last(), name) {
            Some(id) => Some(id),
            None => match ns.last().name {
                Some(n) => if n@ == name { Some(ns.last().id) } else { None },
                None => None,
            },
        }
    }
}

proof fn lemma_first_named_prefix(ns: Seq<AudioNode>, k: int, name: Seq<char>)
    requires
        0 <= k <= ns.len(),
        first_named(ns.take(k), name) is Some,
    ensures
        first_named(ns, name) == first_named(ns.take(k), name),
    decreases ns.len() - k,
{
    if k < ns.len() {
        assert(ns.take(k + 1).drop_last() =~= ns.take(k));
        lemma_first_named_prefix(ns, k + 1, name);
    } else {
        assert(ns.take(k) =~= ns);
    }
}

} // verus!
