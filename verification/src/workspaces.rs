use vstd::prelude::*;

use crate::text::str_eq;

verus! {

/// What the taskbar reads of a compositor workspace.
#[derive(Debug, Clone)]
pub struct WorkspaceInfo {
    pub id: u64,
    pub idx: u8,
    pub output: Option<String>,
    pub is_focused: bool,
}

impl WorkspaceInfo {
    /// A copy of the workspace.
    pub fn duplicate(&self) -> (r: WorkspaceInfo)
        ensures
            r == *self,
    {
        WorkspaceInfo {
            id: self.id,
            idx: self.idx,
            output: match &self.output {
                Some(o) => Some(o.clone()),
                None => None,
            },
            is_focused: self.is_focused,
        }
    }
}

/// The outputs' names as character sequences.
pub open spec fn names_of(v: Seq<String>) -> Seq<Seq<char>> {
    v.map_values(|s: String| s@)
}

/// Position of the first workspace with the given id, or -1.
pub open spec fn ws_index(s: Seq<WorkspaceInfo>, id: u64) -> int
    decreases s.len(),
{
    if s.len() == 0 {
        -1
    } else {
        let p = ws_index(s.drop_last(), id);
        if p >= 0 {
            p
        } else if s.last().id == id {
            s.len() - 1
        } else {
            -1
        }
    }
}

proof fn lemma_ws_index(s: Seq<WorkspaceInfo>, id: u64)
    ensures
        -1 <= ws_index(s, id) < s.len(),
        ws_index(s, id) >= 0 ==> s[ws_index(s, id)].id == id,
        ws_index(s, id) == -1 ==> forall|i: int| 0 <= i < s.len() ==> s[i].id != id,
        forall|i: int| 0 <= i < ws_index(s, id) ==> s[i].id != id,
    decreases s.len(),
{
    if s.len() > 0 {
        lemma_ws_index(s.drop_last(), id);
        assert forall|i: int| 0 <= i < s.len() - 1 implies s.drop_last()[i] == s[i] by {}
    }
}

proof fn lemma_ws_index_unique(s: Seq<WorkspaceInfo>, i: int)
    requires
        0 <= i < s.len(),
        ids_unique(s),
    ensures
        ws_index(s, s[i].id) == i,
{
    lemma_ws_index(s, s[i].id);
}

/// No two workspaces share an id.
pub open spec fn ids_unique(s: Seq<WorkspaceInfo>) -> bool {
    forall|i: int, j: int| 0 <= i < s.len() && 0 <= j < s.len() && i != j ==> s[i].id != s[j].id
}

/// The workspaces after a list is taken in: a later entry with an id replaces the earlier.
pub open spec fn collect_by_id(input: Seq<WorkspaceInfo>) -> Seq<WorkspaceInfo>
    decreases input.len(),
{
    if input.len() == 0 {
        Seq::empty()
    } else {
        let acc = collect_by_id(input.drop_last());
        let w = input.last();
        let p = ws_index(acc, w.id);
        if p >= 0 { acc.update(p, w) } else { acc.push(w) }
    }
}

/// Whether a workspace is shown on this bar: every workspace when the bar is not tied to
/// outputs, otherwise those on one of its outputs.
pub open spec fn visible_in(allowed: Seq<Seq<char>>, s: Seq<WorkspaceInfo>, id: u64) -> bool {
    if allowed.len() == 0 {
        true
    } else {
        let p = ws_index(s, id);
        p >= 0 && (s[p].output matches Some(o) && allowed.contains(o@))
    }
}

/// The lowest index among the visible workspaces, or 0 when none is visible.
pub open spec fn base_index_spec(allowed: Seq<Seq<char>>, s: Seq<WorkspaceInfo>) -> u8 {
    if exists|i: int| 0 <= i < s.len() && visible_in(allowed, s, s[i].id) {
        let i = choose|i: int| 0 <= i < s.len() && visible_in(allowed, s, s[i].id)
            && forall|j: int| 0 <= j < s.len() && visible_in(allowed, s, s[j].id) ==> s[i].idx <= s[j].idx;
        s[i].idx
    } else {
        0
    }
}

fn find_workspace(v: &Vec<WorkspaceInfo>, id: u64) -> (r: Option<usize>)
    ensures
        match r {
            Some(i) => ws_index(v@, id) == i && i < v@.len(),
            None => ws_index(v@, id) == -1,
        },
{
    proof {
        lemma_ws_index(v@, id);
    }
    let mut i: usize = 0;
    while i < v.len()
        invariant
            i <= v@.len(),
            forall|j: int| 0 <= j < i ==> #[trigger] v@[j].id != id,
            -1 <= ws_index(v@, id) < v@.len(),
            ws_index(v@, id) >= 0 ==> v@[ws_index(v@, id)].id == id,
            ws_index(v@, id) == -1 ==> forall|j: int| 0 <= j < v@.len() ==> v@[j].id != id,
            forall|j: int| 0 <= j < ws_index(v@, id) ==> v@[j].id != id,
        decreases v@.len() - i,
    {
        if v[i].id == id {
            proof {
                let p = ws_index(v@, id);
                assert(p != -1);
                if p < i {
                    assert(v@[p].id != id);
                }
                if p > i {
                    assert(v@[i as int].id != id);
                }
            }
            return Some(i);
        }
        i = i + 1;
    }
    proof {
        let p = ws_index(v@, id);
        if p >= 0 {
            assert(v@[p].id != id);
        }
    }
    None
}

/// Which workspaces a bar shows and how it numbers them.
#[derive(Debug)]
pub struct WorkspaceTracker {
    allowed_outputs: Vec<String>,
    workspaces: Vec<WorkspaceInfo>,
    base_index: u8,
}

impl WorkspaceTracker {
    /// The names of the outputs this bar belongs to.
    pub closed spec fn allowed(&self) -> Seq<Seq<char>> {
        names_of(self.allowed_outputs@)
    }

    /// The known workspaces.
    pub closed spec fn known(&self) -> Seq<WorkspaceInfo> {
        self.workspaces@
    }

    /// The number given to the lowest visible workspace.
    pub closed spec fn base(&self) -> u8 {
        self.base_index
    }

    /// The workspaces have distinct ids and the base index is up to date.
    pub open spec fn wf(&self) -> bool {
        ids_unique(self.known()) && self.base() == base_index_spec(self.allowed(), self.known())
    }

    /// Whether a workspace is shown on this bar.
    pub open spec fn visible(&self, id: u64) -> bool {
        visible_in(self.allowed(), self.known(), id)
    }

    /// The known workspace with an id.
    pub open spec fn workspace_spec(&self, id: u64) -> Option<WorkspaceInfo> {
        let p = ws_index(self.known(), id);
        if p >= 0 { Some(self.known()[p]) } else { None }
    }

    /// A tracker for a bar on the given outputs (none: every output) with the given
    /// workspaces.
    pub fn new(allowed_outputs: Vec<String>, workspaces: Vec<WorkspaceInfo>) -> (t: WorkspaceTracker)
        ensures
            t.wf(),
            t.allowed() == names_of(allowed_outputs@),
            t.known() == collect_by_id(workspaces@),
    {
        let mut t = WorkspaceTracker { allowed_outputs, workspaces: Vec::new(), base_index: 0 };
        t.update(workspaces);
        t
    }

    fn position(&self, id: u64) -> (r: Option<usize>)
        ensures
            match r {
                Some(i) => ws_index(self.known(), id) == i && i < self.known().len(),
                None => ws_index(self.known(), id) == -1,
            },
    {
        find_workspace(&self.workspaces, id)
    }

    fn output_allowed(&self, output: &str) -> (r: bool)
        ensures
            r == self.allowed().contains(output@),
    {
        let mut i: usize = 0;
        while i < self.allowed_outputs.len()
            invariant
                i <= self.allowed_outputs@.len(),
                forall|j: int| 0 <= j < i ==> #[trigger] self.allowed()[j] != output@,
            decreases self.allowed_outputs@.len() - i,
        {
            if str_eq(self.allowed_outputs[i].as_str(), output) {
                assert(self.allowed()[i as int] == output@);
                return true;
            }
            i = i + 1;
        }
        false
    }

    /// Whether a workspace is shown on this bar.
    pub fn workspace_is_visible(&self, workspace_id: u64) -> (r: bool)
        ensures
            r == self.visible(workspace_id),
    {
        if self.allowed_outputs.len() == 0 {
            return true;
        }
        match self.position(workspace_id) {
            Some(i) => match &self.workspaces[i].output {
                Some(o) => self.output_allowed(o.as_str()),
                None => false,
            },
            None => false,
        }
    }

    fn recompute_base_index(&mut self)
        requires
            ids_unique(old(self).known()),
        ensures
            final(self).wf(),
            final(self).allowed() == old(self).allowed(),
            final(self).known() == old(self).known(),
    {
        let ghost s = self.workspaces@;
        let ghost a = self.allowed();
        let mut best: Option<usize> = None;
        let mut i: usize = 0;
        while i < self.workspaces.len()
            invariant
                i <= s.len(),
                s == self.workspaces@,
                a == self.allowed(),
                ids_unique(s),
                match best {
                    Some(b) => b < i && visible_in(a, s, s[b as int].id)
                        && forall|j: int| 0 <= j < i && visible_in(a, s, s[j].id) ==> s[b as int].idx <= s[j].idx,
                    None => forall|j: int| 0 <= j < i ==> !visible_in(a, s, s[j].id),
                },
            decreases s.len() - i,
        {
            if self.workspace_is_visible(self.workspaces[i].id) {
                match best {
                    Some(b) => {
                        if self.workspaces[i].idx < self.workspaces[b].idx {
                            best = Some(i);
                        }
                    },
                    None => {
                        best = Some(i);
                    },
                }
            }
            i = i + 1;
        }
        match best {
            Some(b) => {
                self.base_index = self.workspaces[b].idx;
                proof {
                    let k = choose|k: int| 0 <= k < s.len() && visible_in(a, s, s[k].id)
                        && forall|j: int| 0 <= j < s.len() && visible_in(a, s, s[j].id) ==> s[k].idx <= s[j].idx;
                    assert(s[k].idx <= s[b as int].idx);
                    assert(s[b as int].idx <= s[k].idx);
                }
            },
            None => {
                self.base_index = 0;
            },
        }
    }

    /// Takes in the compositor's workspace list (a later entry with an id replaces an
    /// earlier one) and renumbers.
    pub fn update(&mut self, workspaces: Vec<WorkspaceInfo>)
        ensures
            final(self).wf(),
            final(self).allowed() == old(self).allowed(),
            final(self).known() == collect_by_id(workspaces@),
    {
        let ghost input = workspaces@;
        let mut acc: Vec<WorkspaceInfo> = Vec::new();
        let mut i: usize = 0;
        while i < workspaces.len()
            invariant
                i <= input.len(),
                input == workspaces@,
                acc@ == collect_by_id(input.take(i as int)),
                ids_unique(acc@),
            decreases input.len() - i,
        {
            assert(input.take(i + 1).drop_last() == input.take(i as int));
            let w = workspaces[i].duplicate();
            let found = find_workspace(&acc, w.id);
            proof {
                lemma_ws_index(acc@, w.id);
            }
            match found {
                Some(k) => {
                    acc.set(k, w);
                },
                None => {
                    acc.push(w);
                },
            }
            i = i + 1;
        }
        assert(input.take(input.len() as int) == input);
        self.workspaces = acc;
        self.recompute_base_index();
    }
}


/// Whether a workspace id occurs in a list of (index, id) pairs.
pub open spec fn pairs_have(out: Seq<(u8, u64)>, x: u64) -> bool {
    exists|k: int| 0 <= k < out.len() && out[k].1 == x
}

/// Pairs ordered by their first component.
pub open spec fn sorted_pairs(s: Seq<(u8, u64)>) -> bool {
    forall|a: int, b: int| 0 <= a < b < s.len() ==> s[a].0 <= s[b].0
}

/// No id occurs twice among the pairs.
pub open spec fn distinct_ids(s: Seq<(u8, u64)>) -> bool {
    forall|a: int, b: int| 0 <= a < s.len() && 0 <= b < s.len() && a != b ==> s[a].1 != s[b].1
}

fn insert_sorted(out: &mut Vec<(u8, u64)>, key: u8, id: u64)
    requires
        sorted_pairs(old(out)@),
        distinct_ids(old(out)@),
        !pairs_have(old(out)@, id),
    ensures
        sorted_pairs(final(out)@),
        distinct_ids(final(out)@),
        forall|x: u64| #[trigger] pairs_have(final(out)@, x) <==> (pairs_have(old(out)@, x) || x == id),
        forall|k: int| 0 <= k < final(out)@.len() ==> #[trigger] final(out)@[k] == (key, id)
            || old(out)@.contains(final(out)@[k]),
{
    let mut pos: usize = 0;
    while pos < out.len() && out[pos].0 <= key
        invariant
            pos <= out@.len(),
            forall|k: int| 0 <= k < pos ==> out@[k].0 <= key,
        decreases out@.len() - pos,
    {
        pos = pos + 1;
    }
    let ghost before = out@;
    proof {
        assert forall|k: int| pos <= k < before.len() implies before[k].0 > key by {
            assert(before[pos as int].0 > key);
            assert(before[pos as int].0 <= before[k].0);
        }
        assert forall|k: int| 0 <= k < before.len() implies before[k].1 != id by {
            if before[k].1 == id {
                assert(pairs_have(before, id));
            }
        }
    }
    out.insert(pos, (key, id));
    proof {
        assert forall|k: int| 0 <= k < out@.len() implies #[trigger] out@[k] == if k < pos { before[k] } else if k == pos { (key, id) } else { before[k - 1] } by {}
        assert forall|k: int| 0 <= k < out@.len() implies #[trigger] out@[k] == (key, id) || before.contains(out@[k]) by {
            if k < pos {
                assert(before[k] == out@[k]);
            } else if k > pos {
                assert(before[k - 1] == out@[k]);
            }
        }
        assert forall|x: u64| #[trigger] pairs_have(out@, x) <==> (pairs_have(before, x) || x == id) by {
            if pairs_have(out@, x) {
                let k = choose|k: int| 0 <= k < out@.len() && out@[k].1 == x;
                if k < pos {
                    assert(before[k].1 == x);
                } else if k > pos {
                    assert(before[k - 1].1 == x);
                }
            }
            if pairs_have(before, x) {
                let m = choose|m: int| 0 <= m < before.len() && before[m].1 == x;
                if m < pos {
                    assert(out@[m].1 == x);
                } else {
                    assert(out@[m + 1].1 == x);
                }
            }
            if x == id {
                assert(out@[pos as int].1 == x);
            }
        }
    }
}

/// `a - b`, or 0 when `b` is larger.
pub open spec fn saturating_sub_spec(a: u8, b: u8) -> u8 {
    if a >= b { (a - b) as u8 } else { 0 }
}

impl WorkspaceTracker {
    /// Whether `x` is the id of one of the first `i` known workspaces and is visible.
    #[verifier::opaque]
    pub open spec fn shown_before(&self, i: int, x: u64) -> bool {
        exists|k: int| 0 <= k < i && self.known()[k].id == x && self.visible(x)
    }

    proof fn lemma_shown_before_step(&self, i: int, x: u64)
        requires
            0 <= i < self.known().len(),
        ensures
            self.shown_before(i + 1, x) <==> (self.shown_before(i, x) || (x == self.known()[i].id && self.visible(x))),
    {
        reveal(WorkspaceTracker::shown_before);
        if self.shown_before(i + 1, x) {
            let k = choose|k: int| 0 <= k < i + 1 && self.known()[k].id == x && self.visible(x);
        }
    }

    proof fn lemma_shown_before_all(&self, x: u64)
        requires
            ids_unique(self.known()),
        ensures
            self.shown_before(self.known().len() as int, x) <==> self.shown(x),
    {
        reveal(WorkspaceTracker::shown_before);
        lemma_ws_index(self.known(), x);
        if self.shown(x) {
            let p = ws_index(self.known(), x);
            assert(self.known()[p].id == x);
        }
    }

    /// The index of a known workspace.
    pub open spec fn idx_of(&self, id: u64) -> u8 {
        self.known()[ws_index(self.known(), id)].idx
    }

    /// Whether a workspace is known and shown on this bar.
    pub open spec fn shown(&self, id: u64) -> bool {
        ws_index(self.known(), id) >= 0 && self.visible(id)
    }

    /// The number a workspace has on this bar: its index counted from the lowest visible
    /// one; `None` for an unknown or hidden workspace.
    pub open spec fn display_index_spec(&self, id: u64) -> Option<u8> {
        match self.workspace_spec(id) {
            Some(w) => if self.visible(id) { Some(saturating_sub_spec(w.idx, self.base())) } else { None },
            None => None,
        }
    }

    /// The number a workspace has on this bar.
    pub fn display_index(&self, workspace_id: u64) -> (r: Option<u8>)
        ensures
            r == self.display_index_spec(workspace_id),
    {
        let i = match self.position(workspace_id) {
            Some(i) => i,
            None => return None,
        };
        if !self.workspace_is_visible(workspace_id) {
            return None;
        }
        let idx = self.workspaces[i].idx;
        Some(if idx >= self.base_index { idx - self.base_index } else { 0 })
    }

    /// The number a workspace has on this bar, 0 when it has none.
    pub fn display_index_for_workspace(&self, workspace_id: u64) -> (r: u8)
        ensures
            r == match self.display_index_spec(workspace_id) { Some(n) => n, None => 0 },
    {
        match self.display_index(workspace_id) {
            Some(n) => n,
            None => 0,
        }
    }

    /// The workspace of a window and its number on this bar, when it has both.
    pub fn workspace_details(&self, window_workspace: Option<u64>) -> (r: Option<(u64, u8)>)
        ensures
            r == match window_workspace {
                Some(id) => match self.display_index_spec(id) {
                    Some(n) => Some((id, n)),
                    None => None,
                },
                None => None,
            },
    {
        let id = match window_workspace {
            Some(id) => id,
            None => return None,
        };
        match self.display_index(id) {
            Some(n) => Some((id, n)),
            None => None,
        }
    }

    /// The ids of the workspaces shown on this bar, ordered by index.
    pub fn visible_workspace_ids(&self) -> (r: Vec<u64>)
        requires
            self.wf(),
        ensures
            r@.no_duplicates(),
            forall|x: u64| r@.contains(x) <==> self.shown(x),
            forall|i: int, j: int| 0 <= i < j < r@.len() ==> self.idx_of(r@[i]) <= self.idx_of(r@[j]),
    {
        let ghost s = self.known();
        let mut out: Vec<(u8, u64)> = Vec::new();
        let mut i: usize = 0;
        proof {
            reveal(WorkspaceTracker::shown_before);
        }
        while i < self.workspaces.len()
            invariant
                i <= s.len(),
                s == self.known(),
                ids_unique(s),
                forall|k: int| 0 <= k < out@.len() ==> #[trigger] out@[k].0 == self.idx_of(out@[k].1),
                sorted_pairs(out@),
                distinct_ids(out@),
                forall|x: u64| #[trigger] pairs_have(out@, x) <==> self.shown_before(i as int, x),
            decreases s.len() - i,
        {
            let id = self.workspaces[i].id;
            let vis = self.workspace_is_visible(id);
            let ghost prev = out@;
            if vis {
                let key = self.workspaces[i].idx;
                proof {
                    lemma_ws_index_unique(s, i as int);
                    if pairs_have(out@, id) {
                        reveal(WorkspaceTracker::shown_before);
                        let m = choose|m: int| 0 <= m < i && s[m].id == id && self.visible(id);
                        assert(s[m].id == s[i as int].id);
                    }
                }
                let ghost before = out@;
                insert_sorted(&mut out, key, id);
                proof {
                    assert forall|k: int| 0 <= k < out@.len() implies #[trigger] out@[k].0 == self.idx_of(out@[k].1) by {
                        if out@[k] != (key, id) {
                            let m = choose|m: int| 0 <= m < before.len() && before[m] == out@[k];
                            assert(before[m].0 == self.idx_of(before[m].1));
                        }
                    }
                }
            }
            proof {
                assert forall|x: u64| #[trigger] pairs_have(out@, x) <==> self.shown_before(i + 1, x) by {
                    self.lemma_shown_before_step(i as int, x);
                    assert(pairs_have(prev, x) <==> self.shown_before(i as int, x));
                    if vis {
                        assert(pairs_have(out@, x) <==> (pairs_have(prev, x) || x == id));
                    }
                }
            }
            i = i + 1;
        }
        let mut r: Vec<u64> = Vec::new();
        let mut k: usize = 0;
        while k < out.len()
            invariant
                k <= out@.len(),
                r@.len() == k,
                forall|j: int| 0 <= j < k ==> #[trigger] r@[j] == out@[j].1,
            decreases out@.len() - k,
        {
            r.push(out[k].1);
            k = k + 1;
        }
        proof {
            assert forall|x: u64| r@.contains(x) <==> self.shown(x) by {
                self.lemma_shown_before_all(x);
                if r@.contains(x) {
                    let j = choose|j: int| 0 <= j < r@.len() && r@[j] == x;
                    assert(out@[j].1 == x);
                    assert(pairs_have(out@, x));
                }
                if self.shown(x) {
                    assert(pairs_have(out@, x));
                    let j = choose|j: int| 0 <= j < out@.len() && out@[j].1 == x;
                    assert(r@[j] == x);
                }
            }
            assert forall|a: int, b: int| 0 <= a < r@.len() && 0 <= b < r@.len() && a != b implies r@[a] != r@[b] by {
                assert(r@[a] == out@[a].1 && r@[b] == out@[b].1);
            }
            assert forall|a: int, b: int| 0 <= a < b < r@.len() implies self.idx_of(r@[a]) <= self.idx_of(r@[b]) by {
                assert(r@[a] == out@[a].1 && r@[b] == out@[b].1);
                assert(out@[a].0 == self.idx_of(out@[a].1));
                assert(out@[b].0 == self.idx_of(out@[b].1));
            }
        }
        r
    }

    /// The focused workspace among those shown on this bar; with several, one of lowest
    /// index.
    pub fn focused_workspace_id(&self) -> (r: Option<u64>)
        requires
            self.wf(),
        ensures
            match r {
                Some(id) => self.shown(id) && self.known()[ws_index(self.known(), id)].is_focused
                    && forall|x: u64| self.shown(x) && #[trigger] self.known()[ws_index(self.known(), x)].is_focused
                        ==> self.idx_of(id) <= self.idx_of(x),
                None => forall|x: u64| self.shown(x) ==> !#[trigger] self.known()[ws_index(self.known(), x)].is_focused,
            },
    {
        let ids = self.visible_workspace_ids();
        let mut k: usize = 0;
        while k < ids.len()
            invariant
                k <= ids@.len(),
                self.wf(),
                ids@.no_duplicates(),
                forall|x: u64| ids@.contains(x) <==> self.shown(x),
                forall|i: int, j: int| 0 <= i < j < ids@.len() ==> self.idx_of(ids@[i]) <= self.idx_of(ids@[j]),
                forall|j: int| 0 <= j < k ==> !#[trigger] self.known()[ws_index(self.known(), ids@[j])].is_focused,
            decreases ids@.len() - k,
        {
            let id = ids[k];
            assert(ids@.contains(id));
            assert(self.shown(id));
            let p = match self.position(id) {
                Some(p) => p,
                None => {
                    return None;
                },
            };
            if self.workspaces[p].is_focused {
                proof {
                    assert forall|x: u64| self.shown(x) && #[trigger] self.known()[ws_index(self.known(), x)].is_focused
                        implies self.idx_of(id) <= self.idx_of(x) by {
                        assert(ids@.contains(x));
                        let j = choose|j: int| 0 <= j < ids@.len() && ids@[j] == x;
                        if j < k {
                            assert(!self.known()[ws_index(self.known(), ids@[j])].is_focused);
                        } else if j > k {
                            assert(self.idx_of(ids@[k as int]) <= self.idx_of(ids@[j]));
                        }
                    }
                }
                return Some(id);
            }
            k = k + 1;
        }
        proof {
            assert forall|x: u64| self.shown(x) implies !#[trigger] self.known()[ws_index(self.known(), x)].is_focused by {
                assert(ids@.contains(x));
                let j = choose|j: int| 0 <= j < ids@.len() && ids@[j] == x;
                assert(!self.known()[ws_index(self.known(), ids@[j])].is_focused);
            }
        }
        None
    }
}


proof fn lemma_min_index(n: int, p: spec_fn(int) -> bool, key: spec_fn(int) -> int)
    requires
        0 <= n,
        exists|i: int| 0 <= i < n && #[trigger] p(i),
    ensures
        exists|i: int| 0 <= i < n && #[trigger] p(i) && forall|j: int| 0 <= j < n && #[trigger] p(j) ==> key(i) <= key(j),
    decreases n,
{
    if exists|i: int| 0 <= i < n - 1 && #[trigger] p(i) {
        lemma_min_index(n - 1, p, key);
        let i = choose|i: int| 0 <= i < n - 1 && #[trigger] p(i) && forall|j: int| 0 <= j < n - 1 && #[trigger] p(j) ==> key(i) <= key(j);
        if p(n - 1) && key(n - 1) < key(i) {
            assert forall|j: int| 0 <= j < n && #[trigger] p(j) implies key(n - 1) <= key(j) by {
                if j < n - 1 {
                    assert(key(i) <= key(j));
                }
            }
        } else {
            assert forall|j: int| 0 <= j < n && #[trigger] p(j) implies key(i) <= key(j) by {}
        }
    } else {
        let w = choose|i: int| 0 <= i < n && #[trigger] p(i);
        assert(w == n - 1);
        assert forall|j: int| 0 <= j < n && #[trigger] p(j) implies key(n - 1) <= key(j) by {
            if j < n - 1 {
                assert(!p(j));
            }
        }
    }
}

impl WorkspaceTracker {
    proof fn lemma_base_is_least(&self, x: u64) -> (w: u64)
        requires
            self.wf(),
            self.shown(x),
        ensures
            self.base() <= self.idx_of(x),
            self.shown(w),
            self.idx_of(w) == self.base(),
    {
        let s = self.known();
        let a = self.allowed();
        let p = |i: int| visible_in(a, s, s[i].id);
        let key = |i: int| s[i].idx as int;
        let q = ws_index(s, x);
        lemma_ws_index(s, x);
        assert(s[q].id == x);
        assert(p(q));
        lemma_min_index(s.len() as int, p, key);
        let w = choose|i: int| 0 <= i < s.len() as int && #[trigger] p(i)
            && forall|j: int| 0 <= j < s.len() as int && #[trigger] p(j) ==> key(i) <= key(j);
        assert(0 <= w < s.len() && visible_in(a, s, s[w].id)
            && forall|j: int| 0 <= j < s.len() && visible_in(a, s, s[j].id) ==> s[w].idx <= s[j].idx) by {
            assert forall|j: int| 0 <= j < s.len() && visible_in(a, s, s[j].id) implies s[w].idx <= s[j].idx by {
                assert(p(j));
            }
        }
        let i = choose|i: int| 0 <= i < s.len() && visible_in(a, s, s[i].id)
            && forall|j: int| 0 <= j < s.len() && visible_in(a, s, s[j].id) ==> s[i].idx <= s[j].idx;
        assert(self.base() == s[i].idx);
        assert(s[i].idx <= s[q].idx);
        lemma_ws_index_unique(s, i);
        s[i].id
    }
}

/// The lowest workspace shown on a bar is number 0, and every shown workspace is numbered
/// by how far its index lies above that one, so that the numbers keep the order of the
/// indices.
pub proof fn lemma_display_numbers(t: &WorkspaceTracker, x: u64, y: u64)
    requires
        t.wf(),
        t.shown(x),
        t.shown(y),
        t.idx_of(x) <= t.idx_of(y),
    ensures
        t.display_index_spec(x) == Some((t.idx_of(x) - t.base()) as u8),
        t.display_index_spec(x).unwrap() <= t.display_index_spec(y).unwrap(),
        exists|z: u64| #[trigger] t.shown(z) && t.display_index_spec(z) == Some(0u8),
{
    let z = t.lemma_base_is_least(x);
    let _ = t.lemma_base_is_least(y);
    let s = t.known();
    let b = t.base();
    let px = ws_index(s, x);
    let py = ws_index(s, y);
    let pz = ws_index(s, z);
    assert(t.workspace_spec(x) == Some(s[px]));
    assert(t.workspace_spec(y) == Some(s[py]));
    assert(t.workspace_spec(z) == Some(s[pz]));
    assert(t.display_index_spec(x) == Some(saturating_sub_spec(s[px].idx, b)));
    assert(t.display_index_spec(y) == Some(saturating_sub_spec(s[py].idx, b)));
    assert(t.display_index_spec(z) == Some(saturating_sub_spec(s[pz].idx, b)));
    assert(t.display_index_spec(z) == Some(0u8));
}

} // verus!
