use vstd::prelude::*;

use crate::text::str_eq;

verus! {

// ---------------------------------------------------------------------------
// Windows and their order.
// ---------------------------------------------------------------------------

/// A window as niri reports it, as far as the taskbar orders and marks it, carrying what
/// the bar draws of it (`data`) along.
#[derive(Debug, Clone)]
pub struct NiriWindow<T> {
    pub id: u64,
    pub workspace_id: Option<u64>,
    pub is_focused: bool,
    /// Column and tile in the scrolling layout, when the window is in it.
    pub position: Option<(usize, usize)>,
    pub data: T,
}

/// The workspace part of a window's sort key: no workspace before any workspace.
pub open spec fn workspace_rank(w: Option<u64>) -> int {
    match w {
        None => 0,
        Some(x) => x + 1,
    }
}

/// The column of a window for sorting: zero outside the scrolling layout.
pub open spec fn column_of<T>(w: NiriWindow<T>) -> int {
    match w.position {
        Some(p) => p.0 as int,
        None => 0,
    }
}

/// The tile of a window for sorting: zero outside the scrolling layout.
pub open spec fn tile_of<T>(w: NiriWindow<T>) -> int {
    match w.position {
        Some(p) => p.1 as int,
        None => 0,
    }
}

/// Whether `a` sorts strictly before `b`: by workspace (none first), column, tile and id.
pub open spec fn sorts_before<T>(a: NiriWindow<T>, b: NiriWindow<T>) -> bool {
    let (wa, wb) = (workspace_rank(a.workspace_id), workspace_rank(b.workspace_id));
    if wa != wb {
        wa < wb
    } else if column_of(a) != column_of(b) {
        column_of(a) < column_of(b)
    } else if tile_of(a) != tile_of(b) {
        tile_of(a) < tile_of(b)
    } else {
        a.id < b.id
    }
}

fn sorts_before_exec<T>(a: &NiriWindow<T>, b: &NiriWindow<T>) -> (r: bool)
    ensures
        r == sorts_before(*a, *b),
{
    let wa: (bool, u64) = match a.workspace_id {
        None => (false, 0),
        Some(x) => (true, x),
    };
    let wb: (bool, u64) = match b.workspace_id {
        None => (false, 0),
        Some(x) => (true, x),
    };
    if wa.0 != wb.0 {
        return !wa.0;
    }
    if wa.1 != wb.1 {
        return wa.1 < wb.1;
    }
    let (ca, ta): (usize, usize) = match a.position {
        Some(p) => p,
        None => (0, 0),
    };
    let (cb, tb): (usize, usize) = match b.position {
        Some(p) => p,
        None => (0, 0),
    };
    if ca != cb {
        ca < cb
    } else if ta != tb {
        ta < tb
    } else {
        a.id < b.id
    }
}

/// No window sorts before one that precedes it.
pub open spec fn windows_sorted<T>(s: Seq<NiriWindow<T>>) -> bool {
    forall|i: int, j: int| 0 <= i < j < s.len() ==> !sorts_before(#[trigger] s[j], #[trigger] s[i])
}

/// Where a window goes among sorted ones after those it does not sort before: the first
/// place whose window it sorts before.
pub open spec fn place_after_equals<T>(s: Seq<NiriWindow<T>>, x: NiriWindow<T>) -> int
    decreases s.len(),
{
    if s.len() == 0 {
        0
    } else if sorts_before(x, s[0]) {
        0
    } else {
        1 + place_after_equals(s.skip(1), x)
    }
}

/// The windows stably sorted: each one in turn placed after the ones it does not sort
/// before.
pub open spec fn sorted_windows<T>(s: Seq<NiriWindow<T>>) -> Seq<NiriWindow<T>>
    decreases s.len(),
{
    if s.len() == 0 {
        Seq::empty()
    } else {
        let r = sorted_windows(s.drop_last());
        r.insert(place_after_equals(r, s.last()), s.last())
    }
}

proof fn lemma_place_bounds<T>(s: Seq<NiriWindow<T>>, x: NiriWindow<T>)
    ensures
        0 <= place_after_equals(s, x) <= s.len(),
        forall|k: int| 0 <= k < place_after_equals(s, x) ==> !sorts_before(x, #[trigger] s[k]),
        place_after_equals(s, x) < s.len() ==> sorts_before(x, s[place_after_equals(s, x)]),
    decreases s.len(),
{
    if s.len() > 0 && !sorts_before(x, s[0]) {
        lemma_place_bounds(s.skip(1), x);
        assert forall|k: int| 0 <= k < place_after_equals(s, x) implies !sorts_before(x, #[trigger] s[k]) by {
            if k > 0 {
                assert(s[k] == s.skip(1)[k - 1]);
            }
        }
        if place_after_equals(s, x) < s.len() {
            assert(s[place_after_equals(s, x)] == s.skip(1)[place_after_equals(s.skip(1), x)]);
        }
    }
}

proof fn lemma_insert_keeps_sorted<T>(s: Seq<NiriWindow<T>>, x: NiriWindow<T>)
    requires
        windows_sorted(s),
    ensures
        windows_sorted(s.insert(place_after_equals(s, x), x)),
        s.insert(place_after_equals(s, x), x).to_multiset() == s.to_multiset().insert(x),
{
    lemma_place_bounds(s, x);
    let p = place_after_equals(s, x);
    let r = s.insert(p, x);
    assert forall|i: int, j: int| 0 <= i < j < r.len() implies !sorts_before(#[trigger] r[j], #[trigger] r[i]) by {
        if j < p {
            assert(r[i] == s[i] && r[j] == s[j]);
        } else if j == p {
            assert(r[i] == s[i]);
        } else if i == p {
            assert(r[j] == s[j - 1]);
            assert(sorts_before(x, s[p]));
            if j - 1 > p {
                assert(!sorts_before(s[j - 1], s[p]));
            }
        } else if i < p {
            assert(r[i] == s[i] && r[j] == s[j - 1]);
        } else {
            assert(r[i] == s[i - 1] && r[j] == s[j - 1]);
        }
    }
    vstd::seq_lib::to_multiset_insert(s, p, x);
}

/// Sorting gives the same windows, sorted.
pub proof fn lemma_sorted_windows<T>(s: Seq<NiriWindow<T>>)
    ensures
        windows_sorted(sorted_windows(s)),
        sorted_windows(s).to_multiset() == s.to_multiset(),
        sorted_windows(s).len() == s.len(),
    decreases s.len(),
{
    if s.len() > 0 {
        lemma_sorted_windows(s.drop_last());
        let r = sorted_windows(s.drop_last());
        lemma_insert_keeps_sorted(r, s.last());
        vstd::seq_lib::to_multiset_build(s.drop_last(), s.last());
        assert(s.drop_last().push(s.last()) =~= s);
        lemma_place_bounds(r, s.last());
    } else {
        assert(s =~= Seq::<NiriWindow<T>>::empty());
    }
}

fn place_of<T>(v: &Vec<NiriWindow<T>>, x: &NiriWindow<T>) -> (p: usize)
    ensures
        p == place_after_equals(v@, *x),
{
    let mut i: usize = 0;
    assert(v@.skip(0) =~= v@);
    while i < v.len()
        invariant
            i <= v@.len(),
            place_after_equals(v@, *x) == i + place_after_equals(v@.skip(i as int), *x),
        decreases v@.len() - i,
    {
        proof {
            assert(v@.skip(i as int)[0] == v@[i as int]);
            assert(v@.skip(i as int).skip(1) =~= v@.skip(i + 1));
        }
        if sorts_before_exec(x, &v[i]) {
            return i;
        }
        i = i + 1;
    }
    proof {
        assert(v@.skip(i as int).len() == 0);
    }
    i
}

/// The windows sorted by workspace, column, tile and id; equal ones keep their order.
pub fn sort_windows<T>(windows: Vec<NiriWindow<T>>) -> (r: Vec<NiriWindow<T>>)
    ensures
        r@ == sorted_windows(windows@),
{
    let ghost input = windows@;
    let mut rest = windows;
    let mut taken: Vec<NiriWindow<T>> = Vec::new();
    // Take the windows from the back one by one, remembering them in order.
    while rest.len() > 0
        invariant
            input == rest@ + taken@.reverse(),
        decreases rest@.len(),
    {
        let w = rest.pop().unwrap();
        proof {
            assert(input =~= rest@ + taken@.push(w).reverse());
        }
        taken.push(w);
    }
    let mut out: Vec<NiriWindow<T>> = Vec::new();
    let ghost n = input.len();
    assert(taken@.reverse() =~= input);
    while taken.len() > 0
        invariant
            n == input.len(),
            taken@.len() <= n,
            taken@.reverse() == input.skip(n - taken@.len()),
            out@ == sorted_windows(input.take(n - taken@.len())),
        decreases taken@.len(),
    {
        let ghost k = n - taken@.len();
        let ghost t = taken@;
        let w = taken.pop().unwrap();
        proof {
            assert(t == taken@.push(w));
            assert(t.reverse()[0] == w);
            assert(input.skip(k)[0] == w);
            assert(input.take(k + 1).drop_last() =~= input.take(k));
            assert(input.take(k + 1).last() == input.skip(k)[0]);
            assert forall|i: int| 0 <= i < taken@.len() implies taken@.reverse()[i] == input.skip(k + 1)[i] by {
                assert(taken@.reverse()[i] == taken@[taken@.len() - 1 - i]);
                assert(t.reverse()[i + 1] == t[t.len() - 1 - (i + 1)]);
                assert(input.skip(k)[i + 1] == input.skip(k + 1)[i]);
            }
            assert(taken@.reverse() =~= input.skip(k + 1));
            lemma_place_bounds(out@, w);
        }
        let p = place_of(&out, &w);
        out.insert(p, w);
    }
    assert(input.take(n as int) =~= input);
    out
}

// ---------------------------------------------------------------------------
// Workspaces.
// ---------------------------------------------------------------------------

/// A workspace as niri reports it, as far as the taskbar shows it.
#[derive(Debug, Clone)]
pub struct NiriWorkspace {
    pub id: u64,
    pub idx: u8,
    pub output: Option<String>,
    pub is_active: bool,
    pub is_focused: bool,
}

/// The workspaces of an index below `n`, by index; those of equal index keep their order.
pub open spec fn workspaces_by_index_upto(s: Seq<NiriWorkspace>, n: nat) -> Seq<NiriWorkspace>
    decreases n,
{
    if n == 0 {
        Seq::empty()
    } else {
        workspaces_by_index_upto(s, (n - 1) as nat) + s.filter(|w: NiriWorkspace| w.idx == n - 1)
    }
}

/// The workspaces stably sorted by index.
pub open spec fn workspaces_by_index(s: Seq<NiriWorkspace>) -> Seq<NiriWorkspace> {
    workspaces_by_index_upto(s, 256)
}

fn copy_workspace(w: &NiriWorkspace) -> (r: NiriWorkspace)
    ensures
        r == *w,
{
    NiriWorkspace {
        id: w.id,
        idx: w.idx,
        output: match &w.output {
            Some(o) => Some(o.clone()),
            None => None,
        },
        is_active: w.is_active,
        is_focused: w.is_focused,
    }
}

/// An optional text as plain values.
pub open spec fn opt_view(o: Option<String>) -> Option<Seq<char>> {
    match o {
        Some(s) => Some(s@),
        None => None,
    }
}

/// The workspaces sorted by index; equal ones keep their order.
pub fn sort_workspaces(workspaces: Vec<NiriWorkspace>) -> (r: Vec<NiriWorkspace>)
    ensures
        r@ == workspaces_by_index(workspaces@),
{
    let mut out: Vec<NiriWorkspace> = Vec::new();
    let mut idx: u16 = 0;
    while idx < 256
        invariant
            idx <= 256,
            out@ == workspaces_by_index_upto(workspaces@, idx as nat),
        decreases 256 - idx,
    {
        let ghost f = |w: NiriWorkspace| w.idx == idx as int;
        let ghost start = out@;
        let mut i: usize = 0;
        while i < workspaces.len()
            invariant
                i <= workspaces@.len(),
                idx < 256,
                f == (|w: NiriWorkspace| w.idx == idx as int),
                out@ == start + workspaces@.take(i as int).filter(f),
            decreases workspaces@.len() - i,
        {
            proof {
                assert(workspaces@.take(i + 1) == workspaces@.take(i as int).push(workspaces@[i as int]));
                workspaces@.take(i as int).lemma_filter_push(workspaces@[i as int], f);
            }
            if workspaces[i].idx as u16 == idx {
                out.push(copy_workspace(&workspaces[i]));
            }
            i = i + 1;
        }
        assert(workspaces@.take(workspaces@.len() as int) == workspaces@);
        idx = idx + 1;
    }
    out
}

// ---------------------------------------------------------------------------
// The taskbar's state.
// ---------------------------------------------------------------------------

/// The first position whose window has the id.
pub open spec fn window_index<T>(s: Seq<NiriWindow<T>>, id: u64) -> Option<int>
    decreases s.len(),
{
    if s.len() == 0 {
        None
    } else {
        match window_index(s.drop_last(), id) {
            Some(i) => Some(i),
            None => if s.last().id == id { Some(s.len() - 1) } else { None },
        }
    }
}

proof fn lemma_window_index<T>(s: Seq<NiriWindow<T>>, id: u64)
    ensures
        window_index(s, id) matches Some(i) ==> 0 <= i < s.len() && s[i].id == id
            && forall|k: int| 0 <= k < i ==> (#[trigger] s[k]).id != id,
        window_index(s, id) is None ==> forall|k: int| 0 <= k < s.len() ==> (#[trigger] s[k]).id != id,
    decreases s.len(),
{
    if s.len() > 0 {
        lemma_window_index(s.drop_last(), id);
        assert forall|k: int| 0 <= k < s.len() - 1 implies s.drop_last()[k] == s[k] by {}
    }
}

fn find_window<T>(v: &Vec<NiriWindow<T>>, id: u64) -> (r: Option<usize>)
    ensures
        r matches Some(i) ==> window_index(v@, id) == Some(i as int) && i < v@.len(),
        r is None ==> window_index(v@, id) is None,
{
    proof { lemma_window_index(v@, id); }
    let mut i: usize = 0;
    while i < v.len()
        invariant
            i <= v@.len(),
            forall|k: int| 0 <= k < i ==> (#[trigger] v@[k]).id != id,
        decreases v@.len() - i,
    {
        if v[i].id == id {
            proof {
                lemma_window_index(v@, id);
                if let Some(j) = window_index(v@, id) {
                    if j > i {
                        assert(v@[i as int].id != id);
                    }
                }
            }
            return Some(i);
        }
        i = i + 1;
    }
    proof { lemma_window_index(v@, id); }
    None
}

/// The first window other than the given one that has the focus.
pub open spec fn other_focused<T>(s: Seq<NiriWindow<T>>, id: u64) -> Option<int>
    decreases s.len(),
{
    if s.len() == 0 {
        None
    } else {
        match other_focused(s.drop_last(), id) {
            Some(i) => Some(i),
            None => if s.last().is_focused && s.last().id != id { Some(s.len() - 1) } else { None },
        }
    }
}

proof fn lemma_other_focused<T>(s: Seq<NiriWindow<T>>, id: u64)
    ensures
        other_focused(s, id) matches Some(i) ==> 0 <= i < s.len(),
    decreases s.len(),
{
    if s.len() > 0 {
        lemma_other_focused(s.drop_last(), id);
    }
}

/// The place where niri's ordering puts a new window among sorted ones: after all that
/// sort before it.
pub open spec fn place_before_equals<T>(s: Seq<NiriWindow<T>>, x: NiriWindow<T>) -> int
    decreases s.len(),
{
    if s.len() == 0 {
        0
    } else if !sorts_before(s[0], x) {
        0
    } else {
        1 + place_before_equals(s.skip(1), x)
    }
}

proof fn lemma_place_before_bounds<T>(s: Seq<NiriWindow<T>>, x: NiriWindow<T>)
    ensures
        0 <= place_before_equals(s, x) <= s.len(),
    decreases s.len(),
{
    if s.len() > 0 && sorts_before(s[0], x) {
        lemma_place_before_bounds(s.skip(1), x);
    }
}

fn lower_place<T>(v: &Vec<NiriWindow<T>>, x: &NiriWindow<T>) -> (p: usize)
    ensures
        p == place_before_equals(v@, *x),
        p <= v@.len(),
{
    proof { lemma_place_before_bounds(v@, *x); }
    let mut i: usize = 0;
    assert(v@.skip(0) =~= v@);
    while i < v.len()
        invariant
            i <= v@.len(),
            place_before_equals(v@, *x) == i + place_before_equals(v@.skip(i as int), *x),
        decreases v@.len() - i,
    {
        proof {
            assert(v@.skip(i as int)[0] == v@[i as int]);
            assert(v@.skip(i as int).skip(1) =~= v@.skip(i + 1));
        }
        if !sorts_before_exec(&v[i], x) {
            return i;
        }
        i = i + 1;
    }
    proof {
        assert(v@.skip(i as int).len() == 0);
    }
    i
}

/// A window with its focus set.
pub open spec fn with_focus<T>(w: NiriWindow<T>, f: bool) -> NiriWindow<T> {
    NiriWindow { is_focused: f, ..w }
}

/// The windows after a window opened or changed: when it has the focus, the first other
/// focused window loses it; then the window replaces the first one with its id, or, when
/// there is none, is inserted where the order puts it (in a sorted list, after all
/// windows that sort before it).
pub open spec fn after_window_change<T>(s: Seq<NiriWindow<T>>, w: NiriWindow<T>, place: int) -> Seq<NiriWindow<T>> {
    let unfocused = if w.is_focused {
        match other_focused(s, w.id) {
            Some(k) => s.update(k, with_focus(s[k], false)),
            None => s,
        }
    } else {
        s
    };
    match window_index(s, w.id) {
        Some(i) => unfocused.update(i, w),
        None => unfocused.insert(place, w),
    }
}

/// A workspace after another one was activated on some output: the activated one becomes
/// active and takes the focus as told; the others lose the focus, and those on the same
/// output (when that output is known) stop being active.
pub open spec fn after_activation(w: NiriWorkspace, id: u64, focused: bool, output: Option<Seq<char>>) -> NiriWorkspace {
    if w.id == id {
        NiriWorkspace { is_active: true, is_focused: focused, ..w }
    } else if output is Some && opt_view(w.output) == output {
        NiriWorkspace { is_active: false, is_focused: false, ..w }
    } else {
        NiriWorkspace { is_focused: false, ..w }
    }
}

/// The output of the first workspace with the id.
pub open spec fn output_of(s: Seq<NiriWorkspace>, id: u64) -> Option<Seq<char>>
    decreases s.len(),
{
    if s.len() == 0 {
        None
    } else if s[0].id == id {
        opt_view(s[0].output)
    } else {
        output_of(s.skip(1), id)
    }
}

fn opt_eq(a: &Option<String>, b: &Option<String>) -> (r: bool)
    ensures
        r == (opt_view(*a) == opt_view(*b)),
{
    match (a, b) {
        (None, None) => true,
        (Some(x), Some(y)) => str_eq(x.as_str(), y.as_str()),
        _ => false,
    }
}

fn find_output(ws: &Vec<NiriWorkspace>, id: u64) -> (r: Option<String>)
    ensures
        opt_view(r) == output_of(ws@, id),
{
    let mut i: usize = 0;
    assert(ws@.skip(0) =~= ws@);
    while i < ws.len()
        invariant
            i <= ws@.len(),
            output_of(ws@, id) == output_of(ws@.skip(i as int), id),
        decreases ws@.len() - i,
    {
        proof {
            assert(ws@.skip(i as int)[0] == ws@[i as int]);
            assert(ws@.skip(i as int).skip(1) =~= ws@.skip(i + 1));
        }
        if ws[i].id == id {
            return match &ws[i].output {
                Some(o) => Some(o.clone()),
                None => None,
            };
        }
        i = i + 1;
    }
    proof {
        assert(ws@.skip(i as int).len() == 0);
    }
    None
}

fn unfocus_other<T>(v: &mut Vec<NiriWindow<T>>, id: u64)
    ensures
        final(v)@ == match other_focused(old(v)@, id) {
            Some(k) => old(v)@.update(k, with_focus(old(v)@[k], false)),
            None => old(v)@,
        },
{
    let ghost s = v@;
    proof { lemma_other_focused(s, id); }
    let mut k: usize = 0;
    while k < v.len()
        invariant
            k <= s.len(),
            v@ == s,
            s == old(v)@,
            other_focused(s.take(k as int), id) is None,
        decreases s.len() - k,
    {
        proof {
            assert(s.take(k + 1).drop_last() =~= s.take(k as int));
            assert(s.take(k + 1).last() == s[k as int]);
        }
        if v[k].is_focused && v[k].id != id {
            proof {
                assert(other_focused(s.take(k + 1), id) == Some(k as int));
                lemma_other_focused_prefix(s, k + 1, id);
                lemma_other_focused(s, id);
            }
            v[k].is_focused = false;
            assert(v@ =~= s.update(k as int, with_focus(s[k as int], false)));
            return;
        }
        k = k + 1;
    }
    proof {
        assert(s.take(k as int) =~= s);
    }
}

/// The taskbar's windows and workspaces, kept in niri's order.
#[derive(Debug)]
pub struct NiriTaskbar<T> {
    pub windows: Vec<NiriWindow<T>>,
    pub workspaces: Vec<NiriWorkspace>,
}

impl<T> NiriTaskbar<T> {
    /// No windows, no workspaces.
    pub fn new() -> (t: Self)
        ensures
            t.windows@.len() == 0,
            t.workspaces@.len() == 0,
    {
        NiriTaskbar { windows: Vec::new(), workspaces: Vec::new() }
    }

    /// niri sent all windows: they are kept sorted.
    pub fn windows_changed(&mut self, windows: Vec<NiriWindow<T>>)
        ensures
            final(self).windows@ == sorted_windows(windows@),
            final(self).workspaces@ == old(self).workspaces@,
    {
        self.windows = sort_windows(windows);
    }

    /// niri sent all workspaces: they are kept sorted by index.
    pub fn workspaces_changed(&mut self, workspaces: Vec<NiriWorkspace>)
        ensures
            final(self).workspaces@ == workspaces_by_index(workspaces@),
            final(self).windows@ == old(self).windows@,
    {
        self.workspaces = sort_workspaces(workspaces);
    }

    /// A workspace was activated.
    pub fn workspace_activated(&mut self, id: u64, focused: bool)
        ensures
            final(self).windows@ == old(self).windows@,
            final(self).workspaces@.len() == old(self).workspaces@.len(),
            forall|k: int| 0 <= k < old(self).workspaces@.len() ==> #[trigger] final(self).workspaces@[k]
                == after_activation(old(self).workspaces@[k], id, focused, output_of(old(self).workspaces@, id)),
    {
        let ghost ws = self.workspaces@;
        let output = find_output(&self.workspaces, id);
        let mut k: usize = 0;
        let ghost out = opt_view(output);
        while k < self.workspaces.len()
            invariant
                k <= ws.len(),
                self.workspaces@.len() == ws.len(),
                out == opt_view(output),
                out == output_of(ws, id),
                forall|j: int| 0 <= j < k ==> #[trigger] self.workspaces@[j] == after_activation(ws[j], id, focused, out),
                forall|j: int| k <= j < ws.len() ==> #[trigger] self.workspaces@[j] == ws[j],
                self.windows@ == old(self).windows@,
            decreases ws.len() - k,
        {
            let mut w = copy_workspace(&self.workspaces[k]);
            if w.id == id {
                w.is_active = true;
                w.is_focused = focused;
            } else {
                w.is_focused = false;
                if output.is_some() && opt_eq(&w.output, &output) {
                    w.is_active = false;
                }
            }
            self.workspaces.set(k, w);
            k = k + 1;
        }
    }

    /// A window opened or changed. When it is new and the windows are sorted, it goes
    /// where the order puts it; in an unsorted list the place is left open, as niri's
    /// binary search leaves it.
    pub fn window_opened_or_changed(&mut self, window: NiriWindow<T>)
        ensures
            final(self).workspaces@ == old(self).workspaces@,
            exists|p: int| 0 <= p <= old(self).windows@.len()
                && (windows_sorted(old(self).windows@) ==> p == place_before_equals(old(self).windows@, window))
                && final(self).windows@ == after_window_change(old(self).windows@, window, p),
    {
        let ghost s = self.windows@;
        let index = find_window(&self.windows, window.id);
        let p = lower_place(&self.windows, &window);
        if window.is_focused {
            unfocus_other(&mut self.windows, window.id);
        }
        proof {
            lemma_other_focused(s, window.id);
        }
        assert(self.windows@.len() == s.len());
        let ghost unfocused = self.windows@;
        match index {
            Some(i) => {
                self.windows.set(i, window);
            },
            None => {
                self.windows.insert(p, window);
            },
        }
        proof {
            assert(self.windows@ == after_window_change(s, window, p as int));
        }
    }

    /// The focus moved to the window with the id, or to none.
    pub fn window_focus_changed(&mut self, id: Option<u64>)
        ensures
            final(self).workspaces@ == old(self).workspaces@,
            final(self).windows@.len() == old(self).windows@.len(),
            forall|k: int| 0 <= k < old(self).windows@.len() ==> #[trigger] final(self).windows@[k]
                == with_focus(old(self).windows@[k], id == Some(old(self).windows@[k].id)),
    {
        let ghost s = self.windows@;
        let mut k: usize = 0;
        while k < self.windows.len()
            invariant
                k <= s.len(),
                self.windows@.len() == s.len(),
                self.workspaces@ == old(self).workspaces@,
                forall|j: int| 0 <= j < k ==> #[trigger] self.windows@[j] == with_focus(s[j], id == Some(s[j].id)),
                forall|j: int| k <= j < s.len() ==> #[trigger] self.windows@[j] == s[j],
            decreases s.len() - k,
        {
            let f = match id {
                Some(x) => x == self.windows[k].id,
                None => false,
            };
            self.windows[k].is_focused = f;
            k = k + 1;
        }
    }

    /// The window with the id closed: the first with that id goes.
    pub fn window_closed(&mut self, id: u64)
        ensures
            final(self).workspaces@ == old(self).workspaces@,
            final(self).windows@ == match window_index(old(self).windows@, id) {
                Some(i) => old(self).windows@.remove(i),
                None => old(self).windows@,
            },
    {
        match find_window(&self.windows, id) {
            Some(i) => {
                self.windows.remove(i);
            },
            None => {},
        }
    }

    /// Windows moved in the layout: each change sets the position of the first window with
    /// its id, in turn, and the windows are sorted again.
    pub fn window_layouts_changed(&mut self, changes: &Vec<(u64, Option<(usize, usize)>)>)
        ensures
            final(self).workspaces@ == old(self).workspaces@,
            final(self).windows@ == sorted_windows(relaid(old(self).windows@, changes@)),
    {
        let mut i: usize = 0;
        let ghost s = self.windows@;
        assert(changes@.take(0) =~= Seq::<(u64, Option<(usize, usize)>)>::empty());
        while i < changes.len()
            invariant
                i <= changes@.len(),
                self.windows@ == relaid(s, changes@.take(i as int)),
                self.workspaces@ == old(self).workspaces@,
            decreases changes@.len() - i,
        {
            let (id, position) = changes[i];
            proof {
                assert(changes@.take(i + 1).drop_last() =~= changes@.take(i as int));
                assert(changes@.take(i + 1).last() == changes@[i as int]);
            }
            match find_window(&self.windows, id) {
                Some(k) => {
                    self.windows[k].position = position;
                },
                None => {},
            }
            i = i + 1;
        }
        assert(changes@.take(changes@.len() as int) =~= changes@);
        let mut windows: Vec<NiriWindow<T>> = Vec::new();
        std::mem::swap(&mut windows, &mut self.windows);
        self.windows = sort_windows(windows);
    }
}

/// The windows after the layout changes, in turn, before sorting.
pub open spec fn relaid<T>(s: Seq<NiriWindow<T>>, changes: Seq<(u64, Option<(usize, usize)>)>) -> Seq<NiriWindow<T>>
    decreases changes.len(),
{
    if changes.len() == 0 {
        s
    } else {
        let r = relaid(s, changes.drop_last());
        let (id, position) = changes.last();
        match window_index(r, id) {
            Some(k) => r.update(k, NiriWindow { position, ..r[k] }),
            None => r,
        }
    }
}

proof fn lemma_other_focused_prefix<T>(s: Seq<NiriWindow<T>>, n: int, id: u64)
    requires
        0 <= n <= s.len(),
        other_focused(s.take(n), id) is Some,
    ensures
        other_focused(s, id) == other_focused(s.take(n), id),
    decreases s.len() - n,
{
    if n < s.len() {
        assert(s.take(n + 1).drop_last() =~= s.take(n));
        lemma_other_focused_prefix(s, n + 1, id);
    } else {
        assert(s.take(n) =~= s);
    }
}

proof fn lemma_place_before<T>(s: Seq<NiriWindow<T>>, x: NiriWindow<T>)
    requires
        windows_sorted(s),
    ensures
        forall|k: int| 0 <= k < place_before_equals(s, x) ==> sorts_before(#[trigger] s[k], x),
        forall|k: int| place_before_equals(s, x) <= k < s.len() ==> !sorts_before(#[trigger] s[k], x),
    decreases s.len(),
{
    lemma_place_before_bounds(s, x);
    if s.len() > 0 {
        if sorts_before(s[0], x) {
            assert(windows_sorted(s.skip(1))) by {
                assert forall|i: int, j: int| 0 <= i < j < s.skip(1).len() implies !sorts_before(#[trigger] s.skip(1)[j], #[trigger] s.skip(1)[i]) by {
                    assert(s.skip(1)[j] == s[j + 1] && s.skip(1)[i] == s[i + 1]);
                }
            }
            lemma_place_before(s.skip(1), x);
            let p = place_before_equals(s, x);
            assert forall|k: int| 0 <= k < p implies sorts_before(#[trigger] s[k], x) by {
                if k > 0 {
                    assert(s[k] == s.skip(1)[k - 1]);
                }
            }
            assert forall|k: int| p <= k < s.len() implies !sorts_before(#[trigger] s[k], x) by {
                assert(s[k] == s.skip(1)[k - 1]);
            }
        } else {
            assert forall|k: int| 0 <= k < s.len() implies !sorts_before(#[trigger] s[k], x) by {
                if k > 0 {
                    assert(!sorts_before(s[k], s[0]));
                }
            }
        }
    }
}

/// A window that niri reports for the first time keeps the list sorted: it goes after the
/// windows that sort before it, and losing the focus does not move a window.
pub proof fn lemma_new_window_keeps_order<T>(s: Seq<NiriWindow<T>>, w: NiriWindow<T>)
    requires
        windows_sorted(s),
        window_index(s, w.id) is None,
    ensures
        windows_sorted(after_window_change(s, w, place_before_equals(s, w))),
{
    lemma_window_index(s, w.id);
    lemma_other_focused(s, w.id);
    lemma_place_before(s, w);
    lemma_place_before_bounds(s, w);
    let u = if w.is_focused {
        match other_focused(s, w.id) {
            Some(k) => s.update(k, with_focus(s[k], false)),
            None => s,
        }
    } else {
        s
    };
    assert(u.len() == s.len());
    assert forall|k: int| 0 <= k < u.len() implies #[trigger] u[k].id == s[k].id && u[k].workspace_id == s[k].workspace_id
        && u[k].position == s[k].position by {}
    let p = place_before_equals(s, w);
    let r = u.insert(p, w);
    assert forall|i: int, j: int| 0 <= i < j < r.len() implies !sorts_before(#[trigger] r[j], #[trigger] r[i]) by {
        if j < p {
            assert(r[i] == u[i] && r[j] == u[j]);
            assert(!sorts_before(s[j], s[i]));
        } else if j == p {
            assert(r[i] == u[i]);
            assert(sorts_before(s[i], w));
        } else if i == p {
            assert(r[j] == u[j - 1]);
            assert(!sorts_before(s[j - 1], w));
            assert(s[j - 1].id != w.id);
        } else if i < p {
            assert(r[i] == u[i] && r[j] == u[j - 1]);
            assert(!sorts_before(s[j - 1], s[i]));
        } else {
            assert(r[i] == u[i - 1] && r[j] == u[j - 1]);
            assert(!sorts_before(s[j - 1], s[i - 1]));
        }
    }
}

// ---------------------------------------------------------------------------
// What the taskbar shows.
// ---------------------------------------------------------------------------

/// An entry of the taskbar, by positions in its lists.
#[derive(Debug, Clone, PartialEq, Eq)]
pub enum TaskbarEntry {
    /// A workspace button; for an inactive workspace with up to four of its windows as a
    /// preview.
    Workspace { index: usize, preview: Vec<usize> },
    /// A window button.
    Window(usize),
    /// A gap.
    Spacer,
}

/// A taskbar entry as plain values.
pub enum EntryView {
    Workspace(int, Seq<int>),
    Window(int),
    Spacer,
}

/// The plain values of an entry.
pub open spec fn entry_view(e: TaskbarEntry) -> EntryView {
    match e {
        TaskbarEntry::Workspace { index, preview } => EntryView::Workspace(index as int, preview@.map_values(|k: usize| k as int)),
        TaskbarEntry::Window(k) => EntryView::Window(k as int),
        TaskbarEntry::Spacer => EntryView::Spacer,
    }
}

/// The positions of the windows on a workspace, in order.
pub open spec fn windows_on<T>(s: Seq<NiriWindow<T>>, id: u64) -> Seq<int>
    decreases s.len(),
{
    if s.len() == 0 {
        Seq::empty()
    } else {
        windows_on(s.drop_last(), id) + if s.last().workspace_id == Some(id) { seq![s.len() - 1] } else { Seq::empty() }
    }
}

/// The entries for the workspace at position `i`: none unless it is on the output; for
/// the active workspace its button, a gap, its windows, and a gap unless it is the last
/// workspace; for another its button with a preview of its first four windows.
pub open spec fn entries_of_workspace<T>(ws: Seq<NiriWorkspace>, wins: Seq<NiriWindow<T>>, output: Option<Seq<char>>, i: int) -> Seq<EntryView> {
    let w = ws[i];
    if output is None || opt_view(w.output) != output {
        Seq::empty()
    } else if w.is_active {
        seq![EntryView::Workspace(i, Seq::empty()), EntryView::Spacer]
            + windows_on(wins, w.id).map_values(|k: int| EntryView::Window(k))
            + if i != ws.len() - 1 { seq![EntryView::Spacer] } else { Seq::empty() }
    } else {
        let on = windows_on(wins, w.id);
        seq![EntryView::Workspace(i, on.take(if on.len() < 4 { on.len() as int } else { 4 }))]
    }
}

/// The entries for the first `n` workspaces.
pub open spec fn entries_upto<T>(ws: Seq<NiriWorkspace>, wins: Seq<NiriWindow<T>>, output: Option<Seq<char>>, n: int) -> Seq<EntryView>
    decreases n,
{
    if n <= 0 {
        Seq::empty()
    } else {
        entries_upto(ws, wins, output, n - 1) + entries_of_workspace(ws, wins, output, n - 1)
    }
}

fn windows_on_exec<T>(wins: &Vec<NiriWindow<T>>, id: u64) -> (r: Vec<usize>)
    ensures
        r@.map_values(|k: usize| k as int) == windows_on(wins@, id),
{
    let mut r: Vec<usize> = Vec::new();
    let mut i: usize = 0;
    while i < wins.len()
        invariant
            i <= wins@.len(),
            r@.map_values(|k: usize| k as int) == windows_on(wins@.take(i as int), id),
        decreases wins@.len() - i,
    {
        proof {
            assert(wins@.take(i + 1).drop_last() =~= wins@.take(i as int));
            assert(wins@.take(i + 1).last() == wins@[i as int]);
        }
        let ghost before = r@;
        if wins[i].workspace_id == Some(id) {
            r.push(i);
            assert(r@.map_values(|k: usize| k as int) =~= before.map_values(|k: usize| k as int) + seq![i as int]);
        } else {
            assert(r@.map_values(|k: usize| k as int) =~= before.map_values(|k: usize| k as int) + Seq::<int>::empty());
        }
        i = i + 1;
    }
    assert(wins@.take(wins@.len() as int) =~= wins@);
    r
}

fn push_entry(r: &mut Vec<TaskbarEntry>, e: TaskbarEntry)
    ensures
        final(r)@.map_values(|e: TaskbarEntry| entry_view(e)) == old(r)@.map_values(|e: TaskbarEntry| entry_view(e)).push(entry_view(e)),
{
    let ghost v = entry_view(e);
    r.push(e);
    assert(r@.map_values(|e: TaskbarEntry| entry_view(e)) =~= old(r)@.map_values(|e: TaskbarEntry| entry_view(e)).push(v));
}

fn workspace_entry(index: usize, preview: Vec<usize>) -> (e: TaskbarEntry)
    ensures
        entry_view(e) == EntryView::Workspace(index as int, preview@.map_values(|k: usize| k as int)),
{
    TaskbarEntry::Workspace { index, preview }
}

impl<T> NiriTaskbar<T> {
    /// The taskbar's entries on an output (none without one).
    pub fn entries(&self, output: Option<&str>) -> (r: Vec<TaskbarEntry>)
        ensures
            r@.map_values(|e: TaskbarEntry| entry_view(e))
                == entries_upto(self.workspaces@, self.windows@, opt_str(output), self.workspaces@.len() as int),
    {
        let mut r: Vec<TaskbarEntry> = Vec::new();
        let ghost out = opt_str(output);
        let n = self.workspaces.len();
        let mut i: usize = 0;
        assert(r@.map_values(|e: TaskbarEntry| entry_view(e)) =~= Seq::<EntryView>::empty());
        while i < n
            invariant
                i <= n,
                n == self.workspaces@.len(),
                out == opt_str(output),
                r@.map_values(|e: TaskbarEntry| entry_view(e)) == entries_upto(self.workspaces@, self.windows@, out, i as int),
            decreases n - i,
        {
            let ghost before = r@.map_values(|e: TaskbarEntry| entry_view(e));
            let ghost add = entries_of_workspace(self.workspaces@, self.windows@, out, i as int);
            let w = &self.workspaces[i];
            let on_output = match (output, &w.output) {
                (Some(o), Some(wo)) => str_eq(o, wo.as_str()),
                _ => false,
            };
            if on_output {
                let on = windows_on_exec(&self.windows, w.id);
                let ghost on_ints = on@.map_values(|x: usize| x as int);
                if w.is_active {
                    let empty: Vec<usize> = Vec::new();
                    assert(empty@.map_values(|k: usize| k as int) =~= Seq::<int>::empty());
                    push_entry(&mut r, workspace_entry(i, empty));
                    push_entry(&mut r, TaskbarEntry::Spacer);
                    let ghost head = r@.map_values(|e: TaskbarEntry| entry_view(e));
                    assert(head =~= before + seq![EntryView::Workspace(i as int, Seq::empty()), EntryView::Spacer]);
                    let mut k: usize = 0;
                    while k < on.len()
                        invariant
                            k <= on@.len(),
                            on_ints == on@.map_values(|x: usize| x as int),
                            r@.map_values(|e: TaskbarEntry| entry_view(e)) == head
                                + on_ints.take(k as int).map_values(|x: int| EntryView::Window(x)),
                        decreases on@.len() - k,
                    {
                        push_entry(&mut r, TaskbarEntry::Window(on[k]));
                        assert(on_ints.take(k + 1).map_values(|x: int| EntryView::Window(x))
                            =~= on_ints.take(k as int).map_values(|x: int| EntryView::Window(x)).push(EntryView::Window(on@[k as int] as int)));
                        k = k + 1;
                    }
                    assert(on_ints.take(on@.len() as int) =~= on_ints);
                    if i != n - 1 {
                        push_entry(&mut r, TaskbarEntry::Spacer);
                    }
                } else {
                    let mut preview: Vec<usize> = Vec::new();
                    let mut k: usize = 0;
                    while k < on.len() && k < 4
                        invariant
                            k <= on@.len(),
                            k <= 4,
                            preview@ == on@.take(k as int),
                        decreases on@.len() - k,
                    {
                        preview.push(on[k]);
                        assert(on@.take(k + 1) =~= on@.take(k as int).push(on@[k as int]));
                        k = k + 1;
                    }
                    assert(preview@.map_values(|x: usize| x as int) =~= on_ints.take(
                        if on_ints.len() < 4 { on_ints.len() as int } else { 4 }));
                    push_entry(&mut r, workspace_entry(i, preview));
                }
            }
            assert(r@.map_values(|e: TaskbarEntry| entry_view(e)) =~= before + add);
            i = i + 1;
        }
        r
    }
}

/// An optional text slice as plain values.
pub open spec fn opt_str(o: Option<&str>) -> Option<Seq<char>> {
    match o {
        Some(s) => Some(s@),
        None => None,
    }
}

} // verus!
