use vstd::prelude::*;

verus! {

/// The three sections of the bar.
#[derive(Debug, Clone, Copy, PartialEq, Eq, Structural)]
pub enum Section {
    Left,
    Center,
    Right,
}

/// The popup of a module: its window and the module it belongs to.
#[derive(Debug, Clone, Copy, PartialEq, Eq, Structural)]
pub struct OpenPopup {
    pub id: u64,
    pub section: Section,
    pub index: usize,
}

/// A context menu window, opened from the window `parent` for a module.
#[derive(Debug, Clone, Copy, PartialEq, Eq, Structural)]
pub struct ContextPopup {
    pub id: u64,
    pub parent: u64,
    pub section: Section,
    pub index: usize,
}

/// Windows to close, in this order: context menus (deepest first), then the module
/// popup; and the module to tell that its popup closed.
#[derive(Debug)]
pub struct Closing {
    pub contexts: Vec<u64>,
    pub popup: Option<u64>,
    pub notify: Option<(Section, usize)>,
}

/// The result of a request to open a module's popup: what closes first, and the window
/// that opens (none when the request closed the module's own popup).
#[derive(Debug)]
pub struct PopupOpening {
    pub closing: Closing,
    pub opened: Option<u64>,
}

/// The result of a request to open a context menu: how many context menus stay open
/// below it (zero when it hangs directly off the module popup), and those that close.
#[derive(Debug)]
pub struct ContextOpening {
    pub retained: usize,
    pub closed: Vec<u64>,
}

/// What a window shows.
#[derive(Debug, PartialEq, Eq, Structural)]
pub enum WindowRole {
    /// A context menu at this depth, for a module.
    Context { depth: usize, section: Section, index: usize },
    /// A module's popup.
    Popup { section: Section, index: usize },
    /// A bar.
    Bar,
}

/// The first index of `s` whose element satisfies `p`.
pub open spec fn first_where(s: Seq<ContextPopup>, p: spec_fn(ContextPopup) -> bool) -> Option<int> {
    if exists|i: int| 0 <= i < s.len() && #[trigger] p(s[i]) {
        Some(choose|i: int| 0 <= i < s.len() && #[trigger] p(s[i]) && forall|j: int| 0 <= j < i ==> !p(#[trigger] s[j]))
    } else {
        None
    }
}

proof fn lemma_first_where(s: Seq<ContextPopup>, p: spec_fn(ContextPopup) -> bool, k: int)
    requires
        0 <= k < s.len(),
        p(s[k]),
        forall|j: int| 0 <= j < k ==> !p(#[trigger] s[j]),
    ensures
        first_where(s, p) == Some(k),
{
    let c = choose|i: int| 0 <= i < s.len() && #[trigger] p(s[i]) && forall|j: int| 0 <= j < i ==> !p(#[trigger] s[j]);
    assert(p(s[k]));
    if c < k {
        assert(!p(s[c]));
    } else if c > k {
        assert(!p(s[k]));
    }
}

proof fn lemma_first_where_none(s: Seq<ContextPopup>, p: spec_fn(ContextPopup) -> bool)
    requires
        forall|j: int| 0 <= j < s.len() ==> !p(#[trigger] s[j]),
    ensures
        first_where(s, p) is None,
{
}

/// The ids of the context menus, deepest first.
pub open spec fn ids_deepest_first(s: Seq<ContextPopup>) -> Seq<u64>
    decreases s.len(),
{
    if s.len() == 0 {
        Seq::empty()
    } else {
        seq![s.last().id].add(ids_deepest_first(s.drop_last()))
    }
}

/// The context menu with window `id`.
pub open spec fn has_id(id: u64) -> spec_fn(ContextPopup) -> bool {
    |c: ContextPopup| c.id == id
}

/// The context menu opened from window `parent`.
pub open spec fn has_parent(parent: u64) -> spec_fn(ContextPopup) -> bool {
    |c: ContextPopup| c.parent == parent
}

/// The context menu with window `id` for a module.
pub open spec fn is_context_of(id: u64, section: Section, index: usize) -> spec_fn(ContextPopup) -> bool {
    |c: ContextPopup| c.id == id && c.section == section && c.index == index
}

/// Whether the first context menu opened from `parent` is `expected_child`.
pub open spec fn closes_descendants(ctx: Seq<ContextPopup>, parent: u64, expected_child: u64) -> bool {
    first_where(ctx, has_parent(parent)) is Some
        && ctx[first_where(ctx, has_parent(parent)).unwrap()].id == expected_child
}

/// The popups of the bar: at most one module popup, and a chain of context menus, each
/// opened from the one before it (the first from a module popup or a bar).
#[derive(Debug)]
pub struct PopupStack {
    pub open_popup: Option<OpenPopup>,
    pub context_popups: Vec<ContextPopup>,
}

/// The close that `close_open_popup` performs on a stack, as a result.
pub open spec fn close_open_popup_spec(s: PopupStack) -> (Option<OpenPopup>, Seq<ContextPopup>, Seq<u64>, Option<u64>, Option<(Section, usize)>) {
    match s.open_popup {
        Some(p) => (None, Seq::empty(), ids_deepest_first(s.context_popups@), Some(p.id), Some((p.section, p.index))),
        None => (None, s.context_popups@, Seq::empty(), None, None),
    }
}

/// The context menus form a chain: the first opens from the module popup, which is
/// open, and each further one from the menu before it.
pub open spec fn chain_linked(open_popup: Option<OpenPopup>, ctx: Seq<ContextPopup>) -> bool {
    &&& ctx.len() > 0 ==> open_popup is Some && ctx[0].parent == open_popup.unwrap().id
    &&& forall|k: int| 1 <= k < ctx.len() ==> #[trigger] ctx[k].parent == ctx[k - 1].id
}

impl PopupStack {
    /// The context menus form a chain hanging off the module popup.
    pub open spec fn wf(&self) -> bool {
        chain_linked(self.open_popup, self.context_popups@)
    }

    /// No popups.
    pub fn new() -> (s: Self)
        ensures
            s.open_popup is None,
            s.context_popups@.len() == 0,
    {
        PopupStack { open_popup: None, context_popups: Vec::new() }
    }

    fn position_where_id(&self, id: u64) -> (r: Option<usize>)
        ensures
            r matches Some(i) ==> first_where(self.context_popups@, has_id(id)) == Some(i as int)
                && i < self.context_popups@.len() && self.context_popups@[i as int].id == id,
            r is None ==> first_where(self.context_popups@, has_id(id)) is None,
    {
        let mut i: usize = 0;
        while i < self.context_popups.len()
            invariant
                i <= self.context_popups@.len(),
                forall|j: int| 0 <= j < i ==> !has_id(id)(#[trigger] self.context_popups@[j]),
            decreases self.context_popups@.len() - i,
        {
            if self.context_popups[i].id == id {
                proof { lemma_first_where(self.context_popups@, has_id(id), i as int); }
                return Some(i);
            }
            i = i + 1;
        }
        proof { lemma_first_where_none(self.context_popups@, has_id(id)); }
        None
    }

    fn position_where_parent(&self, parent: u64) -> (r: Option<usize>)
        ensures
            r matches Some(i) ==> first_where(self.context_popups@, has_parent(parent)) == Some(i as int)
                && i < self.context_popups@.len() && self.context_popups@[i as int].parent == parent,
            r is None ==> first_where(self.context_popups@, has_parent(parent)) is None,
    {
        let mut i: usize = 0;
        while i < self.context_popups.len()
            invariant
                i <= self.context_popups@.len(),
                forall|j: int| 0 <= j < i ==> !has_parent(parent)(#[trigger] self.context_popups@[j]),
            decreases self.context_popups@.len() - i,
        {
            if self.context_popups[i].parent == parent {
                proof { lemma_first_where(self.context_popups@, has_parent(parent), i as int); }
                return Some(i);
            }
            i = i + 1;
        }
        proof { lemma_first_where_none(self.context_popups@, has_parent(parent)); }
        None
    }

    fn position_of_context(&self, id: u64, section: Section, index: usize) -> (r: Option<usize>)
        ensures
            r matches Some(i) ==> first_where(self.context_popups@, is_context_of(id, section, index)) == Some(i as int)
                && i < self.context_popups@.len() && self.context_popups@[i as int].id == id,
            r is None ==> first_where(self.context_popups@, is_context_of(id, section, index)) is None,
    {
        let mut i: usize = 0;
        while i < self.context_popups.len()
            invariant
                i <= self.context_popups@.len(),
                forall|j: int| 0 <= j < i ==> !is_context_of(id, section, index)(#[trigger] self.context_popups@[j]),
            decreases self.context_popups@.len() - i,
        {
            let c = self.context_popups[i];
            if c.id == id && c.section == section && c.index == index {
                proof { lemma_first_where(self.context_popups@, is_context_of(id, section, index), i as int); }
                return Some(i);
            }
            i = i + 1;
        }
        proof { lemma_first_where_none(self.context_popups@, is_context_of(id, section, index)); }
        None
    }

    /// Closes the context menus from `depth` on: they leave the chain, and their windows
    /// are handed back deepest first.
    pub fn close_context_from(&mut self, depth: usize) -> (closed: Vec<u64>)
        requires
            depth <= old(self).context_popups@.len(),
        ensures
            final(self).context_popups@ == old(self).context_popups@.take(depth as int),
            closed@ == ids_deepest_first(old(self).context_popups@.skip(depth as int)),
            final(self).open_popup == old(self).open_popup,
            old(self).wf() ==> final(self).wf(),
    {
        let ghost orig = self.context_popups@;
        let mut closed: Vec<u64> = Vec::new();
        while self.context_popups.len() > depth
            invariant
                depth <= self.context_popups@.len() <= orig.len(),
                self.context_popups@ == orig.take(self.context_popups@.len() as int),
                self.open_popup == old(self).open_popup,
                orig == old(self).context_popups@,
                ids_deepest_first(orig.skip(depth as int)) == closed@ + ids_deepest_first(
                    self.context_popups@.skip(depth as int),
                ),
            decreases self.context_popups@.len(),
        {
            let ghost before = self.context_popups@;
            let c = self.context_popups.pop().unwrap();
            proof {
                let t = before.skip(depth as int);
                assert(t.len() > 0);
                assert(t.last() == c);
                assert(t.drop_last() == self.context_popups@.skip(depth as int));
                assert(ids_deepest_first(t) == seq![c.id].add(ids_deepest_first(t.drop_last())));
                assert(self.context_popups@ == orig.take(self.context_popups@.len() as int));
            }
            closed.push(c.id);
            proof {
                assert(closed@ == (closed@.drop_last()).push(c.id));
            }
            assert(ids_deepest_first(orig.skip(depth as int)) == closed@ + ids_deepest_first(
                self.context_popups@.skip(depth as int),
            ));
        }
        assert(self.context_popups@.skip(depth as int).len() == 0);
        assert(ids_deepest_first(self.context_popups@.skip(depth as int)) == Seq::<u64>::empty());
        assert(closed@ + Seq::<u64>::empty() == closed@);
        closed
    }

    /// Closes the module popup, if one is open, with every context menu: the context
    /// menus close first, deepest first, then the popup, and its module is told.
    pub fn close_open_popup(&mut self) -> (c: Closing)
        ensures
            old(self).wf() ==> final(self).wf(),
            (final(self).open_popup, final(self).context_popups@, c.contexts@, c.popup, c.notify)
                == close_open_popup_spec(*old(self)),
    {
        match self.open_popup {
            Some(p) => {
                self.open_popup = None;
                let contexts = self.close_context_from(0);
                assert(old(self).context_popups@.skip(0) == old(self).context_popups@);
                Closing { contexts, popup: Some(p.id), notify: Some((p.section, p.index)) }
            },
            None => Closing { contexts: Vec::new(), popup: None, notify: None },
        }
    }

    /// A module asks for its popup: any open popup closes; unless that was this module's
    /// own, its new popup window `new_id` opens.
    pub fn open_module_popup(&mut self, section: Section, index: usize, new_id: u64) -> (r: PopupOpening)
        ensures
            old(self).wf() ==> final(self).wf(),
            (final(self).open_popup == if old(self).open_popup matches Some(p) && p.section == section && p.index == index {
                None
            } else {
                Some(OpenPopup { id: new_id, section, index })
            }),
            final(self).context_popups@.len() == if old(self).open_popup is Some { 0 } else { old(self).context_popups@.len() },
            ({
                let (_, _, contexts, popup, notify) = close_open_popup_spec(*old(self));
                r.closing.contexts@ == contexts && r.closing.popup == popup && r.closing.notify == notify
            }),
            r.opened == if old(self).open_popup matches Some(p) && p.section == section && p.index == index {
                None::<u64>
            } else {
                Some(new_id)
            },
    {
        let already_open = match self.open_popup {
            Some(p) => p.section == section && p.index == index,
            None => false,
        };
        let closing = self.close_open_popup();
        if already_open {
            return PopupOpening { closing, opened: None };
        }
        self.open_popup = Some(OpenPopup { id: new_id, section, index });
        PopupOpening { closing, opened: Some(new_id) }
    }

    /// A module asks, from window `source`, for a context menu in window `new_id`. The
    /// request counts only from the module's popup or from a context menu of the same
    /// module; the menus deeper than the source close, and the new one goes on top.
    pub fn open_context_menu(&mut self, source: u64, section: Section, index: usize, new_id: u64) -> (r: Option<ContextOpening>)
        ensures
            old(self).wf() ==> final(self).wf(),
            ({
                let from_popup = old(self).open_popup == Some(OpenPopup { id: source, section, index });
                let at = first_where(old(self).context_popups@, is_context_of(source, section, index));
                let retained: Option<int> = if from_popup {
                    Some(0int)
                } else if at is Some {
                    Some(at.unwrap() + 1)
                } else {
                    None
                };
                &&& retained is None ==> r is None && final(self).context_popups@ == old(self).context_popups@
                &&& retained matches Some(k) ==> {
                    &&& r matches Some(o) && o.retained == k
                        && o.closed@ == ids_deepest_first(old(self).context_popups@.skip(k))
                    &&& final(self).context_popups@ == old(self).context_popups@.take(k).push(
                        ContextPopup { id: new_id, parent: source, section, index },
                    )
                }
            }),
            final(self).open_popup == old(self).open_popup,
    {
        let from_popup = match self.open_popup {
            Some(p) => p.id == source && p.section == section && p.index == index,
            None => false,
        };
        let n = self.context_popups.len();
        let retained = if from_popup {
            0
        } else {
            match self.position_of_context(source, section, index) {
                Some(d) => {
                    assert(d < n);
                    d + 1
                },
                None => return None,
            }
        };
        assert(retained > 0 ==> old(self).context_popups@[retained - 1].id == source);
        let closed = self.close_context_from(retained);
        self.context_popups.push(ContextPopup { id: new_id, parent: source, section, index });
        proof {
            let c = self.context_popups@;
            let o = old(self).context_popups@;
            if old(self).wf() {
                assert forall|k: int| 1 <= k < c.len() implies #[trigger] c[k].parent == c[k - 1].id by {
                    if k < retained {
                        assert(c[k] == o[k] && c[k - 1] == o[k - 1]);
                    }
                }
            }
        }
        Some(ContextOpening { retained, closed })
    }

    /// A window closed. A context menu takes the menus opened from it along; the module
    /// popup takes every context menu along, and its module is told.
    #[verifier::rlimit(40)]
    pub fn window_closed(&mut self, id: u64) -> (c: Closing)
        ensures
            old(self).wf() ==> final(self).wf(),
            c.popup is None,
            first_where(old(self).context_popups@, has_id(id)) matches Some(d) ==> {
                &&& c.contexts@ == ids_deepest_first(old(self).context_popups@.skip(d + 1))
                &&& final(self).context_popups@ == old(self).context_popups@.take(d)
                &&& c.notify is None
                &&& final(self).open_popup == old(self).open_popup
            },
            first_where(old(self).context_popups@, has_id(id)) is None ==> {
                if old(self).open_popup is Some && old(self).open_popup.unwrap().id == id {
                    &&& c.contexts@ == ids_deepest_first(old(self).context_popups@)
                    &&& final(self).context_popups@.len() == 0
                    &&& final(self).open_popup is None
                    &&& c.notify == Some((old(self).open_popup.unwrap().section, old(self).open_popup.unwrap().index))
                } else {
                    &&& c.contexts@.len() == 0
                    &&& c.notify is None
                    &&& final(self).context_popups@ == old(self).context_popups@
                    &&& final(self).open_popup == old(self).open_popup
                }
            },
    {
        let n = self.context_popups.len();
        if let Some(depth) = self.position_where_id(id) {
            assert(depth < n);
            let contexts = self.close_context_from(depth + 1);
            self.context_popups.pop();
            assert(self.context_popups@ == old(self).context_popups@.take(depth as int));
            return Closing { contexts, popup: None, notify: None };
        }
        match self.open_popup {
            Some(p) => {
                if p.id == id {
                    self.open_popup = None;
                    let contexts = self.close_context_from(0);
                    assert(old(self).context_popups@.skip(0) == old(self).context_popups@);
                    Closing { contexts, popup: None, notify: Some((p.section, p.index)) }
                } else {
                    Closing { contexts: Vec::new(), popup: None, notify: None }
                }
            },
            None => Closing { contexts: Vec::new(), popup: None, notify: None },
        }
    }

    /// A window lost the focus. The deepest context menu closes; one with a menu opened
    /// from it stays. The module popup stays while a context menu of it is open (it loses
    /// the focus to that menu) and closes otherwise.
    pub fn popup_unfocused(&mut self, id: u64) -> (c: Closing)
        ensures
            old(self).wf() ==> final(self).wf(),
            first_where(old(self).context_popups@, has_id(id)) matches Some(d) ==> {
                &&& c.popup is None
                &&& c.notify is None
                &&& final(self).open_popup == old(self).open_popup
                &&& if d + 1 < old(self).context_popups@.len() {
                    c.contexts@.len() == 0 && final(self).context_popups@ == old(self).context_popups@
                } else {
                    c.contexts@ == seq![id] && final(self).context_popups@ == old(self).context_popups@.take(d)
                }
            },
            first_where(old(self).context_popups@, has_id(id)) is None ==> {
                if old(self).open_popup is Some && old(self).open_popup.unwrap().id == id
                    && old(self).context_popups@.len() == 0 {
                    &&& c.contexts@.len() == 0
                    &&& c.popup == Some(id)
                    &&& c.notify == Some((old(self).open_popup.unwrap().section, old(self).open_popup.unwrap().index))
                    &&& final(self).open_popup is None
                    &&& final(self).context_popups@.len() == 0
                } else {
                    &&& c.contexts@.len() == 0
                    &&& c.popup is None
                    &&& c.notify is None
                    &&& final(self).open_popup == old(self).open_popup
                    &&& final(self).context_popups@ == old(self).context_popups@
                }
            },
    {
        let n = self.context_popups.len();
        if let Some(depth) = self.position_where_id(id) {
            if depth + 1 < n {
                return Closing { contexts: Vec::new(), popup: None, notify: None };
            }
            let contexts = self.close_context_from(depth);
            proof {
                let t = old(self).context_popups@.skip(depth as int);
                assert(t.len() == 1);
                assert(t.drop_last().len() == 0);
                assert(ids_deepest_first(t.drop_last()) == Seq::<u64>::empty());
                assert(seq![t.last().id].add(Seq::<u64>::empty()) == seq![id]);
            }
            return Closing { contexts, popup: None, notify: None };
        }
        let is_open = match self.open_popup {
            Some(p) => p.id == id,
            None => false,
        };
        if is_open && self.context_popups.len() == 0 {
            let c = self.close_open_popup();
            assert(ids_deepest_first(old(self).context_popups@) == Seq::<u64>::empty());
            return c;
        }
        Closing { contexts: Vec::new(), popup: None, notify: None }
    }

    /// A click in window `parent` closes the context menus opened from it, provided the
    /// first of them is `expected_child`.
    pub fn close_context_descendants(&mut self, parent: u64, expected_child: u64) -> (closed: Vec<u64>)
        ensures
            old(self).wf() ==> final(self).wf(),
            final(self).open_popup == old(self).open_popup,
            closes_descendants(old(self).context_popups@, parent, expected_child) ==> {
                let d = first_where(old(self).context_popups@, has_parent(parent)).unwrap();
                &&& closed@ == ids_deepest_first(old(self).context_popups@.skip(d))
                &&& final(self).context_popups@ == old(self).context_popups@.take(d)
            },
            !closes_descendants(old(self).context_popups@, parent, expected_child) ==> {
                &&& closed@.len() == 0
                &&& final(self).context_popups@ == old(self).context_popups@
            },
    {
        match self.position_where_parent(parent) {
            Some(depth) => {
                if self.context_popups[depth].id != expected_child {
                    return Vec::new();
                }
                self.close_context_from(depth)
            },
            None => Vec::new(),
        }
    }

    /// Whether a window is a popup (the module popup or a context menu) rather than a bar.
    pub fn is_popup_window(&self, id: u64) -> (r: bool)
        ensures
            r == ((self.open_popup matches Some(p) && p.id == id)
                || first_where(self.context_popups@, has_id(id)) is Some),
    {
        let open = match self.open_popup {
            Some(p) => p.id == id,
            None => false,
        };
        open || self.position_where_id(id).is_some()
    }

    /// What window `id` shows.
    pub fn role_of(&self, id: u64) -> (r: WindowRole)
        ensures
            first_where(self.context_popups@, has_id(id)) matches Some(d) ==> r == (WindowRole::Context {
                depth: d as usize,
                section: self.context_popups@[d].section,
                index: self.context_popups@[d].index,
            }),
            first_where(self.context_popups@, has_id(id)) is None ==> r == if self.open_popup matches Some(p) && p.id == id {
                WindowRole::Popup { section: self.open_popup.unwrap().section, index: self.open_popup.unwrap().index }
            } else {
                WindowRole::Bar
            },
    {
        if let Some(d) = self.position_where_id(id) {
            let c = self.context_popups[d];
            return WindowRole::Context { depth: d, section: c.section, index: c.index };
        }
        match self.open_popup {
            Some(p) => if p.id == id {
                WindowRole::Popup { section: p.section, index: p.index }
            } else {
                WindowRole::Bar
            },
            None => WindowRole::Bar,
        }
    }

    /// Each window that has a context menu open from it, with that menu: the module popup
    /// with the first menu, then each menu with the next.
    pub fn context_children(&self) -> (r: Vec<(u64, u64)>)
        ensures
            r@ == context_children_spec(self.open_popup, self.context_popups@),
    {
        let mut r: Vec<(u64, u64)> = Vec::new();
        if let Some(p) = self.open_popup {
            if self.context_popups.len() > 0 {
                r.push((p.id, self.context_popups[0].id));
            }
        }
        let ghost start = r@;
        let mut i: usize = 1;
        while i < self.context_popups.len()
            invariant
                1 <= i,
                i <= self.context_popups@.len() || self.context_popups@.len() == 0,
                r@ == start + Seq::new(
                    (if self.context_popups@.len() == 0 { 0 } else { i - 1 }) as nat,
                    |k: int| (self.context_popups@[k].id, self.context_popups@[k + 1].id),
                ),
            decreases self.context_popups@.len() - i,
        {
            r.push((self.context_popups[i - 1].id, self.context_popups[i].id));
            i = i + 1;
        }
        assert(r@ =~= context_children_spec(self.open_popup, self.context_popups@));
        r
    }
}

/// The windows with a context menu open from them, each with that menu.
pub open spec fn context_children_spec(open_popup: Option<OpenPopup>, ctx: Seq<ContextPopup>) -> Seq<(u64, u64)> {
    let head: Seq<(u64, u64)> = if open_popup is Some && ctx.len() > 0 {
        seq![(open_popup.unwrap().id, ctx[0].id)]
    } else {
        Seq::empty()
    };
    head + Seq::new(
        (if ctx.len() == 0 { 0 } else { ctx.len() - 1 }) as nat,
        |k: int| (ctx[k].id, ctx[k + 1].id),
    )
}

/// Asking twice for the same module's popup opens it and closes it again: afterwards no
/// popup is open.
pub proof fn lemma_module_popup_toggles(s: PopupStack, section: Section, index: usize, id: u64)
    requires
        s.open_popup == Some(OpenPopup { id, section, index }),
    ensures
        close_open_popup_spec(s).0 is None,
        close_open_popup_spec(s).1.len() == 0,
        close_open_popup_spec(s).3 == Some(id),
        close_open_popup_spec(s).4 == Some((section, index)),
{
}

/// Closing the context menus from a depth closes exactly the menus at that depth and
/// deeper: as many windows as there were menus beyond the depth.
pub proof fn lemma_closed_count(s: Seq<ContextPopup>, depth: int)
    requires
        0 <= depth <= s.len(),
    ensures
        ids_deepest_first(s.skip(depth)).len() == s.len() - depth,
    decreases s.len() - depth,
{
    lemma_ids_len(s.skip(depth));
}

proof fn lemma_ids_len(s: Seq<ContextPopup>)
    ensures
        ids_deepest_first(s).len() == s.len(),
    decreases s.len(),
{
    if s.len() > 0 {
        lemma_ids_len(s.drop_last());
    }
}

} // verus!
