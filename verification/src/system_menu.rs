use vstd::prelude::*;

use crate::config::SystemMenuWidgets;

verus! {

/// Every widget of the system menu, in declaration order.
pub open spec fn all_widgets_spec() -> Seq<SystemMenuWidgets> {
    seq![
        SystemMenuWidgets::Wifi,
        SystemMenuWidgets::Bluetooth,
        SystemMenuWidgets::Speaker,
        SystemMenuWidgets::Microphone,
        SystemMenuWidgets::Vpn,
        SystemMenuWidgets::Nightlight,
    ]
}

/// Every widget of the system menu, in declaration order.
pub fn all_widgets() -> (v: Vec<SystemMenuWidgets>)
    ensures
        v@ == all_widgets_spec(),
{
    let v = vec![
        SystemMenuWidgets::Wifi,
        SystemMenuWidgets::Bluetooth,
        SystemMenuWidgets::Speaker,
        SystemMenuWidgets::Microphone,
        SystemMenuWidgets::Vpn,
        SystemMenuWidgets::Nightlight,
    ];
    assert(v@ =~= all_widgets_spec());
    v
}

/// The widgets with each one kept at its first place only.
pub open spec fn first_occurrences(s: Seq<SystemMenuWidgets>) -> Seq<SystemMenuWidgets>
    decreases s.len(),
{
    if s.len() == 0 {
        Seq::empty()
    } else {
        let r = first_occurrences(s.drop_last());
        if r.contains(s.last()) { r } else { r.push(s.last()) }
    }
}

/// The widgets as the menu shows them while being edited, each with whether it can be
/// added: every widget once, those shown first in the order shown (a stable sort of all
/// widgets by their first place among those shown), then the others in declaration
/// order, which can be added.
pub open spec fn editing_layout(shown: Seq<SystemMenuWidgets>) -> Seq<(SystemMenuWidgets, bool)> {
    first_occurrences(shown).map_values(|w: SystemMenuWidgets| (w, false))
        + all_widgets_spec().filter(|w: SystemMenuWidgets| !shown.contains(w)).map_values(|w: SystemMenuWidgets| (w, true))
}

fn holds(v: &Vec<SystemMenuWidgets>, w: SystemMenuWidgets) -> (r: bool)
    ensures
        r == v@.contains(w),
{
    let mut i: usize = 0;
    while i < v.len()
        invariant
            i <= v@.len(),
            forall|k: int| 0 <= k < i ==> v@[k] != w,
        decreases v@.len() - i,
    {
        if v[i] == w {
            return true;
        }
        i = i + 1;
    }
    false
}

proof fn lemma_first_occurrences_contains(s: Seq<SystemMenuWidgets>, w: SystemMenuWidgets)
    ensures
        first_occurrences(s).contains(w) == s.contains(w),
    decreases s.len(),
{
    if s.len() > 0 {
        lemma_first_occurrences_contains(s.drop_last(), w);
        if s.contains(w) && !s.drop_last().contains(w) {
            assert(s.last() == w) by {
                let k = choose|k: int| 0 <= k < s.len() && s[k] == w;
                if k < s.len() - 1 {
                    assert(s.drop_last()[k] == w);
                }
            }
        }
        if s.drop_last().contains(w) {
            let k = choose|k: int| 0 <= k < s.drop_last().len() && s.drop_last()[k] == w;
            assert(s[k] == w);
        }
        let r = first_occurrences(s.drop_last());
        if !r.contains(s.last()) {
            assert(r.push(s.last())[r.len() as int] == s.last());
            if r.contains(w) {
                let k = choose|k: int| 0 <= k < r.len() && r[k] == w;
                assert(r.push(s.last())[k] == w);
            }
        }
    }
}

/// The widgets as the menu shows them while being edited, each with whether it can be
/// added.
pub fn editing_widgets(shown: &Vec<SystemMenuWidgets>) -> (r: Vec<(SystemMenuWidgets, bool)>)
    ensures
        r@ == editing_layout(shown@),
{
    let mut firsts: Vec<SystemMenuWidgets> = Vec::new();
    let mut i: usize = 0;
    while i < shown.len()
        invariant
            i <= shown@.len(),
            firsts@ == first_occurrences(shown@.take(i as int)),
        decreases shown@.len() - i,
    {
        proof {
            assert(shown@.take(i + 1).drop_last() =~= shown@.take(i as int));
            assert(shown@.take(i + 1).last() == shown@[i as int]);
        }
        if !holds(&firsts, shown[i]) {
            firsts.push(shown[i]);
        }
        i = i + 1;
    }
    assert(shown@.take(shown@.len() as int) =~= shown@);
    let mut out: Vec<(SystemMenuWidgets, bool)> = Vec::new();
    let mut k: usize = 0;
    while k < firsts.len()
        invariant
            k <= firsts@.len(),
            out@ == firsts@.take(k as int).map_values(|w: SystemMenuWidgets| (w, false)),
        decreases firsts@.len() - k,
    {
        out.push((firsts[k], false));
        assert(firsts@.take(k + 1) =~= firsts@.take(k as int).push(firsts@[k as int]));
        assert(out@ =~= firsts@.take(k + 1).map_values(|w: SystemMenuWidgets| (w, false)));
        k = k + 1;
    }
    assert(firsts@.take(firsts@.len() as int) =~= firsts@);
    let all = all_widgets();
    let ghost f = |w: SystemMenuWidgets| !shown@.contains(w);
    let ghost head = out@;
    let mut j: usize = 0;
    while j < all.len()
        invariant
            j <= all@.len(),
            all@ == all_widgets_spec(),
            f == (|w: SystemMenuWidgets| !shown@.contains(w)),
            out@ == head + all@.take(j as int).filter(f).map_values(|w: SystemMenuWidgets| (w, true)),
        decreases all@.len() - j,
    {
        proof {
            assert(all@.take(j + 1) =~= all@.take(j as int).push(all@[j as int]));
            all@.take(j as int).lemma_filter_push(all@[j as int], f);
        }
        let w = all[j];
        if !holds(shown, w) {
            out.push((w, true));
            assert(out@ =~= head + all@.take(j + 1).filter(f).map_values(|w: SystemMenuWidgets| (w, true)));
        } else {
            assert(all@.take(j + 1).filter(f) == all@.take(j as int).filter(f));
        }
        j = j + 1;
    }
    assert(all@.take(all@.len() as int) =~= all@);
    out
}

/// The system menu's widget list while it is edited.
#[derive(Debug)]
pub struct SystemMenuEditor {
    pub widgets: Vec<SystemMenuWidgets>,
    pub editing: bool,
}

impl SystemMenuEditor {
    /// The menu shows the given widgets; it is not being edited.
    pub fn new(widgets: Vec<SystemMenuWidgets>) -> (e: Self)
        ensures
            e.widgets@ == widgets@,
            !e.editing,
    {
        SystemMenuEditor { widgets, editing: false }
    }

    /// Editing starts or stops.
    pub fn set_editing(&mut self, editing: bool)
        ensures
            final(self).editing == editing,
            final(self).widgets@ == old(self).widgets@,
    {
        self.editing = editing;
    }

    /// A widget is added at the end.
    pub fn add_widget(&mut self, widget: SystemMenuWidgets)
        ensures
            final(self).widgets@ == old(self).widgets@.push(widget),
            final(self).editing == old(self).editing,
    {
        self.widgets.push(widget);
    }

    /// A widget is removed wherever it occurs; the others keep their order.
    pub fn remove_widget(&mut self, widget: SystemMenuWidgets)
        ensures
            final(self).widgets@ == old(self).widgets@.filter(|w: SystemMenuWidgets| w != widget),
            final(self).editing == old(self).editing,
    {
        let ghost f = |w: SystemMenuWidgets| w != widget;
        let ghost before = self.widgets@;
        let mut kept: Vec<SystemMenuWidgets> = Vec::new();
        let mut i: usize = 0;
        while i < self.widgets.len()
            invariant
                i <= self.widgets@.len(),
                self.widgets@ == before,
                f == (|w: SystemMenuWidgets| w != widget),
                kept@ == before.take(i as int).filter(f),
            decreases self.widgets@.len() - i,
        {
            proof {
                assert(before.take(i + 1) =~= before.take(i as int).push(before[i as int]));
                before.take(i as int).lemma_filter_push(before[i as int], f);
            }
            if self.widgets[i] != widget {
                kept.push(self.widgets[i]);
            }
            i = i + 1;
        }
        assert(before.take(before.len() as int) =~= before);
        self.widgets = kept;
    }

    /// The configuration's list arrived: it replaces the menu's when they differ.
    pub fn sync_widgets(&mut self, widgets: &Vec<SystemMenuWidgets>)
        ensures
            final(self).widgets@ == widgets@,
            final(self).editing == old(self).editing,
    {
        let mut same = self.widgets.len() == widgets.len();
        let mut i: usize = 0;
        while same && i < widgets.len()
            invariant
                i <= widgets@.len(),
                same ==> self.widgets@.len() == widgets@.len(),
                same ==> forall|k: int| 0 <= k < i ==> self.widgets@[k] == widgets@[k],
            decreases widgets@.len() - i,
        {
            if self.widgets[i] != widgets[i] {
                same = false;
            }
            i = i + 1;
        }
        if same {
            assert(self.widgets@ =~= widgets@);
        } else {
            self.widgets = widgets.clone();
        }
    }
}

/// Adding a widget that is not shown and removing it again gives back the list shown.
pub proof fn lemma_add_then_remove(shown: Seq<SystemMenuWidgets>, w: SystemMenuWidgets)
    requires
        !shown.contains(w),
    ensures
        shown.push(w).filter(|x: SystemMenuWidgets| x != w) == shown,
{
    let f = |x: SystemMenuWidgets| x != w;
    shown.lemma_filter_push(w, f);
    assert forall|k: int| 0 <= k < shown.len() implies f(shown[k]) by {
        if shown[k] == w {
            assert(shown.contains(w));
        }
    }
    lemma_filter_all(shown, f);
}

proof fn lemma_filter_all(s: Seq<SystemMenuWidgets>, f: spec_fn(SystemMenuWidgets) -> bool)
    requires
        forall|k: int| 0 <= k < s.len() ==> f(s[k]),
    ensures
        s.filter(f) == s,
    decreases s.len(),
{
    reveal(Seq::filter);
    if s.len() > 0 {
        lemma_filter_all(s.drop_last(), f);
        assert(s.drop_last().push(s.last()) =~= s);
    } else {
        assert(s.filter(f) =~= s);
    }
}

/// While the menu is edited, every widget appears exactly once, and exactly the widgets
/// not shown can be added.
pub proof fn lemma_editing_lists_each_widget(shown: Seq<SystemMenuWidgets>, w: SystemMenuWidgets)
    ensures
        editing_layout(shown).contains((w, !shown.contains(w))),
{
    let firsts = first_occurrences(shown);
    let rest = all_widgets_spec().filter(|x: SystemMenuWidgets| !shown.contains(x));
    let left = firsts.map_values(|x: SystemMenuWidgets| (x, false));
    let right = rest.map_values(|x: SystemMenuWidgets| (x, true));
    lemma_first_occurrences_contains(shown, w);
    if shown.contains(w) {
        let k = choose|k: int| 0 <= k < firsts.len() && firsts[k] == w;
        assert(left[k] == (w, false));
        assert((left + right)[k] == (w, false));
    } else {
        let all = all_widgets_spec();
        let i: int = if w == SystemMenuWidgets::Wifi { 0 } else if w == SystemMenuWidgets::Bluetooth { 1 }
            else if w == SystemMenuWidgets::Speaker { 2 } else if w == SystemMenuWidgets::Microphone { 3 }
            else if w == SystemMenuWidgets::Vpn { 4 } else { 5 };
        assert(all[i] == w);
        all.filter_lemma(|x: SystemMenuWidgets| !shown.contains(x));
        assert(rest.contains(w));
        let k = choose|k: int| 0 <= k < rest.len() && rest[k] == w;
        assert(right[k] == (w, true));
        assert((left + right)[left.len() + k] == (w, true));
    }
}

/// A unit of the uptime shown in the system menu.
#[derive(Debug, Clone, Copy, PartialEq, Eq, Structural)]
pub enum UptimeUnit {
    Year,
    Month,
    Day,
    Hour,
    Minute,
}

/// The units an uptime is shown in, from its parts once balanced up to years: the largest
/// is the largest nonzero part (minutes when none is), and three units are shown from it
/// (years to days, months to hours, otherwise down to minutes).
pub open spec fn uptime_units_spec(years: int, months: int, days: int, hours: int) -> (UptimeUnit, UptimeUnit) {
    let largest = if years > 0 {
        UptimeUnit::Year
    } else if months > 0 {
        UptimeUnit::Month
    } else if days > 0 {
        UptimeUnit::Day
    } else if hours > 0 {
        UptimeUnit::Hour
    } else {
        UptimeUnit::Minute
    };
    let smallest = match largest {
        UptimeUnit::Year => UptimeUnit::Day,
        UptimeUnit::Month => UptimeUnit::Hour,
        _ => UptimeUnit::Minute,
    };
    (largest, smallest)
}

/// The largest and smallest unit to round the uptime to, from the years, months, days and
/// hours of the uptime balanced up to years.
pub fn uptime_units(years: i16, months: i32, days: i32, hours: i32) -> (r: (UptimeUnit, UptimeUnit))
    ensures
        r == uptime_units_spec(years as int, months as int, days as int, hours as int),
{
    let largest = if years > 0 {
        UptimeUnit::Year
    } else if months > 0 {
        UptimeUnit::Month
    } else if days > 0 {
        UptimeUnit::Day
    } else if hours > 0 {
        UptimeUnit::Hour
    } else {
        UptimeUnit::Minute
    };
    let smallest = match largest {
        UptimeUnit::Year => UptimeUnit::Day,
        UptimeUnit::Month => UptimeUnit::Hour,
        _ => UptimeUnit::Minute,
    };
    (largest, smallest)
}

} // verus!
