use vstd::prelude::*;

use crate::text::{chars_of, chars_eq, str_eq};
use crate::tray::{TrayError, normalize_service, normalize_service_spec};

verus! {

/// The character sequences of a list of strings.
pub open spec fn views_of(v: Seq<String>) -> Seq<Seq<char>> {
    v.map_values(|s: String| s@)
}

/// Whether a registered item belongs to a bus name: it is the name itself or lies under it
/// (`name/...`).
pub open spec fn owned_by(item: Seq<char>, owner: Seq<char>) -> bool {
    item == owner || (item.len() > owner.len() && item.take(owner.len() as int) == owner
        && item[owner.len() as int] == '/')
}

proof fn lemma_filter_no_duplicates(s: Seq<Seq<char>>, p: spec_fn(Seq<char>) -> bool)
    requires
        s.no_duplicates(),
    ensures
        s.filter(p).no_duplicates(),
    decreases s.len(),
{
    reveal(Seq::filter);
    if s.len() > 0 {
        let rest = s.drop_last();
        assert(rest.no_duplicates()) by {
            assert forall|i: int, j: int| 0 <= i < rest.len() && 0 <= j < rest.len() && i != j
                implies rest[i] != rest[j] by {
                assert(rest[i] == s[i] && rest[j] == s[j]);
            }
        }
        lemma_filter_no_duplicates(rest, p);
        if p(s.last()) {
            let f = rest.filter(p);
            assert forall|k: int| 0 <= k < f.len() implies f[k] != s.last() by {
                rest.lemma_filter_contains_rev(p, f[k]);
                if f[k] == s.last() {
                    let m = choose|m: int| 0 <= m < rest.len() && rest[m] == f[k];
                    assert(s[m] == s[s.len() - 1]);
                }
            }
            assert(s.filter(p) == f.push(s.last()));
            assert forall|i: int, j: int| 0 <= i < f.push(s.last()).len() && 0 <= j < f.push(s.last()).len() && i != j
                implies f.push(s.last())[i] != f.push(s.last())[j] by {}
        }
    }
}

/// The registrations that a StatusNotifierWatcher keeps: item services and host services,
/// each registered at most once.
#[derive(Debug)]
pub struct WatcherState {
    items: Vec<String>,
    hosts: Vec<String>,
}

impl WatcherState {
    /// The registered item services.
    pub closed spec fn item_set(&self) -> Seq<Seq<char>> {
        views_of(self.items@)
    }

    /// The registered host services.
    pub closed spec fn host_set(&self) -> Seq<Seq<char>> {
        views_of(self.hosts@)
    }

    /// No service is registered twice.
    pub open spec fn wf(&self) -> bool {
        self.item_set().no_duplicates() && self.host_set().no_duplicates()
    }

    /// A watcher with no registrations.
    pub fn new() -> (w: WatcherState)
        ensures
            w.wf(),
            w.item_set().len() == 0,
            w.host_set().len() == 0,
    {
        let w = WatcherState { items: Vec::new(), hosts: Vec::new() };
        assert(w.item_set() =~= Seq::empty());
        assert(w.host_set() =~= Seq::empty());
        w
    }

    /// Whether an item service is registered.
    pub fn contains_item(&self, service: &str) -> (r: bool)
        ensures
            r == self.item_set().contains(service@),
    {
        let mut i: usize = 0;
        while i < self.items.len()
            invariant
                i <= self.items@.len(),
                forall|j: int| 0 <= j < i ==> #[trigger] views_of(self.items@)[j] != service@,
            decreases self.items@.len() - i,
        {
            if str_eq(self.items[i].as_str(), service) {
                assert(self.item_set()[i as int] == service@);
                return true;
            }
            i = i + 1;
        }
        false
    }

    /// Registers an item service; gives whether it was new.
    pub fn insert_item(&mut self, service: String) -> (inserted: bool)
        requires
            old(self).wf(),
        ensures
            final(self).wf(),
            inserted == !old(self).item_set().contains(service@),
            forall|x: Seq<char>| #[trigger] final(self).item_set().contains(x)
                <==> (old(self).item_set().contains(x) || x == service@),
            final(self).host_set() == old(self).host_set(),
    {
        if self.contains_item(service.as_str()) {
            return false;
        }
        let ghost before = self.item_set();
        self.items.push(service);
        assert(self.item_set() =~= before.push(service@));
        assert forall|x: Seq<char>| #[trigger] self.item_set().contains(x)
            <==> (before.contains(x) || x == service@) by {
            if self.item_set().contains(x) {
                let k = choose|k: int| 0 <= k < self.item_set().len() && self.item_set()[k] == x;
                if k < before.len() {
                    assert(before[k] == x);
                }
            }
            if before.contains(x) {
                let k = choose|k: int| 0 <= k < before.len() && before[k] == x;
                assert(self.item_set()[k] == x);
            }
            if x == service@ {
                assert(self.item_set()[before.len() as int] == x);
            }
        }
        true
    }

    /// Handles `RegisterStatusNotifierItem`: the service name is completed from the caller
    /// (see `normalize_service`) and registered; gives whether it was new.
    pub fn register_status_notifier_item(&mut self, service: String, sender: Option<&str>) -> (r: Result<bool, TrayError>)
        requires
            old(self).wf(),
        ensures
            final(self).wf(),
            match normalize_service_spec(service@, match sender { Some(s) => Some(s@), None => None }) {
                Ok(name) => r == Ok::<bool, TrayError>(!old(self).item_set().contains(name))
                    && forall|x: Seq<char>| #[trigger] final(self).item_set().contains(x)
                        <==> (old(self).item_set().contains(x) || x == name),
                Err(e) => r == Err::<bool, TrayError>(e) && final(self).item_set() == old(self).item_set(),
            },
            final(self).host_set() == old(self).host_set(),
    {
        match normalize_service(service, sender) {
            Ok(name) => Ok(self.insert_item(name)),
            Err(e) => Err(e),
        }
    }

    /// Handles `RegisterStatusNotifierHost`; gives whether the host was new.
    pub fn register_status_notifier_host(&mut self, service: String) -> (inserted: bool)
        requires
            old(self).wf(),
        ensures
            final(self).wf(),
            inserted == !old(self).host_set().contains(service@),
            forall|x: Seq<char>| #[trigger] final(self).host_set().contains(x)
                <==> (old(self).host_set().contains(x) || x == service@),
            final(self).item_set() == old(self).item_set(),
    {
        let mut i: usize = 0;
        while i < self.hosts.len()
            invariant
                i <= self.hosts@.len(),
                forall|j: int| 0 <= j < i ==> #[trigger] views_of(self.hosts@)[j] != service@,
                *self == *old(self),
                old(self).wf(),
            decreases self.hosts@.len() - i,
        {
            if str_eq(self.hosts[i].as_str(), service.as_str()) {
                assert(self.host_set()[i as int] == service@);
                return false;
            }
            i = i + 1;
        }
        let ghost before = self.host_set();
        self.hosts.push(service);
        assert(self.host_set() =~= before.push(service@));
        assert forall|x: Seq<char>| #[trigger] self.host_set().contains(x)
            <==> (before.contains(x) || x == service@) by {
            if self.host_set().contains(x) {
                let k = choose|k: int| 0 <= k < self.host_set().len() && self.host_set()[k] == x;
                if k < before.len() {
                    assert(before[k] == x);
                }
            }
            if before.contains(x) {
                let k = choose|k: int| 0 <= k < before.len() && before[k] == x;
                assert(self.host_set()[k] == x);
            }
            if x == service@ {
                assert(self.host_set()[before.len() as int] == x);
            }
        }
        true
    }

    /// Whether some host is registered.
    pub fn is_status_notifier_host_registered(&self) -> (r: bool)
        ensures
            r == (self.host_set().len() > 0),
    {
        self.hosts.len() > 0
    }

    /// The registered item services.
    pub fn registered_status_notifier_items(&self) -> (v: Vec<String>)
        ensures
            views_of(v@) == self.item_set(),
    {
        let mut v: Vec<String> = Vec::new();
        let mut i: usize = 0;
        while i < self.items.len()
            invariant
                i <= self.items@.len(),
                v@.len() == i,
                forall|j: int| 0 <= j < i ==> #[trigger] v@[j]@ == self.items@[j]@,
            decreases self.items@.len() - i,
        {
            v.push(self.items[i].clone());
            i = i + 1;
        }
        assert(views_of(v@) =~= self.item_set());
        v
    }

    /// Drops the registrations for which `pred` holds and gives them back, in order.
    fn extract_items(&mut self, owner: &str) -> (removed: Vec<String>)
        requires
            old(self).wf(),
        ensures
            final(self).wf(),
            views_of(removed@) == old(self).item_set().filter(|x: Seq<char>| owned_by(x, owner@)),
            final(self).item_set() == old(self).item_set().filter(|x: Seq<char>| !owned_by(x, owner@)),
            final(self).host_set() == old(self).host_set(),
    {
        let ghost s = self.item_set();
        let ghost f = |x: Seq<char>| owned_by(x, owner@);
        let ghost g = |x: Seq<char>| !owned_by(x, owner@);
        let mut old_items: Vec<String> = Vec::new();
        std::mem::swap(&mut old_items, &mut self.items);
        let mut kept: Vec<String> = Vec::new();
        let mut removed: Vec<String> = Vec::new();
        let o = chars_of(owner);
        let mut i: usize = 0;
        while i < old_items.len()
            invariant
                i <= old_items@.len(),
                s == views_of(old_items@),
                s.no_duplicates(),
                o@ == owner@,
                f == (|x: Seq<char>| owned_by(x, owner@)),
                g == (|x: Seq<char>| !owned_by(x, owner@)),
                views_of(kept@) == s.take(i as int).filter(g),
                views_of(removed@) == s.take(i as int).filter(f),
                self.hosts == old(self).hosts,
            decreases old_items@.len() - i,
        {
            proof {
                assert(s.take(i + 1) == s.take(i as int).push(s[i as int]));
                s.take(i as int).lemma_filter_push(s[i as int], f);
                s.take(i as int).lemma_filter_push(s[i as int], g);
            }
            let item = chars_of(old_items[i].as_str());
            let owned = if chars_eq(item.as_slice(), o.as_slice()) {
                true
            } else if item.len() > o.len() && item[o.len()] == '/' {
                let prefix = &item.as_slice()[0..o.len()];
                assert(prefix@ == item@.take(o@.len() as int));
                chars_eq(prefix, o.as_slice())
            } else {
                false
            };
            assert(owned == owned_by(s[i as int], owner@));
            if owned {
                removed.push(old_items[i].clone());
                assert(views_of(removed@) =~= s.take(i as int).filter(f).push(s[i as int]));
                assert(views_of(kept@) =~= s.take(i as int + 1).filter(g));
            } else {
                kept.push(old_items[i].clone());
                assert(views_of(kept@) =~= s.take(i as int).filter(g).push(s[i as int]));
                assert(views_of(removed@) =~= s.take(i as int + 1).filter(f));
            }
            i = i + 1;
        }
        assert(s.take(old_items@.len() as int) == s);
        self.items = kept;
        proof {
            lemma_filter_no_duplicates(s, g);
        }
        removed
    }

    /// Forgets every item of a bus name that left the bus (the name itself and the items
    /// under `name/`), and gives back the forgotten services.
    pub fn remove_owner(&mut self, owner: &str) -> (removed: Vec<String>)
        requires
            old(self).wf(),
        ensures
            final(self).wf(),
            views_of(removed@) == old(self).item_set().filter(|x: Seq<char>| owned_by(x, owner@)),
            final(self).item_set() == old(self).item_set().filter(|x: Seq<char>| !owned_by(x, owner@)),
            final(self).host_set() == old(self).host_set(),
    {
        self.extract_items(owner)
    }

    /// Forgets one item service (it unregistered); gives whether it was registered.
    pub fn remove_item(&mut self, service: &str) -> (r: bool)
        requires
            old(self).wf(),
        ensures
            final(self).wf(),
            r == old(self).item_set().contains(service@),
            final(self).item_set() == old(self).item_set().filter(|x: Seq<char>| x != service@),
            final(self).host_set() == old(self).host_set(),
    {
        let ghost s = self.item_set();
        let ghost g = |x: Seq<char>| x != service@;
        let was = self.contains_item(service);
        let mut old_items: Vec<String> = Vec::new();
        std::mem::swap(&mut old_items, &mut self.items);
        let mut kept: Vec<String> = Vec::new();
        let mut i: usize = 0;
        while i < old_items.len()
            invariant
                i <= old_items@.len(),
                s == views_of(old_items@),
                g == (|x: Seq<char>| x != service@),
                views_of(kept@) == s.take(i as int).filter(g),
                self.hosts == old(self).hosts,
            decreases old_items@.len() - i,
        {
            proof {
                assert(s.take(i + 1) == s.take(i as int).push(s[i as int]));
                s.take(i as int).lemma_filter_push(s[i as int], g);
            }
            if !str_eq(old_items[i].as_str(), service) {
                kept.push(old_items[i].clone());
                assert(views_of(kept@) =~= s.take(i as int).filter(g).push(s[i as int]));
            }
            i = i + 1;
        }
        assert(s.take(old_items@.len() as int) == s);
        self.items = kept;
        proof {
            lemma_filter_no_duplicates(s, g);
        }
        was
    }
}


/// What the tray host hears about items.
#[derive(Debug)]
pub enum HostEvent {
    /// An item is registered: listed by the watcher at startup, or announced by it.
    ItemRegistered(String),
    /// The watcher announced that an item unregistered.
    ItemUnregistered(String),
    /// A bus name changed its owner.
    NameOwnerChanged { name: String, old_owner: String, new_owner: String },
    /// The watch of an item read a fresh snapshot of it.
    ItemRead(String),
}

/// What the tray host does in answer.
#[derive(Debug, PartialEq, Eq)]
pub enum HostAction {
    /// Watch the item, replacing any earlier watch of it.
    Watch(String),
    /// Stop watching the item and drop it from the tray.
    Remove(String),
    /// Hand the snapshot that was read on to the tray.
    Forward(String),
}

/// The services named by a list of actions, with the kind of each.
pub open spec fn action_view(a: HostAction) -> (int, Seq<char>) {
    match a {
        HostAction::Watch(s) => (0, s@),
        HostAction::Remove(s) => (1, s@),
        HostAction::Forward(s) => (2, s@),
    }
}

/// The actions viewed as kinds and services.
pub open spec fn actions_view(v: Seq<HostAction>) -> Seq<(int, Seq<char>)> {
    v.map_values(|a: HostAction| action_view(a))
}

impl WatcherState {
    fn removals(services: Vec<String>) -> (r: Vec<HostAction>)
        ensures
            actions_view(r@) == views_of(services@).map_values(|s: Seq<char>| (1int, s)),
    {
        let mut r: Vec<HostAction> = Vec::new();
        let mut i: usize = 0;
        while i < services.len()
            invariant
                i <= services@.len(),
                actions_view(r@) == views_of(services@.take(i as int)).map_values(|s: Seq<char>| (1int, s)),
            decreases services@.len() - i,
        {
            let ghost prev = r@;
            let c = services[i].clone();
            assert(c@ == services@[i as int]@);
            r.push(HostAction::Remove(c));
            assert(actions_view(r@) =~= actions_view(prev).push((1int, services@[i as int]@)));
            assert(services@.take(i + 1) == services@.take(i as int).push(services@[i as int]));
            assert(views_of(services@.take(i + 1)) =~= views_of(services@.take(i as int)).push(services@[i as int]@));
            assert(actions_view(r@) =~= views_of(services@.take(i + 1)).map_values(|s: Seq<char>| (1int, s)));
            i = i + 1;
        }
        assert(services@.take(services@.len() as int) == services@);
        r
    }

    /// The tray host's answer to an event. A registered item is recorded and watched; an
    /// unregistered one forgotten and removed. When a bus name loses its owner, each item
    /// it owned is forgotten and removed, in the order they were registered. A snapshot is
    /// forwarded only while its item is still registered.
    pub fn host_event(&mut self, event: HostEvent) -> (actions: Vec<HostAction>)
        requires
            old(self).wf(),
        ensures
            final(self).wf(),
            final(self).host_set() == old(self).host_set(),
            match event {
                HostEvent::ItemRegistered(s) => {
                    &&& actions_view(actions@) == seq![(0int, s@)]
                    &&& forall|x: Seq<char>| #[trigger] final(self).item_set().contains(x)
                        <==> (old(self).item_set().contains(x) || x == s@)
                },
                HostEvent::ItemUnregistered(s) => {
                    &&& actions_view(actions@) == seq![(1int, s@)]
                    &&& final(self).item_set() == old(self).item_set().filter(|x: Seq<char>| x != s@)
                },
                HostEvent::NameOwnerChanged { name, old_owner, new_owner } => {
                    if old_owner@.len() > 0 && new_owner@.len() == 0 {
                        &&& actions_view(actions@) == old(self).item_set().filter(
                            |x: Seq<char>| owned_by(x, name@),
                        ).map_values(|x: Seq<char>| (1int, x))
                        &&& final(self).item_set() == old(self).item_set().filter(
                            |x: Seq<char>| !owned_by(x, name@),
                        )
                    } else {
                        &&& actions@.len() == 0
                        &&& final(self).item_set() == old(self).item_set()
                    }
                },
                HostEvent::ItemRead(s) => {
                    &&& final(self).item_set() == old(self).item_set()
                    &&& actions_view(actions@) == if old(self).item_set().contains(s@) {
                        seq![(2int, s@)]
                    } else {
                        Seq::empty()
                    }
                },
            },
    {
        match event {
            HostEvent::ItemRegistered(s) => {
                let _ = self.insert_item(s.clone());
                let mut v: Vec<HostAction> = Vec::new();
                v.push(HostAction::Watch(s));
                assert(actions_view(v@) =~= seq![(0int, s@)]);
                v
            },
            HostEvent::ItemUnregistered(s) => {
                let _ = self.remove_item(s.as_str());
                let mut v: Vec<HostAction> = Vec::new();
                v.push(HostAction::Remove(s));
                assert(actions_view(v@) =~= seq![(1int, s@)]);
                v
            },
            HostEvent::NameOwnerChanged { name, old_owner, new_owner } => {
                if !old_owner.as_str().is_empty() && new_owner.as_str().is_empty() {
                    let removed = self.remove_owner(name.as_str());
                    Self::removals(removed)
                } else {
                    Vec::new()
                }
            },
            HostEvent::ItemRead(s) => {
                let mut v: Vec<HostAction> = Vec::new();
                if self.contains_item(s.as_str()) {
                    v.push(HostAction::Forward(s));
                    assert(actions_view(v@) =~= seq![(2int, s@)]);
                } else {
                    assert(actions_view(v@) =~= Seq::empty());
                }
                v
            },
        }
    }
}


/// Once a bus name has lost its owner, none of the items it owned stays registered, and
/// every other item does.
pub proof fn lemma_owner_loss_forgets_exactly_its_items(items: Seq<Seq<char>>, owner: Seq<char>, x: Seq<char>)
    ensures
        items.filter(|y: Seq<char>| !owned_by(y, owner)).contains(x)
            <==> (items.contains(x) && !owned_by(x, owner)),
{
    let p = |y: Seq<char>| !owned_by(y, owner);
    if items.filter(p).contains(x) {
        items.lemma_filter_contains_rev(p, x);
    }
    if items.contains(x) && !owned_by(x, owner) {
        let i = choose|i: int| 0 <= i < items.len() && items[i] == x;
        items.lemma_filter_contains(p, i);
    }
}

/// After an item unregistered, a snapshot of it that is still in flight is not forwarded.
pub proof fn lemma_unregistered_item_is_not_forwarded(items: Seq<Seq<char>>, service: Seq<char>)
    ensures
        !items.filter(|x: Seq<char>| x != service).contains(service),
{
    let p = |x: Seq<char>| x != service;
    if items.filter(p).contains(service) {
        items.lemma_filter_contains_rev(p, service);
    }
}

} // verus!
