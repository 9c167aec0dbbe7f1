use vstd::prelude::*;

use crate::dbusmenu::{
    ChildrenDisplay, Layout, LayoutView, NodeEditView, PropValue, apply_removed_spec,
    apply_updated_spec, edit_first, find_view, removed_view, updated_view,
};
use crate::text::str_eq;
use crate::tray::Activation;

verus! {

/// What the tray needs to know of a registered item to answer presses.
#[derive(Debug, Clone)]
pub struct TrayEntry {
    pub activation: Activation,
    pub bus_name: String,
    pub menu: Option<String>,
}

impl TrayEntry {
    /// A copy of the entry.
    pub fn duplicate(&self) -> (r: TrayEntry)
        ensures
            r == *self,
    {
        TrayEntry {
            activation: self.activation,
            bus_name: self.bus_name.clone(),
            menu: match &self.menu {
                Some(p) => Some(p.clone()),
                None => None,
            },
        }
    }
}

/// A DBusMenu that is open, or being opened, for one item.
#[derive(Debug)]
pub struct OpenDbusMenu {
    pub service: String,
    pub bus_name: String,
    pub path: String,
    pub revision: u32,
    pub layout: Option<Layout>,
    pub open_path: Vec<i32>,
}

/// A request for the tray watcher task.
#[derive(Debug, Clone)]
pub enum TrayCommand {
    Activate { service: String, x: i32, y: i32 },
    ContextMenu { service: String, x: i32, y: i32 },
    ActivateWithDbusMenu { service: String, bus_name: String, path: String },
    OpenDbusSubmenu { service: String, bus_name: String, path: String, item_id: i32 },
    DbusMenuEvent { service: String, bus_name: String, path: String, item_id: i32 },
}

impl TrayCommand {
    /// The item service that the request is for.
    pub fn service(&self) -> (r: &String)
        ensures
            r == match self {
                TrayCommand::Activate { service, .. } => service,
                TrayCommand::ContextMenu { service, .. } => service,
                TrayCommand::ActivateWithDbusMenu { service, .. } => service,
                TrayCommand::OpenDbusSubmenu { service, .. } => service,
                TrayCommand::DbusMenuEvent { service, .. } => service,
            },
    {
        match self {
            TrayCommand::Activate { service, .. } => service,
            TrayCommand::ContextMenu { service, .. } => service,
            TrayCommand::ActivateWithDbusMenu { service, .. } => service,
            TrayCommand::OpenDbusSubmenu { service, .. } => service,
            TrayCommand::DbusMenuEvent { service, .. } => service,
        }
    }

    /// Whether a failure of the request closes the menu popup: it does for the requests
    /// that open a menu or a submenu.
    pub fn closes_menu_on_failure(&self) -> (r: bool)
        ensures
            r == (self is ActivateWithDbusMenu || self is OpenDbusSubmenu),
    {
        match self {
            TrayCommand::ActivateWithDbusMenu { .. } | TrayCommand::OpenDbusSubmenu { .. } => true,
            _ => false,
        }
    }

    /// The menu to watch for changes once the request succeeded: the one that opening an
    /// item's menu shows, as its bus name and object path.
    pub fn watched_menu(&self) -> (r: Option<(String, String)>)
        ensures
            self matches TrayCommand::ActivateWithDbusMenu { bus_name, path, .. } ==> (r matches Some((b, p))
                && b@ == bus_name@ && p@ == path@),
            !(self is ActivateWithDbusMenu) ==> r is None,
    {
        match self {
            TrayCommand::ActivateWithDbusMenu { bus_name, path, .. } => Some((bus_name.clone(), path.clone())),
            _ => None,
        }
    }
}

/// What the bar does with the tray's popups.
#[derive(Debug, Clone, PartialEq, Eq, Structural)]
pub enum PopupAction {
    /// Open the menu popup at the bounds of the pressed element.
    Open,
    /// Show the item's own context menu at the bounds of the pressed element.
    NativeContextMenu,
    /// Close every tray popup.
    CloseAll,
}

/// The answer to a press on an item.
#[derive(Debug)]
pub struct PressOutcome {
    /// The request to queue, if any.
    pub command: Option<TrayCommand>,
    /// Whether the menu popup opens once the request is queued.
    pub opens_popup: bool,
}

impl PressOutcome {
    /// Whether the menu popup opens once the press's request was handed to the queue:
    /// only when it was queued, and only for a press that opens the popup. A request that
    /// could not be queued opens nothing (the pending menu stays as it is).
    pub fn opens_after_queue(&self, queued: bool) -> (opens: bool)
        ensures
            opens == (queued && self.opens_popup),
    {
        queued && self.opens_popup
    }
}

/// The answer to a secondary press on an item.
#[derive(Debug)]
pub enum ContextOutcome {
    /// The item is not known.
    Ignored,
    /// The item has no DBusMenu: its own context menu is shown.
    Native,
    /// The item's DBusMenu is requested with this command.
    Send(TrayCommand),
}

/// Position of the first registered item with the given service name, or -1.
pub open spec fn item_index(items: Seq<(String, TrayEntry)>, service: Seq<char>) -> int
    decreases items.len(),
{
    if items.len() == 0 {
        -1
    } else {
        let p = item_index(items.drop_last(), service);
        if p >= 0 {
            p
        } else if items.last().0@ == service {
            items.len() - 1
        } else {
            -1
        }
    }
}

proof fn lemma_item_index(items: Seq<(String, TrayEntry)>, service: Seq<char>)
    ensures
        -1 <= item_index(items, service) < items.len(),
        item_index(items, service) >= 0 ==> items[item_index(items, service)].0@ == service,
        item_index(items, service) == -1 ==> forall|i: int| 0 <= i < items.len() ==> items[i].0@ != service,
        forall|i: int| 0 <= i < item_index(items, service) ==> items[i].0@ != service,
    decreases items.len(),
{
    if items.len() > 0 {
        lemma_item_index(items.drop_last(), service);
        assert forall|i: int| 0 <= i < items.len() - 1 implies items.drop_last()[i] == items[i] by {}
    }
}

proof fn lemma_item_index_found(items: Seq<(String, TrayEntry)>, service: Seq<char>, i: int)
    requires
        0 <= i < items.len(),
        items[i].0@ == service,
        forall|j: int| 0 <= j < i ==> items[j].0@ != service,
    ensures
        item_index(items, service) == i,
    decreases items.len(),
{
    if i < items.len() - 1 {
        lemma_item_index_found(items.drop_last(), service, i);
    } else {
        lemma_item_index(items.drop_last(), service);
        if item_index(items.drop_last(), service) >= 0 {
            let p = item_index(items.drop_last(), service);
            assert(items.drop_last()[p] == items[p]);
        }
    }
}

/// The entry registered under a service name.
pub open spec fn lookup_item(items: Seq<(String, TrayEntry)>, service: Seq<char>) -> Option<TrayEntry> {
    let p = item_index(items, service);
    if p >= 0 { Some(items[p].1) } else { None }
}

/// Whether the open menu, if any, belongs to the given service.
pub open spec fn open_for(open: Option<OpenDbusMenu>, service: Seq<char>) -> bool {
    open matches Some(m) && m.service@ == service
}

/// The layout that the open menu shows at a depth: the whole menu at depth zero, the
/// submenu opened at the previous depth otherwise.
pub open spec fn menu_at_depth_spec(open: Option<OpenDbusMenu>, depth: int) -> Option<LayoutView> {
    match open {
        Some(m) => match m.layout {
            Some(root) => if depth == 0 {
                Some(root@)
            } else if 0 <= depth - 1 < m.open_path@.len() {
                find_view(root@, m.open_path@[depth - 1])
            } else {
                None
            },
            None => None,
        },
        None => None,
    }
}

/// Registered tray items and the DBusMenu that is open.
#[derive(Debug)]
pub struct Tray {
    pub items: Vec<(String, TrayEntry)>,
    pub open_dbusmenu: Option<OpenDbusMenu>,
}

impl Tray {
    /// A tray with no items and no open menu.
    pub fn new() -> (t: Tray)
        ensures
            t.items@.len() == 0,
            t.open_dbusmenu is None,
    {
        Tray { items: Vec::new(), open_dbusmenu: None }
    }

    fn position(&self, service: &str) -> (r: Option<usize>)
        ensures
            match r {
                Some(i) => item_index(self.items@, service@) == i,
                None => item_index(self.items@, service@) == -1,
            },
    {
        let mut i: usize = 0;
        while i < self.items.len()
            invariant
                i <= self.items@.len(),
                forall|j: int| 0 <= j < i ==> #[trigger] self.items@[j].0@ != service@,
            decreases self.items@.len() - i,
        {
            if str_eq(self.items[i].0.as_str(), service) {
                proof {
                    lemma_item_index_found(self.items@, service@, i as int);
                }
                return Some(i);
            }
            i = i + 1;
        }
        proof {
            lemma_item_index(self.items@, service@);
            if item_index(self.items@, service@) >= 0 {
                assert(self.items@[item_index(self.items@, service@)].0@ == service@);
            }
        }
        None
    }

    /// An item was registered or its snapshot changed: its entry is stored under its
    /// service name, replacing an earlier one.
    pub fn registered(&mut self, service: String, entry: TrayEntry)
        ensures
            final(self).open_dbusmenu == old(self).open_dbusmenu,
            ({
                let p = item_index(old(self).items@, service@);
                if p >= 0 {
                    final(self).items@ == old(self).items@.update(p, (old(self).items@[p].0, entry))
                } else {
                    final(self).items@ == old(self).items@.push((service, entry))
                }
            }),
    {
        match self.position(service.as_str()) {
            Some(i) => {
                proof {
                    lemma_item_index(self.items@, service@);
                }
                let key = self.items[i].0.clone();
                self.items.set(i, (key, entry));
            },
            None => {
                self.items.push((service, entry));
            },
        }
    }

    /// An item went away: its entries are dropped, and its open menu is closed.
    pub fn removed(&mut self, service: &str) -> (r: Option<PopupAction>)
        ensures
            final(self).items@ == old(self).items@.filter(|p: (String, TrayEntry)| p.0@ != service@),
            if open_for(old(self).open_dbusmenu, service@) {
                final(self).open_dbusmenu is None && r == Some(PopupAction::CloseAll)
            } else {
                final(self).open_dbusmenu == old(self).open_dbusmenu && r is None
            },
    {
        let ghost s = self.items@;
        let ghost g = |p: (String, TrayEntry)| p.0@ != service@;
        let mut old_items: Vec<(String, TrayEntry)> = Vec::new();
        std::mem::swap(&mut old_items, &mut self.items);
        let mut kept: Vec<(String, TrayEntry)> = Vec::new();
        let mut rest = old_items;
        let mut i: usize = 0;
        let n = rest.len();
        assert(s.skip(0) == s);
        while rest.len() > 0
            invariant
                i + rest@.len() == s.len(),
                n == s.len(),
                rest@ == s.skip(i as int),
                g == (|p: (String, TrayEntry)| p.0@ != service@),
                kept@ == s.take(i as int).filter(g),
                self.open_dbusmenu == old(self).open_dbusmenu,
            decreases rest@.len(),
        {
            let item = rest.remove(0);
            assert(item == s[i as int]);
            proof {
                assert(s.take(i + 1) == s.take(i as int).push(s[i as int]));
                s.take(i as int).lemma_filter_push(s[i as int], g);
                assert(rest@ =~= s.skip(i + 1));
            }
            if !str_eq(item.0.as_str(), service) {
                kept.push(item);
            }
            i = i + 1;
        }
        assert(s.take(s.len() as int) == s);
        self.items = kept;
        let closes = match &self.open_dbusmenu {
            Some(menu) => str_eq(menu.service.as_str(), service),
            None => false,
        };
        if closes {
            self.open_dbusmenu = None;
            Some(PopupAction::CloseAll)
        } else {
            None
        }
    }
}


/// The menu that opening an item's DBusMenu starts with: nothing loaded yet.
pub open spec fn fresh_menu(m: OpenDbusMenu, service: Seq<char>, e: TrayEntry) -> bool {
    &&& m.service@ == service
    &&& m.bus_name@ == e.bus_name@
    &&& e.menu matches Some(path) && m.path@ == path@
    &&& m.revision == 0
    &&& m.layout is None
    &&& m.open_path@.len() == 0
}

/// The command that opens an item's DBusMenu.
pub open spec fn opens_menu_command(c: TrayCommand, service: Seq<char>, e: TrayEntry) -> bool {
    &&& c matches TrayCommand::ActivateWithDbusMenu { service: s, bus_name: b, path: p }
    &&& s@ == service
    &&& b@ == e.bus_name@
    &&& e.menu matches Some(path) && p@ == path@
}

impl Tray {
    fn start_menu(&mut self, service: &str, entry: &TrayEntry) -> (c: TrayCommand)
        requires
            entry.menu is Some,
        ensures
            final(self).items == old(self).items,
            final(self).open_dbusmenu matches Some(m) && fresh_menu(m, service@, *entry),
            opens_menu_command(c, service@, *entry),
    {
        let path = match &entry.menu {
            Some(p) => p.clone(),
            None => String::new(),
        };
        self.open_dbusmenu = Some(OpenDbusMenu {
            service: service.to_owned(),
            bus_name: entry.bus_name.clone(),
            path: path.clone(),
            revision: 0,
            layout: None,
            open_path: Vec::new(),
        });
        TrayCommand::ActivateWithDbusMenu {
            service: service.to_owned(),
            bus_name: entry.bus_name.clone(),
            path,
        }
    }

    /// A primary press on an item: activates it, opens its context menu, or opens its
    /// DBusMenu, as its activation says; the menu popup opens once the request is queued.
    pub fn pressed(&mut self, service: &str) -> (r: PressOutcome)
        ensures
            final(self).items == old(self).items,
            match lookup_item(old(self).items@, service@) {
                None => r.command is None && !r.opens_popup
                    && final(self).open_dbusmenu == old(self).open_dbusmenu,
                Some(e) => if e.activation == Activation::Activate {
                    &&& r.command matches Some(TrayCommand::Activate { service: s, x, y })
                    &&& s@ == service@ && x == 0 && y == 0
                    &&& !r.opens_popup
                    &&& final(self).open_dbusmenu == old(self).open_dbusmenu
                } else if e.activation == Activation::ContextMenu {
                    &&& r.command matches Some(TrayCommand::ContextMenu { service: s, x, y })
                    &&& s@ == service@ && x == 0 && y == 0
                    &&& !r.opens_popup
                    &&& final(self).open_dbusmenu == old(self).open_dbusmenu
                } else if e.activation == Activation::DbusMenu && e.menu is Some {
                    &&& r.command matches Some(c) && opens_menu_command(c, service@, e)
                    &&& r.opens_popup
                    &&& final(self).open_dbusmenu matches Some(m) && fresh_menu(m, service@, e)
                } else {
                    r.command is None && !r.opens_popup
                        && final(self).open_dbusmenu == old(self).open_dbusmenu
                },
            },
    {
        let idx = match self.position(service) {
            Some(i) => i,
            None => return PressOutcome { command: None, opens_popup: false },
        };
        proof {
            lemma_item_index(self.items@, service@);
        }
        let entry = self.items[idx].1.duplicate();
        assert(entry == self.items@[idx as int].1);
        match entry.activation {
            Activation::Activate => PressOutcome {
                command: Some(TrayCommand::Activate { service: service.to_owned(), x: 0, y: 0 }),
                opens_popup: false,
            },
            Activation::ContextMenu => PressOutcome {
                command: Some(TrayCommand::ContextMenu { service: service.to_owned(), x: 0, y: 0 }),
                opens_popup: false,
            },
            Activation::DbusMenu => {
                if entry.menu.is_some() {
                    let c = self.start_menu(service, &entry);
                    PressOutcome { command: Some(c), opens_popup: true }
                } else {
                    PressOutcome { command: None, opens_popup: false }
                }
            },
            Activation::Unsupported => PressOutcome { command: None, opens_popup: false },
        }
    }

    /// A secondary press on an item: requests its DBusMenu when it has one, otherwise its
    /// own context menu is shown.
    pub fn context_pressed(&mut self, service: &str) -> (r: ContextOutcome)
        ensures
            final(self).items == old(self).items,
            match lookup_item(old(self).items@, service@) {
                None => r is Ignored && final(self).open_dbusmenu == old(self).open_dbusmenu,
                Some(e) => if e.menu is Some {
                    &&& r matches ContextOutcome::Send(c) && opens_menu_command(c, service@, e)
                    &&& final(self).open_dbusmenu matches Some(m) && fresh_menu(m, service@, e)
                } else {
                    r is Native && final(self).open_dbusmenu == old(self).open_dbusmenu
                },
            },
    {
        let idx = match self.position(service) {
            Some(i) => i,
            None => return ContextOutcome::Ignored,
        };
        proof {
            lemma_item_index(self.items@, service@);
        }
        let entry = self.items[idx].1.duplicate();
        assert(entry == self.items@[idx as int].1);
        if entry.menu.is_some() {
            let c = self.start_menu(service, &entry);
            ContextOutcome::Send(c)
        } else {
            ContextOutcome::Native
        }
    }

    /// The outcome of queueing the DBusMenu request of a secondary press: when it could
    /// not be queued the menu is dropped; otherwise the popup opens if a menu is pending.
    pub fn context_menu_queued(&mut self, queued: bool) -> (opens: bool)
        ensures
            final(self).items == old(self).items,
            if queued {
                final(self).open_dbusmenu == old(self).open_dbusmenu
                    && opens == (old(self).open_dbusmenu is Some)
            } else {
                final(self).open_dbusmenu is None && !opens
            },
    {
        if !queued {
            self.open_dbusmenu = None;
            return false;
        }
        self.open_dbusmenu.is_some()
    }

    /// A menu failed to load: closes it when it belongs to the service.
    pub fn dbus_menu_failed(&mut self, service: &str) -> (r: Option<PopupAction>)
        ensures
            final(self).items == old(self).items,
            if open_for(old(self).open_dbusmenu, service@) {
                final(self).open_dbusmenu is None && r == Some(PopupAction::CloseAll)
            } else {
                final(self).open_dbusmenu == old(self).open_dbusmenu && r is None
            },
    {
        let closes = match &self.open_dbusmenu {
            Some(menu) => str_eq(menu.service.as_str(), service),
            None => false,
        };
        if closes {
            self.open_dbusmenu = None;
            Some(PopupAction::CloseAll)
        } else {
            None
        }
    }

    /// The whole menu arrived: stored when it belongs to the open menu's service.
    pub fn show_dbus_menu(&mut self, service: &str, revision: u32, layout: Layout)
        ensures
            final(self).items == old(self).items,
            match old(self).open_dbusmenu {
                Some(m) => if m.service@ == service@ {
                    &&& final(self).open_dbusmenu matches Some(n)
                    &&& n.service == m.service && n.bus_name == m.bus_name && n.path == m.path
                    &&& n.open_path == m.open_path && n.revision == revision
                    &&& n.layout matches Some(l) && l@ == layout@
                } else {
                    final(self).open_dbusmenu == old(self).open_dbusmenu
                },
                None => final(self).open_dbusmenu is None,
            },
    {
        if let Some(menu) = &mut self.open_dbusmenu {
            if str_eq(menu.service.as_str(), service) {
                menu.revision = revision;
                menu.layout = Some(layout);
            }
        }
    }

    /// A (sub)menu arrived: when it belongs to the open menu's service and is not older
    /// than what is shown, the revision is taken and the menu is replaced (at the root) or
    /// the submenu's entry is replaced.
    pub fn show_dbus_submenu(&mut self, service: &str, parent_id: i32, revision: u32, layout: Layout)
        ensures
            final(self).items == old(self).items,
            match old(self).open_dbusmenu {
                Some(m) => if m.service@ == service@ && revision >= m.revision {
                    &&& final(self).open_dbusmenu matches Some(n)
                    &&& n.service == m.service && n.bus_name == m.bus_name && n.path == m.path
                    &&& n.open_path == m.open_path && n.revision == revision
                    &&& match m.layout {
                        None => n.layout is None,
                        Some(root) => n.layout matches Some(l) && l@ == if parent_id == 0 {
                            layout@
                        } else {
                            edit_first(root@, layout.id, NodeEditView::Replace(layout@))
                        },
                    }
                } else {
                    final(self).open_dbusmenu == old(self).open_dbusmenu
                },
                None => final(self).open_dbusmenu is None,
            },
    {
        if let Some(menu) = &mut self.open_dbusmenu {
            if str_eq(menu.service.as_str(), service) && revision >= menu.revision {
                menu.revision = revision;
                if let Some(root) = &mut menu.layout {
                    if parent_id == 0 {
                        *root = layout;
                    } else {
                        root.replace_subtree(layout);
                    }
                }
            }
        }
    }

    /// Property changes of the open menu's entries: applied when they belong to its service
    /// and the menu has loaded.
    pub fn update_dbus_menu_properties(
        &mut self,
        service: &str,
        updated: &Vec<(i32, Vec<(String, PropValue)>)>,
        removed: &Vec<(i32, Vec<String>)>,
    )
        ensures
            final(self).items == old(self).items,
            match old(self).open_dbusmenu {
                Some(m) => if m.service@ == service@ && m.layout is Some {
                    &&& final(self).open_dbusmenu matches Some(n)
                    &&& n.service == m.service && n.bus_name == m.bus_name && n.path == m.path
                    &&& n.open_path == m.open_path && n.revision == m.revision
                    &&& n.layout matches Some(l) && m.layout matches Some(root)
                        && l@ == apply_removed_spec(apply_updated_spec(root@, updated_view(updated@)), removed_view(removed@))
                } else {
                    final(self).open_dbusmenu == old(self).open_dbusmenu
                },
                None => final(self).open_dbusmenu is None,
            },
    {
        if let Some(menu) = &mut self.open_dbusmenu {
            if str_eq(menu.service.as_str(), service) {
                if let Some(layout) = &mut menu.layout {
                    layout.apply_property_updates(updated, removed);
                }
            }
        }
    }

    /// The layout that the menu popup shows at a depth: the whole menu at depth zero, the
    /// submenu opened at the previous depth otherwise.
    pub fn menu_at_depth(&self, depth: usize) -> (r: Option<&Layout>)
        ensures
            match r {
                Some(l) => menu_at_depth_spec(self.open_dbusmenu, depth as int) == Some(l@),
                None => menu_at_depth_spec(self.open_dbusmenu, depth as int) is None,
            },
    {
        match &self.open_dbusmenu {
            Some(menu) => match &menu.layout {
                Some(root) => if depth == 0 {
                    Some(root)
                } else if depth - 1 < menu.open_path.len() {
                    root.find(menu.open_path[depth - 1])
                } else {
                    None
                },
                None => None,
            },
            None => None,
        }
    }
}

/// Whether an entry opens a submenu: it says so, or it has entries of its own.
pub open spec fn is_submenu_spec(v: Option<LayoutView>) -> bool {
    v matches Some(item) && (item.properties.children_display == ChildrenDisplay::Submenu
        || item.children.len() > 0)
}

impl Tray {
    /// A press on an entry of the open menu at some depth: a submenu entry becomes the
    /// open path's entry at that depth (deeper entries are closed) and its submenu is
    /// requested, any other entry is clicked. The command is to be queued; the popup then
    /// opens the submenu, or everything closes after a click.
    pub fn menu_item_pressed(&mut self, item_id: i32, depth: usize) -> (r: Option<(TrayCommand, PopupAction)>)
        ensures
            final(self).items == old(self).items,
            match old(self).open_dbusmenu {
                None => r is None && final(self).open_dbusmenu is None,
                Some(m) => {
                    let found = match m.layout { Some(l) => find_view(l@, item_id), None => None };
                    let sub = is_submenu_spec(found);
                    &&& final(self).open_dbusmenu matches Some(n)
                    &&& n.service == m.service && n.bus_name == m.bus_name && n.path == m.path
                    &&& n.revision == m.revision && n.layout == m.layout
                    &&& n.open_path@ == if sub {
                        m.open_path@.take(if depth < m.open_path@.len() { depth as int } else { m.open_path@.len() as int }).push(item_id)
                    } else {
                        m.open_path@
                    }
                    &&& r matches Some((c, a))
                    &&& if sub {
                        &&& a == PopupAction::Open
                        &&& c matches TrayCommand::OpenDbusSubmenu { service, bus_name, path, item_id: id }
                        &&& service@ == m.service@ && bus_name@ == m.bus_name@ && path@ == m.path@ && id == item_id
                    } else {
                        &&& a == PopupAction::CloseAll
                        &&& c matches TrayCommand::DbusMenuEvent { service, bus_name, path, item_id: id }
                        &&& service@ == m.service@ && bus_name@ == m.bus_name@ && path@ == m.path@ && id == item_id
                    }
                },
            },
    {
        let menu = match &mut self.open_dbusmenu {
            Some(menu) => menu,
            None => return None,
        };
        let is_submenu = match &menu.layout {
            Some(layout) => match layout.find(item_id) {
                Some(item) => item.properties.children_display == ChildrenDisplay::Submenu
                    || item.children.len() > 0,
                None => false,
            },
            None => false,
        };
        if is_submenu {
            menu.open_path.truncate(depth);
            menu.open_path.push(item_id);
            let c = TrayCommand::OpenDbusSubmenu {
                service: menu.service.clone(),
                bus_name: menu.bus_name.clone(),
                path: menu.path.clone(),
                item_id,
            };
            Some((c, PopupAction::Open))
        } else {
            let c = TrayCommand::DbusMenuEvent {
                service: menu.service.clone(),
                bus_name: menu.bus_name.clone(),
                path: menu.path.clone(),
                item_id,
            };
            Some((c, PopupAction::CloseAll))
        }
    }
}

} // verus!
