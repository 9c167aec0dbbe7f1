use vstd::prelude::*;

use crate::caches::{keys_after_get, keys_after_push, IconCache};
use crate::text::{chars_of, contains_chars, contains_seq};

verus! {

/// Whether a taskbar entry stands for a workspace or a window.
#[derive(Debug, Clone, Copy, PartialEq, Eq, Structural)]
pub enum TaskbarItemKind {
    Workspace,
    Window,
}

impl TaskbarItemKind {
    /// The number by which kinds are ordered and stored: workspaces before windows.
    pub open spec fn value(self) -> i32 {
        match self {
            TaskbarItemKind::Workspace => 0,
            TaskbarItemKind::Window => 1,
        }
    }

    /// The number by which kinds are ordered and stored.
    pub fn sort_value(self) -> (v: i32)
        ensures
            v == self.value(),
    {
        match self {
            TaskbarItemKind::Workspace => 0,
            TaskbarItemKind::Window => 1,
        }
    }

    /// The kind stored as a number: 0 is a workspace, anything else a window.
    pub fn from_value(v: i32) -> (k: TaskbarItemKind)
        ensures
            k == if v == 0 { TaskbarItemKind::Workspace } else { TaskbarItemKind::Window },
    {
        if v == 0 { TaskbarItemKind::Workspace } else { TaskbarItemKind::Window }
    }
}

/// What the taskbar orders its entries by. Entries without a window have column and tile
/// -1 and window id 0; entries without a workspace or window have workspace id and index 0.
#[derive(Debug, Clone, Copy, PartialEq, Eq, Structural)]
pub struct TaskbarItem {
    pub kind: TaskbarItemKind,
    pub workspace_index: i32,
    pub workspace_id: u64,
    pub column_index: i32,
    pub tile_index: i32,
    pub window_id: u64,
}

/// The result of comparing two entries.
#[derive(Debug, Clone, Copy, PartialEq, Eq, Structural)]
pub enum SortOrder {
    Smaller,
    Equal,
    Larger,
}

/// Compares two numbers.
pub open spec fn order_of(a: int, b: int) -> SortOrder {
    if a < b {
        SortOrder::Smaller
    } else if a == b {
        SortOrder::Equal
    } else {
        SortOrder::Larger
    }
}

/// The order of taskbar entries: by workspace index, then workspaces before windows,
/// then, between two windows, by column, tile and window id, and last by workspace id.
pub open spec fn compare_spec(a: TaskbarItem, b: TaskbarItem) -> SortOrder {
    if a.workspace_index != b.workspace_index {
        order_of(a.workspace_index as int, b.workspace_index as int)
    } else if a.kind.value() != b.kind.value() {
        order_of(a.kind.value() as int, b.kind.value() as int)
    } else if a.kind == TaskbarItemKind::Window && b.kind == TaskbarItemKind::Window
        && (a.column_index != b.column_index || a.tile_index != b.tile_index || a.window_id != b.window_id) {
        if a.column_index != b.column_index {
            order_of(a.column_index as int, b.column_index as int)
        } else if a.tile_index != b.tile_index {
            order_of(a.tile_index as int, b.tile_index as int)
        } else {
            order_of(a.window_id as int, b.window_id as int)
        }
    } else {
        order_of(a.workspace_id as int, b.workspace_id as int)
    }
}

fn order_i32(a: i32, b: i32) -> (r: SortOrder)
    ensures
        r == order_of(a as int, b as int),
{
    if a < b {
        SortOrder::Smaller
    } else if a == b {
        SortOrder::Equal
    } else {
        SortOrder::Larger
    }
}

fn order_u64(a: u64, b: u64) -> (r: SortOrder)
    ensures
        r == order_of(a as int, b as int),
{
    if a < b {
        SortOrder::Smaller
    } else if a == b {
        SortOrder::Equal
    } else {
        SortOrder::Larger
    }
}

/// Compares two taskbar entries, as the taskbar's sorter does.
pub fn compare_items(a: &TaskbarItem, b: &TaskbarItem) -> (r: SortOrder)
    ensures
        r == compare_spec(*a, *b),
{
    let mut r = order_i32(a.workspace_index, b.workspace_index);
    if r != SortOrder::Equal {
        return r;
    }
    r = order_i32(a.kind.sort_value(), b.kind.sort_value());
    if r != SortOrder::Equal {
        return r;
    }
    if a.kind == TaskbarItemKind::Window && b.kind == TaskbarItemKind::Window {
        r = order_i32(a.column_index, b.column_index);
        if r != SortOrder::Equal {
            return r;
        }
        r = order_i32(a.tile_index, b.tile_index);
        if r != SortOrder::Equal {
            return r;
        }
        r = order_u64(a.window_id, b.window_id);
        if r != SortOrder::Equal {
            return r;
        }
    }
    order_u64(a.workspace_id, b.workspace_id)
}

/// The opposite of an order.
pub open spec fn flipped(o: SortOrder) -> SortOrder {
    match o {
        SortOrder::Smaller => SortOrder::Larger,
        SortOrder::Equal => SortOrder::Equal,
        SortOrder::Larger => SortOrder::Smaller,
    }
}

/// Comparing the other way round gives the opposite answer.
pub proof fn lemma_compare_antisymmetric(a: TaskbarItem, b: TaskbarItem)
    ensures
        compare_spec(b, a) == flipped(compare_spec(a, b)),
{
}

/// The order is transitive: an entry before a second one that comes before a third one
/// comes before the third.
pub proof fn lemma_compare_transitive(a: TaskbarItem, b: TaskbarItem, c: TaskbarItem)
    requires
        compare_spec(a, b) == SortOrder::Smaller,
        compare_spec(b, c) == SortOrder::Smaller,
    ensures
        compare_spec(a, c) == SortOrder::Smaller,
{
}

/// Entries compare equal exactly when they agree on everything the order looks at.
pub proof fn lemma_compare_equal(a: TaskbarItem, b: TaskbarItem)
    ensures
        compare_spec(a, b) == SortOrder::Equal <==> {
            &&& a.workspace_index == b.workspace_index
            &&& a.kind == b.kind
            &&& a.workspace_id == b.workspace_id
            &&& a.kind == TaskbarItemKind::Window ==> a.column_index == b.column_index
                && a.tile_index == b.tile_index && a.window_id == b.window_id
        },
{
}

// ---------------------------------------------------------------------------
// The icon cache's key.
// ---------------------------------------------------------------------------

/// The key under which a window's icon is cached: the command line of its process, as
/// read from `/proc/<pid>/cmdline`. `cmdline` is `None` for a window without a process
/// and `Some(None)` when the command line could not be read. No key without a process,
/// when the command line could not be read, when it is empty, or when it mentions
/// `xwayland`: such a window's icon is resolved every time.
pub open spec fn cache_key_spec(cmdline: Option<Option<Seq<char>>>) -> Option<Seq<char>> {
    match cmdline {
        Some(Some(c)) => if contains_seq(c, "xwayland"@) || c.len() == 0 { None } else { Some(c) },
        _ => None,
    }
}

/// A window's command line as plain values.
pub open spec fn cmdline_view(cmdline: Option<Option<&str>>) -> Option<Option<Seq<char>>> {
    match cmdline {
        Some(Some(c)) => Some(Some(c@)),
        Some(None) => Some(None),
        None => None,
    }
}

/// The key under which a window's icon is cached, from the command line of its process.
pub fn cache_key(cmdline: Option<Option<&str>>) -> (r: Option<String>)
    ensures
        r matches Some(k) ==> cache_key_spec(cmdline_view(cmdline)) == Some(k@),
        r is None ==> cache_key_spec(cmdline_view(cmdline)) is None,
{
    let key: &str = match cmdline {
        Some(Some(c)) => c,
        _ => {
            return None;
        },
    };
    let chars = chars_of(key);
    let needle = chars_of("xwayland");
    if contains_chars(chars.as_slice(), needle.as_slice()) || chars.len() == 0 {
        None
    } else {
        Some(key.to_owned())
    }
}

/// What the icon cache knows of a window.
#[derive(Debug)]
pub enum IconLookup {
    /// The window has no cache key: its icon is resolved every time.
    Uncacheable,
    /// The window's key is not cached: resolve the icon and remember it.
    Miss(String),
    /// The window's key is cached: the icon kept under it is the window's.
    Hit(String),
}

/// The cache key of a window, in plain values.
pub open spec fn window_key(cmdline: Option<Option<&str>>) -> Option<Seq<char>> {
    cache_key_spec(cmdline_view(cmdline))
}

impl IconCache {
    /// Looks a window up in the cache by its key; a cached key becomes the most recently
    /// used.
    pub fn lookup(&mut self, cmdline: Option<Option<&str>>) -> (r: IconLookup)
        requires
            old(self).wf(),
        ensures
            final(self).wf(),
            final(self).capacity() == old(self).capacity(),
            match window_key(cmdline) {
                None => r is Uncacheable && final(self).keys() == old(self).keys(),
                Some(k) => final(self).keys() == keys_after_get(old(self).keys(), k) && if old(self).keys().contains(k) {
                    r matches IconLookup::Hit(s) && s@ == k
                } else {
                    r matches IconLookup::Miss(s) && s@ == k
                },
            },
    {
        match cache_key(cmdline) {
            None => IconLookup::Uncacheable,
            Some(key) => {
                if self.get(key.as_str()) {
                    IconLookup::Hit(key)
                } else {
                    IconLookup::Miss(key)
                }
            },
        }
    }

    /// Remembers that a window's icon was resolved, under the window's key (nothing happens
    /// for a window without one). Gives the key whose icon the bar can drop.
    pub fn remember(&mut self, cmdline: Option<Option<&str>>) -> (dropped: Option<String>)
        requires
            old(self).wf(),
        ensures
            final(self).wf(),
            final(self).capacity() == old(self).capacity(),
            match window_key(cmdline) {
                None => dropped is None && final(self).keys() == old(self).keys(),
                Some(k) => final(self).keys() == keys_after_push(old(self).keys(), k, old(self).capacity())
                    && (dropped matches Some(d) ==> d@ == old(self).keys()[0] && !old(self).keys().contains(k)
                        && old(self).keys().len() == old(self).capacity())
                    && (dropped is None <==> (old(self).keys().contains(k)
                        || old(self).keys().len() < old(self).capacity())),
            },
    {
        match cache_key(cmdline) {
            None => None,
            Some(key) => self.insert(key),
        }
    }
}

} // verus!
