use subniri::taskbar::{cache_key, compare_items, SortOrder, TaskbarItem, TaskbarItemKind};

fn window(workspace_index: i32, column: i32, tile: i32, id: u64) -> TaskbarItem {
    TaskbarItem {
        kind: TaskbarItemKind::Window,
        workspace_index,
        workspace_id: 10,
        column_index: column,
        tile_index: tile,
        window_id: id,
    }
}

fn workspace(workspace_index: i32, id: u64) -> TaskbarItem {
    TaskbarItem {
        kind: TaskbarItemKind::Workspace,
        workspace_index,
        workspace_id: id,
        column_index: -1,
        tile_index: -1,
        window_id: 0,
    }
}

#[test]
fn workspaces_come_before_their_windows() {
    assert_eq!(compare_items(&workspace(1, 10), &window(1, 0, 0, 5)), SortOrder::Smaller);
    assert_eq!(compare_items(&window(1, 0, 0, 5), &workspace(2, 11)), SortOrder::Smaller);
    assert_eq!(compare_items(&window(2, 0, 0, 5), &workspace(1, 11)), SortOrder::Larger);
}

#[test]
fn windows_are_ordered_by_column_tile_and_id() {
    assert_eq!(compare_items(&window(1, 0, 3, 9), &window(1, 1, 0, 1)), SortOrder::Smaller);
    assert_eq!(compare_items(&window(1, 1, 1, 9), &window(1, 1, 0, 1)), SortOrder::Larger);
    assert_eq!(compare_items(&window(1, 1, 0, 2), &window(1, 1, 0, 3)), SortOrder::Smaller);
    assert_eq!(compare_items(&window(1, 1, 0, 3), &window(1, 1, 0, 3)), SortOrder::Equal);
    assert_eq!(compare_items(&workspace(1, 3), &workspace(1, 4)), SortOrder::Smaller);
    assert_eq!(TaskbarItemKind::Window.sort_value(), 1);
    assert_eq!(TaskbarItemKind::from_value(0), TaskbarItemKind::Workspace);
    assert_eq!(TaskbarItemKind::from_value(7), TaskbarItemKind::Window);
}

#[test]
fn icon_cache_keys() {
    assert_eq!(cache_key(Some(Some("/usr/bin/code\0--foo"))), Some("/usr/bin/code\0--foo".to_owned()));
    assert_eq!(cache_key(Some(None)), None);
    assert_eq!(cache_key(None), None);
    assert_eq!(cache_key(Some(Some(""))), None);
    assert_eq!(cache_key(Some(Some("Xwayland :0"))), Some("Xwayland :0".to_owned()));
    assert_eq!(cache_key(Some(Some("/usr/bin/xwayland-run"))), None);
}
