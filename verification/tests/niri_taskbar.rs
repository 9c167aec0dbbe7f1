use subniri::niri_taskbar::{sort_windows, sort_workspaces, NiriTaskbar, NiriWindow, NiriWorkspace, TaskbarEntry};

fn win(id: u64, workspace: Option<u64>, position: Option<(usize, usize)>) -> NiriWindow<&'static str> {
    NiriWindow { id, workspace_id: workspace, is_focused: false, position, data: "w" }
}

fn ws(id: u64, idx: u8, output: &str, active: bool) -> NiriWorkspace {
    NiriWorkspace { id, idx, output: Some(output.to_string()), is_active: active, is_focused: false }
}

fn ids(t: &NiriTaskbar<&'static str>) -> Vec<u64> {
    t.windows.iter().map(|w| w.id).collect()
}

#[test]
fn windows_sort_by_workspace_column_tile_and_id() {
    let sorted = sort_windows(vec![
        win(5, Some(2), Some((1, 1))),
        win(4, Some(1), Some((2, 1))),
        win(3, Some(1), Some((1, 2))),
        win(2, None, None),
        win(1, Some(1), Some((1, 2))),
        win(6, Some(1), None),
    ]);
    let order: Vec<u64> = sorted.iter().map(|w| w.id).collect();
    assert_eq!(order, vec![2, 6, 1, 3, 4, 5]);
}

#[test]
fn workspaces_sort_by_index_keeping_equal_order() {
    let sorted = sort_workspaces(vec![ws(10, 3, "A", false), ws(11, 1, "B", false), ws(12, 1, "A", true), ws(13, 2, "A", false)]);
    let order: Vec<u64> = sorted.iter().map(|w| w.id).collect();
    assert_eq!(order, vec![11, 12, 13, 10]);
}

#[test]
fn activating_a_workspace_deactivates_others_on_its_output() {
    let mut t: NiriTaskbar<&'static str> = NiriTaskbar::new();
    t.workspaces_changed(vec![ws(1, 1, "A", true), ws(2, 2, "A", false), ws(3, 3, "B", true)]);
    t.workspace_activated(2, true);
    assert!(!t.workspaces[0].is_active);
    assert!(t.workspaces[1].is_active && t.workspaces[1].is_focused);
    assert!(t.workspaces[2].is_active);
    assert!(!t.workspaces[2].is_focused);
}

#[test]
fn a_new_window_goes_where_the_order_puts_it() {
    let mut t: NiriTaskbar<&'static str> = NiriTaskbar::new();
    t.windows_changed(vec![win(1, Some(1), Some((1, 1))), win(3, Some(1), Some((3, 1)))]);
    t.window_opened_or_changed(win(2, Some(1), Some((2, 1))));
    assert_eq!(ids(&t), vec![1, 2, 3]);
}

#[test]
fn a_changed_window_stays_in_place_and_takes_the_focus() {
    let mut t: NiriTaskbar<&'static str> = NiriTaskbar::new();
    let mut focused = win(1, Some(1), Some((1, 1)));
    focused.is_focused = true;
    t.windows_changed(vec![focused, win(2, Some(1), Some((2, 1)))]);
    let mut changed = win(2, Some(1), Some((2, 1)));
    changed.is_focused = true;
    changed.data = "changed";
    t.window_opened_or_changed(changed);
    assert_eq!(ids(&t), vec![1, 2]);
    assert!(!t.windows[0].is_focused);
    assert!(t.windows[1].is_focused);
    assert_eq!(t.windows[1].data, "changed");
}

#[test]
fn focus_moves_to_one_window_or_none() {
    let mut t: NiriTaskbar<&'static str> = NiriTaskbar::new();
    t.windows_changed(vec![win(1, Some(1), None), win(2, Some(1), Some((1, 1)))]);
    t.window_focus_changed(Some(2));
    assert!(!t.windows[0].is_focused);
    assert!(t.windows[1].is_focused);
    t.window_focus_changed(None);
    assert!(t.windows.iter().all(|w| !w.is_focused));
}

#[test]
fn closing_a_window_removes_it_and_an_unknown_id_changes_nothing() {
    let mut t: NiriTaskbar<&'static str> = NiriTaskbar::new();
    t.windows_changed(vec![win(1, Some(1), None), win(2, Some(1), Some((1, 1)))]);
    t.window_closed(7);
    assert_eq!(ids(&t), vec![1, 2]);
    t.window_closed(1);
    assert_eq!(ids(&t), vec![2]);
}

#[test]
fn layout_changes_move_windows_and_resort() {
    let mut t: NiriTaskbar<&'static str> = NiriTaskbar::new();
    t.windows_changed(vec![win(1, Some(1), Some((1, 1))), win(2, Some(1), Some((2, 1)))]);
    t.window_layouts_changed(&vec![(1, Some((3, 1))), (9, Some((1, 1)))]);
    assert_eq!(ids(&t), vec![2, 1]);
    assert_eq!(t.windows[1].position, Some((3, 1)));
}

#[test]
fn entries_show_the_active_workspace_windows_and_previews() {
    let mut t: NiriTaskbar<&'static str> = NiriTaskbar::new();
    t.workspaces_changed(vec![ws(1, 1, "A", true), ws(2, 2, "A", false), ws(3, 3, "B", true)]);
    t.windows_changed(vec![
        win(10, Some(1), Some((1, 1))),
        win(11, Some(1), Some((2, 1))),
        win(20, Some(2), Some((1, 1))),
        win(21, Some(2), Some((2, 1))),
        win(22, Some(2), Some((3, 1))),
        win(23, Some(2), Some((4, 1))),
        win(24, Some(2), Some((5, 1))),
    ]);
    let entries = t.entries(Some("A"));
    assert_eq!(
        entries,
        vec![
            TaskbarEntry::Workspace { index: 0, preview: vec![] },
            TaskbarEntry::Spacer,
            TaskbarEntry::Window(0),
            TaskbarEntry::Window(1),
            TaskbarEntry::Spacer,
            TaskbarEntry::Workspace { index: 1, preview: vec![2, 3, 4, 5] },
        ]
    );
}

#[test]
fn the_last_active_workspace_has_no_trailing_gap_and_no_output_shows_nothing() {
    let mut t: NiriTaskbar<&'static str> = NiriTaskbar::new();
    t.workspaces_changed(vec![ws(1, 1, "A", false), ws(2, 2, "A", true)]);
    t.windows_changed(vec![win(10, Some(2), None)]);
    assert_eq!(
        t.entries(Some("A")),
        vec![
            TaskbarEntry::Workspace { index: 0, preview: vec![] },
            TaskbarEntry::Workspace { index: 1, preview: vec![] },
            TaskbarEntry::Spacer,
            TaskbarEntry::Window(0),
        ]
    );
    assert!(t.entries(None).is_empty());
    assert!(t.entries(Some("B")).is_empty());
}
