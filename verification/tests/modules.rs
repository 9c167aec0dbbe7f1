use subniri::modules::{InitRequest, Module, ModuleKind, ModuleRequest};
use subniri::workspaces::{WorkspaceInfo, WorkspaceTracker};

#[test]
fn modules_ask_to_be_initialized_once() {
    let mut b = Module::bluetooth();
    assert_eq!(b.init_request(), Some(InitRequest::Bluetooth));
    assert!(!b.has_popup());
    b.initialized(InitRequest::Bluetooth, false);
    assert_eq!(b.init_request(), Some(InitRequest::Bluetooth));
    b.initialized(InitRequest::Bluetooth, true);
    assert_eq!(b.init_request(), None);
    assert!(b.has_popup());
    assert_eq!(Module::clock().init_request(), None);
    assert_eq!(Module::system_menu().init_request(), Some(InitRequest::SystemMenu));
    assert_eq!(Module::volume().init_request(), Some(InitRequest::Volume));
    assert_eq!(Module::taskbar().init_request(), Some(InitRequest::Taskbar));
    assert!(Module::media_controls().has_popup());
    let mut t = Module::taskbar();
    t.initialized(InitRequest::Volume, true);
    assert_eq!(t.init_request(), Some(InitRequest::Taskbar));
}

fn ws(id: u64, idx: u8, output: &str, focused: bool) -> WorkspaceInfo {
    WorkspaceInfo { id, idx, output: Some(output.to_string()), is_focused: focused }
}

#[test]
fn workspaces_are_numbered_from_the_lowest_shown() {
    let t = WorkspaceTracker::new(
        vec!["DP-1".to_string()],
        vec![ws(10, 3, "DP-1", false), ws(11, 2, "HDMI-1", true), ws(12, 5, "DP-1", true)],
    );
    assert_eq!(t.display_index(10), Some(0));
    assert_eq!(t.display_index(12), Some(2));
    assert_eq!(t.display_index(11), None);
    assert_eq!(t.display_index_for_workspace(11), 0);
    assert_eq!(t.visible_workspace_ids(), vec![10, 12]);
    assert_eq!(t.focused_workspace_id(), Some(12));
    assert_eq!(t.workspace_details(Some(12)), Some((12, 2)));
    assert_eq!(t.workspace_details(None), None);
    let all = WorkspaceTracker::new(Vec::new(), vec![ws(1, 1, "A", false), ws(2, 2, "B", false)]);
    assert_eq!(all.display_index(2), Some(1));
}

#[test]
fn presses_ask_for_the_popup_of_their_kind() {
    let m = Module::clock();
    assert_eq!(m.pressed(ModuleKind::Volume), ModuleRequest::OpenPopup(ModuleKind::Volume));
    assert_eq!(Module::system_menu().system_menu_button(true), Some(ModuleRequest::OpenPowerMenu));
    assert_eq!(Module::system_menu().system_menu_button(false), Some(ModuleRequest::OpenSettings));
    assert_eq!(m.system_menu_button(true), None);
}
