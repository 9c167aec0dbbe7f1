use subniri::dbusmenu::{Layout, LayoutProperties};
use subniri::tray::Activation;
use subniri::tray_menu::{ContextOutcome, PopupAction, Tray, TrayCommand, TrayEntry};

fn entry(activation: Activation, menu: Option<&str>) -> TrayEntry {
    TrayEntry { activation, bus_name: ":1.9".to_string(), menu: menu.map(str::to_string) }
}

fn item(id: i32, label: &str, children: Vec<Layout>) -> Layout {
    let mut properties = LayoutProperties::default();
    properties.label = label.to_string();
    Layout { id, properties, children }
}

#[test]
fn presses_follow_the_item_activation() {
    let mut t = Tray::new();
    t.registered("app".to_string(), entry(Activation::Activate, None));
    t.registered("menu".to_string(), entry(Activation::DbusMenu, Some("/Menu")));
    let p = t.pressed("app");
    assert!(matches!(p.command, Some(TrayCommand::Activate { ref service, x: 0, y: 0 }) if service == "app"));
    assert!(!p.opens_popup);
    let q = t.pressed("menu");
    assert!(q.opens_popup);
    assert!(q.opens_after_queue(true));
    assert!(!q.opens_after_queue(false));
    assert!(!p.opens_after_queue(true));
    match q.command {
        Some(TrayCommand::ActivateWithDbusMenu { service, bus_name, path }) => {
            assert_eq!((service.as_str(), bus_name.as_str(), path.as_str()), ("menu", ":1.9", "/Menu"));
        }
        other => panic!("unexpected {other:?}"),
    }
    assert!(t.open_dbusmenu.is_some());
    assert!(t.pressed("unknown").command.is_none());
    assert!(matches!(t.context_pressed("app"), ContextOutcome::Native));
    assert!(matches!(t.context_pressed("unknown"), ContextOutcome::Ignored));
}

#[test]
fn a_vanishing_item_closes_its_menu() {
    let mut t = Tray::new();
    t.registered("menu".to_string(), entry(Activation::DbusMenu, Some("/Menu")));
    t.pressed("menu");
    t.show_dbus_menu("menu", 3, item(0, "root", vec![item(1, "_Quit", Vec::new())]));
    assert!(t.menu_at_depth(0).is_some());
    assert_eq!(t.dbus_menu_failed("other"), None);
    assert_eq!(t.removed("menu"), Some(PopupAction::CloseAll));
    assert!(t.open_dbusmenu.is_none());
    assert!(t.items.is_empty());
    assert_eq!(t.removed("menu"), None);
}
