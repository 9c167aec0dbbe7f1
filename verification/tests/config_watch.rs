use subniri::config_watch::{change_paths, override_active, relevant_kind, write_plan, FsEventKind, ProcessWrites, WritePlan};
use subniri::config_parse::config_from_nodes;

#[test]
fn own_writes_are_recognized_once() {
    let mut w = ProcessWrites::new();
    w.record("/c/config.kdl".to_owned(), "a".to_owned());
    w.record("/c/config.kdl".to_owned(), "b".to_owned());
    assert!(!w.is_process_write("/c/config.kdl", "a"));
    assert!(w.is_process_write("/c/config.kdl", "b"));
    assert!(!w.is_process_write("/c/config.kdl", "b"));
    assert!(!w.is_process_write("/c/other.kdl", "b"));
}

#[test]
fn only_relevant_events_touch_config_files() {
    let config = vec!["/c/config.kdl".to_owned(), "/c/override.kdl".to_owned()];
    let paths = vec!["/c/config.kdl".to_owned(), "/c/unrelated".to_owned(), "/c/config.kdl".to_owned()];
    assert_eq!(change_paths(FsEventKind::ModifyData, &paths, &config), vec!["/c/config.kdl".to_owned()]);
    assert!(change_paths(FsEventKind::Access, &paths, &config).is_empty());
    assert!(relevant_kind(FsEventKind::RemoveFile));
    assert!(!relevant_kind(FsEventKind::ModifyOther));
}

#[test]
fn writes_go_where_the_override_says() {
    assert_eq!(write_plan(false, true, true), WritePlan::Main);
    assert_eq!(write_plan(true, false, true), WritePlan::Override);
    assert_eq!(write_plan(true, true, true), WritePlan::DropOverride { remove_file: true });
    assert_eq!(write_plan(true, true, false), WritePlan::DropOverride { remove_file: false });
    assert!(override_active(true, true));
    assert!(!override_active(true, false));
}

/// The override file's existence, as the writes of the configuration leave it.
fn carry_out(plan: WritePlan, exists: bool) -> bool {
    match plan {
        WritePlan::Main => exists,
        WritePlan::Override => true,
        WritePlan::DropOverride { .. } => false,
    }
}

#[test]
fn override_is_created_loaded_and_cleared() {
    let declarative = subniri::config::ConfigFile::default();
    let mut config = declarative.clone();
    config.spotify.client_id = "0123456789abcdef0123456789abcdef".to_string();

    let plan = config.plan_write(&declarative, true, false);
    assert_eq!(plan, WritePlan::Override);
    let exists = carry_out(plan, false);
    assert!(override_active(true, exists));
    // What the override file holds reads back as the configuration written.
    let loaded = config_from_nodes(&config.to_nodes()).unwrap();
    assert!(loaded.same_settings(&config));
    assert!(!config.same_settings(&declarative));
    assert_eq!(declarative.spotify.client_id, "");

    // Clearing the override removes the file; the declarative configuration is in effect.
    let exists = carry_out(WritePlan::DropOverride { remove_file: exists }, exists);
    assert!(!override_active(true, exists));
}

#[test]
fn matching_config_removes_override() {
    let declarative = subniri::config::ConfigFile::default();
    let mut config = declarative.clone();
    config.spotify.enabled = true;

    let exists = carry_out(config.plan_write(&declarative, true, false), false);
    assert!(override_active(true, exists));

    let config = declarative.clone();
    let plan = config.plan_write(&declarative, true, exists);
    assert_eq!(plan, WritePlan::DropOverride { remove_file: true });
    let exists = carry_out(plan, exists);
    assert!(!override_active(true, exists));
}
