use subniri::files::{entry_icon, sort_by_file_path, is_hidden, DriveProperties, EntryOrder, FileIcon, Navigate};

#[test]
fn navigation_steps_undo_and_redo() {
    let step = Navigate { from: "/home".to_string(), to: "/home/docs".to_string() };
    let mut current = "/home".to_string();
    step.edit(&mut current);
    assert_eq!(current, "/home/docs");
    step.undo(&mut current);
    assert_eq!(current, "/home");
    step.redo(&mut current);
    assert_eq!(current, "/home/docs");
}

#[test]
fn entry_icons() {
    assert_eq!(entry_icon(true, true, None, ("", "")), FileIcon::FolderDashed);
    assert_eq!(entry_icon(true, false, Some("rs"), ("", "")), FileIcon::Folder);
    assert_eq!(entry_icon(false, false, Some("RS"), ("text", "plain")), FileIcon::Rust);
    assert_eq!(entry_icon(false, false, Some("tar"), ("", "")), FileIcon::Archive);
    assert_eq!(entry_icon(false, false, Some("weird"), ("image", "png")), FileIcon::Image);
    assert_eq!(entry_icon(false, false, None, ("application", "x-7z-compressed")), FileIcon::Archive);
    assert_eq!(entry_icon(false, false, None, ("application", "octet-stream")), FileIcon::File);
    assert!(is_hidden(".config"));
    assert!(!is_hidden("config"));
}

#[test]
fn folders_come_first_then_names_bytewise() {
    assert_eq!(sort_by_file_path(true, Some(&b"z"[..]), false, Some(&b"a"[..])), EntryOrder::Less);
    assert_eq!(sort_by_file_path(false, Some(&b"a"[..]), true, Some(&b"b"[..])), EntryOrder::Greater);
    assert_eq!(sort_by_file_path(false, Some(&b"B"[..]), false, Some(&b"a"[..])), EntryOrder::Less);
    assert_eq!(sort_by_file_path(false, Some(&b"ab"[..]), false, Some(&b"a"[..])), EntryOrder::Greater);
    assert_eq!(sort_by_file_path(true, Some(&b"x"[..]), true, Some(&b"x"[..])), EntryOrder::Equal);
    assert_eq!(sort_by_file_path(true, None, true, Some(&b"x"[..])), EntryOrder::Equal);
    let d = DriveProperties::default();
    assert_eq!(d.size, 0);
    assert!(!d.ejectable);
}
