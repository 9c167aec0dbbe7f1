use subniri::desktop_files::{choose_desktop_file, cmdline_args, is_xwayland};

fn stems(v: &[Option<&str>]) -> Vec<Option<String>> {
    v.iter().map(|s| s.map(|s| s.to_string())).collect()
}

fn names(v: &[&str]) -> Vec<String> {
    v.iter().map(|s| s.to_string()).collect()
}

#[test]
fn an_exact_name_wins_over_everything_else() {
    let s = stems(&[Some("org.kde.krita_csv"), Some("krita"), Some("org.kde.krita")]);
    assert_eq!(choose_desktop_file(&s, &names(&["krita"])), Some(1));
}

#[test]
fn a_reverse_dns_name_comes_next() {
    let s = stems(&[Some("krita_csv"), Some("org.kde.krita")]);
    assert_eq!(choose_desktop_file(&s, &names(&["krita"])), Some(1));
}

#[test]
fn otherwise_the_lowest_penalty_wins() {
    // 100 - 50 + 30 + 9 = 89, 100 - 50 + 10 + 13 = 73, 100 - 50 + 8 = 58
    let s = stems(&[Some("krita_csv"), Some("krita-painter"), Some("kritaapp")]);
    assert_eq!(choose_desktop_file(&s, &names(&["krita"])), Some(2));
    // without candidate names: 100 + 10 + 3 = 113 against 103
    let s = stems(&[Some("b-a"), Some("abc")]);
    assert_eq!(choose_desktop_file(&s, &names(&[])), Some(1));
}

#[test]
fn ties_go_to_the_first_and_length_counts_bytes() {
    assert_eq!(choose_desktop_file(&stems(&[Some("ab"), Some("cd")]), &names(&[])), Some(0));
    assert_eq!(choose_desktop_file(&stems(&[Some("é"), Some("ab")]), &names(&[])), Some(0));
    assert_eq!(choose_desktop_file(&stems(&[Some("éé"), Some("abc")]), &names(&[])), Some(1));
    assert_eq!(choose_desktop_file(&stems(&[None, Some("x")]), &names(&[])), Some(0));
}

#[test]
fn no_desktop_files_choose_nothing() {
    assert_eq!(choose_desktop_file(&stems(&[]), &names(&["krita"])), None);
}

#[test]
fn command_line_arguments_are_the_nonempty_runs_between_nul_bytes() {
    let args = cmdline_args(b"/usr/bin/foo\0--flag\0\0x\0");
    assert_eq!(args, vec![b"/usr/bin/foo".to_vec(), b"--flag".to_vec(), b"x".to_vec()]);
    assert_eq!(cmdline_args(b"a\0b"), vec![b"a".to_vec(), b"b".to_vec()]);
    assert!(cmdline_args(b"").is_empty());
}

#[test]
fn xwayland_is_recognised_in_the_executable_or_an_argument() {
    assert!(is_xwayland(b"/usr/bin/XWayland", &vec![]));
    assert!(is_xwayland(b"/usr/bin/app", &vec![b"--display".to_vec(), b"foo-xWAYland-bar".to_vec()]));
    assert!(!is_xwayland(b"/usr/bin/app", &vec![b"wayland".to_vec()]));
}
