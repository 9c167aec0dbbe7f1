use subniri::icons::{
    app_id_candidates, candidate_kind, desktop_file_name, fallback_matches, notification_icon_steps, CandidateKind,
    NotificationIconStep,
};

#[test]
fn candidates_are_ordered_and_unique() {
    assert_eq!(
        app_id_candidates("org.Gnome.Text_Editor"),
        vec!["org.Gnome.Text_Editor", "org.gnome.text_editor", "org.gnome.text-editor", "text_editor"]
    );
    assert_eq!(app_id_candidates("firefox"), vec!["firefox"]);
    assert_eq!(app_id_candidates("Visual Studio"), vec!["Visual Studio", "visual studio", "visual-studio"]);
    assert!(app_id_candidates("").is_empty());
    assert_eq!(app_id_candidates("a."), vec!["a."]);
}

#[test]
fn desktop_files_and_candidate_kinds() {
    assert_eq!(desktop_file_name("firefox"), "firefox.desktop");
    assert_eq!(desktop_file_name("firefox.desktop"), "firefox.desktop");
    assert_eq!(candidate_kind(""), CandidateKind::Empty);
    assert_eq!(candidate_kind("/usr/share/icons/x.svg"), CandidateKind::File);
    assert_eq!(candidate_kind("firefox"), CandidateKind::ThemeIcon);
    assert!(fallback_matches("Steam", Some("steam.desktop"), Some("STEAM"), None));
    assert!(!fallback_matches("Steam", Some("steam.desktop"), None, None));
    assert!(fallback_matches("code", None, None, Some("Code")));
}

#[test]
fn notification_icons_are_looked_up_in_a_fixed_order() {
    let steps = notification_icon_steps("", "/tmp/img.png", "org.example.App", "My Big App");
    assert_eq!(
        steps,
        vec![
            NotificationIconStep::Candidate(String::new()),
            NotificationIconStep::Candidate("/tmp/img.png".to_string()),
            NotificationIconStep::DesktopEntry("org.example.App".to_string()),
            NotificationIconStep::Candidate("org.example.App".to_string()),
            NotificationIconStep::Candidate("my-big-app".to_string()),
        ]
    );
    let steps = notification_icon_steps("dialog-info", "", "", "");
    assert_eq!(
        steps,
        vec![NotificationIconStep::Candidate("dialog-info".to_string()), NotificationIconStep::Candidate(String::new())]
    );
}
