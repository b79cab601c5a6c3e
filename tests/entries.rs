use scout::desktop::{action_names, is_excluded, ActionSection, ApplicationResult, DesktopEntry};

fn entry() -> DesktopEntry {
    DesktopEntry {
        name: Some("Firefox".to_string()),
        comment: Some("Browse the Web".to_string()),
        categories: Some("GNOME;GTK;Network;WebBrowser;".to_string()),
        command: Some("firefox %u".to_string()),
        icon: Some("firefox".to_string()),
        no_display: None,
        hidden: None,
        actions: None,
    }
}

#[test]
fn format_exec_strips_field_codes() {
    assert_eq!(ApplicationResult::format_exec("firefox %u"), "firefox ");
    assert_eq!(ApplicationResult::format_exec("nautilus %F %U %f"), "nautilus   ");
    assert_eq!(ApplicationResult::format_exec("app --dir %D"), "app --dir ~");
    assert_eq!(ApplicationResult::format_exec("plain"), "plain");
    assert_eq!(ApplicationResult::format_exec("%%ff"), "%f");
}

#[test]
fn command_args_split_like_a_shell() {
    assert_eq!(
        ApplicationResult::command_args("env 'A B' run %f"),
        Some(vec!["env".to_string(), "A B".to_string(), "run".to_string()])
    );
    assert_eq!(ApplicationResult::command_args("%U"), None);
    assert_eq!(ApplicationResult::command_args("broken 'quote"), None);
}

#[test]
fn category_skips_generic_ones() {
    assert_eq!(ApplicationResult::choose_category(Some("GNOME;GTK;Utility;")), "UTILITY");
    assert_eq!(ApplicationResult::choose_category(Some("AudioVideo;Player;")), "AUDIO VIDEO");
    assert_eq!(ApplicationResult::choose_category(Some("Network;gtk;")), "APPLICATION");
    assert_eq!(ApplicationResult::choose_category(None), "APPLICATION");
    assert_eq!(ApplicationResult::choose_category(Some("")), "APPLICATION");
    // A non-ASCII category is shown in upper case without title-casing.
    assert_eq!(ApplicationResult::choose_category(Some("GTK;aÉ;")), "AÉ");
    assert_eq!(ApplicationResult::choose_category(Some("Büro")), "BÜRO");
}

#[test]
fn action_names_are_the_non_empty_pieces() {
    assert_eq!(action_names(Some("new-window;new-private-window;")), vec![
        "new-window".to_string(),
        "new-private-window".to_string(),
    ]);
    assert!(action_names(Some(";;")).is_empty());
    assert!(action_names(None).is_empty());
}

#[test]
fn entry_becomes_an_application() {
    let app = ApplicationResult::from_entry(&entry(), &vec![]).unwrap();
    assert_eq!(app.name, "Firefox");
    assert_eq!(app.description, "Browse the Web");
    assert_eq!(app.category, "WEB BROWSER");
    assert_eq!(app.command, "firefox %u");
    assert_eq!(app.icon, Some("firefox".to_string()));
    assert!(app.version.is_none());
    assert!(app.actions.is_none());
}

#[test]
fn entry_defaults_and_actions() {
    let mut e = entry();
    e.name = None;
    e.comment = None;
    let sections = vec![
        ActionSection { name: Some("New Window".to_string()), command: Some("firefox --new-window".to_string()) },
        ActionSection { name: None, command: Some("firefox -P".to_string()) },
    ];
    let app = ApplicationResult::from_entry(&e, &sections).unwrap();
    assert_eq!(app.name, "Unnamed Application");
    assert_eq!(app.description, "");
    let actions = app.actions.unwrap();
    assert_eq!(actions.len(), 2);
    assert_eq!(actions[0].name, "New Window");
    assert_eq!(actions[0].command, "firefox --new-window");
    assert_eq!(actions[1].name, "Unnamed Action");
}

#[test]
fn hidden_or_commandless_entries_are_skipped() {
    let mut e = entry();
    e.no_display = Some("true".to_string());
    assert!(ApplicationResult::from_entry(&e, &vec![]).is_none());
    let mut e = entry();
    e.hidden = Some("true".to_string());
    assert!(ApplicationResult::from_entry(&e, &vec![]).is_none());
    let mut e = entry();
    e.command = None;
    assert!(ApplicationResult::from_entry(&e, &vec![]).is_none());
    let mut e = entry();
    e.no_display = Some("false".to_string());
    assert!(ApplicationResult::from_entry(&e, &vec![]).is_some());
}

#[test]
fn application_ranking_uses_the_normalised_name() {
    let app = ApplicationResult::from_entry(&entry(), &vec![]).unwrap();
    assert_eq!(app.get_ranking("ff"), 17);
    assert_eq!(app.get_ranking("q"), 0);
}

#[test]
fn excluded_categories() {
    assert!(is_excluded(&"GNOME".to_string()));
    assert!(is_excluded(&"X-XFCE".to_string()));
    assert!(is_excluded(&String::new()));
    assert!(!is_excluded(&"gnome".to_string()));
    assert!(!is_excluded(&"UTILITY".to_string()));
}

#[test]
fn actions_without_command_are_skipped() {
    let sections = vec![
        ActionSection { name: Some("Broken".to_string()), command: None },
        ActionSection { name: Some("Private".to_string()), command: Some("firefox -private".to_string()) },
    ];
    let app = ApplicationResult::from_entry(&entry(), &sections).unwrap();
    let actions = app.actions.unwrap();
    assert_eq!(actions.len(), 1);
    assert_eq!(actions[0].name, "Private");
    let only_broken = vec![ActionSection { name: None, command: None }];
    let app = ApplicationResult::from_entry(&entry(), &only_broken).unwrap();
    assert_eq!(app.actions.map(|a| a.len()), Some(0));
}
