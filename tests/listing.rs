use scout::catalogue::{dedup_applications, sort_and_dedup, sort_by_name};
use scout::desktop::ApplicationResult;
use scout::providers::DirectoryResult;
use scout::recent::{hidden, newest_first};

fn app(name: &str, command: &str) -> ApplicationResult {
    ApplicationResult {
        name: name.to_string(),
        description: String::new(),
        category: "APPLICATION".to_string(),
        version: None,
        command: command.to_string(),
        icon: None,
        actions: None,
    }
}

fn pairs(apps: &[ApplicationResult]) -> Vec<(String, String)> {
    apps.iter().map(|a| (a.name.clone(), a.command.clone())).collect()
}

#[test]
fn applications_sorted_by_name_stably() {
    let out = sort_by_name(vec![app("b", "1"), app("a", "2"), app("b", "3"), app("B", "4"), app("ab", "5")]);
    assert_eq!(pairs(&out), vec![
        ("B".to_string(), "4".to_string()),
        ("a".to_string(), "2".to_string()),
        ("ab".to_string(), "5".to_string()),
        ("b".to_string(), "1".to_string()),
        ("b".to_string(), "3".to_string()),
    ]);
}

#[test]
fn duplicate_applications_removed() {
    let out = sort_and_dedup(vec![app("Files", "nautilus"), app("Edit", "gedit"), app("Files", "nautilus"), app("Files", "thunar")]);
    assert_eq!(pairs(&out), vec![
        ("Edit".to_string(), "gedit".to_string()),
        ("Files".to_string(), "nautilus".to_string()),
        ("Files".to_string(), "thunar".to_string()),
    ]);
    // Only neighbours are compared.
    let out = dedup_applications(vec![app("a", "x"), app("b", "y"), app("a", "x")]);
    assert_eq!(out.len(), 3);
    assert!(sort_and_dedup(vec![]).is_empty());
}

#[test]
fn newest_first_keeps_ties_in_order() {
    let out = newest_first(vec![(5, 'a'), (9, 'b'), (5, 'c'), (u64::MAX, 'd'), (0, 'e')]);
    assert_eq!(out, vec![(u64::MAX, 'd'), (9, 'b'), (5, 'a'), (5, 'c'), (0, 'e')]);
}

#[test]
fn suggestions_skip_hidden_and_keep_five() {
    let entries: Vec<(u64, String)> = vec![
        (1, "one".to_string()),
        (7, ".cache".to_string()),
        (6, "six".to_string()),
        (3, "three".to_string()),
        (6, "six-b".to_string()),
        (2, "two".to_string()),
        (9, "nine".to_string()),
    ];
    let names: Vec<String> = DirectoryResult::get_suggested_files(entries).into_iter().map(|e| e.1).collect();
    assert_eq!(names, vec!["nine", "six", "six-b", "three", "two"]);
    assert!(DirectoryResult::get_suggested_files(vec![(1, ".x".to_string())]).is_empty());
    assert!(hidden(&".bashrc".to_string()));
    assert!(!hidden(&"notes".to_string()));
    assert!(!hidden(&String::new()));
}
