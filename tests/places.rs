use scout::files::{FileInfo, FileMeta, FileType};

use scout::preferences::{default_opacity, Preferences};
use scout::providers::{
    directory_label, display_path, matching_labels, web_search_results, web_search_score,
    DirectoryResult, SearchEngine, WebSearchResult,
};

#[test]
fn directory_icons_by_path() {
    assert_eq!(FileInfo::icon_name_from_directory("/home/ann/Documents"), "folder-documents");
    assert_eq!(FileInfo::icon_name_from_directory("/home/ann/Downloads/"), "folder-download");
    assert_eq!(FileInfo::icon_name_from_directory("//home//ann//Videos"), "folder-videos");
    assert_eq!(FileInfo::icon_name_from_directory("/home/ann/Projects"), "folder");
    assert_eq!(FileInfo::icon_name_from_directory("/srv/ann/Music"), "folder");
    assert_eq!(FileInfo::icon_name_from_directory("/home/ann/Music/old"), "folder");
    assert_eq!(FileInfo::icon_name_from_directory(""), "folder");
}

#[test]
fn directory_icons_by_description() {
    assert_eq!(DirectoryResult::get_dir_icon("Home"), "user-home");
    assert_eq!(DirectoryResult::get_dir_icon("Pictures"), "folder-pictures");
    assert_eq!(DirectoryResult::get_dir_icon("Public"), "folder-publicshare");
    assert_eq!(DirectoryResult::get_dir_icon("Templates"), "folder-templates");
    assert_eq!(DirectoryResult::get_dir_icon("Fonts"), "folder");
}

#[test]
fn file_info_for_file_and_directory() {
    let meta = FileMeta { is_dir: false, is_symlink: true, len: 42, entry_count: 0, modified: 7 };
    let f = FileInfo::new("notes.txt", "/tmp/notes.txt", &meta, "text-x-generic");
    assert_eq!(f.file_type, FileType::File("text/plain".to_string()));
    assert_eq!(f.size, 42);
    assert_eq!(f.icon, "text-x-generic");
    assert!(f.is_symlink);
    let meta = FileMeta { is_dir: true, is_symlink: false, len: 4096, entry_count: 3, modified: 9 };
    let d = FileInfo::new("Music", "/home/ann/Music", &meta, "unused");
    assert_eq!(d.file_type, FileType::Directory);
    assert_eq!(d.size, 3);
    assert_eq!(d.icon, "folder-music");
    assert_eq!(d.modified, 9);
}

#[test]
fn mime_type_from_extension() {
    assert_eq!(FileInfo::mime_type("a/b/page.html"), "text/html");
    assert_eq!(FileInfo::mime_type("README"), "");
}

#[test]
fn preferences_defaults_and_path() {
    let p = Preferences::defaults("/tmp/scout.conf".to_string());
    assert_eq!(p.opacity, 90);
    assert_eq!(default_opacity(), 90);
    assert!(p.hide_on_unfocus);
    assert!(p.always_on_top);
    assert!(!p.developer);
    assert_eq!(Preferences::config_path("ann"), "/home/ann/.config/scout.conf");
}

#[test]
fn web_search_scores_and_urls() {
    assert_eq!(web_search_score("abc"), 16);
    let engines = SearchEngine::defaults();
    assert_eq!(web_search_results(&engines, ""), vec![]);
    assert_eq!(web_search_results(&engines, "ab"), vec![(11, 0)]);
    assert_eq!(
        engines[0].search_url("hello world&more"),
        Some("https://google.com/search?q=hello+world%26more".to_string())
    );
    let bad = SearchEngine {
        name: "Bad".to_string(),
        base_url: "not a url".to_string(),
        query_argument: "q".to_string(),
        icon: None,
    };
    assert_eq!(bad.search_url("x"), None);
}

#[test]
fn matching_labels_keeps_positive_scores_in_order() {
    let labels = vec!["Firefox".to_string(), "Terminal".to_string(), "Files".to_string()];
    assert_eq!(matching_labels(&labels, "fi"), vec![(20, 0), (6, 1), (20, 2)]);
    assert_eq!(matching_labels(&labels, "zz"), vec![]);
}

#[test]
fn display_paths_relative_to_home() {
    assert_eq!(display_path("/home/ann/Music", "/home/ann"), "Music/");
    assert_eq!(display_path("/home/ann", "/home/ann"), "/home/ann/");
    assert_eq!(display_path("/usr/share", "/home/ann"), "/usr/share/");
}

#[test]
fn directory_labels() {
    assert_eq!(directory_label(Some("Home"), "/home/ann"), Some("Home".to_string()));
    assert_eq!(directory_label(None, "/home/ann/Music/"), Some("Music".to_string()));
    assert_eq!(directory_label(None, "/"), None);
    assert_eq!(directory_label(None, "/home/u/Music/."), Some("Music".to_string()));
    assert_eq!(directory_label(None, "/home/u/./Music/./"), Some("Music".to_string()));
    assert_eq!(directory_label(None, "/home/u/.."), None);
    assert_eq!(directory_label(None, "."), None);
    assert_eq!(directory_label(None, ".hidden"), Some(".hidden".to_string()));
}

#[test]
fn directory_result_from_path() {
    let d = DirectoryResult::new(None, "/home/ann/Music", "/home/ann").unwrap();
    assert_eq!(d.description, "Music");
    assert_eq!(d.icon, "folder-music");
    assert_eq!(d.path_str, "Music/");
    assert_eq!(d.path, "/home/ann/Music");
    assert_eq!(d.get_ranking("mu"), 20);
    let h = DirectoryResult::new(Some("Home"), "/home/ann", "/home/ann").unwrap();
    assert_eq!(h.icon, "user-home");
    assert_eq!(h.path_str, "/home/ann/");
    assert!(DirectoryResult::new(None, "/", "/home/ann").is_none());
}

#[test]
fn web_search_result_url_and_score() {
    let engine = SearchEngine::defaults().remove(0);
    let r = WebSearchResult::new(engine, "rust lang");
    assert_eq!(r.get_ranking("rust lang"), 46);
    assert_eq!(r.url(), Some("https://google.com/search?q=rust+lang".to_string()));
}
