use cdd::filesystem::{file_search, first_found, search_paths};

#[test]
fn test_find_file() {
    assert_eq!(file_search("fakefile", true, false), None);
    // A file that the working directory of the tests always holds.
    assert_eq!(file_search("src/lib.rs", true, false).is_some(), true);
    assert_eq!(file_search("Cargo.toml", false, false), None);
}

#[test]
fn search_paths_in_order() {
    assert_eq!(search_paths("a.yml", true, Some("/home/me".to_string())), vec!["./a.yml".to_string(), "/home/me/a.yml".to_string()]);
    assert!(search_paths("a.yml", false, None).is_empty());
}

#[test]
fn first_readable_path_wins() {
    assert_eq!(first_found(&vec![None, Some("b".to_string()), Some("c".to_string())]), Some("b".to_string()));
    assert_eq!(first_found(&vec![None, None]), None);
    assert_eq!(first_found(&vec![]), None);
}
