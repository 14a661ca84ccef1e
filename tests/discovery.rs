use kenchiku::discovery::{discover_scaffold, search_dirs, Discovery};

fn candidates(name: &str, path_env: &str) -> Vec<String> {
    match discover_scaffold(name, path_env) {
        Discovery::Search(c) => c,
        Discovery::Literal(_) => panic!("expected a search"),
    }
}

#[test]
fn test_find_directories_in_path_empty() {
    assert_eq!(candidates("test_dir", "").len(), 0);
}

#[test]
fn test_find_scaffold_directories_in_path_empty_path() {
    assert_eq!(search_dirs("").len(), 0);
}

#[test]
fn search_path_skips_empty_entries() {
    assert_eq!(search_dirs("/a::/b:"), vec!["/a".to_string(), "/b".to_string()]);
    assert_eq!(candidates("test", "/a::/b/"), vec!["/a/test".to_string(), "/b/test".to_string()]);
}

#[test]
fn literal_paths_are_not_searched() {
    assert!(matches!(discover_scaffold("./local", "/a"), Discovery::Literal(p) if p == "./local"));
    assert!(matches!(discover_scaffold("/abs/dir", "/a"), Discovery::Literal(p) if p == "/abs/dir"));
    assert!(matches!(discover_scaffold("name", "/a"), Discovery::Search(_)));
}
