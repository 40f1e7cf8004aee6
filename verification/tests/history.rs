use faber::history::{DbHistory, SearchDirection};

#[test]
fn test_db_history_add_and_get() {
    let mut hist = DbHistory::new();
    hist.add("first");
    hist.add("second");
    let result = hist.get(0, SearchDirection::Forward).unwrap();
    assert_eq!(result.entry, "first");
    let result = hist.get(1, SearchDirection::Forward).unwrap();
    assert_eq!(result.entry, "second");
}

#[test]
fn test_db_history_len() {
    let mut hist = DbHistory::new();
    assert_eq!(hist.len(), 0);
    assert!(hist.is_empty());
    hist.add("first");
    assert_eq!(hist.len(), 1);
    assert!(!hist.is_empty());
}

#[test]
fn test_db_history_ignore_empty() {
    let mut hist = DbHistory::new();
    hist.add("");
    assert_eq!(hist.len(), 0);
}

#[test]
fn test_db_history_ignore_space() {
    let mut hist = DbHistory::new();
    hist.ignore_space = true;
    hist.add(" hidden");
    assert_eq!(hist.len(), 0);
}

#[test]
fn test_db_history_ignore_dups() {
    let mut hist = DbHistory::new();
    hist.add("same");
    hist.add("same");
    assert_eq!(hist.len(), 1);
}

#[test]
fn test_db_history_search() {
    let mut hist = DbHistory::new();
    hist.add("cargo build");
    hist.add("cargo test");
    hist.add("git status");

    let result = hist
        .search("cargo", 0, SearchDirection::Forward)
        .unwrap();
    assert_eq!(result.entry, "cargo build");

    let result = hist
        .search("cargo", 2, SearchDirection::Reverse)
        .unwrap();
    assert_eq!(result.entry, "cargo test");
}

#[test]
fn test_db_history_search_with_wildcards() {
    let mut hist = DbHistory::new();
    hist.add("test_file");
    hist.add("testXfile");

    let result = hist
        .search("test_file", 0, SearchDirection::Forward)
        .unwrap();
    assert_eq!(result.entry, "test_file");
}

#[test]
fn test_db_history_starts_with() {
    let mut hist = DbHistory::new();
    hist.add("cargo build");
    hist.add("cargo test");
    hist.add("git status");

    let result = hist
        .starts_with("cargo", 0, SearchDirection::Forward)
        .unwrap();
    assert_eq!(result.entry, "cargo build");

    let result = hist
        .starts_with("git", 0, SearchDirection::Forward)
        .unwrap();
    assert_eq!(result.entry, "git status");
}

#[test]
fn test_db_history_starts_with_wildcard_in_term() {
    let mut hist = DbHistory::new();
    hist.add("100% done");
    hist.add("something else");

    let result = hist
        .starts_with("100%", 0, SearchDirection::Forward)
        .unwrap();
    assert_eq!(result.entry, "100% done");
}

#[test]
fn test_db_history_clear() {
    let mut hist = DbHistory::new();
    hist.add("first");
    hist.add("second");
    hist.clear();
    assert_eq!(hist.len(), 0);
}

#[test]
fn test_db_history_max_len() {
    let mut hist = DbHistory::new();
    hist.set_max_len(3);
    for i in 0..5 {
        hist.add(&format!("entry{}", i));
    }
    assert_eq!(hist.len(), 3);
}

#[test]
fn test_db_history_reverse_get() {
    let mut hist = DbHistory::new();
    hist.add("first");
    hist.add("second");
    hist.add("third");

    let result = hist.get(2, SearchDirection::Reverse).unwrap();
    assert_eq!(result.entry, "third");
}

#[test]
fn test_db_history_search_not_found() {
    let mut hist = DbHistory::new();
    hist.add("hello");
    let result = hist
        .search("nonexistent", 0, SearchDirection::Forward);
    assert!(result.is_none());
}

#[test]
fn test_db_history_search_empty_term() {
    let mut hist = DbHistory::new();
    hist.add("hello");
    let result = hist.search("", 0, SearchDirection::Forward);
    assert!(result.is_none());
}
