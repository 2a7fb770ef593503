use cargo_config::lists::{append_novel, contains, purge};

fn list(items: &[&str]) -> Vec<String> {
    items.iter().map(|item| item.to_string()).collect()
}

#[test]
fn contains_finds_exact_names_only() {
    let items = list(&["alpha", "beta", ""]);
    assert!(contains(&items, &"alpha".to_string()));
    assert!(contains(&items, &"beta".to_string()));
    assert!(contains(&items, &String::new()));
    assert!(!contains(&items, &"alph".to_string()));
    assert!(!contains(&items, &"Beta".to_string()));
    assert!(!contains(&Vec::new(), &"alpha".to_string()));
}

#[test]
fn append_novel_adds_what_is_missing() {
    let mut base = list(&["y", "z"]);
    append_novel(&mut base, &list(&["x", "y", "w"]));
    assert_eq!(base, list(&["y", "z", "x", "w"]));
}

#[test]
fn append_novel_of_nothing_and_to_nothing() {
    let mut base = list(&["a", "a"]);
    append_novel(&mut base, &Vec::new());
    assert_eq!(base, list(&["a", "a"]));

    let mut empty: Vec<String> = Vec::new();
    append_novel(&mut empty, &list(&["b", "c", "b"]));
    assert_eq!(empty, list(&["b", "c", "b"]));
}

#[test]
fn append_novel_twice_is_append_novel_once() {
    let extra = list(&["x", "y", "x"]);
    let mut once = list(&["y"]);
    append_novel(&mut once, &extra);
    let mut twice = once.clone();
    append_novel(&mut twice, &extra);
    assert_eq!(once, list(&["y", "x", "x"]));
    assert_eq!(twice, once);
}

#[test]
fn append_novel_keeps_distinct_lists_distinct() {
    let mut base = list(&["a", "b", "c"]);
    append_novel(&mut base, &list(&["c", "d", "a", "e"]));
    assert_eq!(base, list(&["a", "b", "c", "d", "e"]));
}

#[test]
fn purge_splits_kept_from_removed() {
    let mut items = list(&["a", "b", "c", "b", "d"]);
    let removed = purge(&mut items, &list(&["b", "d", "q"]));
    assert_eq!(items, list(&["a", "c"]));
    assert_eq!(removed, list(&["b", "b", "d"]));
}

#[test]
fn purge_with_nothing_banned_keeps_all() {
    let mut items = list(&["a", "b"]);
    let removed = purge(&mut items, &Vec::new());
    assert_eq!(items, list(&["a", "b"]));
    assert!(removed.is_empty());
}

#[test]
fn purge_can_remove_all() {
    let mut items = list(&["a", "a"]);
    let removed = purge(&mut items, &list(&["a"]));
    assert!(items.is_empty());
    assert_eq!(removed, list(&["a", "a"]));
}
