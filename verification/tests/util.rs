use runtime::dedup_preserve_order;

#[test]
fn dedup_preserves_order() {
    let v = vec!["a", "b", "a", "c", "b", "d"];
    assert_eq!(dedup_preserve_order(&v), vec!["a", "b", "c", "d"]);
}

#[test]
fn dedup_empty() {
    let v: Vec<&str> = vec![];
    assert!(dedup_preserve_order(&v).is_empty());
}

#[test]
fn dedup_no_duplicates() {
    let v = vec!["a", "b", "c"];
    assert_eq!(dedup_preserve_order(&v), v);
}

#[test]
fn dedup_twice_is_dedup_once() {
    let once = dedup_preserve_order(&["x", "y", "x", "x", "z", "y"]);
    assert_eq!(once, vec!["x", "y", "z"]);
    assert_eq!(dedup_preserve_order(&once), once);
}

#[test]
fn dedup_compares_whole_names() {
    assert_eq!(dedup_preserve_order(&["a", "ab", "A", ""]), vec!["a", "ab", "A", ""]);
}
