use fpm::collect::{add_sorted, non_empty, sort, take_line};

fn list(items: &[&str]) -> Vec<String> {
    items.iter().map(|s| s.to_string()).collect()
}

#[test]
fn sort_agrees_with_the_standard_order() {
    for items in [
        vec![],
        vec!["b", "a"],
        vec!["b", "a", "b", "", "ab", "a"],
        vec!["é", "z", "e", "日本", "Z", "ee", "\u{10000}", "\u{ffff}"],
        vec!["rust", "cli", "Rust", "c", "cl i"],
    ] {
        let mut expected = list(&items);
        expected.sort();
        assert_eq!(sort(list(&items)), expected);
    }
}

#[test]
fn added_item_finds_its_place() {
    let mut tags = list(&["web", "cli"]);
    add_sorted(&mut tags, "db".to_owned());
    assert_eq!(tags, list(&["cli", "db", "web"]));
    add_sorted(&mut tags, "cli".to_owned());
    assert_eq!(tags, list(&["cli", "cli", "db", "web"]));
}

#[test]
fn empty_line_ends_the_gathering() {
    let mut tags = list(&["b", "a"]);
    assert!(!take_line(&mut tags, String::new()));
    assert_eq!(tags, list(&["b", "a"]));
    assert!(take_line(&mut tags, " ".to_owned()));
    assert_eq!(tags, list(&[" ", "a", "b"]));
}

#[test]
fn empty_answer_is_no_answer() {
    assert_eq!(non_empty(String::new()), None);
    assert_eq!(non_empty("x".to_owned()), Some("x".to_owned()));
    assert_eq!(non_empty(" ".to_owned()), Some(" ".to_owned()));
}
