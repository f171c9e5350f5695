use gsftp::app_utils::sort_and_stringify;
use gsftp::listing::{sort_names, sort_plain};

fn names(v: &[&str]) -> Vec<String> {
    v.iter().map(|s| s.to_string()).collect()
}

#[test]
fn hidden_names_are_excluded_and_order_is_case_insensitive() {
    let raw = names(&[".hidden", "Banana", "apple"]);
    let listed = sort_and_stringify(&raw, false);
    assert_eq!(listed, names(&["apple", "Banana"]));
}

#[test]
fn hidden_names_show_when_asked_for() {
    let raw = names(&[".hidden", "Banana", "apple"]);
    let listed = sort_and_stringify(&raw, true);
    assert_eq!(listed, names(&[".hidden", "apple", "Banana"]));
}

#[test]
fn ties_keep_enumeration_order() {
    let raw = names(&["b", "B", "a"]);
    let listed = sort_and_stringify(&raw, false);
    assert_eq!(listed, names(&["a", "b", "B"]));
    let raw2 = names(&["B", "b", "a"]);
    let listed2 = sort_and_stringify(&raw2, false);
    assert_eq!(listed2, names(&["a", "B", "b"]));
}

#[test]
fn empty_names_are_dropped() {
    let raw = names(&["", "beta", "", "Alpha"]);
    let listed = sort_and_stringify(&raw, true);
    assert_eq!(listed, names(&["Alpha", "beta"]));
}

#[test]
fn empty_listing_stays_empty() {
    let raw: Vec<String> = Vec::new();
    let listed = sort_and_stringify(&raw, false);
    assert!(listed.is_empty());
}

#[test]
fn plain_sort_is_byte_order() {
    let raw = names(&["banana", "Apple", "cherry"]);
    let sorted = sort_plain(raw);
    assert_eq!(sorted, names(&["Apple", "banana", "cherry"]));
}

#[test]
fn plain_keyed_filter_sort_keeps_hidden_flag() {
    let raw = names(&[".git", "src", "Cargo.toml"]);
    let listed = sort_names(&raw, false, false);
    assert_eq!(listed, names(&["Cargo.toml", "src"]));
    let all = sort_names(&raw, true, false);
    assert_eq!(all, names(&[".git", "Cargo.toml", "src"]));
}

#[test]
fn lowercase_key_reorders_against_byte_order() {
    let raw = names(&["Zebra", "apple"]);
    assert_eq!(sort_and_stringify(&raw, false), names(&["apple", "Zebra"]));
    assert_eq!(sort_plain(raw), names(&["Zebra", "apple"]));
}
