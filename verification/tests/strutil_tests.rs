use gsftp::strutil::{chars_of, split_lines, split_on, string_from_chars, trim_trailing_newline};

#[test]
fn characters_round_trip_through_a_vector() {
    let v = chars_of("héllo/世界");
    let s = string_from_chars(&v);
    assert_eq!(s, "héllo/世界");
}

#[test]
fn one_trailing_newline_is_trimmed() {
    let trimmed = trim_trailing_newline("/home/user\n");
    assert_eq!(string_from_chars(&trimmed), "/home/user");
    let kept = trim_trailing_newline("/home/user");
    assert_eq!(string_from_chars(&kept), "/home/user");
    let inner = trim_trailing_newline("a\nb\n\n");
    assert_eq!(string_from_chars(&inner), "a\nb\n");
}

#[test]
fn splitting_keeps_every_piece() {
    assert_eq!(split_on("a.b..c", '.'), vec!["a", "b", "", "c"]);
    assert_eq!(split_on("", '.'), vec![""]);
    assert_eq!(split_on("...", '.'), vec!["", "", "", ""]);
}

#[test]
fn lines_drop_only_the_trailing_empty_piece() {
    assert_eq!(split_lines("a\nb"), vec!["a", "b"]);
    assert_eq!(split_lines("a\nb\n"), vec!["a", "b"]);
    assert_eq!(split_lines("a\n\nb"), vec!["a", "", "b"]);
    assert!(split_lines("").is_empty());
}
