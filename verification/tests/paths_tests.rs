use gsftp::AbsPath;

fn segs(p: &AbsPath) -> Vec<String> {
    p.segs.clone()
}

#[test]
fn parse_splits_on_slashes_and_drops_empties() {
    let p = AbsPath::parse("/home//user/");
    assert_eq!(segs(&p), vec!["home".to_string(), "user".to_string()]);
}

#[test]
fn to_text_renders_root_and_nested_paths() {
    assert_eq!(AbsPath::root().to_text(), "/");
    let p = AbsPath::parse("/home/user");
    assert_eq!(p.to_text(), "/home/user");
}

#[test]
fn parse_then_render_round_trips_canonical_paths() {
    for text in ["/", "/tmp", "/home/user/docs"] {
        assert_eq!(AbsPath::parse(text).to_text(), text);
    }
}

#[test]
fn pop_of_root_is_root() {
    let mut p = AbsPath::root();
    p.pop();
    assert_eq!(p.to_text(), "/");
}

#[test]
fn push_then_pop_restores_the_directory() {
    let mut p = AbsPath::parse("/home/user");
    p.push("docs".to_string());
    assert_eq!(p.to_text(), "/home/user/docs");
    p.pop();
    assert_eq!(p.to_text(), "/home/user");
}

#[test]
fn join_appends_one_segment_without_moving_the_base() {
    let p = AbsPath::parse("/srv");
    let q = p.join(&"data".to_string());
    assert_eq!(q.to_text(), "/srv/data");
    assert_eq!(p.to_text(), "/srv");
}
