use gsftp::app::App;
use gsftp::app_utils::{ActiveState, AppBuf, AppContent, AppState};
use gsftp::AbsPath;

fn names(v: &[&str]) -> Vec<String> {
    v.iter().map(|s| s.to_string()).collect()
}

fn test_app(local: &[&str], remote: &[&str]) -> App {
    let content = AppContent { local: names(local), remote: names(remote) };
    let local_sel = if local.is_empty() { None } else { Some(0) };
    let remote_sel = if remote.is_empty() { None } else { Some(0) };
    App {
        buf: AppBuf { local: AbsPath::parse("/tmp/src"), remote: AbsPath::parse("/home/user") },
        content,
        state: AppState { local: local_sel, remote: remote_sel, active: ActiveState::Local },
        show_help: false,
        show_hidden: false,
    }
}

#[test]
fn move_down_stops_at_the_last_entry() {
    let mut app = test_app(&["a", "b", "c"], &[]);
    app.move_down();
    assert_eq!(app.state.local, Some(1));
    app.move_down();
    assert_eq!(app.state.local, Some(2));
    app.move_down();
    assert_eq!(app.state.local, Some(2));
}

#[test]
fn move_up_stops_at_the_first_entry() {
    let mut app = test_app(&["a", "b"], &[]);
    app.move_down();
    app.move_up();
    assert_eq!(app.state.local, Some(0));
    app.move_up();
    assert_eq!(app.state.local, Some(0));
}

#[test]
fn moves_in_an_empty_pane_are_no_ops() {
    let mut app = test_app(&[], &["x"]);
    app.move_down();
    assert_eq!(app.state.local, None);
    app.move_up();
    assert_eq!(app.state.local, None);
    app.jump_top();
    assert_eq!(app.state.local, None);
    app.jump_bottom();
    assert_eq!(app.state.local, None);
}

#[test]
fn jumps_reach_both_ends() {
    let mut app = test_app(&["a", "b", "c", "d"], &[]);
    app.jump_bottom();
    assert_eq!(app.state.local, Some(3));
    app.jump_top();
    assert_eq!(app.state.local, Some(0));
}

#[test]
fn switching_panes_twice_restores_the_active_pane() {
    let mut app = test_app(&["a"], &["b", "c"]);
    app.move_down();
    assert!(matches!(app.state.active, ActiveState::Local));
    app.switch_pane();
    assert!(matches!(app.state.active, ActiveState::Remote));
    app.switch_pane();
    assert!(matches!(app.state.active, ActiveState::Local));
}

#[test]
fn switching_panes_never_moves_either_cursor() {
    let mut app = test_app(&["a", "b"], &["c", "d"]);
    app.move_down();
    let local_before = app.state.local;
    let remote_before = app.state.remote;
    app.switch_pane();
    assert_eq!(app.state.local, local_before);
    assert_eq!(app.state.remote, remote_before);
    app.switch_pane();
    assert_eq!(app.state.local, local_before);
    assert_eq!(app.state.remote, remote_before);
}

#[test]
fn entering_a_non_directory_changes_nothing() {
    let mut app = test_app(&["notes.txt"], &[]);
    let new_names = names(&["should", "not", "appear"]);
    app.cd_into_local(false, &new_names);
    assert_eq!(app.buf.local.to_text(), "/tmp/src");
    assert_eq!(app.content.local, names(&["notes.txt"]));
}

#[test]
fn entering_with_an_empty_listing_changes_nothing() {
    let mut app = test_app(&[], &[]);
    let new_names = names(&["should", "not", "appear"]);
    app.cd_into_local(true, &new_names);
    assert_eq!(app.buf.local.to_text(), "/tmp/src");
    assert!(app.content.local.is_empty());
}

#[test]
fn enter_then_exit_restores_directory_and_listing() {
    let raw_before = &["docs", "music", "Pictures"];
    let mut app = test_app(raw_before, &[]);
    let listing_before = app.content.local.clone();

    let inside = names(&["inner.txt"]);
    app.cd_into_local(true, &inside);
    assert_eq!(app.buf.local.to_text(), "/tmp/src/docs");
    assert_eq!(app.content.local, names(&["inner.txt"]));
    assert_eq!(app.state.local, Some(0));

    app.cd_out_of_local(&names(raw_before));
    assert_eq!(app.buf.local.to_text(), "/tmp/src");
    assert_eq!(app.content.local, listing_before);
    assert_eq!(app.state.local, Some(0));
}

#[test]
fn entering_resets_selection_to_none_for_an_empty_directory() {
    let mut app = test_app(&["empty_dir"], &[]);
    let inside: Vec<String> = Vec::new();
    app.cd_into_local(true, &inside);
    assert_eq!(app.buf.local.to_text(), "/tmp/src/empty_dir");
    assert_eq!(app.state.local, None);
}

#[test]
fn toggle_help_flips_only_the_flag() {
    let mut app = test_app(&["a"], &[]);
    app.toggle_help();
    assert!(app.show_help);
    app.toggle_help();
    assert!(!app.show_help);
}
