use gsftp::app::App;
use gsftp::app_utils::{ActiveState, AppBuf, AppContent, AppState};
use gsftp::file_transfer::{
    op_aborts, plan_ops, FsTree, OpOutcome, Transfer, TransferError, TransferOp,
};
use gsftp::AbsPath;

fn names(v: &[&str]) -> Vec<String> {
    v.iter().map(|s| s.to_string()).collect()
}

fn op_path(op: &TransferOp) -> String {
    match op {
        TransferOp::MakeDir(p) => p.to_text(),
        TransferOp::WriteFile(p, _) => p.to_text(),
    }
}

#[test]
fn a_single_file_plans_one_byte_identical_write() {
    let payload = b"some file content".to_vec();
    let tree = FsTree::File(payload.clone());
    let dest = AbsPath::parse("/tmp/dst/a.txt");
    let ops = plan_ops(&dest, &tree);
    assert_eq!(ops.len(), 1);
    match &ops[0] {
        TransferOp::WriteFile(p, bytes) => {
            assert_eq!(p.to_text(), "/tmp/dst/a.txt");
            assert_eq!(bytes, &payload);
        },
        other => panic!("expected a write, planned {:?}", other),
    }
}

#[test]
fn a_directory_tree_plans_parents_before_contents() {
    // /tmp/src holds a.txt and b/ (with c.txt inside); uploading it to
    // /tmp/dst must mirror both files with matching bytes.
    let tree = FsTree::Dir(vec![
        ("a.txt".to_string(), FsTree::File(b"alpha".to_vec())),
        (
            "b".to_string(),
            FsTree::Dir(vec![("c.txt".to_string(), FsTree::File(b"gamma".to_vec()))]),
        ),
    ]);
    let dest = AbsPath::parse("/tmp/dst");
    let ops = plan_ops(&dest, &tree);
    let paths: Vec<String> = ops.iter().map(op_path).collect();
    assert_eq!(
        paths,
        vec![
            "/tmp/dst".to_string(),
            "/tmp/dst/a.txt".to_string(),
            "/tmp/dst/b".to_string(),
            "/tmp/dst/b/c.txt".to_string(),
        ]
    );
    assert!(matches!(&ops[0], TransferOp::MakeDir(_)));
    match &ops[1] {
        TransferOp::WriteFile(_, bytes) => assert_eq!(bytes, &b"alpha".to_vec()),
        other => panic!("expected a write, planned {:?}", other),
    }
    assert!(matches!(&ops[2], TransferOp::MakeDir(_)));
    match &ops[3] {
        TransferOp::WriteFile(_, bytes) => assert_eq!(bytes, &b"gamma".to_vec()),
        other => panic!("expected a write, planned {:?}", other),
    }
}

#[test]
fn symbolic_links_are_left_out_of_the_plan() {
    let tree = FsTree::Dir(vec![
        ("real.txt".to_string(), FsTree::File(b"kept".to_vec())),
        ("loop".to_string(), FsTree::Link),
        ("sub".to_string(), FsTree::Dir(vec![("evil".to_string(), FsTree::Link)])),
    ]);
    let dest = AbsPath::parse("/dst");
    let ops = plan_ops(&dest, &tree);
    let paths: Vec<String> = ops.iter().map(op_path).collect();
    assert_eq!(
        paths,
        vec!["/dst".to_string(), "/dst/real.txt".to_string(), "/dst/sub".to_string()]
    );
}

#[test]
fn a_lone_symlink_plans_nothing() {
    let ops = plan_ops(&AbsPath::parse("/dst/link"), &FsTree::Link);
    assert!(ops.is_empty());
}

#[test]
fn a_refused_creation_is_swallowed_and_the_walk_continues() {
    assert!(op_aborts(OpOutcome::CreateRefused).is_none());
    assert!(op_aborts(OpOutcome::Completed).is_none());
    let aborted = op_aborts(OpOutcome::Failed(TransferError::from("disk gone")));
    match aborted {
        Some(e) => assert_eq!(e.message(), "TRANSFER ERROR: disk gone"),
        None => panic!("a failed write must abort the walk"),
    }
}

#[test]
fn transfer_error_text_carries_its_cause() {
    let e = TransferError::from("connection reset");
    assert_eq!(e.message(), "TRANSFER ERROR: connection reset");
}

fn empty_pane_app() -> App {
    App {
        buf: AppBuf { local: AbsPath::parse("/tmp/src"), remote: AbsPath::parse("/home/user") },
        content: AppContent { local: Vec::new(), remote: Vec::new() },
        state: AppState { local: None, remote: None, active: ActiveState::Local },
        show_help: false,
        show_hidden: false,
    }
}

#[test]
fn triggering_a_transfer_with_an_empty_listing_is_a_no_op() {
    let app = empty_pane_app();
    let sess = ssh2::Session::new().expect("session allocation");
    assert!(Transfer::upload(&app, &sess).is_none());
    assert!(Transfer::download(&app, &sess).is_none());
}

#[test]
fn a_triggered_upload_snapshots_the_selected_paths() {
    let mut app = empty_pane_app();
    app.content.local = names(&["notes.txt", "music"]);
    app.state.local = Some(1);
    let sess = ssh2::Session::new().expect("session allocation");
    match Transfer::upload(&app, &sess) {
        Some(t) => {
            assert_eq!(t.from.to_text(), "/tmp/src/music");
            assert_eq!(t.to.to_text(), "/home/user/music");
        },
        // Opening the SFTP channel may be refused without a connection;
        // the trigger must still be a clean no-op, never a panic.
        None => {},
    }
}
