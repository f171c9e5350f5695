//! The transfer engine: a one-shot recursive copy of a file or a subtree
//! from one backend to the other.
//!
//! A transfer first snapshots the source subtree, then plans the flat list
//! of operations — make this directory, write these bytes there — that
//! mirrors the subtree onto the destination, parents before their contents
//! and symbolic links left out.  The planner is pure and fully verified;
//! the operations are then carried out against the destination backend.

use vstd::prelude::*;

use crate::app::App;
use crate::paths::AbsPath;
use crate::sftp::{
    channel_exec, file_read_all, file_write_all, pause_briefly, session_channel, session_clone,
    session_sftp, sftp_create, sftp_open, sftp_opendir_ok, sftp_readdir, file_is_regular,
};

verus! {

/// A snapshot of a source subtree: a file's bytes, a directory's named
/// children in enumeration order, or a symbolic link (never followed).
#[derive(Debug)]
pub enum FsTree {
    File(Vec<u8>),
    Dir(Vec<(String, FsTree)>),
    Link,
}

/// One step of carrying a transfer out on the destination.
#[derive(Debug)]
pub enum TransferOp {
    MakeDir(AbsPath),
    WriteFile(AbsPath, Vec<u8>),
}

/// The mathematical form of one operation.
pub enum OpView {
    MakeDir { path: Seq<Seq<char>> },
    WriteFile { path: Seq<Seq<char>>, bytes: Seq<u8> },
}

impl View for TransferOp {
    type V = OpView;

    open spec fn view(&self) -> OpView {
        match self {
            TransferOp::MakeDir(p) => OpView::MakeDir { path: p@ },
            TransferOp::WriteFile(p, b) => OpView::WriteFile { path: p@, bytes: b@ },
        }
    }
}

/// The operations of a sequence, as their mathematical forms.
pub open spec fn ops_views(ops: Seq<TransferOp>) -> Seq<OpView> {
    ops.map_values(|op: TransferOp| op@)
}

/// The planned operations for mirroring `t` onto the destination path
/// `dest`: a file is one write; a symbolic link is nothing at all; a
/// directory is its own creation followed by the plans of its children in
/// enumeration order.
pub open spec fn plan_spec(dest: Seq<Seq<char>>, t: FsTree) -> Seq<OpView>
    decreases t, 0int,
{
    match t {
        FsTree::File(b) => seq![OpView::WriteFile { path: dest, bytes: b@ }],
        FsTree::Link => Seq::empty(),
        FsTree::Dir(cs) => seq![OpView::MakeDir { path: dest }] + plan_children(
            dest,
            cs@,
            cs@.len() as int,
        ),
    }
}

/// The concatenated plans of the first `n` children of a directory at
/// `dest`.
pub open spec fn plan_children(
    dest: Seq<Seq<char>>,
    cs: Seq<(String, FsTree)>,
    n: int,
) -> Seq<OpView>
    decreases cs, n,
{
    if n <= 0 || cs.len() < n {
        Seq::empty()
    } else {
        plan_children(dest, cs, n - 1) + plan_entry(dest, cs[n - 1])
    }
}

/// The plan of one named child: its subtree mirrored one level down.
pub open spec fn plan_entry(dest: Seq<Seq<char>>, entry: (String, FsTree)) -> Seq<OpView>
    decreases entry, 1int,
{
    plan_spec(dest.push(entry.0@), entry.1)
}

/// The regular files of a subtree, as relative paths with their bytes, in
/// enumeration order.  Symbolic links contribute nothing.
pub open spec fn flat_files(t: FsTree) -> Seq<(Seq<Seq<char>>, Seq<u8>)>
    decreases t, 0int,
{
    match t {
        FsTree::File(b) => seq![(Seq::<Seq<char>>::empty(), b@)],
        FsTree::Link => Seq::empty(),
        FsTree::Dir(cs) => files_children(cs@, cs@.len() as int),
    }
}

/// The regular files of the first `n` children of a directory.
pub open spec fn files_children(cs: Seq<(String, FsTree)>, n: int) -> Seq<
    (Seq<Seq<char>>, Seq<u8>),
>
    decreases cs, n,
{
    if n <= 0 || cs.len() < n {
        Seq::empty()
    } else {
        files_children(cs, n - 1) + files_entry(cs[n - 1])
    }
}

/// The regular files of one named child, one level down.
pub open spec fn files_entry(entry: (String, FsTree)) -> Seq<(Seq<Seq<char>>, Seq<u8>)>
    decreases entry, 1int,
{
    with_prefix(seq![entry.0@], flat_files(entry.1))
}

/// The directories of a subtree, as relative paths, parents first, in
/// enumeration order.  Symbolic links contribute nothing.
pub open spec fn flat_dirs(t: FsTree) -> Seq<Seq<Seq<char>>>
    decreases t, 0int,
{
    match t {
        FsTree::File(_) => Seq::empty(),
        FsTree::Link => Seq::empty(),
        FsTree::Dir(cs) => seq![Seq::<Seq<char>>::empty()] + dirs_children(cs@, cs@.len() as int),
    }
}

/// The directories of the first `n` children of a directory.
pub open spec fn dirs_children(cs: Seq<(String, FsTree)>, n: int) -> Seq<Seq<Seq<char>>>
    decreases cs, n,
{
    if n <= 0 || cs.len() < n {
        Seq::empty()
    } else {
        dirs_children(cs, n - 1) + dirs_entry(cs[n - 1])
    }
}

/// The directories of one named child, one level down.
pub open spec fn dirs_entry(entry: (String, FsTree)) -> Seq<Seq<Seq<char>>>
    decreases entry, 1int,
{
    with_prefix_paths(seq![entry.0@], flat_dirs(entry.1))
}

/// Each file moved under the path prefix `p`.
pub open spec fn with_prefix(p: Seq<Seq<char>>, files: Seq<(Seq<Seq<char>>, Seq<u8>)>) -> Seq<
    (Seq<Seq<char>>, Seq<u8>),
> {
    files.map_values(|f: (Seq<Seq<char>>, Seq<u8>)| (p + f.0, f.1))
}

/// Each path moved under the path prefix `p`.
pub open spec fn with_prefix_paths(p: Seq<Seq<char>>, dirs: Seq<Seq<Seq<char>>>) -> Seq<
    Seq<Seq<char>>,
> {
    dirs.map_values(|d: Seq<Seq<char>>| p + d)
}

/// The write operations of a plan, in order.
pub open spec fn write_ops(ops: Seq<OpView>) -> Seq<(Seq<Seq<char>>, Seq<u8>)>
    decreases ops.len(),
{
    if ops.len() == 0 {
        Seq::empty()
    } else {
        let rest = write_ops(ops.drop_first());
        match ops[0] {
            OpView::WriteFile { path, bytes } => seq![(path, bytes)] + rest,
            OpView::MakeDir { .. } => rest,
        }
    }
}

/// The directory-creation operations of a plan, in order.
pub open spec fn mkdir_ops(ops: Seq<OpView>) -> Seq<Seq<Seq<char>>>
    decreases ops.len(),
{
    if ops.len() == 0 {
        Seq::empty()
    } else {
        let rest = mkdir_ops(ops.drop_first());
        match ops[0] {
            OpView::MakeDir { path } => seq![path] + rest,
            OpView::WriteFile { .. } => rest,
        }
    }
}

proof fn lemma_ops_single(op: OpView)
    ensures
        op matches OpView::WriteFile { path, bytes } ==> write_ops(seq![op]) == seq![(path, bytes)]
            && mkdir_ops(seq![op]) == Seq::<Seq<Seq<char>>>::empty(),
        op matches OpView::MakeDir { path } ==> mkdir_ops(seq![op]) == seq![path] && write_ops(
            seq![op],
        ) == Seq::<(Seq<Seq<char>>, Seq<u8>)>::empty(),
{
    let s = seq![op];
    assert(s.len() == 1);
    assert(s[0] == op);
    assert(s.drop_first() =~= Seq::<OpView>::empty());
    assert(write_ops(Seq::<OpView>::empty()) == Seq::<(Seq<Seq<char>>, Seq<u8>)>::empty());
    assert(mkdir_ops(Seq::<OpView>::empty()) == Seq::<Seq<Seq<char>>>::empty());
    match op {
        OpView::WriteFile { path, bytes } => {
            assert(write_ops(s) =~= seq![(path, bytes)]);
            assert(mkdir_ops(s) =~= Seq::<Seq<Seq<char>>>::empty());
        },
        OpView::MakeDir { path } => {
            assert(mkdir_ops(s) =~= seq![path]);
            assert(write_ops(s) =~= Seq::<(Seq<Seq<char>>, Seq<u8>)>::empty());
        },
    }
}

proof fn lemma_write_ops_add(a: Seq<OpView>, b: Seq<OpView>)
    ensures
        write_ops(a + b) == write_ops(a) + write_ops(b),
        mkdir_ops(a + b) == mkdir_ops(a) + mkdir_ops(b),
    decreases a.len(),
{
    if a.len() == 0 {
        assert(a + b =~= b);
        assert(write_ops(a) + write_ops(b) =~= write_ops(b));
        assert(mkdir_ops(a) + mkdir_ops(b) =~= mkdir_ops(b));
    } else {
        assert((a + b).drop_first() =~= a.drop_first() + b);
        assert((a + b)[0] == a[0]);
        assert((a + b).len() > 0);
        lemma_write_ops_add(a.drop_first(), b);
        match a[0] {
            OpView::WriteFile { path, bytes } => {
                assert(write_ops(a + b) == seq![(path, bytes)] + (write_ops(a.drop_first())
                    + write_ops(b)));
                assert(seq![(path, bytes)] + (write_ops(a.drop_first()) + write_ops(b)) =~= (
                seq![(path, bytes)] + write_ops(a.drop_first())) + write_ops(b));
                assert(mkdir_ops(a + b) == mkdir_ops(a.drop_first()) + mkdir_ops(b));
            },
            OpView::MakeDir { path } => {
                assert(mkdir_ops(a + b) == seq![path] + (mkdir_ops(a.drop_first()) + mkdir_ops(
                    b,
                )));
                assert(seq![path] + (mkdir_ops(a.drop_first()) + mkdir_ops(b)) =~= (seq![path]
                    + mkdir_ops(a.drop_first())) + mkdir_ops(b));
            },
        }
    }
}

proof fn lemma_prefix_add(p: Seq<Seq<char>>, a: Seq<(Seq<Seq<char>>, Seq<u8>)>, b: Seq<
    (Seq<Seq<char>>, Seq<u8>)>)
    ensures
        with_prefix(p, a + b) == with_prefix(p, a) + with_prefix(p, b),
{
    assert(with_prefix(p, a + b) =~= with_prefix(p, a) + with_prefix(p, b));
}

proof fn lemma_prefix_paths_add(p: Seq<Seq<char>>, a: Seq<Seq<Seq<char>>>, b: Seq<Seq<Seq<char>>>)
    ensures
        with_prefix_paths(p, a + b) == with_prefix_paths(p, a) + with_prefix_paths(p, b),
{
    assert(with_prefix_paths(p, a + b) =~= with_prefix_paths(p, a) + with_prefix_paths(p, b));
}

proof fn lemma_prefix_comp(p: Seq<Seq<char>>, q: Seq<Seq<char>>, f: Seq<(Seq<Seq<char>>, Seq<u8>)>)
    ensures
        with_prefix(p, with_prefix(q, f)) == with_prefix(p + q, f),
{
    assert forall|i: int| 0 <= i < f.len() implies with_prefix(p, with_prefix(q, f))[i]
        == with_prefix(p + q, f)[i] by {
        assert(p + (q + f[i].0) =~= (p + q) + f[i].0);
    }
    assert(with_prefix(p, with_prefix(q, f)) =~= with_prefix(p + q, f));
}

proof fn lemma_prefix_paths_comp(p: Seq<Seq<char>>, q: Seq<Seq<char>>, d: Seq<Seq<Seq<char>>>)
    ensures
        with_prefix_paths(p, with_prefix_paths(q, d)) == with_prefix_paths(p + q, d),
{
    assert forall|i: int| 0 <= i < d.len() implies with_prefix_paths(p, with_prefix_paths(q, d))[i]
        == with_prefix_paths(p + q, d)[i] by {
        assert(p + (q + d[i]) =~= (p + q) + d[i]);
    }
    assert(with_prefix_paths(p, with_prefix_paths(q, d)) =~= with_prefix_paths(p + q, d));
}

/// The plan mirrors the source exactly: its writes are the source's regular
/// files moved under the destination, in enumeration order, and its created
/// directories are the source's directories, parents first.  Nothing that
/// hangs below a symbolic link appears anywhere in the plan.
pub proof fn lemma_plan_mirrors_source(dest: Seq<Seq<char>>, t: FsTree)
    ensures
        write_ops(plan_spec(dest, t)) == with_prefix(dest, flat_files(t)),
        mkdir_ops(plan_spec(dest, t)) == with_prefix_paths(dest, flat_dirs(t)),
    decreases t, 0int,
{
    match t {
        FsTree::File(b) => {
            let op = OpView::WriteFile { path: dest, bytes: b@ };
            assert(plan_spec(dest, t) == seq![op]);
            lemma_ops_single(op);
            assert(dest + Seq::<Seq<char>>::empty() =~= dest);
            assert(with_prefix(dest, flat_files(t)) =~= seq![(dest, b@)]);
            assert(with_prefix_paths(dest, flat_dirs(t)) =~= Seq::<Seq<Seq<char>>>::empty());
        },
        FsTree::Link => {
            assert(write_ops(plan_spec(dest, t)) =~= with_prefix(dest, flat_files(t)));
            assert(mkdir_ops(plan_spec(dest, t)) =~= with_prefix_paths(dest, flat_dirs(t)));
        },
        FsTree::Dir(cs) => {
            let head = seq![OpView::MakeDir { path: dest }];
            let tail = plan_children(dest, cs@, cs@.len() as int);
            lemma_plan_mirrors_children(dest, cs@, cs@.len() as int);
            lemma_write_ops_add(head, tail);
            lemma_ops_single(OpView::MakeDir { path: dest });
            assert(write_ops(plan_spec(dest, t)) =~= write_ops(tail));
            assert(flat_dirs(t) == seq![Seq::<Seq<char>>::empty()] + dirs_children(
                cs@,
                cs@.len() as int,
            ));
            lemma_prefix_paths_add(
                dest,
                seq![Seq::<Seq<char>>::empty()],
                dirs_children(cs@, cs@.len() as int),
            );
            assert(dest + Seq::<Seq<char>>::empty() =~= dest);
            assert(with_prefix_paths(dest, seq![Seq::<Seq<char>>::empty()]) =~= seq![dest]);
            assert(mkdir_ops(plan_spec(dest, t)) =~= with_prefix_paths(dest, flat_dirs(t)));
        },
    }
}

proof fn lemma_plan_mirrors_children(dest: Seq<Seq<char>>, cs: Seq<(String, FsTree)>, n: int)
    requires
        n <= cs.len(),
    ensures
        write_ops(plan_children(dest, cs, n)) == with_prefix(dest, files_children(cs, n)),
        mkdir_ops(plan_children(dest, cs, n)) == with_prefix_paths(dest, dirs_children(cs, n)),
    decreases cs, n,
{
    if n <= 0 {
        assert(write_ops(plan_children(dest, cs, n)) =~= with_prefix(dest, files_children(cs, n)));
        assert(mkdir_ops(plan_children(dest, cs, n)) =~= with_prefix_paths(
            dest,
            dirs_children(cs, n),
        ));
    } else {
        let entry = cs[n - 1];
        lemma_plan_mirrors_children(dest, cs, n - 1);
        lemma_plan_mirrors_source(dest.push(entry.0@), entry.1);
        lemma_write_ops_add(plan_children(dest, cs, n - 1), plan_entry(dest, entry));
        lemma_prefix_add(dest, files_children(cs, n - 1), files_entry(entry));
        lemma_prefix_paths_add(dest, dirs_children(cs, n - 1), dirs_entry(entry));
        lemma_prefix_comp(dest, seq![entry.0@], flat_files(entry.1));
        lemma_prefix_paths_comp(dest, seq![entry.0@], flat_dirs(entry.1));
        assert(dest + seq![entry.0@] =~= dest.push(entry.0@));
        assert(write_ops(plan_entry(dest, entry)) == with_prefix(dest, files_entry(entry)));
        assert(mkdir_ops(plan_entry(dest, entry)) == with_prefix_paths(dest, dirs_entry(entry)));
    }
}

/// Every operation of a plan lies at the destination or strictly below it:
/// a transfer never touches a path outside the subtree it was aimed at.
pub proof fn lemma_plan_stays_under_dest(dest: Seq<Seq<char>>, t: FsTree)
    ensures
        forall|i: int|
            0 <= i < plan_spec(dest, t).len() ==> op_under(#[trigger] plan_spec(dest, t)[i], dest),
    decreases t, 0int,
{
    match t {
        FsTree::File(_) => {
            assert(dest.take(dest.len() as int) =~= dest);
        },
        FsTree::Link => {},
        FsTree::Dir(cs) => {
            assert(dest.take(dest.len() as int) =~= dest);
            lemma_plan_under_children(dest, cs@, cs@.len() as int);
            let head = seq![OpView::MakeDir { path: dest }];
            let tail = plan_children(dest, cs@, cs@.len() as int);
            assert forall|i: int| 0 <= i < plan_spec(dest, t).len() implies op_under(
                plan_spec(dest, t)[i],
                dest,
            ) by {
                if i > 0 {
                    assert(plan_spec(dest, t)[i] == tail[i - 1]);
                }
            }
        },
    }
}

/// The path an operation touches.
pub open spec fn op_path(op: OpView) -> Seq<Seq<char>> {
    match op {
        OpView::MakeDir { path } => path,
        OpView::WriteFile { path, .. } => path,
    }
}

/// The operation's path starts with `dest`.
pub open spec fn op_under(op: OpView, dest: Seq<Seq<char>>) -> bool {
    op_path(op).len() >= dest.len() && op_path(op).take(dest.len() as int) == dest
}

proof fn lemma_plan_under_children(dest: Seq<Seq<char>>, cs: Seq<(String, FsTree)>, n: int)
    requires
        n <= cs.len(),
    ensures
        forall|i: int|
            0 <= i < plan_children(dest, cs, n).len() ==> op_under(
                #[trigger] plan_children(dest, cs, n)[i],
                dest,
            ),
    decreases cs, n,
{
    if n <= 0 {
    } else {
        let entry = cs[n - 1];
        let front = plan_children(dest, cs, n - 1);
        let back = plan_entry(dest, entry);
        lemma_plan_under_children(dest, cs, n - 1);
        lemma_plan_stays_under_dest(dest.push(entry.0@), entry.1);
        assert forall|i: int| 0 <= i < plan_children(dest, cs, n).len() implies op_under(
            plan_children(dest, cs, n)[i],
            dest,
        ) by {
            if i < front.len() {
                assert(plan_children(dest, cs, n)[i] == front[i]);
            } else {
                assert(plan_children(dest, cs, n)[i] == back[i - front.len()]);
                assert(back == plan_spec(dest.push(entry.0@), entry.1));
                assert(plan_spec(dest.push(entry.0@), entry.1)[i - front.len()] == back[i
                    - front.len()]);
                assert(op_under(back[i - front.len()], dest.push(entry.0@)));
                let path = op_path(back[i - front.len()]);
                assert(path.take(dest.push(entry.0@).len() as int).take(dest.len() as int)
                    =~= path.take(dest.len() as int));
                assert(dest.push(entry.0@).take(dest.len() as int) =~= dest);
            }
        }
    }
}

/// In every plan, parents come first: any operation aimed strictly below
/// the destination is preceded by the creation of its parent directory.
/// Applying the flat plan in order therefore never writes into a
/// directory whose creation was not at least attempted.
pub open spec fn parents_made_first(ops: Seq<OpView>, dest: Seq<Seq<char>>) -> bool {
    forall|i: int|
        0 <= i < ops.len() && op_path(#[trigger] ops[i]).len() > dest.len() ==> exists|j: int|
            0 <= j < i && ops[j] == (OpView::MakeDir { path: op_path(ops[i]).drop_last() })
}

/// The plan creates every directory before anything inside it.
pub proof fn lemma_plan_parents_first(dest: Seq<Seq<char>>, t: FsTree)
    ensures
        parents_made_first(plan_spec(dest, t), dest),
    decreases t, 0int,
{
    match t {
        FsTree::File(_) => {
            let ops = plan_spec(dest, t);
            assert forall|i: int|
                0 <= i < ops.len() && op_path(ops[i]).len() > dest.len() implies exists|j: int|
                0 <= j < i && ops[j] == (OpView::MakeDir {
                path: op_path(ops[i]).drop_last(),
            }) by {
                assert(op_path(ops[0]) == dest);
            }
        },
        FsTree::Link => {},
        FsTree::Dir(cs) => {
            let head = OpView::MakeDir { path: dest };
            let tail = plan_children(dest, cs@, cs@.len() as int);
            let ops = plan_spec(dest, t);
            assert(ops == seq![head] + tail);
            lemma_children_parents(dest, cs@, cs@.len() as int);
            assert forall|i: int|
                0 <= i < ops.len() && op_path(ops[i]).len() > dest.len() implies exists|j: int|
                0 <= j < i && ops[j] == (OpView::MakeDir {
                path: op_path(ops[i]).drop_last(),
            }) by {
                if i == 0 {
                    assert(op_path(ops[0]) == dest);
                } else {
                    let k = i - 1;
                    assert(ops[i] == tail[k]);
                    if op_path(tail[k]).drop_last() == dest {
                        assert(ops[0] == (OpView::MakeDir { path: op_path(ops[i]).drop_last() }));
                    } else {
                        let j = choose|j: int|
                            0 <= j < k && tail[j] == (OpView::MakeDir {
                                path: op_path(tail[k]).drop_last(),
                            });
                        assert(ops[j + 1] == tail[j]);
                    }
                }
            }
        },
    }
}

/// Within the children's part of a directory plan, every operation either
/// has its parent created earlier in that same part, or sits directly in
/// the directory being planned.
proof fn lemma_children_parents(dest: Seq<Seq<char>>, cs: Seq<(String, FsTree)>, n: int)
    requires
        n <= cs.len(),
    ensures
        forall|i: int|
            0 <= i < plan_children(dest, cs, n).len() ==> (op_path(
                #[trigger] plan_children(dest, cs, n)[i],
            ).drop_last() == dest || (exists|j: int|
                0 <= j < i && plan_children(dest, cs, n)[j] == (OpView::MakeDir {
                    path: op_path(plan_children(dest, cs, n)[i]).drop_last(),
                }))),
    decreases cs, n,
{
    if n <= 0 {
    } else {
        let entry = cs[n - 1];
        let front = plan_children(dest, cs, n - 1);
        let dest2 = dest.push(entry.0@);
        let back = plan_entry(dest, entry);
        let ops = plan_children(dest, cs, n);
        assert(ops == front + back);
        lemma_children_parents(dest, cs, n - 1);
        lemma_plan_parents_first(dest2, entry.1);
        lemma_plan_stays_under_dest(dest2, entry.1);
        assert(back == plan_spec(dest2, entry.1));
        assert forall|i: int| 0 <= i < ops.len() implies {
            op_path(ops[i]).drop_last() == dest || (exists|j: int|
                0 <= j < i && ops[j] == (OpView::MakeDir { path: op_path(ops[i]).drop_last() }))
        } by {
            if i < front.len() {
                assert(ops[i] == front[i]);
                if op_path(front[i]).drop_last() != dest {
                    let j = choose|j: int|
                        0 <= j < i && front[j] == (OpView::MakeDir {
                            path: op_path(front[i]).drop_last(),
                        });
                    assert(ops[j] == front[j]);
                }
            } else {
                let k = i - front.len();
                assert(ops[i] == back[k]);
                assert(op_under(plan_spec(dest2, entry.1)[k], dest2));
                if op_path(back[k]).len() > dest2.len() {
                    assert(parents_made_first(plan_spec(dest2, entry.1), dest2));
                    assert(op_path(plan_spec(dest2, entry.1)[k]).len() > dest2.len());
                    let j = choose|j: int|
                        0 <= j < k && back[j] == (OpView::MakeDir {
                            path: op_path(back[k]).drop_last(),
                        });
                    assert(ops[j + front.len()] == back[j]);
                } else {
                    assert(op_path(back[k]).len() == dest2.len());
                    assert(op_path(back[k]).take(dest2.len() as int) =~= op_path(back[k]));
                    assert(op_path(back[k]) == dest2);
                    assert(dest2.drop_last() =~= dest);
                }
            }
        }
    }
}

/// A file store after carrying a plan out: each write replaces the bytes at
/// its path; creating a directory stores no bytes.
pub open spec fn apply_ops(
    m: Map<Seq<Seq<char>>, Seq<u8>>,
    ops: Seq<OpView>,
) -> Map<Seq<Seq<char>>, Seq<u8>>
    decreases ops.len(),
{
    if ops.len() == 0 {
        m
    } else {
        let m2 = match ops[0] {
            OpView::MakeDir { .. } => m,
            OpView::WriteFile { path, bytes } => m.insert(path, bytes),
        };
        apply_ops(m2, ops.drop_first())
    }
}

/// The round trip for a single file: transferring a file and then reading
/// the destination back yields byte-identical content, and no other path
/// changes.
pub proof fn lemma_file_round_trip(
    dest: Seq<Seq<char>>,
    t: FsTree,
    m: Map<Seq<Seq<char>>, Seq<u8>>,
)
    requires
        t matches FsTree::File(_),
    ensures
        t matches FsTree::File(b) ==> apply_ops(m, plan_spec(dest, t)) == m.insert(dest, b@)
            && apply_ops(m, plan_spec(dest, t))[dest] == b@,
{
    if let FsTree::File(b) = t {
        let op = OpView::WriteFile { path: dest, bytes: b@ };
        let ops = plan_spec(dest, t);
        assert(ops == seq![op]);
        assert(ops[0] == op);
        assert(ops.drop_first() =~= Seq::<OpView>::empty());
        assert(apply_ops(m.insert(dest, b@), ops.drop_first()) == m.insert(dest, b@));
        assert(apply_ops(m, ops) == m.insert(dest, b@));
    }
}

/// Turn the verified plan into the flat operation list to carry out.
pub fn plan_ops(dest: &AbsPath, t: &FsTree) -> (r: Vec<TransferOp>)
    ensures
        ops_views(r@) == plan_spec(dest@, *t),
{
    let mut out: Vec<TransferOp> = Vec::new();
    proof {
        assert(ops_views(out@) =~= Seq::<OpView>::empty());
    }
    plan_into(dest, t, &mut out);
    proof {
        assert(Seq::<OpView>::empty() + plan_spec(dest@, *t) =~= plan_spec(dest@, *t));
    }
    out
}

fn plan_into(dest: &AbsPath, t: &FsTree, out: &mut Vec<TransferOp>)
    ensures
        ops_views(final(out)@) == ops_views(old(out)@) + plan_spec(dest@, *t),
    decreases *t,
{
    match t {
        FsTree::File(bytes) => {
            out.push(TransferOp::WriteFile(dest.clone(), bytes.clone()));
            proof {
                assert(ops_views(out@) =~= ops_views(old(out)@) + plan_spec(dest@, *t));
            }
        },
        FsTree::Link => {
            proof {
                assert(ops_views(out@) =~= ops_views(old(out)@) + plan_spec(dest@, *t));
            }
        },
        FsTree::Dir(cs) => {
            out.push(TransferOp::MakeDir(dest.clone()));
            let ghost base = ops_views(old(out)@) + seq![OpView::MakeDir { path: dest@ }];
            proof {
                assert(ops_views(out@) =~= base);
                assert(base + plan_children(dest@, cs@, 0) =~= base);
            }
            let mut i: usize = 0;
            while i < cs.len()
                invariant
                    *t == FsTree::Dir(*cs),
                    0 <= i <= cs.len(),
                    ops_views(out@) == base + plan_children(dest@, cs@, i as int),
                decreases cs.len() - i,
            {
                let child_dest = dest.join(&cs[i].0);
                proof {
                    assert(child_dest@ == dest@.push(cs@[i as int].0@));
                    assert(decreases_to!(*t => t->Dir_0));
                    assert(t->Dir_0 == *cs);
                    assert(decreases_to!(*cs => cs@));
                    assert(decreases_to!(cs@ => cs@[i as int]));
                    assert(decreases_to!(cs@[i as int] => cs@[i as int].1));
                    assert(decreases_to!(*t => cs@[i as int].1));
                }
                plan_into(&child_dest, &cs[i].1, out);
                proof {
                    assert((base + plan_children(dest@, cs@, i as int)) + plan_entry(
                        dest@,
                        cs@[i as int],
                    ) =~= base + (plan_children(dest@, cs@, i as int) + plan_entry(
                        dest@,
                        cs@[i as int],
                    )));
                }
                i = i + 1;
            }
            proof {
                assert(ops_views(out@) =~= ops_views(old(out)@) + plan_spec(dest@, *t));
            }
        },
    }
}

/// How deep a transferred subtree may nest; deeper sources abort with an
/// error rather than walk without bound.
pub const MAX_TRANSFER_DEPTH: usize = 4096;

/// A transfer failure, carrying its human-readable cause.
#[derive(Debug)]
pub struct TransferError {
    message: String,
}

impl View for TransferError {
    type V = Seq<char>;

    closed spec fn view(&self) -> Seq<char> {
        self.message@
    }
}

impl TransferError {
    /// Wrap a failure's cause text the way the worker reports it.
    pub fn from(text: &str) -> (r: TransferError)
        ensures
            r@ == "TRANSFER ERROR: "@ + text@,
    {
        let mut message = String::new();
        message.push_str("TRANSFER ERROR: ");
        message.push_str(text);
        proof {
            assert((Seq::<char>::empty() + "TRANSFER ERROR: "@) + text@ =~= "TRANSFER ERROR: "@
                + text@);
        }
        TransferError { message }
    }

    /// The failure text.
    pub fn message(&self) -> (r: &str)
        ensures
            r@ == self@,
    {
        self.message.as_str()
    }
}

/// What carrying out one operation came to.
#[derive(Debug)]
pub enum OpOutcome {
    Completed,
    CreateRefused,
    Failed(TransferError),
}

/// The walk's rule after one operation: a destination that refused to be
/// created is swallowed — the walk goes on with its next entry — while a
/// read or write failure aborts the walk with its cause.
pub fn op_aborts(outcome: OpOutcome) -> (r: Option<TransferError>)
    ensures
        outcome matches OpOutcome::Failed(e) ==> r == Some(e),
        outcome matches OpOutcome::Completed ==> r is None,
        outcome matches OpOutcome::CreateRefused ==> r is None,
{
    match outcome {
        OpOutcome::Failed(e) => Some(e),
        OpOutcome::Completed => None,
        OpOutcome::CreateRefused => None,
    }
}

/// Which way a transfer moves.
#[derive(Debug, Clone, Copy, PartialEq, Eq, Structural)]
pub enum TransferKind {
    Upload,
    Download,
}

/// One queued transfer: the source and destination paths as snapshotted at
/// trigger time, the direction, and the worker's own session handles.
pub struct Transfer {
    pub from: AbsPath,
    pub to: AbsPath,
    pub kind: TransferKind,
    pub sess: ssh2::Session,
    pub sftp: ssh2::Sftp,
}

impl Transfer {
    /// Snapshot an upload of the selected local entry into the remote
    /// working directory.  With an empty local listing there is nothing
    /// selected and no transfer is made; a session whose SFTP channel
    /// cannot be opened yields none either, so triggering is always safe.
    pub fn upload(app: &App, sess: &ssh2::Session) -> (r: Option<Transfer>)
        requires
            app.wf(),
        ensures
            app.content.local@.len() == 0 ==> r is None,
            r matches Some(t) ==> {
                &&& app.content.local@.len() > 0
                &&& t.kind == TransferKind::Upload
                &&& t.from@ == app.buf.local@.push(
                    app.content.local.deep_view()[app.state.local->0 as int],
                )
                &&& t.to@ == app.buf.remote@.push(
                    app.content.local.deep_view()[app.state.local->0 as int],
                )
            },
    {
        let name = match app.selected_local() {
            Some(name) => name,
            None => {
                return None;
            },
        };
        let from = app.buf.local.join(&name);
        let to = app.buf.remote.join(&name);
        let sess = session_clone(sess);
        let sftp = match session_sftp(&sess) {
            Ok(sftp) => sftp,
            Err(_) => {
                return None;
            },
        };
        Some(Transfer { from, to, kind: TransferKind::Upload, sess, sftp })
    }

    /// Snapshot a download of the selected remote entry into the local
    /// working directory, under the same rules as `upload`.
    pub fn download(app: &App, sess: &ssh2::Session) -> (r: Option<Transfer>)
        requires
            app.wf(),
        ensures
            app.content.remote@.len() == 0 ==> r is None,
            r matches Some(t) ==> {
                &&& app.content.remote@.len() > 0
                &&& t.kind == TransferKind::Download
                &&& t.from@ == app.buf.remote@.push(
                    app.content.remote.deep_view()[app.state.remote->0 as int],
                )
                &&& t.to@ == app.buf.local@.push(
                    app.content.remote.deep_view()[app.state.remote->0 as int],
                )
            },
    {
        let name = match app.selected_remote() {
            Some(name) => name,
            None => {
                return None;
            },
        };
        let from = app.buf.remote.join(&name);
        let to = app.buf.local.join(&name);
        let sess = session_clone(sess);
        let sftp = match session_sftp(&sess) {
            Ok(sftp) => sftp,
            Err(_) => {
                return None;
            },
        };
        Some(Transfer { from, to, kind: TransferKind::Download, sess, sftp })
    }

    /// Carry the transfer out.  An upload walks the given snapshot of the
    /// local source and writes it to the remote side here, returning no
    /// further work.  A download snapshots the remote subtree and returns
    /// the local operations, parents first and all of them under the
    /// destination, for the caller — who owns the local filesystem — to
    /// apply.
    pub fn execute(self, local_source: Option<FsTree>) -> (r: Result<
        Vec<TransferOp>,
        TransferError,
    >)
        requires
            self.kind == TransferKind::Upload ==> local_source is Some,
        ensures
            self.kind == TransferKind::Upload ==> (r matches Ok(ops) ==> ops@.len() == 0),
            self.kind == TransferKind::Download ==> (r matches Ok(ops) ==> (forall|i: int|
                0 <= i < ops@.len() ==> op_under(#[trigger] ops@[i]@, self.to@))
                && parents_made_first(ops_views(ops@), self.to@)),
    {
        match self.kind {
            TransferKind::Upload => {
                let tree = match local_source {
                    Some(tree) => tree,
                    None => {
                        proof {
                            assert(false);
                        }
                        return Ok(Vec::new());
                    },
                };
                let ops = plan_ops(&self.to, &tree);
                match run_ops_remote(&self.sess, &self.sftp, &ops) {
                    Ok(()) => Ok(Vec::new()),
                    Err(e) => Err(e),
                }
            },
            TransferKind::Download => {
                let tree = match read_remote_source(&self.sftp, &self.from) {
                    Ok(tree) => tree,
                    Err(e) => {
                        return Err(e);
                    },
                };
                let ops = plan_ops(&self.to, &tree);
                proof {
                    lemma_plan_stays_under_dest(self.to@, tree);
                    lemma_plan_parents_first(self.to@, tree);
                    assert forall|i: int| 0 <= i < ops@.len() implies op_under(
                        ops@[i]@,
                        self.to@,
                    ) by {
                        assert(ops@[i]@ == ops_views(ops@)[i]);
                        assert(ops_views(ops@)[i] == plan_spec(self.to@, tree)[i]);
                    }
                }
                Ok(ops)
            },
        }
    }
}

/// Snapshot the remote source the way the engine classifies it: open it
/// and ask the server what it is; a regular file becomes its bytes, and
/// anything else is walked as a directory.
fn read_remote_source(sftp: &ssh2::Sftp, from: &AbsPath) -> (r: Result<FsTree, TransferError>) {
    let text = from.to_text();
    let mut file = match sftp_open(sftp, text.as_str()) {
        Ok(file) => file,
        Err(e) => {
            return Err(TransferError::from(e.as_str()));
        },
    };
    let regular = match file_is_regular(&mut file) {
        Ok(regular) => regular,
        Err(e) => {
            return Err(TransferError::from(e.as_str()));
        },
    };
    if regular {
        match file_read_all(&mut file) {
            Ok(bytes) => Ok(FsTree::File(bytes)),
            Err(e) => Err(TransferError::from(e.as_str())),
        }
    } else {
        read_remote_dir(sftp, from, MAX_TRANSFER_DEPTH)
    }
}

/// Walk a remote directory into a snapshot.  An unreadable directory lists
/// as empty; a child file that cannot be read aborts with its cause; a
/// subtree deeper than `depth` aborts rather than walk without bound.
fn read_remote_dir(sftp: &ssh2::Sftp, dir: &AbsPath, depth: usize) -> (r: Result<
    FsTree,
    TransferError,
>)
    decreases depth,
{
    let text = dir.to_text();
    let entries = match sftp_readdir(sftp, text.as_str()) {
        Ok(entries) => entries,
        Err(_) => {
            return Ok(FsTree::Dir(Vec::new()));
        },
    };
    let mut children: Vec<(String, FsTree)> = Vec::new();
    let mut i: usize = 0;
    while i < entries.len()
        decreases entries.len() - i,
    {
        let name = entries[i].name.clone();
        if entries[i].is_symlink {
            children.push((name, FsTree::Link));
        } else if entries[i].is_dir {
            if depth == 0 {
                return Err(TransferError::from("directory tree too deep"));
            }
            let child_path = dir.join(&name);
            match read_remote_dir(sftp, &child_path, depth - 1) {
                Ok(sub) => {
                    children.push((name, sub));
                },
                Err(e) => {
                    return Err(e);
                },
            }
        } else {
            let child_path = dir.join(&name);
            let child_text = child_path.to_text();
            let mut file = match sftp_open(sftp, child_text.as_str()) {
                Ok(file) => file,
                Err(e) => {
                    return Err(TransferError::from(e.as_str()));
                },
            };
            match file_read_all(&mut file) {
                Ok(bytes) => {
                    children.push((name, FsTree::File(bytes)));
                },
                Err(e) => {
                    return Err(TransferError::from(e.as_str()));
                },
            }
        }
        i = i + 1;
    }
    Ok(FsTree::Dir(children))
}

/// Create one remote directory through the session's command channel, the
/// engine's portability workaround for servers whose structured mkdir
/// misbehaves.  A failure to issue the command aborts the walk: directory
/// creation over the channel is never silently swallowed.
fn remote_mkdir(sess: &ssh2::Session, path: &AbsPath) -> (r: OpOutcome)
    ensures
        !(r matches OpOutcome::CreateRefused),
{
    let mut ch = match session_channel(sess) {
        Ok(ch) => ch,
        Err(e) => {
            return OpOutcome::Failed(TransferError::from(e.as_str()));
        },
    };
    let mut command = String::new();
    command.push_str("mkdir '");
    let text = path.to_text();
    command.push_str(text.as_str());
    command.push_str("'");
    match channel_exec(&mut ch, command.as_str()) {
        Ok(()) => OpOutcome::Completed,
        Err(e) => OpOutcome::Failed(TransferError::from(e.as_str())),
    }
}

/// Write one remote file.  A freshly created parent directory may not be
/// visible yet, so the parent is probed first, with short pauses, a small
/// bounded number of times — a best-effort mitigation of a known race,
/// not a guarantee.  A destination that refuses creation is reported as
/// refused; a failed write after a successful create carries its cause.
fn remote_write(sftp: &ssh2::Sftp, path: &AbsPath, bytes: &Vec<u8>) -> (r: OpOutcome) {
    let mut parent = path.clone();
    parent.pop();
    let parent_text = parent.to_text();
    let mut visible = sftp_opendir_ok(sftp, parent_text.as_str());
    let mut attempts: usize = 0;
    while !visible && attempts < 4
        invariant
            attempts <= 4,
        decreases 4 - attempts,
    {
        pause_briefly();
        visible = sftp_opendir_ok(sftp, parent_text.as_str());
        attempts = attempts + 1;
    }
    let text = path.to_text();
    let mut file = match sftp_create(sftp, text.as_str()) {
        Ok(file) => file,
        Err(_) => {
            return OpOutcome::CreateRefused;
        },
    };
    match file_write_all(&mut file, bytes.as_slice()) {
        Ok(()) => OpOutcome::Completed,
        Err(e) => OpOutcome::Failed(TransferError::from(e.as_str())),
    }
}

/// Carry a plan out against the remote backend, one operation at a time,
/// under the walk's abort rule.
fn run_ops_remote(sess: &ssh2::Session, sftp: &ssh2::Sftp, ops: &Vec<TransferOp>) -> (r: Result<
    (),
    TransferError,
>) {
    let mut i: usize = 0;
    while i < ops.len()
        decreases ops.len() - i,
    {
        let outcome = match &ops[i] {
            TransferOp::MakeDir(path) => remote_mkdir(sess, path),
            TransferOp::WriteFile(path, bytes) => remote_write(sftp, path, bytes),
        };
        if let Some(e) = op_aborts(outcome) {
            return Err(e);
        }
        i = i + 1;
    }
    Ok(())
}

} // verus!
