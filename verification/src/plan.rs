//! Placement planning and its correctness.
//!
//! For each fetched artifact the organizer executes a short list of file
//! operations: a copy into the server tree when the artifact is flagged for
//! it, then a move into the client tree when flagged for that — the move
//! comes last, so the staged source still exists when the copy runs.  The
//! file system is modelled as a map from paths to file contents, and the
//! lemmas below prove that executing a placement plan fills each flagged
//! tree with a complete, independent copy of the staged file.
use vstd::prelude::*;

use crate::bytestr::{
    bytes_client_dir, bytes_server_dir, spec_container_path, spec_join, SLASH,
};
use crate::ArtifactSpec;

verus! {

/// One file operation of a placement plan.
pub enum FileOp {
    /// Copy the file at `from` to `to`; the source remains.
    Copy { from: Vec<u8>, to: Vec<u8> },
    /// Move the file at `from` to `to`; the source is consumed.
    Move { from: Vec<u8>, to: Vec<u8> },
}

/// `op` copies `from` to `to`.
pub open spec fn is_copy(op: FileOp, from: Seq<u8>, to: Seq<u8>) -> bool {
    match op {
        FileOp::Copy { from: f, to: t } => f@ == from && t@ == to,
        FileOp::Move { .. } => false,
    }
}

/// `op` moves `from` to `to`.
pub open spec fn is_move(op: FileOp, from: Seq<u8>, to: Seq<u8>) -> bool {
    match op {
        FileOp::Copy { .. } => false,
        FileOp::Move { from: f, to: t } => f@ == from && t@ == to,
    }
}

/// The shape of a correct placement plan for one staged artifact: one copy
/// into the server tree when flagged for the server, one move into the
/// client tree when flagged for the client, nothing else — and the move,
/// which consumes the staged source, is the last operation.
pub open spec fn placement_plan_ok(
    ops: Seq<FileOp>,
    staged: Seq<u8>,
    server_dest: Seq<u8>,
    client_dest: Seq<u8>,
    in_server: bool,
    in_client: bool,
) -> bool {
    &&& ops.len() == (if in_server {
        1int
    } else {
        0int
    }) + (if in_client {
        1int
    } else {
        0int
    })
    &&& in_server ==> is_copy(ops[0], staged, server_dest)
    &&& in_client ==> is_move(ops[ops.len() - 1], staged, client_dest)
}

/// Plan the placement of one staged artifact into the two distribution
/// trees: a copy into `server_mods` when flagged for the server, then a
/// move into `client_mods` when flagged for the client.
pub fn placement_ops(
    art: &ArtifactSpec,
    staged: &Vec<u8>,
    filename: &Vec<u8>,
    server_mods: &Vec<u8>,
    client_mods: &Vec<u8>,
) -> (ops: Vec<FileOp>)
    ensures
        placement_plan_ok(
            ops@,
            staged@,
            spec_join(server_mods@, filename@),
            spec_join(client_mods@, filename@),
            art.include_in_server,
            art.include_in_client,
        ),
{
    let mut ops: Vec<FileOp> = Vec::new();
    if art.include_in_server {
        let to = crate::bytestr::join_path(server_mods, filename);
        ops.push(FileOp::Copy { from: staged.clone(), to });
    }
    if art.include_in_client {
        let to = crate::bytestr::join_path(client_mods, filename);
        ops.push(FileOp::Move { from: staged.clone(), to });
    }
    ops
}

/// Apply one operation to a model file system (a map from paths to file
/// contents).  An operation whose source is missing leaves the model
/// unchanged; the real pipeline fails there instead, and the organizer's
/// plans never reach that case.
pub open spec fn apply_op(fs: Map<Seq<u8>, Seq<u8>>, op: FileOp) -> Map<Seq<u8>, Seq<u8>> {
    match op {
        FileOp::Copy { from, to } => if fs.dom().contains(from@) {
            fs.insert(to@, fs[from@])
        } else {
            fs
        },
        FileOp::Move { from, to } => if fs.dom().contains(from@) {
            fs.insert(to@, fs[from@]).remove(from@)
        } else {
            fs
        },
    }
}

/// Apply a list of operations in order.
pub open spec fn apply_ops(fs: Map<Seq<u8>, Seq<u8>>, ops: Seq<FileOp>) -> Map<Seq<u8>, Seq<u8>>
    decreases ops.len(),
{
    if ops.len() == 0 {
        fs
    } else {
        apply_ops(apply_op(fs, ops[0]), ops.subrange(1, ops.len() as int))
    }
}

/// Executing a correct placement plan fills each flagged tree with a
/// complete copy of the staged file: the server destination holds the
/// staged contents when the artifact is flagged for the server, the client
/// destination holds the same contents when flagged for the client — when
/// both are flagged, each tree holds its own copy and neither is missing
/// because the other took it — the staged source is consumed exactly when
/// a move ran, and an artifact flagged for neither tree changes nothing.
pub proof fn lemma_placement_fills_both_trees(
    ops: Seq<FileOp>,
    fs: Map<Seq<u8>, Seq<u8>>,
    staged: Seq<u8>,
    server_dest: Seq<u8>,
    client_dest: Seq<u8>,
    in_server: bool,
    in_client: bool,
)
    requires
        placement_plan_ok(ops, staged, server_dest, client_dest, in_server, in_client),
        fs.dom().contains(staged),
        staged != server_dest,
        staged != client_dest,
        server_dest != client_dest,
    ensures
        in_server ==> apply_ops(fs, ops).dom().contains(server_dest) && apply_ops(fs, ops).index(
            server_dest,
        ) == fs[staged],
        in_client ==> apply_ops(fs, ops).dom().contains(client_dest) && apply_ops(fs, ops).index(
            client_dest,
        ) == fs[staged],
        in_client ==> !apply_ops(fs, ops).dom().contains(staged),
        !in_server && !in_client ==> apply_ops(fs, ops) == fs,
{
    if ops.len() == 0 {
    } else if ops.len() == 1 {
        let fs1 = apply_op(fs, ops[0]);
        let rest = ops.subrange(1, 1);
        assert(rest =~= Seq::<FileOp>::empty());
        assert(apply_ops(fs, ops) == apply_ops(fs1, rest));
        assert(apply_ops(fs1, rest) == fs1);
    } else {
        let fs1 = apply_op(fs, ops[0]);
        let rest = ops.subrange(1, 2);
        assert(apply_ops(fs, ops) == apply_ops(fs1, rest));
        assert(rest[0] == ops[1]);
        let fs2 = apply_op(fs1, ops[1]);
        let rest2 = rest.subrange(1, 1);
        assert(rest2 =~= Seq::<FileOp>::empty());
        assert(apply_ops(fs1, rest) == apply_ops(fs2, rest2));
        assert(apply_ops(fs2, rest2) == fs2);
    }
}

/// `op` neither writes `d` nor moves it away: a copy may read `d`, but the
/// path it writes is another; a move touches `d` neither as source nor as
/// destination.
pub open spec fn op_avoids(op: FileOp, d: Seq<u8>) -> bool {
    match op {
        FileOp::Copy { from, to } => to@ != d,
        FileOp::Move { from, to } => from@ != d && to@ != d,
    }
}

/// A plan whose every operation avoids a path leaves that path alone: what
/// one artifact's placement put into a tree, no later artifact's plan — or
/// any other plan that names only other paths — takes away or overwrites.
pub proof fn lemma_plan_preserves_avoided_path(
    fs: Map<Seq<u8>, Seq<u8>>,
    ops: Seq<FileOp>,
    d: Seq<u8>,
)
    requires
        forall|i: int| 0 <= i < ops.len() ==> op_avoids(#[trigger] ops[i], d),
    ensures
        apply_ops(fs, ops).dom().contains(d) <==> fs.dom().contains(d),
        fs.dom().contains(d) ==> apply_ops(fs, ops)[d] == fs[d],
    decreases ops.len(),
{
    if ops.len() == 0 {
    } else {
        let fs1 = apply_op(fs, ops[0]);
        assert(fs1.dom().contains(d) <==> fs.dom().contains(d));
        assert(fs.dom().contains(d) ==> fs1[d] == fs[d]);
        let rest = ops.subrange(1, ops.len() as int);
        assert forall|i: int| 0 <= i < rest.len() implies op_avoids(#[trigger] rest[i], d) by {
            assert(rest[i] == ops[i + 1]);
        }
        lemma_plan_preserves_avoided_path(fs1, rest, d);
    }
}

/// Joining distinct directories with the same entry name yields distinct
/// paths.
pub proof fn lemma_join_keeps_distinct(d1: Seq<u8>, d2: Seq<u8>, name: Seq<u8>)
    requires
        d1 != d2,
    ensures
        spec_join(d1, name) != spec_join(d2, name),
{
    if spec_join(d1, name) == spec_join(d2, name) {
        assert(spec_join(d1, name).len() == d1.len() + 1 + name.len());
        assert(spec_join(d2, name).len() == d2.len() + 1 + name.len());
        assert(d1.len() == d2.len());
        assert forall|i: int| 0 <= i < d1.len() implies d1[i] == d2[i] by {
            assert(spec_join(d1, name)[i] == d1[i]);
            assert(spec_join(d2, name)[i] == d2[i]);
        }
        assert(d1 =~= d2);
    }
}

/// Joining the same directory with distinct entry names yields distinct
/// paths.
pub proof fn lemma_join_keeps_distinct_names(d: Seq<u8>, n1: Seq<u8>, n2: Seq<u8>)
    requires
        n1 != n2,
    ensures
        spec_join(d, n1) != spec_join(d, n2),
{
    if spec_join(d, n1) == spec_join(d, n2) {
        assert(spec_join(d, n1).len() == d.len() + 1 + n1.len());
        assert(spec_join(d, n2).len() == d.len() + 1 + n2.len());
        assert(n1.len() == n2.len());
        assert forall|i: int| 0 <= i < n1.len() implies n1[i] == n2[i] by {
            assert(spec_join(d, n1)[d.len() + 1 + i] == n1[i]);
            assert(spec_join(d, n2)[d.len() + 1 + i] == n2[i]);
        }
        assert(n1 =~= n2);
    }
}

/// The two archive tasks work on disjoint data: under one output root the
/// server and client trees are distinct paths, and so are the containers
/// the two tasks write.  Each task reads only its own tree and writes only
/// its own container, so the tasks share no mutable state.
pub proof fn lemma_archive_targets_disjoint(out_root: Seq<u8>)
    ensures
        spec_join(out_root, bytes_server_dir()) != spec_join(out_root, bytes_client_dir()),
        spec_container_path(spec_join(out_root, bytes_server_dir())) != spec_container_path(
            spec_join(out_root, bytes_client_dir()),
        ),
        spec_container_path(spec_join(out_root, bytes_server_dir())) != spec_join(
            out_root,
            bytes_server_dir(),
        ),
        spec_container_path(spec_join(out_root, bytes_client_dir())) != spec_join(
            out_root,
            bytes_client_dir(),
        ),
{
    let s = spec_join(out_root, bytes_server_dir());
    let c = spec_join(out_root, bytes_client_dir());
    assert(bytes_server_dir() != bytes_client_dir()) by {
        assert(bytes_server_dir()[0] == 115u8);
        assert(bytes_client_dir()[0] == 99u8);
    }
    lemma_join_keeps_distinct_names(out_root, bytes_server_dir(), bytes_client_dir());
    if spec_container_path(s) == spec_container_path(c) {
        assert forall|i: int| 0 <= i < s.len() implies s[i] == c[i] by {
            assert(spec_container_path(s)[i] == s[i]);
            assert(spec_container_path(c)[i] == c[i]);
        }
        assert(s =~= c);
    }
    assert(spec_container_path(s).len() != s.len());
    assert(spec_container_path(c).len() != c.len());
}

/// `path` lies strictly inside the tree rooted at `root`.
pub open spec fn is_under(path: Seq<u8>, root: Seq<u8>) -> bool {
    &&& path.len() > root.len()
    &&& path.subrange(0, root.len() as int) == root
    &&& path[root.len() as int] == SLASH
}

/// The part of a model file system that lies inside the tree at `root`.
pub open spec fn tree_view(fs: Map<Seq<u8>, Seq<u8>>, root: Seq<u8>) -> Map<Seq<u8>, Seq<u8>> {
    Map::new(|k: Seq<u8>| fs.dom().contains(k) && is_under(k, root), |k: Seq<u8>| fs[k])
}

/// Delete the tree at `root` in full: what preparing the output layout does
/// to a stale output root.
pub open spec fn clear_tree(fs: Map<Seq<u8>, Seq<u8>>, root: Seq<u8>) -> Map<Seq<u8>, Seq<u8>> {
    Map::new(|k: Seq<u8>| fs.dom().contains(k) && !is_under(k, root), |k: Seq<u8>| fs[k])
}

/// `op` reads and writes only inside the tree at `root`.
pub open spec fn op_within(op: FileOp, root: Seq<u8>) -> bool {
    match op {
        FileOp::Copy { from, to } => is_under(from@, root) && is_under(to@, root),
        FileOp::Move { from, to } => is_under(from@, root) && is_under(to@, root),
    }
}

/// Every operation of the list stays inside the tree at `root`.
pub open spec fn ops_within(ops: Seq<FileOp>, root: Seq<u8>) -> bool {
    forall|i: int| 0 <= i < ops.len() ==> op_within(#[trigger] ops[i], root)
}

/// Joining an entry name onto the root itself, or onto a path inside the
/// root's tree, lands inside the root's tree.
pub proof fn lemma_join_is_under(dir: Seq<u8>, name: Seq<u8>, root: Seq<u8>)
    requires
        dir == root || is_under(dir, root),
    ensures
        is_under(spec_join(dir, name), root),
{
    let j = spec_join(dir, name);
    assert(j.len() == dir.len() + 1 + name.len());
    assert forall|i: int| 0 <= i < root.len() implies j[i] == root[i] by {
        assert(j[i] == dir[i]);
        if is_under(dir, root) {
            assert(dir.subrange(0, root.len() as int)[i] == dir[i]);
        }
    }
    assert(j.subrange(0, root.len() as int) =~= root);
    if is_under(dir, root) {
        assert(j[root.len() as int] == dir[root.len() as int]);
    }
}

/// One in-tree operation keeps two file systems' trees in agreement.
proof fn lemma_op_keeps_trees_agreeing(
    f1: Map<Seq<u8>, Seq<u8>>,
    f2: Map<Seq<u8>, Seq<u8>>,
    op: FileOp,
    root: Seq<u8>,
)
    requires
        tree_view(f1, root) == tree_view(f2, root),
        op_within(op, root),
    ensures
        tree_view(apply_op(f1, op), root) == tree_view(apply_op(f2, op), root),
{
    let t1 = tree_view(f1, root);
    let t2 = tree_view(f2, root);
    let g1 = apply_op(f1, op);
    let g2 = apply_op(f2, op);
    let (from, to) = match op {
        FileOp::Copy { from, to } => (from@, to@),
        FileOp::Move { from, to } => (from@, to@),
    };
    assert(t1.dom().contains(from) <==> f1.dom().contains(from));
    assert(t2.dom().contains(from) <==> f2.dom().contains(from));
    assert(f1.dom().contains(from) <==> f2.dom().contains(from));
    if f1.dom().contains(from) {
        assert(t1[from] == f1[from]);
        assert(t2[from] == f2[from]);
        assert(f1[from] == f2[from]);
    }
    assert forall|k: Seq<u8>|
        tree_view(g1, root).dom().contains(k) <==> tree_view(g2, root).dom().contains(k) by {
        if is_under(k, root) {
            assert(t1.dom().contains(k) <==> f1.dom().contains(k));
            assert(t2.dom().contains(k) <==> f2.dom().contains(k));
            assert(f1.dom().contains(k) <==> f2.dom().contains(k));
        }
    }
    assert forall|k: Seq<u8>| tree_view(g1, root).dom().contains(k) implies tree_view(g1, root)[k]
        == tree_view(g2, root)[k] by {
        assert(t1.dom().contains(k) <==> f1.dom().contains(k));
        assert(t2.dom().contains(k) <==> f2.dom().contains(k));
        assert(f1.dom().contains(k) <==> f2.dom().contains(k));
        if f1.dom().contains(k) {
            assert(t1[k] == f1[k]);
            assert(t2[k] == f2[k]);
            assert(f1[k] == f2[k]);
        }
    }
    assert(tree_view(g1, root) =~= tree_view(g2, root));
}

/// A list of in-tree operations keeps two file systems' trees in agreement.
proof fn lemma_ops_keep_trees_agreeing(
    f1: Map<Seq<u8>, Seq<u8>>,
    f2: Map<Seq<u8>, Seq<u8>>,
    ops: Seq<FileOp>,
    root: Seq<u8>,
)
    requires
        tree_view(f1, root) == tree_view(f2, root),
        ops_within(ops, root),
    ensures
        tree_view(apply_ops(f1, ops), root) == tree_view(apply_ops(f2, ops), root),
    decreases ops.len(),
{
    if ops.len() == 0 {
    } else {
        lemma_op_keeps_trees_agreeing(f1, f2, ops[0], root);
        let rest = ops.subrange(1, ops.len() as int);
        assert forall|i: int| 0 <= i < rest.len() implies op_within(#[trigger] rest[i], root) by {
            assert(rest[i] == ops[i + 1]);
        }
        lemma_ops_keep_trees_agreeing(apply_op(f1, ops[0]), apply_op(f2, ops[0]), rest, root);
    }
}

/// A fresh run is deterministic in its operations: the output root is first
/// deleted in full, so running the same operations — the ones the same
/// manifest and the same fetch results produce — over any two prior file
/// systems leaves identical output trees, never a merge with stale output.
pub proof fn lemma_fresh_run_identical(
    f1: Map<Seq<u8>, Seq<u8>>,
    f2: Map<Seq<u8>, Seq<u8>>,
    ops: Seq<FileOp>,
    root: Seq<u8>,
)
    requires
        ops_within(ops, root),
    ensures
        tree_view(apply_ops(clear_tree(f1, root), ops), root) == tree_view(
            apply_ops(clear_tree(f2, root), ops),
            root,
        ),
{
    assert(tree_view(clear_tree(f1, root), root) =~= tree_view(clear_tree(f2, root), root));
    lemma_ops_keep_trees_agreeing(clear_tree(f1, root), clear_tree(f2, root), ops, root);
}

} // verus!
