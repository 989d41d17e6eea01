//! A value-level model of the filesystem, and the copy and move algorithms
//! on it. A snapshot is a set of nodes, each an absolute path that is either
//! a file with contents or a directory. Copying a tree takes every node at
//! or under the source and recreates it under the destination, contents
//! unchanged; moving is the same copy followed by dropping the source tree.
//!
//! The real filesystem work happens outside the library; this model is where
//! those algorithms' guarantees are stated and proved, and what tests run
//! them on.

use vstd::prelude::*;

use crate::bytes::bytes_clone;
use crate::bytes::bytes_eq;
use crate::fspath::AbsPath;
use crate::ops::OpKind;
use crate::ops::Operation;
use crate::ops::OperationView;
use crate::seq_facts::lemma_filter_compose;
use crate::seq_facts::lemma_filter_subset;
use crate::seq_facts::lemma_filter_take_step;

verus! {

/// What a filesystem node is: a file with its contents, or a directory.
#[derive(Debug)]
pub enum NodeKind {
    File(Vec<u8>),
    Dir,
}

/// Mathematical image of a node kind.
#[verifier::ext_equal]
pub ghost enum NodeKindView {
    File(Seq<u8>),
    Dir,
}

impl View for NodeKind {
    type V = NodeKindView;

    open spec fn view(&self) -> NodeKindView {
        match self {
            NodeKind::File(contents) => NodeKindView::File(contents@),
            NodeKind::Dir => NodeKindView::Dir,
        }
    }
}

impl Clone for NodeKind {
    /// The copy is the same kind with the same contents.
    fn clone(&self) -> (r: Self)
        ensures
            r@ == self@,
    {
        match self {
            NodeKind::File(contents) => NodeKind::File(bytes_clone(contents)),
            NodeKind::Dir => NodeKind::Dir,
        }
    }
}

/// One filesystem object in a snapshot.
#[derive(Debug)]
pub struct FsNode {
    pub path: AbsPath,
    pub kind: NodeKind,
}

/// Mathematical image of a node.
#[verifier::ext_equal]
pub ghost struct FsNodeView {
    pub path: Seq<Seq<u8>>,
    pub kind: NodeKindView,
}

impl View for FsNode {
    type V = FsNodeView;

    open spec fn view(&self) -> FsNodeView {
        FsNodeView { path: self.path@, kind: self.kind@ }
    }
}

impl Clone for FsNode {
    /// The copy denotes the same node.
    fn clone(&self) -> (r: Self)
        ensures
            r@ == self@,
    {
        let r = FsNode { path: self.path.clone(), kind: self.kind.clone() };
        assert(r@ =~= self@);
        r
    }
}

/// The views of a snapshot.
pub open spec fn node_views(s: Seq<FsNode>) -> Seq<FsNodeView> {
    s.map_values(|n: FsNode| n@)
}

/// Whether `p` lies at or under `root`: `root` is a prefix of `p`.
pub open spec fn under(p: Seq<Seq<u8>>, root: Seq<Seq<u8>>) -> bool {
    root.len() <= p.len() && p.take(root.len() as int) == root
}

/// The path `p`, lying at or under `src`, transplanted under `dst`.
pub open spec fn rebase(p: Seq<Seq<u8>>, src: Seq<Seq<u8>>, dst: Seq<Seq<u8>>) -> Seq<Seq<u8>> {
    dst + p.skip(src.len() as int)
}

/// The nodes at or under `root`.
pub open spec fn under_pred(root: Seq<Seq<u8>>) -> spec_fn(FsNodeView) -> bool {
    |n: FsNodeView| under(n.path, root)
}

/// The nodes not under `root`.
pub open spec fn outside_pred(root: Seq<Seq<u8>>) -> spec_fn(FsNodeView) -> bool {
    |n: FsNodeView| !under(n.path, root)
}

/// A node transplanted from under `src` to under `dst`, kind and contents
/// unchanged.
pub open spec fn rebase_node(src: Seq<Seq<u8>>, dst: Seq<Seq<u8>>) -> spec_fn(
    FsNodeView,
) -> FsNodeView {
    |n: FsNodeView| FsNodeView { path: rebase(n.path, src, dst), kind: n.kind }
}

/// What a copy creates: every node of the source tree, transplanted under
/// the destination, contents unchanged, in snapshot order.
pub open spec fn copied(nodes: Seq<FsNodeView>, src: Seq<Seq<u8>>, dst: Seq<Seq<u8>>) -> Seq<
    FsNodeView,
> {
    nodes.filter(under_pred(src)).map_values(rebase_node(src, dst))
}

/// What dropping the source tree leaves: every node not under the source.
pub open spec fn remaining(nodes: Seq<FsNodeView>, src: Seq<Seq<u8>>) -> Seq<FsNodeView> {
    nodes.filter(outside_pred(src))
}

/// The snapshot after a copy: everything it had, plus the copied tree.
pub open spec fn apply_copy_spec(
    nodes: Seq<FsNodeView>,
    src: Seq<Seq<u8>>,
    dst: Seq<Seq<u8>>,
) -> Seq<FsNodeView> {
    nodes + copied(nodes, src, dst)
}

/// The snapshot after a move: everything outside the source tree, plus the
/// copied tree.
pub open spec fn apply_move_spec(
    nodes: Seq<FsNodeView>,
    src: Seq<Seq<u8>>,
    dst: Seq<Seq<u8>>,
) -> Seq<FsNodeView> {
    remaining(nodes, src) + copied(nodes, src, dst)
}

/// The snapshot after an operation ran to success.
pub open spec fn spec_apply(nodes: Seq<FsNodeView>, op: OperationView) -> Seq<FsNodeView> {
    match op.kind {
        OpKind::Copy => apply_copy_spec(nodes, op.source, op.destination),
        OpKind::Move => apply_move_spec(nodes, op.source, op.destination),
    }
}

/// Whether the path lies at or under the root.
pub fn path_under(p: &AbsPath, root: &AbsPath) -> (r: bool)
    ensures
        r == under(p@, root@),
{
    let rl = root.depth();
    if rl > p.depth() {
        return false;
    }
    let mut i: usize = 0;
    while i < rl
        invariant
            rl == root@.len(),
            rl <= p@.len(),
            i <= rl,
            forall|k: int| 0 <= k < i ==> p@[k] == root@[k],
        decreases rl - i,
    {
        if !bytes_eq(p.component(i), root.component(i)) {
            assert(p@.take(rl as int)[i as int] != root@[i as int]);
            return false;
        }
        i = i + 1;
    }
    assert(p@.take(rl as int) =~= root@);
    true
}

/// Transplants a path at or under `src` to the same relative place under
/// `dst`.
fn rebase_path(p: &AbsPath, src: &AbsPath, dst: &AbsPath) -> (r: AbsPath)
    requires
        under(p@, src@),
    ensures
        r@ == rebase(p@, src@, dst@),
{
    let mut r = dst.clone();
    let pl = p.depth();
    let mut i: usize = src.depth();
    while i < pl
        invariant
            pl == p@.len(),
            src@.len() <= i <= pl,
            r@ =~= dst@ + p@.subrange(src@.len() as int, i as int),
        decreases pl - i,
    {
        r.push(bytes_clone(p.component(i)));
        assert(r@ =~= dst@ + p@.subrange(src@.len() as int, i + 1));
        i = i + 1;
    }
    assert(r@ =~= rebase(p@, src@, dst@));
    r
}

/// A snapshot with the same nodes.
fn clone_nodes(nodes: &Vec<FsNode>) -> (r: Vec<FsNode>)
    ensures
        node_views(r@) == node_views(nodes@),
{
    let n = nodes.len();
    let mut r: Vec<FsNode> = Vec::new();
    let mut i: usize = 0;
    while i < n
        invariant
            n == nodes@.len(),
            i <= n,
            r@.len() == i,
            forall|k: int| 0 <= k < i ==> node_views(r@)[k] == node_views(nodes@)[k],
        decreases n - i,
    {
        r.push(nodes[i].clone());
        i = i + 1;
    }
    assert(node_views(r@) =~= node_views(nodes@));
    r
}

/// The nodes a copy of the tree at `src` creates under `dst`.
pub fn copy_tree(nodes: &Vec<FsNode>, src: &AbsPath, dst: &AbsPath) -> (r: Vec<FsNode>)
    ensures
        node_views(r@) == copied(node_views(nodes@), src@, dst@),
{
    let ghost nv = node_views(nodes@);
    let n = nodes.len();
    let mut r: Vec<FsNode> = Vec::new();
    let mut i: usize = 0;
    proof {
        reveal(Seq::filter);
        assert(nv.take(0) =~= Seq::<FsNodeView>::empty());
        assert(node_views(r@) =~= copied(nv.take(0), src@, dst@));
    }
    while i < n
        invariant
            n == nodes@.len(),
            nv == node_views(nodes@),
            i <= n,
            node_views(r@) == copied(nv.take(i as int), src@, dst@),
        decreases n - i,
    {
        let ghost prev = node_views(r@);
        if path_under(&nodes[i].path, src) {
            let node = FsNode {
                path: rebase_path(&nodes[i].path, src, dst),
                kind: nodes[i].kind.clone(),
            };
            assert(node@ == rebase_node(src@, dst@)(nv[i as int]));
            r.push(node);
        }
        proof {
            lemma_filter_take_step(nv, under_pred(src@), i as int);
            if under(nv[i as int].path, src@) {
                assert(node_views(r@) =~= prev.push(rebase_node(src@, dst@)(nv[i as int])));
                assert(copied(nv.take(i + 1), src@, dst@) =~= copied(
                    nv.take(i as int),
                    src@,
                    dst@,
                ).push(rebase_node(src@, dst@)(nv[i as int])));
            } else {
                assert(copied(nv.take(i + 1), src@, dst@) =~= copied(
                    nv.take(i as int),
                    src@,
                    dst@,
                ));
            }
        }
        i = i + 1;
    }
    proof {
        assert(nv.take(n as int) =~= nv);
    }
    r
}

/// The nodes left when the tree at `src` is dropped.
fn keep_outside(nodes: &Vec<FsNode>, src: &AbsPath) -> (r: Vec<FsNode>)
    ensures
        node_views(r@) == remaining(node_views(nodes@), src@),
{
    let ghost nv = node_views(nodes@);
    let n = nodes.len();
    let mut r: Vec<FsNode> = Vec::new();
    let mut i: usize = 0;
    proof {
        reveal(Seq::filter);
        assert(nv.take(0) =~= Seq::<FsNodeView>::empty());
        assert(node_views(r@) =~= remaining(nv.take(0), src@));
    }
    while i < n
        invariant
            n == nodes@.len(),
            nv == node_views(nodes@),
            i <= n,
            node_views(r@) == remaining(nv.take(i as int), src@),
        decreases n - i,
    {
        let ghost prev = node_views(r@);
        if !path_under(&nodes[i].path, src) {
            r.push(nodes[i].clone());
        }
        proof {
            lemma_filter_take_step(nv, outside_pred(src@), i as int);
            if !under(nv[i as int].path, src@) {
                assert(node_views(r@) =~= prev.push(nv[i as int]));
                assert(remaining(nv.take(i + 1), src@) =~= remaining(
                    nv.take(i as int),
                    src@,
                ).push(nv[i as int]));
            } else {
                assert(remaining(nv.take(i + 1), src@) =~= remaining(nv.take(i as int), src@));
            }
        }
        i = i + 1;
    }
    proof {
        assert(nv.take(n as int) =~= nv);
    }
    r
}

/// The snapshot after the operation ran to success: a copy adds the copied
/// tree, a move also drops the source tree — only after the whole copy is
/// accounted for.
pub fn apply_operation(nodes: &Vec<FsNode>, op: &Operation) -> (r: Vec<FsNode>)
    ensures
        node_views(r@) == spec_apply(node_views(nodes@), op@),
{
    let created = copy_tree(nodes, &op.source, &op.destination);
    let mut out = match op.kind {
        OpKind::Copy => clone_nodes(nodes),
        OpKind::Move => keep_outside(nodes, &op.source),
    };
    let ghost left = node_views(out@);
    let ghost made = node_views(created@);
    let mut tail = created;
    out.append(&mut tail);
    assert(node_views(out@) =~= left + made);
    out
}

/// Two prefixes of one path are comparable: the longer lies under the
/// shorter.
proof fn lemma_prefixes_comparable(p: Seq<Seq<u8>>, a: Seq<Seq<u8>>, b: Seq<Seq<u8>>)
    requires
        under(p, a),
        under(p, b),
        a.len() <= b.len(),
    ensures
        under(b, a),
{
    assert(b.take(a.len() as int) =~= a);
}

/// Copying a tree of nodes produces the same tree under the destination:
/// a node with the given relative path and contents stands under the source
/// exactly when the copy holds one under the destination.
pub proof fn lemma_copy_preserves_tree(
    nodes: Seq<FsNodeView>,
    src: Seq<Seq<u8>>,
    dst: Seq<Seq<u8>>,
    rel: Seq<Seq<u8>>,
    kind: NodeKindView,
)
    ensures
        copied(nodes, src, dst).contains(FsNodeView { path: dst + rel, kind })
            <==> nodes.contains(FsNodeView { path: src + rel, kind }),
{
    let f = rebase_node(src, dst);
    let fl = nodes.filter(under_pred(src));
    let cp = copied(nodes, src, dst);
    lemma_filter_subset(nodes, under_pred(src));
    if nodes.contains(FsNodeView { path: src + rel, kind }) {
        let x = FsNodeView { path: src + rel, kind };
        let k = choose|k: int| 0 <= k < nodes.len() && nodes[k] == x;
        assert((src + rel).take(src.len() as int) =~= src);
        assert(under(x.path, src));
        nodes.lemma_filter_contains(under_pred(src), k);
        let j = choose|j: int| 0 <= j < fl.len() && fl[j] == x;
        assert(cp[j] == f(x));
        assert((src + rel).skip(src.len() as int) =~= rel);
        assert(f(x) =~= (FsNodeView { path: dst + rel, kind }));
        assert(cp.contains(FsNodeView { path: dst + rel, kind }));
    }
    if cp.contains(FsNodeView { path: dst + rel, kind }) {
        let y = FsNodeView { path: dst + rel, kind };
        let j = choose|j: int| 0 <= j < cp.len() && cp[j] == y;
        let x = fl[j];
        assert(fl.contains(x));
        assert(nodes.contains(x) && under(x.path, src));
        assert(y == f(x));
        let suffix = x.path.skip(src.len() as int);
        assert(dst + suffix == dst + rel);
        assert((dst + suffix).len() == dst.len() + suffix.len());
        assert((dst + rel).len() == dst.len() + rel.len());
        assert forall|k: int| 0 <= k < suffix.len() implies suffix[k] == rel[k] by {
            assert((dst + suffix)[dst.len() + k] == (dst + rel)[dst.len() + k]);
        }
        assert(suffix =~= rel);
        assert(x.path =~= src + rel);
        assert(x =~= (FsNodeView { path: src + rel, kind }));
    }
}

/// The directory nodes of a tree.
pub open spec fn dir_pred() -> spec_fn(FsNodeView) -> bool {
    |n: FsNodeView| n.kind is Dir
}

/// The file nodes of a tree.
pub open spec fn file_pred() -> spec_fn(FsNodeView) -> bool {
    |n: FsNodeView| n.kind is File
}

/// Copying a tree with some number of files and of subdirectories produces
/// a destination tree with exactly those numbers again.
pub proof fn lemma_copy_preserves_counts(
    nodes: Seq<FsNodeView>,
    src: Seq<Seq<u8>>,
    dst: Seq<Seq<u8>>,
)
    ensures
        copied(nodes, src, dst).len() == nodes.filter(under_pred(src)).len(),
        copied(nodes, src, dst).filter(dir_pred()).len() == nodes.filter(under_pred(src)).filter(
            dir_pred(),
        ).len(),
        copied(nodes, src, dst).filter(file_pred()).len() == nodes.filter(under_pred(src)).filter(
            file_pred(),
        ).len(),
{
    lemma_map_preserves_kind_counts(nodes.filter(under_pred(src)), src, dst);
}

/// Transplanting nodes changes no kind, so it changes no kind's count.
proof fn lemma_map_preserves_kind_counts(s: Seq<FsNodeView>, src: Seq<Seq<u8>>, dst: Seq<Seq<u8>>)
    ensures
        s.map_values(rebase_node(src, dst)).filter(dir_pred()).len() == s.filter(
            dir_pred(),
        ).len(),
        s.map_values(rebase_node(src, dst)).filter(file_pred()).len() == s.filter(
            file_pred(),
        ).len(),
    decreases s.len(),
{
    reveal(Seq::filter);
    let f = rebase_node(src, dst);
    if s.len() > 0 {
        lemma_map_preserves_kind_counts(s.drop_last(), src, dst);
        let m = s.map_values(f);
        assert(m.drop_last() =~= s.drop_last().map_values(f));
        assert(m.last() == f(s.last()));
    }
}

/// Move is copy followed by deleting the source: afterwards nothing lies
/// under the source any more, and what lies under the destination is exactly
/// what the plain copy would have put there — provided neither path lies
/// under the other (a tree cannot be moved into itself).
pub proof fn lemma_move_is_copy_then_delete(
    nodes: Seq<FsNodeView>,
    src: Seq<Seq<u8>>,
    dst: Seq<Seq<u8>>,
)
    requires
        !under(dst, src),
        !under(src, dst),
    ensures
        forall|k: int|
            0 <= k < apply_move_spec(nodes, src, dst).len() ==> !under(
                #[trigger] apply_move_spec(nodes, src, dst)[k].path,
                src,
            ),
        apply_move_spec(nodes, src, dst).filter(under_pred(dst)) == apply_copy_spec(
            nodes,
            src,
            dst,
        ).filter(under_pred(dst)),
{
    let rem = remaining(nodes, src);
    let cp = copied(nodes, src, dst);
    let mv = apply_move_spec(nodes, src, dst);
    // Nothing in the moved snapshot lies under the source.
    assert forall|k: int| 0 <= k < mv.len() implies !under(#[trigger] mv[k].path, src) by {
        if k < rem.len() {
            lemma_filter_subset(nodes, outside_pred(src));
            assert(rem.contains(rem[k]));
        } else {
            let j = k - rem.len();
            let x = nodes.filter(under_pred(src))[j];
            assert(cp[j] == rebase_node(src, dst)(x));
            let p = cp[j].path;
            assert(p == dst + x.path.skip(src.len() as int));
            if under(p, src) {
                assert(under(p, dst)) by {
                    assert(p.take(dst.len() as int) =~= dst);
                }
                if src.len() <= dst.len() {
                    lemma_prefixes_comparable(p, src, dst);
                } else {
                    lemma_prefixes_comparable(p, dst, src);
                }
            }
        }
    }
    // Under the destination, moving and copying agree.
    Seq::filter_distributes_over_add(rem, cp, under_pred(dst));
    Seq::filter_distributes_over_add(nodes, cp, under_pred(dst));
    assert forall|k: int| 0 <= k < nodes.len() implies (under_pred(dst)(#[trigger] nodes[k])
        == (outside_pred(src)(nodes[k]) && under_pred(dst)(nodes[k]))) by {
        let p = nodes[k].path;
        if under(p, dst) && under(p, src) {
            if src.len() <= dst.len() {
                lemma_prefixes_comparable(p, src, dst);
            } else {
                lemma_prefixes_comparable(p, dst, src);
            }
        }
    }
    lemma_filter_compose(
        nodes,
        outside_pred(src),
        under_pred(dst),
        |n: FsNodeView| outside_pred(src)(n) && under_pred(dst)(n),
    );
    lemma_filter_congruent(
        nodes,
        |n: FsNodeView| outside_pred(src)(n) && under_pred(dst)(n),
        under_pred(dst),
    );
}

/// Filtering by predicates that agree on every element gives the same
/// result.
proof fn lemma_filter_congruent(
    s: Seq<FsNodeView>,
    p: spec_fn(FsNodeView) -> bool,
    q: spec_fn(FsNodeView) -> bool,
)
    requires
        forall|k: int| 0 <= k < s.len() ==> p(#[trigger] s[k]) == q(s[k]),
    ensures
        s.filter(p) == s.filter(q),
    decreases s.len(),
{
    reveal(Seq::filter);
    if s.len() > 0 {
        lemma_filter_congruent(s.drop_last(), p, q);
    }
}

} // verus!
