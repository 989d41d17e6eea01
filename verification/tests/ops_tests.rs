use sfmanager::fsmodel::apply_operation;
use sfmanager::fsmodel::copy_tree;
use sfmanager::fsmodel::FsNode;
use sfmanager::fsmodel::NodeKind;
use sfmanager::fspath::AbsPath;
use sfmanager::ops::Executor;
use sfmanager::ops::OpKind;
use sfmanager::ops::Operation;

fn path(components: &[&[u8]]) -> AbsPath {
    AbsPath { components: components.iter().map(|c| c.to_vec()).collect() }
}

fn file_node(components: &[&[u8]], contents: &[u8]) -> FsNode {
    FsNode { path: path(components), kind: NodeKind::File(contents.to_vec()) }
}

fn dir_node(components: &[&[u8]]) -> FsNode {
    FsNode { path: path(components), kind: NodeKind::Dir }
}

fn has_file(nodes: &[FsNode], components: &[&[u8]], contents: &[u8]) -> bool {
    nodes.iter().any(|n| {
        n.path.equals(&path(components))
            && matches!(&n.kind, NodeKind::File(c) if c.as_slice() == contents)
    })
}

fn has_dir(nodes: &[FsNode], components: &[&[u8]]) -> bool {
    nodes
        .iter()
        .any(|n| n.path.equals(&path(components)) && matches!(n.kind, NodeKind::Dir))
}

fn tree() -> Vec<FsNode> {
    vec![
        dir_node(&[b"a"]),
        dir_node(&[b"a", b"dir"]),
        file_node(&[b"a", b"dir", b"x.txt"], b"first"),
        dir_node(&[b"a", b"dir", b"sub"]),
        file_node(&[b"a", b"dir", b"sub", b"y.txt"], b"second"),
        dir_node(&[b"b"]),
        file_node(&[b"a", b"other.txt"], b"untouched"),
    ]
}

#[test]
fn copying_a_tree_recreates_every_file_and_subdirectory() {
    let nodes = tree();
    let created = copy_tree(&nodes, &path(&[b"a", b"dir"]), &path(&[b"b", b"dir"]));
    // Two files byte-identical, two directories, nothing else.
    assert_eq!(created.len(), 4);
    assert!(has_dir(&created, &[b"b", b"dir"]));
    assert!(has_file(&created, &[b"b", b"dir", b"x.txt"], b"first"));
    assert!(has_dir(&created, &[b"b", b"dir", b"sub"]));
    assert!(has_file(&created, &[b"b", b"dir", b"sub", b"y.txt"], b"second"));
}

#[test]
fn copying_an_empty_depth_tree_copies_the_single_file() {
    let nodes = vec![file_node(&[b"a", b"file.txt"], b"data")];
    let created = copy_tree(&nodes, &path(&[b"a", b"file.txt"]), &path(&[b"b", b"file.txt"]));
    assert_eq!(created.len(), 1);
    assert!(has_file(&created, &[b"b", b"file.txt"], b"data"));
}

#[test]
fn scenario_copy_keeps_the_source_and_fills_the_destination() {
    let nodes = vec![dir_node(&[b"a"]), dir_node(&[b"b"]), file_node(&[b"a", b"file.txt"], b"payload")];
    let op = Operation {
        kind: OpKind::Copy,
        source: path(&[b"a", b"file.txt"]),
        destination: path(&[b"b", b"file.txt"]),
    };
    let after = apply_operation(&nodes, &op);
    assert!(has_file(&after, &[b"b", b"file.txt"], b"payload"));
    assert!(has_file(&after, &[b"a", b"file.txt"], b"payload"));
}

#[test]
fn scenario_move_fills_the_destination_and_drops_the_source() {
    let nodes = vec![
        dir_node(&[b"a"]),
        dir_node(&[b"a", b"dir"]),
        file_node(&[b"a", b"dir", b"x.txt"], b"content"),
        dir_node(&[b"b"]),
    ];
    let op = Operation {
        kind: OpKind::Move,
        source: path(&[b"a", b"dir"]),
        destination: path(&[b"b", b"dir"]),
    };
    let after = apply_operation(&nodes, &op);
    assert!(has_file(&after, &[b"b", b"dir", b"x.txt"], b"content"));
    assert!(has_dir(&after, &[b"b", b"dir"]));
    assert!(!after.iter().any(|n| n.path.equals(&path(&[b"a", b"dir"]))));
    assert!(!after.iter().any(|n| n.path.equals(&path(&[b"a", b"dir", b"x.txt"]))));
    assert!(has_dir(&after, &[b"a"]));
}

#[test]
fn a_move_places_exactly_what_a_copy_would_have_placed() {
    let nodes = tree();
    let src = path(&[b"a", b"dir"]);
    let dst = path(&[b"b", b"dir"]);
    let copied = apply_operation(
        &nodes,
        &Operation { kind: OpKind::Copy, source: src.clone(), destination: dst.clone() },
    );
    let moved = apply_operation(&nodes, &Operation { kind: OpKind::Move, source: src, destination: dst });
    let in_dest = |ns: &[FsNode]| -> Vec<(Vec<Vec<u8>>, bool)> {
        ns.iter()
            .filter(|n| n.path.components.len() >= 2 && n.path.components[0] == b"b".to_vec())
            .map(|n| (n.path.components.clone(), matches!(n.kind, NodeKind::Dir)))
            .collect()
    };
    assert_eq!(in_dest(&copied), in_dest(&moved));
}

#[test]
fn copying_a_tree_that_is_not_there_creates_nothing() {
    let nodes = tree();
    let created = copy_tree(&nodes, &path(&[b"missing"]), &path(&[b"b", b"missing"]));
    assert!(created.is_empty());
}

#[test]
fn the_executor_hands_out_fresh_handles_and_counts_its_pending_work() {
    let mut ex = Executor::new();
    assert_eq!(ex.count(), 0);
    let op = Operation {
        kind: OpKind::Copy,
        source: path(&[b"a"]),
        destination: path(&[b"b", b"a"]),
    };
    let h1 = ex.submit(op.clone());
    let h2 = ex.submit(op.clone());
    let h3 = ex.submit(op);
    assert_ne!(h1, h2);
    assert_ne!(h2, h3);
    assert_eq!(ex.count(), 3);
}

#[test]
fn a_finished_operation_leaves_the_executor_exactly_once() {
    let mut ex = Executor::new();
    let op = Operation {
        kind: OpKind::Move,
        source: path(&[b"a"]),
        destination: path(&[b"b", b"a"]),
    };
    let h1 = ex.submit(op.clone());
    let h2 = ex.submit(op);
    let removed = ex.remove(h1);
    assert!(removed.is_some());
    assert_eq!(removed.unwrap().kind, OpKind::Move);
    assert_eq!(ex.count(), 1);
    assert!(ex.remove(h1).is_none());
    assert_eq!(ex.count(), 1);
    assert!(ex.remove(h2).is_some());
    assert_eq!(ex.count(), 0);
}

#[test]
fn completions_can_be_reported_in_any_order() {
    let mut ex = Executor::new();
    let op = Operation {
        kind: OpKind::Copy,
        source: path(&[b"x"]),
        destination: path(&[b"y", b"x"]),
    };
    let h1 = ex.submit(op.clone());
    let h2 = ex.submit(op.clone());
    let h3 = ex.submit(op);
    assert!(ex.remove(h2).is_some());
    assert!(ex.remove(h3).is_some());
    assert!(ex.remove(h1).is_some());
    assert_eq!(ex.count(), 0);
}
