use rudex::{plan_root, DirTally, EntryKind, RootPlan};

/// A directory tree held in memory, as the traversal would find it on disk.
enum Node {
    File(u64),
    Dir(Option<Vec<Node>>),
    Other(u64),
    Vanished,
}

fn kind(node: &Node) -> EntryKind {
    match node {
        Node::File(len) => EntryKind::File { len: *len },
        Node::Dir(_) => EntryKind::Dir,
        Node::Other(len) => EntryKind::Other { len: *len },
        Node::Vanished => EntryKind::Unreadable,
    }
}

/// Drives one accumulator per directory, joining the subtree totals in the
/// reverse of the order in which they were started.
fn traverse(listing: &Option<Vec<Node>>) -> u64 {
    let mut tally = DirTally::new();
    let mut started = Vec::new();
    if let Some(entries) = listing {
        for entry in entries {
            if tally.record(kind(entry)) {
                started.push(entry);
            }
        }
    }
    while let Some(sub) = started.pop() {
        assert!(tally.finish().is_none());
        match sub {
            Node::Dir(inner) => tally.join(traverse(inner)),
            _ => unreachable!(),
        }
    }
    tally.finish().unwrap()
}

/// A plain sequential sum of the regular files reachable from a node.
fn reference_sum(node: &Node) -> u64 {
    match node {
        Node::File(len) => *len,
        Node::Dir(Some(entries)) => entries.iter().map(reference_sum).sum(),
        _ => 0,
    }
}

fn size_of(node: &Node) -> u64 {
    match plan_root(kind(node)) {
        RootPlan::Size(len) => len,
        RootPlan::Traverse => match node {
            Node::Dir(listing) => traverse(listing),
            _ => unreachable!(),
        },
        RootPlan::Fatal => panic!("cannot stat"),
    }
}

fn sample_tree() -> Node {
    Node::Dir(Some(vec![
        Node::File(10),
        Node::Dir(Some(vec![
            Node::File(200),
            Node::Dir(Some(vec![Node::File(3000), Node::Other(7)])),
            Node::Dir(Some(vec![])),
        ])),
        Node::Vanished,
        Node::File(40000),
        Node::Dir(Some(vec![Node::File(500000)])),
    ]))
}

#[test]
fn total_matches_sequential_sum() {
    let tree = sample_tree();
    assert_eq!(size_of(&tree), 543210);
    assert_eq!(size_of(&tree), reference_sum(&tree));
}

#[test]
fn repeated_runs_agree() {
    let tree = sample_tree();
    let first = size_of(&tree);
    let second = size_of(&tree);
    assert_eq!(first, second);
}

#[test]
fn entry_order_does_not_matter() {
    let forward = Node::Dir(Some(vec![
        Node::File(1),
        Node::Dir(Some(vec![Node::File(20)])),
        Node::File(300),
        Node::Dir(Some(vec![Node::File(4000)])),
    ]));
    let backward = Node::Dir(Some(vec![
        Node::Dir(Some(vec![Node::File(4000)])),
        Node::File(300),
        Node::Dir(Some(vec![Node::File(20)])),
        Node::File(1),
    ]));
    assert_eq!(size_of(&forward), 4321);
    assert_eq!(size_of(&backward), 4321);
}

#[test]
fn single_file_is_its_length() {
    assert_eq!(plan_root(EntryKind::File { len: 12345 }), RootPlan::Size(12345));
    assert_eq!(size_of(&Node::File(12345)), 12345);
}

#[test]
fn other_root_is_its_metadata_length() {
    assert_eq!(plan_root(EntryKind::Other { len: 77 }), RootPlan::Size(77));
}

#[test]
fn directory_root_is_traversed() {
    assert_eq!(plan_root(EntryKind::Dir), RootPlan::Traverse);
}

#[test]
fn unstatable_root_is_fatal() {
    assert_eq!(plan_root(EntryKind::Unreadable), RootPlan::Fatal);
}

#[test]
fn empty_directory_is_zero() {
    assert_eq!(size_of(&Node::Dir(Some(vec![]))), 0);
    assert_eq!(DirTally::new().finish(), Some(0));
}

#[test]
fn unlistable_directory_is_zero() {
    assert_eq!(size_of(&Node::Dir(None)), 0);
}

#[test]
fn unreadable_subdirectory_contributes_nothing() {
    let tree = Node::Dir(Some(vec![
        Node::File(100),
        Node::Dir(None),
        Node::Dir(Some(vec![Node::File(23)])),
    ]));
    assert_eq!(size_of(&tree), 123);
}

#[test]
fn vanished_entry_is_skipped() {
    let tree = Node::Dir(Some(vec![Node::Vanished, Node::File(5), Node::Vanished]));
    assert_eq!(size_of(&tree), 5);
}

#[test]
fn directories_themselves_add_nothing() {
    let tree = Node::Dir(Some(vec![Node::Dir(Some(vec![])), Node::Dir(Some(vec![]))]));
    assert_eq!(size_of(&tree), 0);
}

#[test]
fn record_reports_which_entries_descend() {
    let mut tally = DirTally::new();
    assert!(!tally.record(EntryKind::File { len: 9 }));
    assert!(tally.record(EntryKind::Dir));
    assert!(!tally.record(EntryKind::Other { len: 4 }));
    assert!(!tally.record(EntryKind::Unreadable));
    assert_eq!(tally.outstanding(), 1);
}

#[test]
fn total_waits_for_every_subtree() {
    let mut tally = DirTally::new();
    tally.record(EntryKind::Dir);
    tally.record(EntryKind::File { len: 1 });
    tally.record(EntryKind::Dir);
    tally.record(EntryKind::Dir);
    assert_eq!(tally.outstanding(), 3);
    tally.join(10);
    assert_eq!(tally.finish(), None);
    tally.join(100);
    assert_eq!(tally.finish(), None);
    assert_eq!(tally.outstanding(), 1);
    // the slowest subtree finishes last, and its bytes are still counted
    tally.join(1000);
    assert_eq!(tally.outstanding(), 0);
    assert_eq!(tally.finish(), Some(1111));
}

#[test]
fn total_saturates_at_u64_max() {
    let mut tally = DirTally::new();
    tally.record(EntryKind::File { len: u64::MAX - 1 });
    tally.record(EntryKind::File { len: 5 });
    tally.record(EntryKind::Dir);
    tally.join(u64::MAX);
    assert_eq!(tally.finish(), Some(u64::MAX));
}

#[test]
fn total_just_below_the_limit_is_exact() {
    let mut tally = DirTally::new();
    tally.record(EntryKind::File { len: u64::MAX - 1 });
    tally.record(EntryKind::File { len: 1 });
    assert_eq!(tally.finish(), Some(u64::MAX));
    let mut other = DirTally::new();
    other.record(EntryKind::File { len: u64::MAX - 2 });
    other.record(EntryKind::File { len: 1 });
    assert_eq!(other.finish(), Some(u64::MAX - 1));
}
