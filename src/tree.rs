use vstd::prelude::*;
use crate::tally::{cap, descends, dir_count, lemma_total_waits_for_subtrees, EntryKind, TallyView};

verus! {

/// A directory tree as the traversal finds it.
pub enum FsNode {
    /// A regular file of `len` bytes.
    File { len: u64 },
    /// A directory with its listing, or `None` where the listing cannot be read.
    Dir { listing: Option<Seq<FsNode>> },
    /// Anything else, with its metadata length.
    Other { len: u64 },
    /// An entry whose metadata cannot be read.
    Unreadable,
}

/// What the metadata lookup of a node reports.
pub open spec fn kind_of(n: FsNode) -> EntryKind {
    match n {
        FsNode::File { len } => EntryKind::File { len },
        FsNode::Dir { .. } => EntryKind::Dir,
        FsNode::Other { len } => EntryKind::Other { len },
        FsNode::Unreadable => EntryKind::Unreadable,
    }
}

/// The kinds of the entries of a listing, in listing order.
pub open spec fn kinds_of(listing: Seq<FsNode>) -> Seq<EntryKind> {
    listing.map_values(|n: FsNode| kind_of(n))
}

/// Exact sum of the lengths of the regular files reachable from `n` through
/// readable directories.
pub open spec fn reachable_size(n: FsNode) -> nat
    decreases n,
{
    match n {
        FsNode::File { len } => len as nat,
        FsNode::Dir { listing } => match listing {
            Some(entries) => listing_size(entries),
            None => 0,
        },
        _ => 0,
    }
}

/// Exact sum of `reachable_size` over the entries of a listing.
pub open spec fn listing_size(entries: Seq<FsNode>) -> nat
    decreases entries,
{
    if entries.len() == 0 {
        0
    } else {
        listing_size(entries.subrange(0, entries.len() - 1)) + reachable_size(
            entries[entries.len() - 1],
        )
    }
}

/// The total that the traversal of `n` hands to its parent: each directory's
/// accumulator records the directory's listing, then joins the totals of the
/// subtree computations started for its subdirectories.
pub open spec fn traversal_total(n: FsNode) -> u64
    decreases n,
{
    match n {
        FsNode::File { len } => len,
        FsNode::Dir { listing } => match listing {
            Some(entries) => TallyView::empty().record_all(kinds_of(entries)).join_all(
                subtree_totals(entries),
            ).total(),
            None => TallyView::empty().total(),
        },
        _ => 0,
    }
}

/// The totals of the subtree computations started for the subdirectories of a
/// listing, in listing order.
pub open spec fn subtree_totals(entries: Seq<FsNode>) -> Seq<u64>
    decreases entries,
{
    if entries.len() == 0 {
        Seq::empty()
    } else {
        let prefix = subtree_totals(entries.subrange(0, entries.len() - 1));
        let last = entries[entries.len() - 1];
        if descends(kind_of(last)) {
            prefix.push(traversal_total(last))
        } else {
            prefix
        }
    }
}

/// Sum of a sequence of byte counts.
pub open spec fn sum_of(sizes: Seq<u64>) -> nat
    decreases sizes.len(),
{
    if sizes.len() == 0 {
        0
    } else {
        sum_of(sizes.drop_last()) + sizes.last() as nat
    }
}

/// Sum of the file lengths among a sequence of entry kinds.
pub open spec fn file_bytes(kinds: Seq<EntryKind>) -> nat
    decreases kinds.len(),
{
    if kinds.len() == 0 {
        0
    } else {
        file_bytes(kinds.drop_last()) + match kinds.last() {
            EntryKind::File { len } => len as nat,
            _ => 0,
        }
    }
}

proof fn lemma_record_all_bytes(start: TallyView, kinds: Seq<EntryKind>)
    ensures
        start.record_all(kinds).bytes == start.bytes + file_bytes(kinds),
    decreases kinds.len(),
{
    if kinds.len() > 0 {
        lemma_record_all_bytes(start, kinds.drop_last());
    }
}

proof fn lemma_join_all_bytes(start: TallyView, sizes: Seq<u64>)
    ensures
        start.join_all(sizes).bytes == start.bytes + sum_of(sizes),
    decreases sizes.len(),
{
    if sizes.len() > 0 {
        lemma_join_all_bytes(start, sizes.drop_last());
    }
}

proof fn lemma_cap_add(p: nat, q: nat, x: nat)
    requires
        cap(p) == cap(q),
    ensures
        cap(p + x) == cap(q + x),
        cap(p + cap(x) as nat) == cap(q + x),
{
}

/// Saturated bytes of the files of a listing plus the totals of its subtrees: the
/// same as the saturated size of everything reachable through the listing.
proof fn lemma_listing_total(entries: Seq<FsNode>)
    ensures
        cap(file_bytes(kinds_of(entries)) + sum_of(subtree_totals(entries))) == cap(
            listing_size(entries),
        ),
    decreases entries,
{
    if entries.len() > 0 {
        let prefix = entries.subrange(0, entries.len() - 1);
        let last = entries[entries.len() - 1];
        lemma_listing_total(prefix);
        assert(kinds_of(entries).drop_last() =~= kinds_of(prefix));
        assert(kinds_of(entries).last() == kind_of(last));
        let p = file_bytes(kinds_of(prefix)) + sum_of(subtree_totals(prefix));
        let q = listing_size(prefix);
        assert(listing_size(entries) == q + reachable_size(last));
        match last {
            FsNode::File { len } => {
                assert(file_bytes(kinds_of(entries)) == file_bytes(kinds_of(prefix)) + len);
                assert(subtree_totals(entries) == subtree_totals(prefix));
                lemma_cap_add(p, q, len as nat);
            },
            FsNode::Dir { .. } => {
                lemma_traversal_total(last);
                let totals = subtree_totals(prefix).push(traversal_total(last));
                assert(totals.drop_last() =~= subtree_totals(prefix));
                assert(sum_of(totals) == sum_of(subtree_totals(prefix)) + traversal_total(last));
                lemma_cap_add(p, q, reachable_size(last));
            },
            _ => {
                assert(file_bytes(kinds_of(entries)) == file_bytes(kinds_of(prefix)));
                assert(subtree_totals(entries) == subtree_totals(prefix));
            },
        }
    }
}

/// The total of a traversal is the sum of the lengths of every regular file
/// reachable from where it starts, saturated at `u64::MAX`. Unreadable
/// directories and entries, and entries that are neither files nor directories,
/// contribute nothing.
pub proof fn lemma_traversal_total(n: FsNode)
    ensures
        traversal_total(n) == cap(reachable_size(n)),
    decreases n,
{
    match n {
        FsNode::Dir { listing } => match listing {
            Some(entries) => {
                let recorded = TallyView::empty().record_all(kinds_of(entries));
                lemma_record_all_bytes(TallyView::empty(), kinds_of(entries));
                lemma_join_all_bytes(recorded, subtree_totals(entries));
                lemma_listing_total(entries);
            },
            None => {},
        },
        _ => {},
    }
}

/// The traversal of a readable directory joins one subtree total for each
/// subdirectory of its listing, so that no subdirectory is still outstanding when
/// the directory's total is taken.
pub proof fn lemma_traversal_joins_every_subtree(entries: Seq<FsNode>)
    ensures
        subtree_totals(entries).len() == dir_count(kinds_of(entries)),
        TallyView::empty().record_all(kinds_of(entries)).join_all(
            subtree_totals(entries),
        ).outstanding == 0,
    decreases entries.len(),
{
    if entries.len() > 0 {
        let prefix = entries.subrange(0, entries.len() - 1);
        lemma_traversal_joins_every_subtree(prefix);
        assert(kinds_of(entries).drop_last() =~= kinds_of(prefix));
        assert(kinds_of(entries).last() == kind_of(entries[entries.len() - 1]));
    }
    lemma_total_waits_for_subtrees(kinds_of(entries), subtree_totals(entries));
}

proof fn lemma_listing_size_remove(entries: Seq<FsNode>, i: int)
    requires
        0 <= i < entries.len(),
    ensures
        listing_size(entries) == listing_size(entries.remove(i)) + reachable_size(entries[i]),
    decreases entries.len(),
{
    let prefix = entries.subrange(0, entries.len() - 1);
    if i == entries.len() - 1 {
        assert(entries.remove(i) =~= prefix);
    } else {
        lemma_listing_size_remove(prefix, i);
        let rest = entries.remove(i);
        assert(rest.subrange(0, rest.len() - 1) =~= prefix.remove(i));
        assert(rest[rest.len() - 1] == entries[entries.len() - 1]);
    }
}

/// A subdirectory whose listing cannot be read contributes nothing: the total of
/// its parent is the total of the parent's other entries.
pub proof fn lemma_unreadable_subdirectory(entries: Seq<FsNode>, i: int)
    requires
        0 <= i < entries.len(),
        entries[i] == (FsNode::Dir { listing: None }),
    ensures
        traversal_total(FsNode::Dir { listing: Some(entries) }) == traversal_total(
            FsNode::Dir { listing: Some(entries.remove(i)) },
        ),
{
    lemma_listing_size_remove(entries, i);
    lemma_traversal_total(FsNode::Dir { listing: Some(entries) });
    lemma_traversal_total(FsNode::Dir { listing: Some(entries.remove(i)) });
}

} // verus!
