use vstd::prelude::*;
use vstd::seq_lib::{commutative_foldl, lemma_fold_left_permutation};

verus! {

/// The largest value a `u64` byte count can hold, as a `nat`.
pub open spec fn u64_max() -> nat {
    0xffff_ffff_ffff_ffff
}

/// A byte count held in a `u64`: sums beyond the range saturate at `u64::MAX`.
pub open spec fn cap(n: nat) -> u64 {
    if n <= u64_max() {
        n as u64
    } else {
        u64::MAX
    }
}

/// What the metadata lookup of one directory entry found.
#[derive(Clone, Copy, Debug, PartialEq, Eq, Structural)]
pub enum EntryKind {
    /// A regular file of `len` bytes.
    File { len: u64 },
    /// A directory: it adds no bytes of its own; its size is computed by a subtree
    /// computation of its own.
    Dir,
    /// Anything else (a symbolic link, a socket, a device) with its metadata length.
    Other { len: u64 },
    /// The metadata lookup failed (e.g. the entry vanished after the listing).
    Unreadable,
}

/// The abstract state of one directory's accumulator.
pub struct TallyView {
    /// Exact number of bytes taken in so far: regular files and finished subtrees.
    pub bytes: nat,
    /// Subtree computations started and not yet joined.
    pub outstanding: nat,
}

impl TallyView {
    pub open spec fn empty() -> TallyView {
        TallyView { bytes: 0, outstanding: 0 }
    }

    /// Takes in one listed entry: a file adds its length, a directory starts a
    /// subtree computation, anything else is skipped.
    pub open spec fn record(self, kind: EntryKind) -> TallyView {
        match kind {
            EntryKind::File { len } => TallyView { bytes: self.bytes + len as nat, ..self },
            EntryKind::Dir => TallyView { outstanding: self.outstanding + 1, ..self },
            _ => self,
        }
    }

    /// Takes in the total of one finished subtree computation.
    pub open spec fn join(self, size: u64) -> TallyView {
        TallyView {
            bytes: self.bytes + size as nat,
            outstanding: if self.outstanding > 0 {
                (self.outstanding - 1) as nat
            } else {
                0
            },
        }
    }

    /// The state after recording each of `kinds` in turn.
    pub open spec fn record_all(self, kinds: Seq<EntryKind>) -> TallyView {
        kinds.fold_left(self, |v: TallyView, k: EntryKind| v.record(k))
    }

    /// The state after joining each of `sizes` in turn.
    pub open spec fn join_all(self, sizes: Seq<u64>) -> TallyView {
        sizes.fold_left(self, |v: TallyView, s: u64| v.join(s))
    }

    /// The directory's total, once every subtree has been joined.
    pub open spec fn total(self) -> u64 {
        cap(self.bytes)
    }
}

/// A directory's accumulator ends in the same state whatever order its listing
/// is read in and whatever order its subtree computations finish in: two runs over
/// the same entries and the same subtree totals agree.
pub proof fn lemma_order_irrelevant(
    start: TallyView,
    kinds1: Seq<EntryKind>,
    kinds2: Seq<EntryKind>,
    sizes1: Seq<u64>,
    sizes2: Seq<u64>,
)
    requires
        kinds1.to_multiset() == kinds2.to_multiset(),
        sizes1.to_multiset() == sizes2.to_multiset(),
    ensures
        start.record_all(kinds1).join_all(sizes1) == start.record_all(kinds2).join_all(sizes2),
{
    let rec = |v: TallyView, k: EntryKind| v.record(k);
    let jn = |v: TallyView, s: u64| v.join(s);
    assert(commutative_foldl(rec));
    assert(commutative_foldl(jn));
    lemma_fold_left_permutation(kinds1, kinds2, rec, start);
    lemma_fold_left_permutation(sizes1, sizes2, jn, start.record_all(kinds1));
}

/// Number of directories among a sequence of entry kinds.
pub open spec fn dir_count(kinds: Seq<EntryKind>) -> nat
    decreases kinds.len(),
{
    if kinds.len() == 0 {
        0
    } else {
        dir_count(kinds.drop_last()) + if descends(kinds.last()) {
            1nat
        } else {
            0nat
        }
    }
}

proof fn lemma_record_all_outstanding(start: TallyView, kinds: Seq<EntryKind>)
    ensures
        start.record_all(kinds).outstanding == start.outstanding + dir_count(kinds),
    decreases kinds.len(),
{
    if kinds.len() > 0 {
        lemma_record_all_outstanding(start, kinds.drop_last());
    }
}

proof fn lemma_join_all_outstanding(start: TallyView, sizes: Seq<u64>)
    requires
        sizes.len() <= start.outstanding,
    ensures
        start.join_all(sizes).outstanding == start.outstanding - sizes.len(),
    decreases sizes.len(),
{
    if sizes.len() > 0 {
        lemma_join_all_outstanding(start, sizes.drop_last());
    }
}

/// A directory's accumulator holds a total only once a subtree total has been
/// joined for every subdirectory of its listing: with fewer joined, some are still
/// outstanding (and `DirTally::finish` gives none); with all joined, none are.
pub proof fn lemma_total_waits_for_subtrees(kinds: Seq<EntryKind>, sizes: Seq<u64>)
    requires
        sizes.len() <= dir_count(kinds),
    ensures
        TallyView::empty().record_all(kinds).join_all(sizes).outstanding == dir_count(kinds)
            - sizes.len(),
        TallyView::empty().record_all(kinds).join_all(sizes).outstanding == 0 <==> sizes.len()
            == dir_count(kinds),
{
    lemma_record_all_outstanding(TallyView::empty(), kinds);
    lemma_join_all_outstanding(TallyView::empty().record_all(kinds), sizes);
}

/// Whether an entry of this kind is a directory whose subtree must be computed.
pub open spec fn descends(kind: EntryKind) -> bool {
    kind is Dir
}

/// The accumulator of one directory level.
///
/// It is owned by the computation of that directory alone: files are added as the
/// listing is read, and the totals of subdirectories are added as their own
/// computations finish, in whatever order that happens.
pub struct DirTally {
    total: u64,
    outstanding: u64,
    bytes: Ghost<nat>,
}

impl View for DirTally {
    type V = TallyView;

    closed spec fn view(&self) -> TallyView {
        TallyView { bytes: self.bytes@, outstanding: self.outstanding as nat }
    }
}

impl DirTally {
    pub closed spec fn wf(&self) -> bool {
        self.total == cap(self.bytes@)
    }

    /// An accumulator for a directory of which nothing has been read yet.
    pub fn new() -> (r: DirTally)
        ensures
            r.wf(),
            r@ == TallyView::empty(),
    {
        DirTally { total: 0, outstanding: 0, bytes: Ghost(0) }
    }

    /// Takes in one entry of the directory's listing. Returns whether the entry is a
    /// directory, for which the caller starts a subtree computation and later hands
    /// its total to `join`.
    pub fn record(&mut self, kind: EntryKind) -> (descend: bool)
        requires
            old(self).wf(),
            old(self)@.outstanding < u64::MAX,
        ensures
            final(self).wf(),
            final(self)@ == old(self)@.record(kind),
            descend == descends(kind),
    {
        match kind {
            EntryKind::File { len } => {
                self.total = self.total.saturating_add(len);
                self.bytes = Ghost(self.bytes@ + len as nat);
                false
            },
            EntryKind::Dir => {
                self.outstanding = self.outstanding + 1;
                true
            },
            _ => false,
        }
    }

    /// Takes in the total of one finished subtree computation.
    pub fn join(&mut self, size: u64)
        requires
            old(self).wf(),
        ensures
            final(self).wf(),
            final(self)@ == old(self)@.join(size),
    {
        self.total = self.total.saturating_add(size);
        self.bytes = Ghost(self.bytes@ + size as nat);
        if self.outstanding > 0 {
            self.outstanding = self.outstanding - 1;
        }
    }

    /// Subtree computations started and not yet joined.
    pub fn outstanding(&self) -> (r: u64)
        ensures
            r == self@.outstanding,
    {
        self.outstanding
    }

    /// The directory's total: the saturated sum of every file length and subtree
    /// total taken in. There is none while a subtree computation is still
    /// outstanding, since its bytes would be missing.
    pub fn finish(&self) -> (r: Option<u64>)
        requires
            self.wf(),
        ensures
            r == (if self@.outstanding == 0 {
                Some(self@.total())
            } else {
                None
            }),
    {
        if self.outstanding == 0 {
            Some(self.total)
        } else {
            None
        }
    }
}

} // verus!
