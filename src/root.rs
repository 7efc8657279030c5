use vstd::prelude::*;
use crate::tally::EntryKind;

verus! {

/// What to do with a path named on the command line, once it has been stat'ed.
#[derive(Clone, Copy, Debug, PartialEq, Eq, Structural)]
pub enum RootPlan {
    /// The size is known from the metadata alone: no traversal.
    Size(u64),
    /// The path is a directory: traverse it.
    Traverse,
    /// The path cannot be stat'ed: report it and stop with a failure status.
    Fatal,
}

/// The plan for a path named on the command line, from what stat-ing it found.
pub open spec fn root_plan(kind: EntryKind) -> RootPlan {
    match kind {
        EntryKind::File { len } => RootPlan::Size(len),
        EntryKind::Other { len } => RootPlan::Size(len),
        EntryKind::Dir => RootPlan::Traverse,
        EntryKind::Unreadable => RootPlan::Fatal,
    }
}

/// Decides how the size of a command-line path is found: a regular file (or any
/// other non-directory) is its metadata length, a directory is traversed, and a
/// path that cannot be stat'ed is a fatal error.
pub fn plan_root(kind: EntryKind) -> (r: RootPlan)
    ensures
        r == root_plan(kind),
{
    match kind {
        EntryKind::File { len } => RootPlan::Size(len),
        EntryKind::Other { len } => RootPlan::Size(len),
        EntryKind::Dir => RootPlan::Traverse,
        EntryKind::Unreadable => RootPlan::Fatal,
    }
}

} // verus!
