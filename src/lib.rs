//! Verified core of a concurrent directory-size calculator.
//!
//! The filesystem work (listing directories, reading metadata, running one task
//! per subdirectory) happens outside this crate; every decision taken on what
//! that work finds, and every number computed from it, is made here.
//!
//! - `tally`: the accumulator each directory level owns, and the laws on the order
//!   of its inputs and on waiting for every subtree.
//! - `tree`: a model of the directory tree, and the law that a traversal's total
//!   is the saturated sum of the lengths of the reachable regular files.
//! - `root`: what to do with a path named on the command line.
//! - `cli`: reading the command line.
//! - `size_text`: how a byte count is shown.
pub mod cli;
pub mod root;
pub mod size_text;
pub mod tally;
pub mod tree;

pub use cli::{parse_command, Command};
pub use root::{plan_root, RootPlan};
pub use size_text::{format_size, report_line, GIGABYTE, KILOBYTE, MEGABYTE};
pub use tally::{DirTally, EntryKind, TallyView};
