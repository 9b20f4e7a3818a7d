//! Project-directory manager for media productions: expands a declarative
//! folder template into a concrete set of paths, reconciles a directory tree
//! against that set, and aggregates file-count and size statistics over named
//! subtrees.

pub mod args;
pub mod config;
pub mod init;
pub mod query;
pub mod report;
pub mod resolve;
pub mod strings;
pub mod sync;
pub mod testutil;
pub mod util;

use vstd::prelude::*;

verus! {

} // verus!
