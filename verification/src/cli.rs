//! The values the command line hands the library: the filter patterns, the
//! inclusion and mode flags, and where to look for the repository.

use vstd::prelude::*;

verus! {

/// What was asked for on the command line: the filter patterns branches must
/// match, whether remote-tracking branches are included, whether only the
/// configuration file path is wanted, and the directory the repository
/// search starts from.
#[derive(Debug, PartialEq)]
pub struct Args {
    pub filters: Vec<String>,
    pub all: bool,
    pub config: bool,
    pub git_dir: String,
}

} // verus!
