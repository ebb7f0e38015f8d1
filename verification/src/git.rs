//! The branch value model: a discovered branch's name, its classification as
//! local or remote, and its display form, which every later stage (filtering,
//! selection, output) works with.

use vstd::prelude::*;

use crate::Error;

verus! {

/// Which namespace of the reference store a branch was discovered in.
#[derive(Debug, Clone, Copy, PartialEq, Eq, Structural)]
pub enum BranchType {
    Local,
    Remote,
}

/// A discovered branch: its slash-joined name relative to its namespace root,
/// and its classification.
#[derive(Debug, PartialEq)]
pub struct Branch {
    pub name: String,
    pub branch_type: BranchType,
}

/// The display form of a branch: remote branches are shown under the fixed
/// `remotes/` prefix, local branches as their bare name. Pattern filters
/// match against this form, never against the raw name of a remote branch.
pub open spec fn spec_display(b: Branch) -> Seq<char> {
    match b.branch_type {
        BranchType::Remote => "remotes/"@ + b.name@,
        BranchType::Local => b.name@,
    }
}

/// The mathematical content of a branch: its classification and the
/// characters of its name.
pub open spec fn branch_views(branches: Seq<Branch>) -> Seq<(BranchType, Seq<char>)> {
    branches.map_values(|b: Branch| (b.branch_type, b.name@))
}

/// The display form of a branch given by its classification and name.
pub open spec fn view_display(v: (BranchType, Seq<char>)) -> Seq<char> {
    match v.0 {
        BranchType::Remote => "remotes/"@ + v.1,
        BranchType::Local => v.1,
    }
}

impl Clone for Branch {
    fn clone(&self) -> (r: Self)
        ensures
            r == *self,
    {
        Branch { name: self.name.clone(), branch_type: self.branch_type }
    }
}

impl Branch {
    /// Render the branch for filtering and for output.
    pub fn to_string(&self) -> (r: String)
        ensures
            r@ == spec_display(*self),
    {
        match self.branch_type {
            BranchType::Remote => {
                let mut s = String::from_str("remotes/");
                s.append(self.name.as_str());
                s
            },
            BranchType::Local => self.name.clone(),
        }
    }
}

/// A source of discovered branches. One implementation walks the reference
/// store on disk; others may ask an external tool or a linked library. The
/// composition root picks one.
pub trait BranchGetter {
    fn branches(&self) -> Result<Vec<Branch>, Error>;
}

/// Decide whether a discovered reference becomes a selectable branch.
/// Symbolic references (for example a remote `HEAD` alias) are excluded, so
/// that the same branch is never offered twice.
pub fn ref_to_branch(name: String, is_symbolic: bool, branch_type: BranchType) -> (r: Option<
    Branch,
>)
    ensures
        is_symbolic ==> r is None,
        !is_symbolic ==> r == Some(Branch { name, branch_type }),
{
    if is_symbolic {
        None
    } else {
        Some(Branch { name, branch_type })
    }
}

} // verus!
