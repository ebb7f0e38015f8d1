//! Locating the repository metadata directory (`.git`) from a starting
//! directory: the caller canonicalizes the start path and probes each
//! ancestor, and the decision over that chain is made here.

use vstd::prelude::*;

use crate::Error;

verus! {

/// One directory of the canonicalized ancestor chain, closest directory
/// first: its path and whether it holds a metadata subdirectory.
pub struct AncestorDir {
    pub path: String,
    pub has_metadata_dir: bool,
}

/// The index of the first chain entry holding a metadata directory, or the
/// chain's length when none does.
pub open spec fn first_metadata_index(chain: Seq<AncestorDir>) -> int
    decreases chain.len(),
{
    if chain.len() == 0 {
        0
    } else if chain.first().has_metadata_dir {
        0
    } else {
        1 + first_metadata_index(chain.drop_first())
    }
}

/// The message reported when the start path cannot be canonicalized.
pub open spec fn spec_not_dir_msg(start: Seq<char>) -> Seq<char> {
    "'"@ + start + "' not a directory"@
}

/// The message reported when no ancestor holds a metadata directory.
pub open spec fn spec_not_repo_msg(start: Seq<char>) -> Seq<char> {
    "not a git repository (or any of its parents): '"@ + start + "'"@
}

/// What `first_metadata_index` means: it is at most the chain's length, no
/// entry before it holds a metadata directory, and the entry at it (when it
/// is a valid index) does.
pub proof fn lemma_first_metadata_index(chain: Seq<AncestorDir>)
    ensures
        0 <= first_metadata_index(chain) <= chain.len(),
        first_metadata_index(chain) < chain.len() ==> chain[first_metadata_index(
            chain,
        )].has_metadata_dir,
        forall|j: int|
            0 <= j < first_metadata_index(chain) ==> !(#[trigger] chain[j]).has_metadata_dir,
    decreases chain.len(),
{
    if chain.len() > 0 && !chain.first().has_metadata_dir {
        lemma_first_metadata_index(chain.drop_first());
        let rest = chain.drop_first();
        assert forall|j: int|
            0 <= j < first_metadata_index(chain) implies !(#[trigger] chain[j]).has_metadata_dir by {
            if j > 0 {
                assert(chain[j] == rest[j - 1]);
            }
        }
        if first_metadata_index(chain) < chain.len() {
            assert(chain[first_metadata_index(chain)] == rest[first_metadata_index(rest)]);
        }
    }
}

/// A start directory with no metadata directory anywhere in its ancestor
/// chain is in no repository: by `discover_repo`'s contract, location over
/// such a chain fails with the not-a-repository error.
pub proof fn lemma_no_metadata_anywhere(chain: Seq<AncestorDir>)
    requires
        forall|j: int| 0 <= j < chain.len() ==> !(#[trigger] chain[j]).has_metadata_dir,
    ensures
        first_metadata_index(chain) == chain.len(),
    decreases chain.len(),
{
    if chain.len() > 0 {
        assert(!chain.first().has_metadata_dir);
        let rest = chain.drop_first();
        assert(forall|j: int| 0 <= j < rest.len() ==> !(#[trigger] rest[j]).has_metadata_dir);
        lemma_no_metadata_anywhere(rest);
    }
}

/// If no entry before `i` holds a metadata directory, the first metadata
/// index is decided at `i`: it is `i` itself when entry `i` holds one, and
/// lies beyond `i` otherwise.
proof fn lemma_first_metadata_step(chain: Seq<AncestorDir>, i: int)
    requires
        0 <= i < chain.len(),
        forall|j: int| 0 <= j < i ==> !(#[trigger] chain[j]).has_metadata_dir,
    ensures
        chain[i].has_metadata_dir ==> first_metadata_index(chain) == i,
        !chain[i].has_metadata_dir ==> first_metadata_index(chain) >= i + 1,
    decreases i,
{
    if i == 0 {
        if !chain[0].has_metadata_dir {
            lemma_first_metadata_index(chain.drop_first());
        }
    } else {
        let rest = chain.drop_first();
        assert(forall|j: int| 0 <= j < i - 1 ==> !(#[trigger] rest[j]).has_metadata_dir);
        lemma_first_metadata_step(rest, i - 1);
        assert(rest[i - 1] == chain[i]);
    }
}

/// Find the repository metadata directory from a starting directory.
///
/// `start` is the directory the search began at, kept for diagnostics.
/// `canonical` is `None` when `start` could not be canonicalized (it does not
/// exist or is not accessible), and otherwise holds the canonicalized
/// directory and its ancestors, closest first, each probed for a metadata
/// subdirectory.
///
/// The metadata directory of the closest ancestor holding one is returned;
/// an unusable start path or a chain without any metadata directory is a
/// failure naming the original start path.
#[verifier::loop_isolation(false)]
pub fn discover_repo(start: &String, canonical: &Option<Vec<AncestorDir>>) -> (r: Result<
    String,
    Error,
>)
    ensures
        canonical is None ==> (r matches Err(Error::Git(m)) && m@ == spec_not_dir_msg(start@)),
        canonical matches Some(chain) ==> {
            let fi = first_metadata_index(chain@);
            &&& fi < chain@.len() ==> (r matches Ok(p) && p@ == chain@[fi].path@ + "/.git"@)
            &&& fi >= chain@.len() ==> (r matches Err(Error::Git(m)) && m@ == spec_not_repo_msg(
                start@,
            ))
        },
{
    match canonical {
        Option::None => {
            let mut msg = String::from_str("'");
            msg.append(start.as_str());
            msg.append("' not a directory");
            Err(Error::Git(msg))
        },
        Option::Some(chain) => {
            let n = chain.len();
            let mut i: usize = 0;
            while i < n
                invariant
                    i <= n,
                    n == chain@.len(),
                    forall|j: int| 0 <= j < i ==> !(#[trigger] chain@[j]).has_metadata_dir,
                decreases n - i,
            {
                proof {
                    lemma_first_metadata_step(chain@, i as int);
                }
                if chain[i].has_metadata_dir {
                    let mut p = chain[i].path.clone();
                    p.append("/.git");
                    return Ok(p);
                }
                i = i + 1;
            }
            proof {
                lemma_first_metadata_index(chain@);
                if first_metadata_index(chain@) < chain@.len() {
                    assert(chain@[first_metadata_index(chain@)].has_metadata_dir);
                }
            }
            let mut msg = String::from_str("not a git repository (or any of its parents): '");
            msg.append(start.as_str());
            msg.append("'");
            Err(Error::Git(msg))
        },
    }
}

} // verus!
