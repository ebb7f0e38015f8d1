//! The selection boundary: the trait the interactive chooser implements, the
//! index-based picking it reports back, and the final output line built from
//! the chosen branches.

use vstd::prelude::*;

use crate::git::{spec_display, Branch};
use crate::Error;

verus! {

/// An interactive chooser of branches: it is handed the candidates and
/// returns the subset the user picked. One implementation drives a terminal
/// widget; tests substitute fixed choices.
pub trait BranchSelector {
    fn select_branches(&self, branches: Vec<Branch>) -> Result<Vec<Branch>, Error>;
}

/// The branches at the chosen indices, in choice order.
pub fn select_by_indices(branches: &Vec<Branch>, idxs: &Vec<usize>) -> (r: Vec<Branch>)
    requires
        forall|i: int| 0 <= i < idxs@.len() ==> #[trigger] idxs@[i] < branches@.len(),
    ensures
        r@.len() == idxs@.len(),
        forall|i: int| 0 <= i < idxs@.len() ==> #[trigger] r@[i] == branches@[idxs@[i] as int],
{
    let mut r: Vec<Branch> = Vec::new();
    let n = idxs.len();
    let mut i: usize = 0;
    while i < n
        invariant
            i <= n,
            n == idxs@.len(),
            forall|j: int| 0 <= j < idxs@.len() ==> #[trigger] idxs@[j] < branches@.len(),
            r@.len() == i,
            forall|j: int| 0 <= j < i ==> #[trigger] r@[j] == branches@[idxs@[j] as int],
        decreases n - i,
    {
        r.push(branches[idxs[i]].clone());
        i = i + 1;
    }
    r
}

/// The display forms of a branch sequence, joined with single spaces.
pub open spec fn spec_joined(displays: Seq<Seq<char>>) -> Seq<char>
    decreases displays.len(),
{
    if displays.len() == 0 {
        Seq::empty()
    } else if displays.len() == 1 {
        displays.first()
    } else {
        displays.first() + seq![' '] + spec_joined(displays.drop_first())
    }
}

/// The one line this tool prints: the chosen branches' display forms,
/// space-separated.
pub open spec fn spec_branch_line(branches: Seq<Branch>) -> Seq<char> {
    spec_joined(branches.map_values(|b: Branch| spec_display(b)))
}

/// Joining one more display extends the joined text by a space and the new
/// display (or is just the display, when it is the first).
proof fn lemma_joined_push(s: Seq<Seq<char>>, x: Seq<char>)
    ensures
        spec_joined(s.push(x)) == if s.len() == 0 {
            x
        } else {
            spec_joined(s) + seq![' '] + x
        },
    decreases s.len(),
{
    if s.len() == 0 {
        assert(s.push(x).len() == 1);
        assert(s.push(x).first() == x);
    } else {
        lemma_joined_push(s.drop_first(), x);
        assert(s.push(x).drop_first() =~= s.drop_first().push(x));
        assert(s.push(x).first() == s.first());
        if s.len() == 1 {
            assert(spec_joined(s.push(x)) == s.first() + seq![' '] + x);
            assert(spec_joined(s) == s.first());
        } else {
            assert(spec_joined(s.push(x)) == s.first() + seq![' '] + (spec_joined(s.drop_first())
                + seq![' '] + x));
            assert(s.first() + seq![' '] + (spec_joined(s.drop_first()) + seq![' '] + x) =~= (
            s.first() + seq![' '] + spec_joined(s.drop_first())) + seq![' '] + x);
        }
    }
}

/// Render the chosen branches as one space-separated line.
#[verifier::loop_isolation(false)]
pub fn branch_names_line(branches: &Vec<Branch>) -> (r: String)
    ensures
        r@ == spec_branch_line(branches@),
{
    let ghost displays = branches@.map_values(|b: Branch| spec_display(b));
    let mut r = String::new();
    let n = branches.len();
    let mut i: usize = 0;
    proof {
        assert(displays.take(0) =~= Seq::<Seq<char>>::empty());
    }
    while i < n
        invariant
            i <= n,
            r@ == spec_joined(displays.take(i as int)),
        decreases n - i,
    {
        proof {
            lemma_joined_push(displays.take(i as int), displays[i as int]);
            assert(displays.take(i + 1 as int) =~= displays.take(i as int).push(
                displays[i as int],
            ));
            reveal_strlit(" ");
            assert(" "@ =~= seq![' ']);
        }
        if i > 0 {
            r.append(" ");
        }
        let d = branches[i].to_string();
        r.append(d.as_str());
        i = i + 1;
    }
    proof {
        assert(displays.take(n as int) =~= displays);
    }
    r
}

} // verus!
