//! The composition of discovery and filtering: applying the local/remote
//! inclusion rule and the compiled pattern filters to a discovered branch
//! list, and producing the final candidates in ascending display order.
//!
//! An empty candidate list is a failure, never an empty success: the
//! interactive selection downstream would have nothing to present.

use vstd::multiset::Multiset;
use vstd::prelude::*;

use crate::git::{branch_views, spec_display, view_display, Branch, BranchType};
use crate::re::{
    all_patterns_valid, compile_filters, matches_regex, pattern_set_matches, sources_of,
    CompiledPattern,
};
use crate::refwalk::{branches_from_namespaces, spec_discovered, spec_namespace, FsEntry};
use crate::Error;

verus! {

/// Whether one branch survives filtering: remote branches only when asked
/// for, and then only branches whose display form passes the pattern set.
pub open spec fn branch_kept(b: Branch, include_remotes: bool, sources: Seq<Seq<char>>) -> bool {
    (include_remotes || b.branch_type is Local) && pattern_set_matches(sources, spec_display(b))
}

/// The branches surviving filtering, in their original order.
pub open spec fn spec_kept(
    branches: Seq<Branch>,
    include_remotes: bool,
    sources: Seq<Seq<char>>,
) -> Seq<Branch> {
    branches.filter(|b: Branch| branch_kept(b, include_remotes, sources))
}

/// Lexicographic order on character sequences, by code point: the shorter of
/// two sequences agreeing on their common prefix comes first.
pub open spec fn lex_le(a: Seq<char>, b: Seq<char>) -> bool
    decreases a.len(),
{
    if a.len() == 0 {
        true
    } else if b.len() == 0 {
        false
    } else if a.first() != b.first() {
        a.first() < b.first()
    } else {
        lex_le(a.drop_first(), b.drop_first())
    }
}

/// Whether the branches stand in ascending display order.
pub open spec fn sorted_by_display(branches: Seq<Branch>) -> bool {
    forall|i: int, j: int|
        0 <= i < j < branches.len() ==> lex_le(
            spec_display(#[trigger] branches[i]),
            spec_display(#[trigger] branches[j]),
        )
}

/// Lexicographic order is total: of any two sequences, one comes at or
/// before the other.
pub proof fn lemma_lex_le_total(a: Seq<char>, b: Seq<char>)
    ensures
        lex_le(a, b) || lex_le(b, a),
    decreases a.len(),
{
    if a.len() > 0 && b.len() > 0 {
        if a.first() == b.first() {
            lemma_lex_le_total(a.drop_first(), b.drop_first());
        }
    }
}

/// Lexicographic order is transitive.
pub proof fn lemma_lex_le_transitive(a: Seq<char>, b: Seq<char>, c: Seq<char>)
    requires
        lex_le(a, b),
        lex_le(b, c),
    ensures
        lex_le(a, c),
    decreases a.len(),
{
    if a.len() > 0 && b.len() > 0 && c.len() > 0 && a.first() == b.first() && b.first()
        == c.first() {
        lemma_lex_le_transitive(a.drop_first(), b.drop_first(), c.drop_first());
    }
}

/// Whether `a` comes at or before `b` in lexicographic order by code point.
fn str_lex_le(a: &str, b: &str) -> (r: bool)
    ensures
        r == lex_le(a@, b@),
{
    let an = a.unicode_len();
    let bn = b.unicode_len();
    let mut i: usize = 0;
    proof {
        assert(a@.skip(0) =~= a@);
        assert(b@.skip(0) =~= b@);
    }
    while i < an && i < bn
        invariant
            i <= an,
            i <= bn,
            an == a@.len(),
            bn == b@.len(),
            forall|j: int| 0 <= j < i ==> a@[j] == b@[j],
            lex_le(a@, b@) == lex_le(a@.skip(i as int), b@.skip(i as int)),
            lex_le(b@, a@) == lex_le(b@.skip(i as int), a@.skip(i as int)),
        decreases an - i,
    {
        let ca = a.get_char(i);
        let cb = b.get_char(i);
        if ca != cb {
            proof {
                assert(a@.skip(i as int).first() == a@[i as int]);
                assert(b@.skip(i as int).first() == b@[i as int]);
            }
            return ca < cb;
        }
        proof {
            assert(a@.skip(i as int).first() == a@[i as int]);
            assert(b@.skip(i as int).first() == b@[i as int]);
            assert(a@.skip(i as int).drop_first() =~= a@.skip(i + 1 as int));
            assert(b@.skip(i as int).drop_first() =~= b@.skip(i + 1 as int));
        }
        i = i + 1;
    }
    proof {
        if i >= an {
            assert(a@.skip(i as int).len() == 0);
        } else {
            assert(b@.skip(i as int).len() == 0);
            assert(a@.skip(i as int).len() > 0);
        }
    }
    i >= an
}

/// Filter a discovered branch list: drop remote branches unless they are
/// asked for, keep what the pattern set lets through, in the original order.
/// An invalid pattern fails the whole call, and so does an empty result.
#[verifier::loop_isolation(false)]
pub fn filter_branches(branches: Vec<Branch>, include_remotes: bool, patterns: &Vec<
    String,
>) -> (r: Result<Vec<Branch>, Error>)
    ensures
        !all_patterns_valid(patterns.deep_view()) ==> (r matches Err(e) && e is Regex),
        all_patterns_valid(patterns.deep_view()) ==> {
            let kept = spec_kept(branches@, include_remotes, patterns.deep_view());
            &&& kept.len() > 0 ==> (r matches Ok(out) && out@ == kept)
            &&& kept.len() == 0 ==> (r matches Err(e) && e matches Error::Select(m) && m@
                == "no matching branches"@)
        },
        r matches Ok(out) ==> out@.len() > 0,
{
    let re_patterns = match compile_filters(patterns) {
        Ok(ps) => ps,
        Err(e) => {
            return Err(e);
        },
    };
    let ghost sources = patterns.deep_view();
    let ghost pred = |b: Branch| branch_kept(b, include_remotes, sources);
    let mut out: Vec<Branch> = Vec::new();
    let n = branches.len();
    let mut i: usize = 0;
    while i < n
        invariant
            i <= n,
            n == branches@.len(),
            sources_of(re_patterns@) == sources,
            out@ == branches@.take(i as int).filter(pred),
        decreases n - i,
    {
        let b = &branches[i];
        let keep = if include_remotes {
            true
        } else {
            b.branch_type == BranchType::Local
        };
        if keep && matches_regex(b, &re_patterns) {
            out.push(b.clone());
        }
        proof {
            reveal_with_fuel(Seq::filter, 2);
            let t = branches@.take(i + 1 as int);
            assert(t.drop_last() =~= branches@.take(i as int));
            assert(t.last() == branches@[i as int]);
            assert(t.filter(pred) == if pred(t.last()) {
                t.drop_last().filter(pred).push(t.last())
            } else {
                t.drop_last().filter(pred)
            });
            assert(out@ =~= branches@.take(i + 1 as int).filter(pred));
        }
        i = i + 1;
    }
    proof {
        assert(branches@.take(n as int) =~= branches@);
    }
    if out.len() == 0 {
        return Err(Error::Select(String::from_str("no matching branches")));
    }
    Ok(out)
}

/// Whether one classification-and-name pair survives filtering.
pub open spec fn view_kept(
    v: (BranchType, Seq<char>),
    include_remotes: bool,
    sources: Seq<Seq<char>>,
) -> bool {
    (include_remotes || v.0 is Local) && pattern_set_matches(sources, view_display(v))
}

/// The classification-and-name pairs surviving filtering, in order.
pub open spec fn spec_kept_views(
    vs: Seq<(BranchType, Seq<char>)>,
    include_remotes: bool,
    sources: Seq<Seq<char>>,
) -> Seq<(BranchType, Seq<char>)> {
    vs.filter(|v: (BranchType, Seq<char>)| view_kept(v, include_remotes, sources))
}

/// Filtering branches and taking their classification-and-name pairs is the
/// same as filtering the pairs themselves.
proof fn lemma_views_filter_commute(s: Seq<Branch>, include_remotes: bool, sources: Seq<Seq<char>>)
    ensures
        branch_views(spec_kept(s, include_remotes, sources)) =~= spec_kept_views(
            branch_views(s),
            include_remotes,
            sources,
        ),
    decreases s.len(),
{
    reveal_with_fuel(Seq::filter, 2);
    let bpred = |b: Branch| branch_kept(b, include_remotes, sources);
    let vpred = |v: (BranchType, Seq<char>)| view_kept(v, include_remotes, sources);
    if s.len() == 0 {
        assert(s =~= Seq::<Branch>::empty());
        assert(branch_views(s) =~= Seq::<(BranchType, Seq<char>)>::empty());
        assert(s.filter(bpred) =~= Seq::<Branch>::empty());
    } else {
        lemma_views_filter_commute(s.drop_last(), include_remotes, sources);
        let b = s.last();
        let bv = branch_views(s);
        assert(bv.len() == s.len());
        assert(bv.last() == (b.branch_type, b.name@));
        assert(bv.drop_last() =~= branch_views(s.drop_last()));
        assert(vpred(bv.last()) == bpred(b));
        assert(s.filter(bpred) == if bpred(b) {
            s.drop_last().filter(bpred).push(b)
        } else {
            s.drop_last().filter(bpred)
        });
        assert(bv.filter(vpred) == if vpred(bv.last()) {
            bv.drop_last().filter(vpred).push(bv.last())
        } else {
            bv.drop_last().filter(vpred)
        });
        if bpred(b) {
            assert(branch_views(s.drop_last().filter(bpred).push(b)) =~= branch_views(
                s.drop_last().filter(bpred),
            ).push((b.branch_type, b.name@)));
        }
    }
}

/// Inserting an element anywhere in a sequence adds exactly it to the
/// sequence's multiset of elements.
proof fn lemma_seq_insert_to_multiset<A>(s: Seq<A>, p: int, x: A)
    requires
        0 <= p <= s.len(),
    ensures
        s.insert(p, x).to_multiset() =~= s.to_multiset().insert(x),
{
    broadcast use vstd::seq_lib::group_to_multiset_ensures;

    assert(s.insert(p, x) =~= s.take(p) + seq![x] + s.skip(p));
    assert(s =~= s.take(p) + s.skip(p));
    vstd::seq_lib::lemma_multiset_commutative(s.take(p) + seq![x], s.skip(p));
    vstd::seq_lib::lemma_multiset_commutative(s.take(p), seq![x]);
    vstd::seq_lib::lemma_multiset_commutative(s.take(p), s.skip(p));
    assert(seq![x] =~= Seq::<A>::empty().push(x));
    assert(Seq::<A>::empty().push(x).to_multiset() =~= Seq::<A>::empty().to_multiset().insert(x));
    assert forall|y: A| true implies !Seq::<A>::empty().contains(y) by {}
    assert(Seq::<A>::empty().to_multiset() =~= Multiset::<A>::empty());
    assert(seq![x].to_multiset() =~= Multiset::<A>::empty().insert(x));
}

/// A permutation of branches is a permutation of their classification-and-
/// name pairs.
proof fn lemma_views_multiset_perm(a: Seq<Branch>, b: Seq<Branch>)
    requires
        a.to_multiset() == b.to_multiset(),
    ensures
        branch_views(a).to_multiset() == branch_views(b).to_multiset(),
    decreases a.len(),
{
    broadcast use vstd::seq_lib::group_to_multiset_ensures;

    if a.len() == 0 {
        assert(a.to_multiset().len() == 0);
        assert(b.len() == 0);
        assert(branch_views(a) =~= Seq::<(BranchType, Seq<char>)>::empty());
        assert(branch_views(b) =~= Seq::<(BranchType, Seq<char>)>::empty());
        assert(branch_views(a).to_multiset() =~= branch_views(b).to_multiset());
    } else {
        let x = a.last();
        assert(a[a.len() - 1] == x);
        assert(a.contains(x));
        assert(a.to_multiset().count(x) > 0);
        assert(b.to_multiset().count(x) > 0);
        assert(b.contains(x));
        let j = choose|j: int| 0 <= j < b.len() && b[j] == x;
        let a1 = a.drop_last();
        let b1 = b.remove(j);
        assert(a.remove(a.len() - 1) =~= a1);
        assert(a.remove(a.len() - 1).to_multiset() =~= a.to_multiset().remove(x));
        assert(b1.to_multiset() =~= b.to_multiset().remove(x));
        lemma_views_multiset_perm(a1, b1);
        let xv = (x.branch_type, x.name@);
        assert(branch_views(a) =~= branch_views(a1).push(xv));
        assert(branch_views(a).to_multiset() =~= branch_views(a1).to_multiset().insert(xv));
        assert(branch_views(b1) =~= branch_views(b).remove(j));
        assert(branch_views(b).remove(j).to_multiset() =~= branch_views(b).to_multiset().remove(
            branch_views(b)[j],
        ));
        assert(branch_views(b)[j] == xv);
        assert(branch_views(b).contains(xv));
        assert(branch_views(b).to_multiset().count(xv) > 0);
        assert(branch_views(a).to_multiset() =~= branch_views(b).to_multiset());
    }
}

/// The position at which a branch displaying as `text` is inserted into the
/// already sorted `out`: everything before it displays at or before `text`,
/// and the entry at it (when there is one) displays strictly after.
fn insert_position(out: &Vec<Branch>, text: &String) -> (p: usize)
    ensures
        p <= out@.len(),
        forall|j: int| 0 <= j < p ==> lex_le(spec_display(#[trigger] out@[j]), text@),
        p < out@.len() ==> !lex_le(spec_display(out@[p as int]), text@),
{
    let n = out.len();
    let mut p: usize = 0;
    while p < n
        invariant
            p <= n,
            n == out@.len(),
            forall|j: int| 0 <= j < p ==> lex_le(spec_display(#[trigger] out@[j]), text@),
        decreases n - p,
    {
        let d = out[p].to_string();
        if !str_lex_le(d.as_str(), text.as_str()) {
            return p;
        }
        p = p + 1;
    }
    p
}

/// Sort branches into ascending display order. The result holds exactly the
/// given branches; equal displays keep no particular order among themselves.
#[verifier::loop_isolation(false)]
fn sort_branches(branches: Vec<Branch>) -> (r: Vec<Branch>)
    ensures
        r@.to_multiset() == branches@.to_multiset(),
        r@.len() == branches@.len(),
        sorted_by_display(r@),
{
    broadcast use vstd::seq_lib::group_to_multiset_ensures;

    let mut out: Vec<Branch> = Vec::new();
    let n = branches.len();
    let mut i: usize = 0;
    proof {
        assert(branches@.take(0) =~= Seq::<Branch>::empty());
        assert(out@ =~= Seq::<Branch>::empty());
        assert(out@.to_multiset() =~= branches@.take(0).to_multiset());
    }
    while i < n
        invariant
            i <= n,
            out@.len() == i,
            out@.to_multiset() == branches@.take(i as int).to_multiset(),
            sorted_by_display(out@),
        decreases n - i,
    {
        let b = branches[i].clone();
        let text = b.to_string();
        let p = insert_position(&out, &text);
        let ghost old_out = out@;
        out.insert(p, b);
        proof {
            if p < old_out.len() {
                lemma_lex_le_total(spec_display(old_out[p as int]), text@);
                assert(lex_le(text@, spec_display(old_out[p as int])));
            }
            assert(out@ == old_out.insert(p as int, branches@[i as int]));
            assert(spec_display(out@[p as int]) == text@);
            assert forall|x: int, y: int| 0 <= x < y < out@.len() implies lex_le(
                spec_display(#[trigger] out@[x]),
                spec_display(#[trigger] out@[y]),
            ) by {
                if y < p {
                    assert(out@[x] == old_out[x] && out@[y] == old_out[y]);
                } else if y == p {
                    assert(out@[x] == old_out[x]);
                    assert(lex_le(spec_display(old_out[x]), text@));
                } else {
                    assert(out@[y] == old_out[y - 1]);
                    assert(p < old_out.len());
                    if y - 1 > p {
                        assert(lex_le(
                            spec_display(old_out[p as int]),
                            spec_display(old_out[y - 1]),
                        ));
                        lemma_lex_le_transitive(
                            text@,
                            spec_display(old_out[p as int]),
                            spec_display(old_out[y - 1]),
                        );
                    }
                    assert(lex_le(text@, spec_display(old_out[y - 1])));
                    if x < p {
                        assert(out@[x] == old_out[x]);
                        assert(lex_le(spec_display(old_out[x]), text@));
                        lemma_lex_le_transitive(
                            spec_display(old_out[x]),
                            text@,
                            spec_display(old_out[y - 1]),
                        );
                    } else if x == p {
                        assert(spec_display(out@[x]) == text@);
                    } else {
                        assert(out@[x] == old_out[x - 1]);
                    }
                }
            }
            lemma_seq_insert_to_multiset(old_out, p as int, branches@[i as int]);
            assert(branches@.take(i + 1 as int) =~= branches@.take(i as int).push(
                branches@[i as int],
            ));
            branches@.take(i as int).to_multiset_ensures();
            assert(branches@.take(i as int).push(branches@[i as int]).to_multiset()
                =~= branches@.take(i as int).to_multiset().insert(branches@[i as int]));
            assert(out@.to_multiset() =~= branches@.take(i + 1 as int).to_multiset());
        }
        i = i + 1;
    }
    proof {
        assert(branches@.take(n as int) =~= branches@);
    }
    out
}

/// Enumerate the selectable branches of a repository snapshot: walk both
/// reference namespaces, classify, apply the inclusion rule and the pattern
/// filters, and return the candidates in ascending display order. Zero
/// candidates after filtering is a failure, never an empty success.
pub fn enumerate(
    heads: &Option<Vec<FsEntry>>,
    remotes: &Option<Vec<FsEntry>>,
    include_remotes: bool,
    filter_patterns: &Vec<String>,
) -> (r: Result<Vec<Branch>, Error>)
    ensures
        !all_patterns_valid(filter_patterns.deep_view()) ==> (r matches Err(e) && e is Regex),
        all_patterns_valid(filter_patterns.deep_view()) ==> {
            let kept = spec_kept_views(
                spec_discovered(spec_namespace(*heads), spec_namespace(*remotes)),
                include_remotes,
                filter_patterns.deep_view(),
            );
            &&& kept.len() == 0 ==> (r matches Err(e) && e matches Error::Select(m) && m@
                == "no matching branches"@)
            &&& kept.len() > 0 ==> (r matches Ok(out) && branch_views(out@).to_multiset()
                == kept.to_multiset() && sorted_by_display(out@))
        },
        r matches Ok(out) ==> out@.len() > 0,
{
    broadcast use vstd::seq_lib::group_to_multiset_ensures;

    let all = branches_from_namespaces(heads, remotes);
    let ghost all_seq = all@;
    let kept = match filter_branches(all, include_remotes, filter_patterns) {
        Ok(v) => v,
        Err(e) => {
            proof {
                if all_patterns_valid(filter_patterns.deep_view()) {
                    lemma_views_filter_commute(
                        all_seq,
                        include_remotes,
                        filter_patterns.deep_view(),
                    );
                }
            }
            return Err(e);
        },
    };
    proof {
        lemma_views_filter_commute(all_seq, include_remotes, filter_patterns.deep_view());
    }
    let ghost kept_seq = kept@;
    let sorted = sort_branches(kept);
    proof {
        lemma_views_multiset_perm(sorted@, kept_seq);
    }
    Ok(sorted)
}

} // verus!
