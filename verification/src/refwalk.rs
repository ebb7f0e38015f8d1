//! Walking an in-memory snapshot of a reference-store namespace (such as the
//! local or remote branch subtree), producing flat, slash-joined reference
//! names while excluding symbolic references.
//!
//! A loose reference file holds either an object identifier, which never
//! contains a `/`, or a symbolic redirect of the form `ref: <path>`, which
//! always does. The walker therefore keeps exactly the files whose content is
//! free of `/`. This is a deliberate shortcut over a full reference-store
//! grammar; packed reference storage is not handled.

use vstd::prelude::*;

use crate::git::{branch_views, Branch, BranchType};

verus! {

/// One entry of an in-memory snapshot of a reference-store subtree: either a
/// file holding a reference's raw text, or a directory of further entries.
pub enum FsEntry {
    File { name: String, content: String },
    Dir { name: String, entries: Vec<FsEntry> },
}

/// The reference names contributed by one entry: a direct-reference file
/// contributes its own name; a directory contributes its children's names,
/// each prefixed with the directory name and a `/`.
pub open spec fn entry_refs(e: FsEntry) -> Seq<Seq<char>>
    decreases e,
{
    match e {
        FsEntry::File { name, content } => {
            if content@.contains('/') {
                Seq::empty()
            } else {
                seq![name@]
            }
        },
        FsEntry::Dir { name, entries } => prefixed(name@, entries_refs(entries@)),
    }
}

/// The reference names contributed by a sequence of entries, in order.
pub open spec fn entries_refs(entries: Seq<FsEntry>) -> Seq<Seq<char>>
    decreases entries,
{
    if entries.len() == 0 {
        Seq::empty()
    } else {
        entry_refs(entries.first()) + entries_refs(entries.drop_first())
    }
}

/// Every name in `refs`, prefixed with `dir` and a `/` separator.
pub open spec fn prefixed(dir: Seq<char>, refs: Seq<Seq<char>>) -> Seq<Seq<char>> {
    refs.map_values(|r: Seq<char>| dir + seq!['/'] + r)
}

/// Whether the string slice contains the character anywhere.
fn str_contains_char(s: &str, c: char) -> (b: bool)
    ensures
        b == s@.contains(c),
{
    let n = s.unicode_len();
    let mut i: usize = 0;
    while i < n
        invariant
            i <= n,
            n == s@.len(),
            forall|j: int| 0 <= j < i ==> s@[j] != c,
        decreases n - i,
    {
        if s.get_char(i) == c {
            assert(s@[i as int] == c);
            return true;
        }
        i = i + 1;
    }
    assert(!s@.contains(c)) by {
        assert(forall|j: int| 0 <= j < s@.len() ==> s@[j] != c);
    }
    false
}

/// Walk a sequence of snapshot entries, producing the slash-joined names of
/// every direct reference below them, in entry order.
pub fn walk_entries(entries: &Vec<FsEntry>) -> (refs: Vec<String>)
    ensures
        refs.deep_view() == entries_refs(entries@),
    decreases entries@,
{
    let mut refs: Vec<String> = Vec::new();
    let n = entries.len();
    let mut i: usize = 0;
    while i < n
        invariant
            i <= n,
            n == entries@.len(),
            refs.deep_view() == entries_refs(entries@.take(i as int)),
        decreases n - i,
    {
        proof {
            lemma_entries_refs_take_step(entries@, i as int);
        }
        match &entries[i] {
            FsEntry::File { name, content } => {
                if !str_contains_char(content.as_str(), '/') {
                    refs.push(name.clone());
                }
                assert(refs.deep_view() =~= entries_refs(entries@.take(i + 1 as int)));
            },
            FsEntry::Dir { name, entries: sub } => {
                let inner = walk_entries(sub);
                let m = inner.len();
                let mut k: usize = 0;
                while k < m
                    invariant
                        k <= m,
                        m == inner@.len(),
                        inner.deep_view() == entries_refs(sub@),
                        refs.deep_view() == entries_refs(entries@.take(i as int)) + prefixed(
                            name@,
                            inner.deep_view(),
                        ).take(k as int),
                    decreases m - k,
                {
                    let ghost dv = refs.deep_view();
                    let mut joined = name.clone();
                    joined.append("/");
                    joined.append(inner[k].as_str());
                    proof {
                        reveal_strlit("/");
                        assert("/"@ =~= seq!['/']);
                        assert(inner.deep_view()[k as int] == inner@[k as int]@);
                        assert(joined@ =~= name@ + seq!['/'] + inner.deep_view()[k as int]);
                    }
                    refs.push(joined);
                    proof {
                        assert(refs.deep_view() =~= dv.push(joined@));
                        assert(prefixed(name@, inner.deep_view()).take(k + 1 as int) =~= prefixed(
                            name@,
                            inner.deep_view(),
                        ).take(k as int).push(prefixed(name@, inner.deep_view())[k as int]));
                        assert(prefixed(name@, inner.deep_view())[k as int] == joined@);
                        assert(refs.deep_view() =~= entries_refs(entries@.take(i as int))
                            + prefixed(name@, inner.deep_view()).take(k + 1 as int));
                    }
                    k = k + 1;
                }
                assert(prefixed(name@, inner.deep_view()).take(m as int) =~= prefixed(
                    name@,
                    inner.deep_view(),
                ));
                assert(refs.deep_view() =~= entries_refs(entries@.take(i + 1 as int)));
            },
        }
        i = i + 1;
    }
    proof {
        assert(entries@.take(n as int) =~= entries@);
    }
    refs
}

/// The reference names of a whole namespace: a namespace directory that does
/// not exist (or is not a directory) has no entries and no names.
pub open spec fn namespace_refs(ns: Option<Seq<FsEntry>>) -> Seq<Seq<char>> {
    match ns {
        Option::None => Seq::empty(),
        Option::Some(entries) => entries_refs(entries),
    }
}

/// Walk one namespace of the reference store. A missing namespace directory
/// (`None`) is a valid, empty namespace — a freshly initialized repository —
/// and never an error.
pub fn parse_refs(namespace: &Option<Vec<FsEntry>>) -> (refs: Vec<String>)
    ensures
        refs.deep_view() == namespace_refs(spec_namespace(*namespace)),
        namespace is None ==> refs@.len() == 0,
{
    match namespace {
        Option::None => Vec::new(),
        Option::Some(entries) => walk_entries(entries),
    }
}

/// The snapshot sequence of a namespace, if it exists.
pub open spec fn spec_namespace(ns: Option<Vec<FsEntry>>) -> Option<Seq<FsEntry>> {
    match ns {
        Option::None => Option::None,
        Option::Some(entries) => Option::Some(entries@),
    }
}

/// How many reference files an entry holds, anywhere below it.
pub open spec fn entry_file_count(e: FsEntry) -> nat
    decreases e,
{
    match e {
        FsEntry::File { name, content } => 1,
        FsEntry::Dir { name, entries } => entries_file_count(entries@),
    }
}

/// How many reference files a sequence of entries holds, anywhere below them.
pub open spec fn entries_file_count(entries: Seq<FsEntry>) -> nat
    decreases entries,
{
    if entries.len() == 0 {
        0
    } else {
        entry_file_count(entries.first()) + entries_file_count(entries.drop_first())
    }
}

/// A namespace with zero reference files anywhere below it walks to the empty
/// sequence of names — an empty result, never an error.
pub proof fn lemma_no_files_no_refs(entries: Seq<FsEntry>)
    requires
        entries_file_count(entries) == 0,
    ensures
        entries_refs(entries).len() == 0,
    decreases entries,
{
    if entries.len() > 0 {
        lemma_entry_no_files_no_refs(entries.first());
        lemma_no_files_no_refs(entries.drop_first());
    }
}

/// A single entry with zero reference files below it contributes no names.
pub proof fn lemma_entry_no_files_no_refs(e: FsEntry)
    requires
        entry_file_count(e) == 0,
    ensures
        entry_refs(e).len() == 0,
    decreases e,
{
    match e {
        FsEntry::File { name, content } => {
        },
        FsEntry::Dir { name, entries } => {
            lemma_no_files_no_refs(entries@);
        },
    }
}

/// The branches a repository snapshot discovers to, as classification and
/// name pairs: the local namespace's names tagged local, then the remote
/// namespace's names tagged remote, each in walk order.
pub open spec fn spec_discovered(
    heads: Option<Seq<FsEntry>>,
    remotes: Option<Seq<FsEntry>>,
) -> Seq<(BranchType, Seq<char>)> {
    namespace_refs(heads).map_values(|n: Seq<char>| (BranchType::Local, n)) + namespace_refs(
        remotes,
    ).map_values(|n: Seq<char>| (BranchType::Remote, n))
}

/// Discover every branch of a repository from snapshots of its two reference
/// namespaces: first the local branches, in walk order, then the remote ones.
/// The branch type records which namespace a name came from.
pub fn branches_from_namespaces(
    heads: &Option<Vec<FsEntry>>,
    remotes: &Option<Vec<FsEntry>>,
) -> (branches: Vec<Branch>)
    ensures
        branches@.len() == namespace_refs(spec_namespace(*heads)).len() + namespace_refs(
            spec_namespace(*remotes),
        ).len(),
        forall|i: int|
            0 <= i < namespace_refs(spec_namespace(*heads)).len() ==> #[trigger] branches@[i].branch_type
                == BranchType::Local && branches@[i].name@ == namespace_refs(
                spec_namespace(*heads),
            )[i],
        forall|i: int|
            namespace_refs(spec_namespace(*heads)).len() <= i < branches@.len()
                ==> #[trigger] branches@[i].branch_type == BranchType::Remote
                && branches@[i].name@ == namespace_refs(spec_namespace(*remotes))[i
                - namespace_refs(spec_namespace(*heads)).len()],
        branch_views(branches@) == spec_discovered(spec_namespace(*heads), spec_namespace(*remotes)),
{
    let local_refs = parse_refs(heads);
    let remote_refs = parse_refs(remotes);
    let ghost local_names = namespace_refs(spec_namespace(*heads));
    let ghost remote_names = namespace_refs(spec_namespace(*remotes));
    let mut branches: Vec<Branch> = Vec::new();
    let n = local_refs.len();
    let mut i: usize = 0;
    while i < n
        invariant
            i <= n,
            n == local_refs@.len(),
            local_refs.deep_view() == local_names,
            branches@.len() == i,
            forall|j: int|
                0 <= j < i ==> #[trigger] branches@[j].branch_type == BranchType::Local
                    && branches@[j].name@ == local_names[j],
        decreases n - i,
    {
        let name = local_refs[i].clone();
        assert(name@ == local_names[i as int]);
        branches.push(Branch { name, branch_type: BranchType::Local });
        i = i + 1;
    }
    let m = remote_refs.len();
    let mut k: usize = 0;
    while k < m
        invariant
            k <= m,
            n == local_refs@.len(),
            m == remote_refs@.len(),
            local_refs.deep_view() == local_names,
            remote_refs.deep_view() == remote_names,
            branches@.len() == n + k,
            forall|j: int|
                0 <= j < n ==> #[trigger] branches@[j].branch_type == BranchType::Local
                    && branches@[j].name@ == local_names[j],
            forall|j: int|
                n <= j < n + k ==> #[trigger] branches@[j].branch_type == BranchType::Remote
                    && branches@[j].name@ == remote_names[j - n],
        decreases m - k,
    {
        let name = remote_refs[k].clone();
        assert(name@ == remote_names[k as int]);
        branches.push(Branch { name, branch_type: BranchType::Remote });
        k = k + 1;
    }
    proof {
        assert(branch_views(branches@) =~= spec_discovered(
            spec_namespace(*heads),
            spec_namespace(*remotes),
        ));
    }
    branches
}

/// Splitting the walk after `i` entries: the names of the first `i + 1`
/// entries are those of the first `i`, followed by the `i`-th entry's own.
proof fn lemma_entries_refs_take_step(entries: Seq<FsEntry>, i: int)
    requires
        0 <= i < entries.len(),
    ensures
        entries_refs(entries.take(i + 1)) == entries_refs(entries.take(i)) + entry_refs(
            entries[i],
        ),
    decreases i,
{
    lemma_entries_refs_split(entries.take(i + 1));
    assert(entries.take(i + 1).take(i) =~= entries.take(i));
    assert(entries.take(i + 1)[i] == entries[i]);
}

/// The names of a non-empty entry sequence are those of everything before the
/// last entry, followed by the last entry's own.
proof fn lemma_entries_refs_split(entries: Seq<FsEntry>)
    requires
        entries.len() > 0,
    ensures
        entries_refs(entries) == entries_refs(entries.take(entries.len() - 1)) + entry_refs(
            entries.last(),
        ),
    decreases entries.len(),
{
    if entries.len() == 1 {
        assert(entries.take(0) =~= Seq::<FsEntry>::empty());
        assert(entries_refs(entries.drop_first()) =~= Seq::<Seq<char>>::empty());
        assert(entries_refs(entries) =~= entry_refs(entries.first()));
        assert(entries_refs(entries.take(0)) + entry_refs(entries.last()) =~= entry_refs(
            entries.last(),
        ));
    } else {
        let rest = entries.drop_first();
        lemma_entries_refs_split(rest);
        assert(rest.take(rest.len() - 1) =~= entries.take(entries.len() - 1).drop_first());
        assert(rest.last() == entries.last());
        assert(entries.take(entries.len() - 1).len() > 0);
        assert(entries.take(entries.len() - 1).first() == entries.first());
        assert(entries_refs(entries.take(entries.len() - 1)) == entry_refs(entries.first())
            + entries_refs(rest.take(rest.len() - 1)));
        assert(entries_refs(entries) == entry_refs(entries.first()) + entries_refs(rest));
        assert(entry_refs(entries.first()) + (entries_refs(rest.take(rest.len() - 1)) + entry_refs(
            entries.last(),
        )) =~= (entry_refs(entries.first()) + entries_refs(rest.take(rest.len() - 1))) + entry_refs(
            entries.last(),
        ));
    }
}

} // verus!
