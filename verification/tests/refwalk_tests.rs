use bselect::git::BranchType;
use bselect::refwalk::{branches_from_namespaces, parse_refs, FsEntry};

fn file(name: &str, content: &str) -> FsEntry {
    FsEntry::File { name: name.to_string(), content: content.to_string() }
}

fn dir(name: &str, entries: Vec<FsEntry>) -> FsEntry {
    FsEntry::Dir { name: name.to_string(), entries }
}

/// The reference tree of a small repository: three local branches (one of
/// them namespaced), two remotes with a symbolic `HEAD` alias among them.
fn heads_entries() -> Vec<FsEntry> {
    vec![
        file("main", "e2bf29060f42743538be07c164820cdeca0d9d2b"),
        file("other_branch", "a9c68440003151dd3cf7ffa4eaedd425d221d268"),
        dir(
            "user",
            vec![file("some_dev_branch", "da7d6bf0955fa4d511067c00551fee04c613079d")],
        ),
    ]
}

fn remotes_entries() -> Vec<FsEntry> {
    vec![
        dir(
            "origin",
            vec![
                file("main", "e2bf29060f42743538be07c164820cdeca0d9d2b"),
                file("remote_branch", "e2bf29060f42743538be07c164820cdeca0d9d2b"),
                file("HEAD", "refs/remotes/origin/main"),
            ],
        ),
        dir("upstream", vec![file("main", "707a178071655bed661318a5344557fe3e9a6ce1")]),
    ]
}

#[test]
fn missing_namespace_walks_to_no_refs() {
    let refs = parse_refs(&None);

    assert!(refs.is_empty());
}

#[test]
fn namespace_with_no_reference_files_walks_to_no_refs() {
    let entries = vec![dir("origin", vec![]), dir("upstream", vec![dir("nested", vec![])])];

    let refs = parse_refs(&Some(entries));

    assert!(refs.is_empty());
}

#[test]
fn direct_reference_content_is_included() {
    let entries = vec![file("main", "e2bf29060f42743538be07c164820cdeca0d9d2b")];

    let refs = parse_refs(&Some(entries));

    assert_eq!(refs, vec!["main"]);
}

#[test]
fn symbolic_reference_content_is_excluded() {
    let entries = vec![file("HEAD", "ref: refs/remotes/origin/main")];

    let refs = parse_refs(&Some(entries));

    assert!(refs.is_empty());
}

#[test]
fn nested_directories_join_names_with_slashes() {
    let entries = vec![dir(
        "user",
        vec![file("some_dev_branch", "da7d6bf0955fa4d511067c00551fee04c613079d")],
    )];

    let refs = parse_refs(&Some(entries));

    assert_eq!(refs, vec!["user/some_dev_branch"]);
}

#[test]
fn discovers_all_branches_of_both_namespaces() {
    let mut branches =
        branches_from_namespaces(&Some(heads_entries()), &Some(remotes_entries()));

    branches.sort_by(|a, b| a.name.cmp(&b.name));
    let summary: Vec<(String, BranchType)> =
        branches.into_iter().map(|b| (b.name, b.branch_type)).collect();
    assert_eq!(
        summary,
        vec![
            ("main".to_string(), BranchType::Local),
            ("origin/main".to_string(), BranchType::Remote),
            ("origin/remote_branch".to_string(), BranchType::Remote),
            ("other_branch".to_string(), BranchType::Local),
            ("upstream/main".to_string(), BranchType::Remote),
            ("user/some_dev_branch".to_string(), BranchType::Local),
        ]
    );
}

#[test]
fn namespaced_local_and_remote_references_classify_and_display() {
    let heads = vec![dir(
        "user",
        vec![file("some_dev_branch", "da7d6bf0955fa4d511067c00551fee04c613079d")],
    )];
    let remotes = vec![dir(
        "origin",
        vec![file("main", "e2bf29060f42743538be07c164820cdeca0d9d2b")],
    )];

    let branches = branches_from_namespaces(&Some(heads), &Some(remotes));

    assert_eq!(branches.len(), 2);
    assert_eq!(branches[0].name, "user/some_dev_branch");
    assert_eq!(branches[0].branch_type, BranchType::Local);
    assert_eq!(branches[0].to_string(), "user/some_dev_branch");
    assert_eq!(branches[1].name, "origin/main");
    assert_eq!(branches[1].branch_type, BranchType::Remote);
    assert_eq!(branches[1].to_string(), "remotes/origin/main");
}
