use bselect::enumerate::{enumerate, filter_branches};
use bselect::git::{Branch, BranchType};
use bselect::re::{compile_filters, matches_regex};
use bselect::refwalk::FsEntry;
use bselect::select::{branch_names_line, select_by_indices};
use bselect::Error;

fn local(name: &str) -> Branch {
    Branch { name: name.to_string(), branch_type: BranchType::Local }
}

fn remote(name: &str) -> Branch {
    Branch { name: name.to_string(), branch_type: BranchType::Remote }
}

fn make_branches() -> Vec<Branch> {
    vec![
        local("feature/xyz"),
        local("123-add_a_new_feature"),
        remote("ABC"),
        local("456-fix_a_bug"),
    ]
}

fn strings(items: &[&str]) -> Vec<String> {
    items.iter().map(|s| s.to_string()).collect()
}

#[test]
fn returns_true_given_no_patterns() {
    let branch = local("x");
    let patterns = compile_filters(&strings(&[])).unwrap();

    assert!(matches_regex(&branch, &patterns));
}

#[test]
fn returns_true_given_one_pattern_matches() {
    let branch = local("a_name");
    let patterns = compile_filters(&strings(&["x", "[0-9]+", "a_"])).unwrap();

    assert!(matches_regex(&branch, &patterns));
}

#[test]
fn returns_true_given_remotes_prefix_pattern_for_remote_branch() {
    let branch = remote("a_name");
    let patterns = compile_filters(&strings(&["remotes/.+"])).unwrap();

    assert!(matches_regex(&branch, &patterns));
}

#[test]
fn returns_false_if_no_patterns_matched() {
    let branch = local("a_branch");
    let patterns = compile_filters(&strings(&["x", "[0-9]+"])).unwrap();

    assert!(!matches_regex(&branch, &patterns));
}

#[test]
fn returns_err_given_invalid_regex_pattern() {
    let result = compile_filters(&strings(&["(abc"]));

    let err = match result {
        Err(e) => e,
        Ok(_) => panic!("expected an error"),
    };
    assert!(matches!(err, Error::Regex(_)));
}

#[test]
fn matching_twice_returns_the_same_verdict() {
    let branch = local("feature/xyz");
    let patterns = compile_filters(&strings(&["^feature/", "^[0-9]+-"])).unwrap();

    let first = matches_regex(&branch, &patterns);
    let second = matches_regex(&branch, &patterns);

    assert_eq!(first, second);
    assert!(first);
}

#[test]
fn filtering_retains_exactly_the_matching_branches() {
    let branches = vec![local("feature/xyz"), local("123-fix"), local("docs")];
    let patterns = strings(&["^feature/", "^[0-9]+-"]);

    let kept = filter_branches(branches, false, &patterns).unwrap();

    let names: Vec<String> = kept.into_iter().map(|b| b.name).collect();
    assert_eq!(names, vec!["feature/xyz", "123-fix"]);
}

#[test]
fn filter_excludes_remote_branches_unless_asked() {
    let branches = vec![local("main"), remote("origin/main")];

    let kept = filter_branches(branches, false, &strings(&[])).unwrap();

    let names: Vec<String> = kept.iter().map(|b| b.to_string()).collect();
    assert_eq!(names, vec!["main"]);
}

#[test]
fn filter_includes_remote_branches_when_asked() {
    let branches = vec![local("main"), remote("origin/main")];

    let kept = filter_branches(branches, true, &strings(&[])).unwrap();

    let names: Vec<String> = kept.iter().map(|b| b.to_string()).collect();
    assert_eq!(names, vec!["main", "remotes/origin/main"]);
}

#[test]
fn filter_fails_when_nothing_matches() {
    let branches = make_branches();

    let result = filter_branches(branches, false, &strings(&["no_match"]));

    let err = result.unwrap_err();
    assert_eq!(err, Error::Select("no matching branches".to_string()));
    assert!(err.message().contains("no matching branches"));
}

#[test]
fn filter_keeps_discovery_order_with_multiple_patterns() {
    let mut branches = make_branches();
    branches.insert(1, local("some_other_branch-123"));
    branches.push(local("feature/no_2"));

    let kept = filter_branches(branches, false, &strings(&["feature/", "^[0-9]+.*$"])).unwrap();

    assert_eq!(
        branch_names_line(&kept),
        "feature/xyz 123-add_a_new_feature 456-fix_a_bug feature/no_2"
    );
}

#[test]
fn select_by_indices_picks_in_choice_order() {
    let branches = make_branches();

    let chosen = select_by_indices(&branches, &vec![0, 2]);

    assert_eq!(branch_names_line(&chosen), "feature/xyz remotes/ABC");
}

#[test]
fn filtered_and_selected_branches_print_as_one_line() {
    let branches = make_branches();

    let kept = filter_branches(branches, false, &strings(&[])).unwrap();
    let chosen = select_by_indices(&kept, &vec![0, 2]);

    assert_eq!(branch_names_line(&chosen), "feature/xyz 456-fix_a_bug");
}

#[test]
fn filters_and_remotes_combine_before_selection() {
    let mut branches = make_branches();
    branches.insert(1, local("some_other_branch-123"));
    branches.push(local("feature/no_2"));
    branches.push(remote("feature/remote_feature"));

    let kept = filter_branches(branches, true, &strings(&["feature/", "^[0-9]+.*$"])).unwrap();
    let chosen = select_by_indices(&kept, &vec![1, 2, 4]);

    assert_eq!(
        branch_names_line(&chosen),
        "123-add_a_new_feature 456-fix_a_bug remotes/feature/remote_feature"
    );
}

#[test]
fn branch_names_line_of_nothing_is_empty() {
    assert_eq!(branch_names_line(&vec![]), "");
}

fn file(name: &str, content: &str) -> FsEntry {
    FsEntry::File { name: name.to_string(), content: content.to_string() }
}

fn dir(name: &str, entries: Vec<FsEntry>) -> FsEntry {
    FsEntry::Dir { name: name.to_string(), entries }
}

#[test]
fn enumerate_returns_local_branches_only_by_default() {
    let heads = Some(vec![file("main", "e2bf29060f42743538be07c164820cdeca0d9d2b")]);
    let remotes = Some(vec![dir(
        "origin",
        vec![file("main", "e2bf29060f42743538be07c164820cdeca0d9d2b")],
    )]);

    let out = enumerate(&heads, &remotes, false, &strings(&[])).unwrap();

    assert_eq!(branch_names_line(&out), "main");
}

#[test]
fn enumerate_includes_remotes_when_asked_and_sorts_by_display() {
    let heads = Some(vec![file("main", "e2bf29060f42743538be07c164820cdeca0d9d2b")]);
    let remotes = Some(vec![dir(
        "origin",
        vec![file("main", "e2bf29060f42743538be07c164820cdeca0d9d2b")],
    )]);

    let out = enumerate(&heads, &remotes, true, &strings(&[])).unwrap();

    assert_eq!(branch_names_line(&out), "main remotes/origin/main");
}

#[test]
fn enumerate_fails_with_no_matching_branches_rather_than_empty() {
    let heads = Some(vec![file("main", "e2bf29060f42743538be07c164820cdeca0d9d2b")]);
    let remotes = Some(vec![]);

    let result = enumerate(&heads, &remotes, true, &strings(&["no_match"]));

    assert_eq!(result.unwrap_err(), Error::Select("no matching branches".to_string()));
}

#[test]
fn enumerate_sorts_candidates_by_display_form() {
    let heads = Some(vec![
        file("zeta", "e2bf29060f42743538be07c164820cdeca0d9d2b"),
        file("alpha", "a9c68440003151dd3cf7ffa4eaedd425d221d268"),
        dir("user", vec![file("dev", "da7d6bf0955fa4d511067c00551fee04c613079d")]),
    ]);
    let remotes = None;

    let out = enumerate(&heads, &remotes, false, &strings(&[])).unwrap();

    assert_eq!(branch_names_line(&out), "alpha user/dev zeta");
}
