use bselect::git::{ref_to_branch, Branch, BranchType};

#[test]
fn to_string_prepends_remotes_if_remote_branch() {
    let branch = Branch { name: "some_name".to_string(), branch_type: BranchType::Remote };

    let branch_str = branch.to_string();

    assert_eq!(branch_str, "remotes/some_name")
}

#[test]
fn to_string_returns_name_if_local_branch() {
    let branch = Branch { name: "some_name".to_string(), branch_type: BranchType::Local };

    let branch_str = branch.to_string();

    assert_eq!(branch_str, "some_name")
}

#[test]
fn symbolic_reference_becomes_no_branch() {
    let r = ref_to_branch("origin/HEAD".to_string(), true, BranchType::Remote);

    assert!(r.is_none());
}

#[test]
fn direct_reference_becomes_branch_of_its_namespace() {
    let r = ref_to_branch("origin/main".to_string(), false, BranchType::Remote);

    let branch = r.unwrap();
    assert_eq!(branch.name, "origin/main");
    assert_eq!(branch.branch_type, BranchType::Remote);
    assert_eq!(branch.to_string(), "remotes/origin/main");
}

#[test]
fn clone_keeps_name_and_type() {
    let branch = Branch { name: "user/some_dev_branch".to_string(), branch_type: BranchType::Local };

    let copy = branch.clone();

    assert_eq!(copy, branch);
}
