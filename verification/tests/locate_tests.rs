use bselect::locate::{discover_repo, AncestorDir};
use bselect::Error;

fn probe(path: &str, has_metadata_dir: bool) -> AncestorDir {
    AncestorDir { path: path.to_string(), has_metadata_dir }
}

#[test]
fn discover_repo_returns_git_dir_if_in_repo_root() {
    let chain = Some(vec![probe("/work/repo", true), probe("/work", false), probe("/", false)]);

    let found = discover_repo(&"/work/repo".to_string(), &chain);

    assert_eq!(found.unwrap(), "/work/repo/.git");
}

#[test]
fn discover_repo_returns_git_dir_if_path_not_in_repo_root() {
    let chain = Some(vec![
        probe("/work/repo/src/deep", false),
        probe("/work/repo/src", false),
        probe("/work/repo", true),
        probe("/work", true),
        probe("/", false),
    ]);

    let found = discover_repo(&"/work/repo/src/deep".to_string(), &chain);

    assert_eq!(found.unwrap(), "/work/repo/.git");
}

#[test]
fn discover_repo_returns_err_given_not_in_git_dir() {
    let chain = Some(vec![probe("/tmp/plain", false), probe("/tmp", false), probe("/", false)]);

    let found = discover_repo(&"/tmp/plain".to_string(), &chain);

    let err = found.unwrap_err();
    assert_eq!(
        err,
        Error::Git("not a git repository (or any of its parents): '/tmp/plain'".to_string())
    );
    assert!(err.message().contains("not a git repository"));
}

#[test]
fn discover_repo_returns_err_given_path_does_not_exist() {
    let found = discover_repo(&"/not/a/dir".to_string(), &None);

    let err = found.unwrap_err();
    assert_eq!(err, Error::Git("'/not/a/dir' not a directory".to_string()));
    assert!(err.message().contains("not a directory"));
}
