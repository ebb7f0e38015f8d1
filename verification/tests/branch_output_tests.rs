use bselect::branch_output::{branch_list, check_output, clean_branch, trim_str, Outputter};
use bselect::Error;

struct FakeOutputter {
    success: bool,
    stdout: Vec<u8>,
    stderr: Vec<u8>,
}

impl Outputter for FakeOutputter {
    fn get_output(&self) -> Result<(bool, Vec<u8>, Vec<u8>), Error> {
        Ok((self.success, self.stdout.clone(), self.stderr.clone()))
    }
}

#[test]
fn parses_list_of_branches() {
    let outputter = FakeOutputter {
        success: true,
        stdout: " main\n* develop  \n \n   other/branch\n HEAD -> main".as_bytes().to_vec(),
        stderr: "".as_bytes().to_vec(),
    };

    let mut branches = branch_list(outputter).unwrap();

    branches.sort();
    assert_eq!(branches, vec!["develop", "main", "other/branch"]);
}

#[test]
fn error_if_outputter_does_not_succeed() {
    let outputter = FakeOutputter {
        success: false,
        stdout: "".as_bytes().to_vec(),
        stderr: "error message".as_bytes().to_vec(),
    };

    let branches = branch_list(outputter);

    assert!(branches.is_err());
    assert!(branches.unwrap_err().message().contains("error message"));
}

#[test]
fn error_if_output_not_valid_utf8() {
    let outputter = FakeOutputter {
        success: true,
        stdout: vec![240, 40, 140, 188],
        stderr: "error message".as_bytes().to_vec(),
    };

    let branches = branch_list(outputter);

    assert!(branches.is_err());
    let err = branches.unwrap_err();
    assert!(
        err.message().contains("could not decode git branch output"),
        "{}",
        err.message()
    );
}

#[test]
fn error_if_output_fails_with_not_valid_utf8() {
    let outputter = FakeOutputter {
        success: false,
        stdout: "".as_bytes().to_vec(),
        stderr: vec![240, 40, 140, 188],
    };

    let branches = branch_list(outputter);

    assert!(branches.is_err());
    let err = branches.unwrap_err();
    assert!(
        err.message().contains("could not decode git branch output"),
        "{}",
        err.message()
    );
}

#[test]
fn check_output_returns_decoded_stdout_on_success() {
    let r = check_output(true, "a\nb".as_bytes().to_vec(), "ignored".as_bytes().to_vec());

    assert_eq!(r.unwrap(), "a\nb");
}

#[test]
fn check_output_returns_stderr_text_on_failure() {
    let r = check_output(false, "ignored".as_bytes().to_vec(), "boom".as_bytes().to_vec());

    assert_eq!(r.unwrap_err(), Error::Git("boom".to_string()));
}

#[test]
fn clean_branch_strips_current_branch_marker() {
    assert_eq!(clean_branch("* develop  "), "develop");
}

#[test]
fn clean_branch_empties_alias_lines() {
    assert_eq!(clean_branch(" HEAD -> main"), "");
}

#[test]
fn clean_branch_trims_plain_names() {
    assert_eq!(clean_branch("   other/branch"), "other/branch");
}

#[test]
fn trim_removes_leading_and_trailing_blanks() {
    assert_eq!(trim_str(" \t a b \r\n"), "a b");
    assert_eq!(trim_str("   "), "");
}
