//! Interactive git branch selection: discovering branches from a repository's
//! loose reference store, classifying them as local or remote, and filtering
//! them with user-supplied regular expression patterns.

pub mod branch_output;
pub mod cli;
pub mod config;
pub mod enumerate;
pub mod git;
pub mod locate;
pub mod re;
pub mod refwalk;
pub mod select;
pub mod select_theme;
pub mod settings;
pub(crate) mod style_render;
pub mod theme;

use vstd::prelude::*;

verus! {

/// The error type shared by every stage of branch discovery and selection.
/// Each variant carries a human-readable description of what went wrong.
#[derive(Debug, PartialEq, Eq)]
pub enum Error {
    Cli(String),
    Config(String),
    Git(String),
    Regex(String),
    Select(String),
    Terminal(String),
}

impl Error {
    /// The message carried by this error, whichever variant it is.
    pub open spec fn spec_payload(&self) -> Seq<char> {
        match self {
            Error::Cli(s) => s@,
            Error::Config(s) => s@,
            Error::Git(s) => s@,
            Error::Regex(s) => s@,
            Error::Select(s) => s@,
            Error::Terminal(s) => s@,
        }
    }

    /// The full display form of the error: the tool name, then the message.
    pub open spec fn spec_message(&self) -> Seq<char> {
        "bselect: "@ + self.spec_payload()
    }

    /// Render the error for the user.
    pub fn message(&self) -> (r: String)
        ensures
            r@ == self.spec_message(),
    {
        let mut out = String::from_str("bselect: ");
        let payload = match self {
            Error::Cli(s) => s,
            Error::Config(s) => s,
            Error::Git(s) => s,
            Error::Regex(s) => s,
            Error::Select(s) => s,
            Error::Terminal(s) => s,
        };
        out.append(payload.as_str());
        out
    }
}

} // verus!
