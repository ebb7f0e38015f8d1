//! Pattern filters: user-supplied filter strings compiled to regular
//! expressions, and the any-pattern-matches test applied to a branch's
//! display form.
//!
//! The regular-expression engine is an outside crate. What it decides is
//! named, not restated: `regex_valid` names which pattern texts compile, and
//! `regex_match` names the unanchored search verdict for a pattern text and a
//! haystack. Everything this module proves about filtering is relative to
//! those two names.

use vstd::prelude::*;

use crate::Error;
use crate::git::{spec_display, Branch};

verus! {

/// Whether the regular-expression engine accepts this pattern text. Names
/// the success of `regex::Regex::new`, which is decided by the pattern text
/// alone.
pub uninterp spec fn regex_valid(pattern: Seq<char>) -> bool;

/// Whether the regular expression compiled from `pattern` matches anywhere
/// in `text` (unanchored search). Names the verdict of
/// `regex::Regex::is_match`, which is decided by the two texts alone.
pub uninterp spec fn regex_match(pattern: Seq<char>, text: Seq<char>) -> bool;

#[verifier::external_type_specification]
#[verifier::external_body]
pub struct ExRegex(regex::Regex);

/// A compiled filter pattern, paired with the exact text it was compiled
/// from. The fields are private: every value is built by `compile_pattern`,
/// so `re` is always the compilation of `source`, which is what lets
/// `pattern_is_match` speak of `source` alone.
pub struct CompiledPattern {
    re: regex::Regex,
    source: String,
}

impl CompiledPattern {
    /// The pattern text this value was compiled from.
    pub closed spec fn spec_source(&self) -> Seq<char> {
        self.source@
    }

    /// The pattern text this value was compiled from.
    pub fn source(&self) -> (r: &String)
        ensures
            r@ == self.spec_source(),
    {
        &self.source
    }
}

/// Relies on `regex::Regex::new`: whether a pattern compiles, and what it
/// compiles to, are functions of the pattern text alone (the default builder
/// configuration is fixed). A compilation failure is rendered to its display
/// form, which names the offending pattern and the parser's complaint.
#[verifier::external_body]
fn compile_pattern(pattern: &String) -> (r: Result<CompiledPattern, String>)
    ensures
        r is Ok <==> regex_valid(pattern@),
        r matches Ok(p) ==> p.spec_source() == pattern@,
{
    match regex::Regex::new(pattern.as_str()) {
        Ok(re) => Ok(CompiledPattern { re, source: pattern.clone() }),
        Err(e) => Err(format!("{e}")),
    }
}

/// Relies on `regex::Regex::is_match`: the unanchored search verdict is a
/// function of the pattern the value was compiled from — recorded beside it
/// at construction — and of the text searched.
#[verifier::external_body]
fn pattern_is_match(p: &CompiledPattern, text: &String) -> (b: bool)
    ensures
        b == regex_match(p.spec_source(), text@),
{
    p.re.is_match(text.as_str())
}

/// The pattern texts of a sequence of compiled patterns, in order.
pub open spec fn sources_of(patterns: Seq<CompiledPattern>) -> Seq<Seq<char>> {
    patterns.map_values(|p: CompiledPattern| p.spec_source())
}

/// Whether every pattern text in the sequence compiles.
pub open spec fn all_patterns_valid(sources: Seq<Seq<char>>) -> bool {
    forall|i: int| 0 <= i < sources.len() ==> regex_valid(#[trigger] sources[i])
}

/// The filter verdict for one text against a whole pattern set: an empty set
/// lets everything through; a non-empty set requires at least one pattern to
/// match (logical OR).
pub open spec fn pattern_set_matches(sources: Seq<Seq<char>>, text: Seq<char>) -> bool {
    sources.len() == 0 || exists|i: int| 0 <= i < sources.len() && regex_match(sources[i], text)
}

/// Compile every filter string, in order. One bad pattern fails the whole
/// call: no partial compilation is ever returned.
pub fn compile_filters(filters: &Vec<String>) -> (r: Result<Vec<CompiledPattern>, Error>)
    ensures
        r is Ok <==> all_patterns_valid(filters.deep_view()),
        r matches Ok(ps) ==> sources_of(ps@) == filters.deep_view(),
        r matches Err(e) ==> e is Regex,
{
    let mut out: Vec<CompiledPattern> = Vec::new();
    let n = filters.len();
    let mut i: usize = 0;
    while i < n
        invariant
            i <= n,
            n == filters@.len(),
            out@.len() == i,
            sources_of(out@) == filters.deep_view().take(i as int),
            forall|j: int| 0 <= j < i ==> regex_valid(#[trigger] filters.deep_view()[j]),
        decreases n - i,
    {
        match compile_pattern(&filters[i]) {
            Ok(p) => {
                out.push(p);
                assert(sources_of(out@) =~= filters.deep_view().take(i + 1 as int));
            },
            Err(msg) => {
                assert(!regex_valid(filters.deep_view()[i as int]));
                return Err(Error::Regex(msg));
            },
        }
        i = i + 1;
    }
    proof {
        assert(filters.deep_view().take(n as int) =~= filters.deep_view());
    }
    Ok(out)
}

/// Test a branch against a compiled pattern set: true when the set is empty,
/// and otherwise when any pattern matches the branch's display form.
pub fn matches_regex(branch: &Branch, patterns: &Vec<CompiledPattern>) -> (b: bool)
    ensures
        b == pattern_set_matches(sources_of(patterns@), spec_display(*branch)),
{
    let n = patterns.len();
    if n == 0 {
        return true;
    }
    let text = branch.to_string();
    let mut i: usize = 0;
    while i < n
        invariant
            i <= n,
            n == patterns@.len(),
            text@ == spec_display(*branch),
            forall|j: int|
                0 <= j < i ==> !regex_match(#[trigger] sources_of(patterns@)[j], text@),
        decreases n - i,
    {
        if pattern_is_match(&patterns[i], &text) {
            assert(regex_match(sources_of(patterns@)[i as int], text@));
            return true;
        }
        i = i + 1;
    }
    false
}

/// An empty pattern set lets every branch through: with no patterns at all,
/// the filter verdict for any branch's display form is true.
pub proof fn lemma_empty_pattern_set_matches(branch: Branch)
    ensures
        pattern_set_matches(Seq::empty(), spec_display(branch)),
{
}

/// Matching is deterministic: any two verdicts that satisfy the matching
/// contract for the same compiled sources and the same text are equal, so
/// asking twice with the same compiled patterns and branch yields the same
/// boolean.
pub proof fn lemma_matches_deterministic(
    b1: bool,
    b2: bool,
    sources: Seq<Seq<char>>,
    text: Seq<char>,
)
    requires
        b1 == pattern_set_matches(sources, text),
        b2 == pattern_set_matches(sources, text),
    ensures
        b1 == b2,
{
}

} // verus!
