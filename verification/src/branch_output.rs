//! Parsing the output of an external `git branch --list` invocation: decoding
//! the raw bytes, splitting them into lines, and cleaning each line into a
//! bare branch name. The invocation itself is a collaborator behind the
//! `Outputter` trait; only its output's bytes reach this module.

use vstd::prelude::*;

use crate::Error;

verus! {

/// The whitespace characters trimmed from branch listing lines: the ASCII
/// blanks that the listing format can produce.
pub open spec fn is_branch_space(c: char) -> bool {
    c == ' ' || c == '\t' || c == '\n' || c == '\r'
}

/// `s` without its leading whitespace.
pub open spec fn spec_trim_start(s: Seq<char>) -> Seq<char>
    decreases s.len(),
{
    if s.len() > 0 && is_branch_space(s.first()) {
        spec_trim_start(s.drop_first())
    } else {
        s
    }
}

/// `s` without its trailing whitespace.
pub open spec fn spec_trim_end(s: Seq<char>) -> Seq<char>
    decreases s.len(),
{
    if s.len() > 0 && is_branch_space(s.last()) {
        spec_trim_end(s.drop_last())
    } else {
        s
    }
}

/// `s` without leading and trailing whitespace.
pub open spec fn spec_trim(s: Seq<char>) -> Seq<char> {
    spec_trim_end(spec_trim_start(s))
}

/// Whether the line carries an alias marker (` -> `), as a remote `HEAD`
/// entry of a branch listing does.
pub open spec fn contains_arrow(s: Seq<char>) -> bool {
    exists|i: int| 0 <= i && i + 4 <= s.len() && #[trigger] s.subrange(i, i + 4) == " -> "@
}

/// One cleaned line of a branch listing: whitespace trimmed, a leading `*`
/// (the current-branch marker) stripped, and an alias line emptied out so it
/// is never offered as a branch of its own.
pub open spec fn spec_clean_branch(line: Seq<char>) -> Seq<char> {
    let t = spec_trim(line);
    let u = if t.len() > 0 && t.first() == '*' {
        spec_trim(t.drop_first())
    } else {
        t
    };
    if contains_arrow(u) {
        Seq::empty()
    } else {
        u
    }
}

/// Whether this character counts as trimmable whitespace.
fn is_space_char(c: char) -> (r: bool)
    ensures
        r == is_branch_space(c),
{
    c == ' ' || c == '\t' || c == '\n' || c == '\r'
}

/// If everything before `i` is whitespace and `i` is the length or a
/// non-whitespace position, trimming from the start is skipping to `i`.
proof fn lemma_trim_start_at(s: Seq<char>, i: int)
    requires
        0 <= i <= s.len(),
        forall|j: int| 0 <= j < i ==> is_branch_space(#[trigger] s[j]),
        i < s.len() ==> !is_branch_space(s[i]),
    ensures
        spec_trim_start(s) == s.skip(i),
    decreases i,
{
    if i == 0 {
        assert(s.skip(0) =~= s);
    } else {
        assert(is_branch_space(s[0]));
        lemma_trim_start_at(s.drop_first(), i - 1);
        assert(s.drop_first().skip(i - 1) =~= s.skip(i));
    }
}

/// If everything from `i` on is whitespace and `i` is zero or follows a
/// non-whitespace position, trimming from the end is keeping the first `i`.
proof fn lemma_trim_end_at(s: Seq<char>, i: int)
    requires
        0 <= i <= s.len(),
        forall|j: int| i <= j < s.len() ==> is_branch_space(#[trigger] s[j]),
        i > 0 ==> !is_branch_space(s[i - 1]),
    ensures
        spec_trim_end(s) == s.take(i),
    decreases s.len() - i,
{
    if i == s.len() {
        assert(s.take(i) =~= s);
        if s.len() > 0 {
            assert(!is_branch_space(s.last()));
        }
    } else {
        assert(is_branch_space(s.last()));
        lemma_trim_end_at(s.drop_last(), i);
        assert(s.drop_last().take(i) =~= s.take(i));
    }
}

/// Trim leading and trailing whitespace from a string slice.
#[verifier::loop_isolation(false)]
pub fn trim_str(s: &str) -> (r: String)
    ensures
        r@ == spec_trim(s@),
{
    let n = s.unicode_len();
    let mut fi: usize = 0;
    while fi < n && is_space_char(s.get_char(fi))
        invariant
            fi <= n,
            forall|j: int| 0 <= j < fi ==> is_branch_space(#[trigger] s@[j]),
        decreases n - fi,
    {
        fi = fi + 1;
    }
    proof {
        lemma_trim_start_at(s@, fi as int);
    }
    if fi == n {
        proof {
            assert(s@.skip(fi as int).len() == 0);
            assert(spec_trim_end(s@.skip(fi as int)) == s@.skip(fi as int));
        }
        return String::new();
    }
    let mut li: usize = n;
    while li > fi + 1 && is_space_char(s.get_char(li - 1))
        invariant
            fi < li <= n,
            forall|j: int| li <= j < n ==> is_branch_space(#[trigger] s@[j]),
        decreases li,
    {
        li = li - 1;
    }
    let li_final: usize = if is_space_char(s.get_char(li - 1)) {
        li - 1
    } else {
        li
    };
    proof {
        lemma_trim_end_at(s@.skip(fi as int), li_final - fi as int);
        assert(s@.skip(fi as int).take(li_final - fi as int) =~= s@.subrange(
            fi as int,
            li_final as int,
        ));
    }
    let out = s.substring_char(fi, li_final);
    String::from_str(out)
}

/// Whether the string slice carries an alias marker (` -> `) anywhere.
#[verifier::loop_isolation(false)]
pub fn contains_arrow_str(s: &str) -> (r: bool)
    ensures
        r == contains_arrow(s@),
{
    let n = s.unicode_len();
    if n < 4 {
        proof {
            assert forall|i: int| !(0 <= i && i + 4 <= s@.len() && #[trigger] s@.subrange(i, i + 4)
                == " -> "@) by {}
        }
        return false;
    }
    let mut i: usize = 0;
    proof {
        reveal_strlit(" -> ");
    }
    while i <= n - 4
        invariant
            i <= n - 3,
            forall|k: int| 0 <= k < i ==> #[trigger] s@.subrange(k, k + 4) != " -> "@,
        decreases n - i,
    {
        let c0 = s.get_char(i);
        let c1 = s.get_char(i + 1);
        let c2 = s.get_char(i + 2);
        let c3 = s.get_char(i + 3);
        if c0 == ' ' && c1 == '-' && c2 == '>' && c3 == ' ' {
            proof {
                assert(s@.subrange(i as int, i + 4 as int) =~= " -> "@);
            }
            return true;
        }
        proof {
            assert(s@.subrange(i as int, i + 4 as int) != " -> "@) by {
                if s@.subrange(i as int, i + 4 as int) == " -> "@ {
                    assert(s@.subrange(i as int, i + 4 as int)[0] == ' ');
                    assert(s@.subrange(i as int, i + 4 as int)[1] == '-');
                    assert(s@.subrange(i as int, i + 4 as int)[2] == '>');
                    assert(s@.subrange(i as int, i + 4 as int)[3] == ' ');
                }
            }
        }
        i = i + 1;
    }
    false
}

/// Clean one line of a branch listing: trim it, strip a leading `*` marker,
/// and empty out alias lines.
pub fn clean_branch(branch: &str) -> (r: String)
    ensures
        r@ == spec_clean_branch(branch@),
{
    let t = trim_str(branch);
    let u = if t.as_str().unicode_len() > 0 && t.as_str().get_char(0) == '*' {
        let rest = t.as_str().substring_char(1, t.as_str().unicode_len());
        proof {
            assert(t@.subrange(1, t@.len() as int) =~= t@.drop_first());
        }
        trim_str(rest)
    } else {
        t
    };
    if contains_arrow_str(u.as_str()) {
        String::new()
    } else {
        u
    }
}

/// The position of the first newline in `s`, or its length when it holds
/// none.
pub open spec fn first_newline(s: Seq<char>) -> nat
    decreases s.len(),
{
    if s.len() == 0 {
        0
    } else if s.first() == '\n' {
        0
    } else {
        1 + first_newline(s.drop_first())
    }
}

/// What `first_newline` means: it is at most the length, nothing before it
/// is a newline, and (when it is a valid index) it is one.
proof fn lemma_first_newline(s: Seq<char>)
    ensures
        first_newline(s) <= s.len(),
        first_newline(s) < s.len() ==> s[first_newline(s) as int] == '\n',
        forall|j: int| 0 <= j < first_newline(s) ==> #[trigger] s[j] != '\n',
    decreases s.len(),
{
    if s.len() > 0 && s.first() != '\n' {
        lemma_first_newline(s.drop_first());
        let rest = s.drop_first();
        assert forall|j: int| 0 <= j < first_newline(s) implies #[trigger] s[j] != '\n' by {
            if j > 0 {
                assert(s[j] == rest[j - 1]);
            }
        }
        if first_newline(s) < s.len() {
            assert(s[first_newline(s) as int] == rest[first_newline(rest) as int]);
        }
    }
}

/// If nothing before `i` is a newline and `i` is the length or a newline
/// position, the first newline is at `i`.
proof fn lemma_first_newline_at(s: Seq<char>, i: int)
    requires
        0 <= i <= s.len(),
        forall|j: int| 0 <= j < i ==> #[trigger] s[j] != '\n',
        i < s.len() ==> s[i] == '\n',
    ensures
        first_newline(s) == i,
    decreases i,
{
    if i == 0 {
        if s.len() > 0 && s.first() != '\n' {
            lemma_first_newline(s);
        }
    } else {
        let rest = s.drop_first();
        assert(forall|j: int| 0 <= j < i - 1 ==> #[trigger] rest[j] != '\n');
        assert(i - 1 < rest.len() ==> rest[i - 1] == s[i]);
        lemma_first_newline_at(rest, i - 1);
    }
}

/// The lines of `s`: the maximal newline-free stretches, in order. An empty
/// text is one empty line; a trailing newline ends with an empty line.
pub open spec fn spec_lines(s: Seq<char>) -> Seq<Seq<char>>
    decreases s.len(),
{
    let i = first_newline(s) as int;
    if i >= s.len() {
        seq![s]
    } else {
        seq![s.take(i)] + spec_lines(s.skip(i + 1))
    }
}

/// Split a string slice at newlines.
#[verifier::loop_isolation(false)]
pub fn split_lines(s: &str) -> (r: Vec<String>)
    ensures
        r.deep_view() == spec_lines(s@),
    decreases s@.len(),
{
    let n = s.unicode_len();
    let mut i: usize = 0;
    while i < n && s.get_char(i) != '\n'
        invariant
            i <= n,
            forall|j: int| 0 <= j < i ==> #[trigger] s@[j] != '\n',
        decreases n - i,
    {
        i = i + 1;
    }
    proof {
        lemma_first_newline_at(s@, i as int);
    }
    let mut out: Vec<String> = Vec::new();
    if i == n {
        out.push(String::from_str(s));
        proof {
            assert(out.deep_view() =~= spec_lines(s@));
        }
        return out;
    }
    let head = s.substring_char(0, i);
    let tail = s.substring_char(i + 1, n);
    proof {
        assert(head@ =~= s@.take(i as int));
        assert(tail@ =~= s@.skip(i + 1 as int));
    }
    let rest = split_lines(tail);
    out.push(String::from_str(head));
    let m = rest.len();
    let mut k: usize = 0;
    while k < m
        invariant
            k <= m,
            out@.len() == 1 + k,
            out.deep_view() =~= seq![s@.take(i as int)] + rest.deep_view().take(k as int),
        decreases m - k,
    {
        let ghost prev = out.deep_view();
        out.push(rest[k].clone());
        proof {
            assert(out.deep_view() =~= prev.push(rest.deep_view()[k as int]));
            assert(rest.deep_view().take(k + 1 as int) =~= rest.deep_view().take(k as int).push(
                rest.deep_view()[k as int],
            ));
            assert(out.deep_view() =~= seq![s@.take(i as int)] + rest.deep_view().take(
                k + 1 as int,
            ));
        }
        k = k + 1;
    }
    proof {
        assert(rest.deep_view().take(m as int) =~= rest.deep_view());
        assert(out.deep_view() =~= spec_lines(s@));
    }
    out
}

/// Whether a line is blank once trimmed.
pub open spec fn line_blank(l: Seq<char>) -> bool {
    spec_trim(l).len() == 0
}

/// The cleaned branch names a listing's lines produce: blank lines are
/// dropped, the rest are cleaned, and lines cleaned away entirely (such as
/// alias lines) are dropped too.
pub open spec fn clean_lines(lines: Seq<Seq<char>>) -> Seq<Seq<char>> {
    lines.filter(|l: Seq<char>| !line_blank(l)).map_values(
        |l: Seq<char>| spec_clean_branch(l),
    ).filter(|c: Seq<char>| !line_blank(c))
}

/// The branch names parsed out of a whole branch listing.
pub open spec fn spec_parse_branches(s: Seq<char>) -> Seq<Seq<char>> {
    clean_lines(spec_lines(s))
}

/// Extending the line sequence by one line extends the cleaned names by that
/// line's contribution: nothing for a blank or cleaned-away line, its
/// cleaned name otherwise.
proof fn lemma_clean_lines_step(lines: Seq<Seq<char>>, k: int)
    requires
        0 <= k < lines.len(),
    ensures
        clean_lines(lines.take(k + 1)) == clean_lines(lines.take(k)) + (if !line_blank(lines[k])
            && !line_blank(spec_clean_branch(lines[k])) {
            seq![spec_clean_branch(lines[k])]
        } else {
            Seq::empty()
        }),
{
    reveal_with_fuel(Seq::filter, 2);
    let keep_line = |l: Seq<char>| !line_blank(l);
    let clean = |l: Seq<char>| spec_clean_branch(l);
    let t = lines.take(k + 1);
    assert(t.drop_last() =~= lines.take(k));
    assert(t.last() == lines[k]);
    assert(t.filter(keep_line) == if keep_line(lines[k]) {
        lines.take(k).filter(keep_line).push(lines[k])
    } else {
        lines.take(k).filter(keep_line)
    });
    if keep_line(lines[k]) {
        let f = lines.take(k).filter(keep_line);
        assert(f.push(lines[k]).map_values(clean) =~= f.map_values(clean).push(
            spec_clean_branch(lines[k]),
        ));
        let g = f.map_values(clean);
        let h = g.push(spec_clean_branch(lines[k]));
        assert(h.drop_last() =~= g);
        assert(h.filter(keep_line) == if keep_line(spec_clean_branch(lines[k])) {
            g.filter(keep_line).push(spec_clean_branch(lines[k]))
        } else {
            g.filter(keep_line)
        });
        if keep_line(spec_clean_branch(lines[k])) {
            assert(clean_lines(t) =~= clean_lines(lines.take(k)) + seq![
                spec_clean_branch(lines[k]),
            ]);
        } else {
            assert(clean_lines(t) =~= clean_lines(lines.take(k)));
        }
    } else {
        assert(clean_lines(t) =~= clean_lines(lines.take(k)));
    }
}

/// Parse the decoded output of a branch listing into bare branch names:
/// split into lines, drop blank ones, clean each, and drop what cleaning
/// empties out.
#[verifier::loop_isolation(false)]
pub fn parse_branches(branch_list: &str) -> (r: Vec<String>)
    ensures
        r.deep_view() == spec_parse_branches(branch_list@),
{
    let lines = split_lines(branch_list);
    let mut out: Vec<String> = Vec::new();
    let n = lines.len();
    let mut i: usize = 0;
    proof {
        reveal_with_fuel(Seq::filter, 2);
        assert(lines.deep_view().take(0) =~= Seq::<Seq<char>>::empty());
        assert(clean_lines(lines.deep_view().take(0)) =~= Seq::<Seq<char>>::empty());
    }
    while i < n
        invariant
            i <= n,
            out.deep_view() == clean_lines(lines.deep_view().take(i as int)),
        decreases n - i,
    {
        proof {
            lemma_clean_lines_step(lines.deep_view(), i as int);
        }
        let line = &lines[i];
        let trimmed = trim_str(line.as_str());
        if trimmed.as_str().unicode_len() > 0 {
            let cleaned = clean_branch(line.as_str());
            let cleaned_trimmed = trim_str(cleaned.as_str());
            if cleaned_trimmed.as_str().unicode_len() > 0 {
                out.push(cleaned);
                proof {
                    assert(out.deep_view() =~= clean_lines(lines.deep_view().take(i as int))
                        + seq![spec_clean_branch(lines.deep_view()[i as int])]);
                }
            }
        }
        i = i + 1;
    }
    proof {
        assert(lines.deep_view().take(n as int) =~= lines.deep_view());
    }
    out
}

/// Every name the parser produces survives trimming: a blank line, or a line
/// cleaned away entirely, never becomes a branch name.
pub proof fn lemma_parsed_names_not_blank(s: Seq<char>, i: int)
    requires
        0 <= i < spec_parse_branches(s).len(),
    ensures
        !line_blank(spec_parse_branches(s)[i]),
{
    let keep_line = |l: Seq<char>| !line_blank(l);
    let cleaned = spec_lines(s).filter(keep_line).map_values(|l: Seq<char>| spec_clean_branch(l));
    cleaned.lemma_filter_pred(keep_line, i);
}

/// What an external branch listing invocation decoded to: the decoded
/// characters, or nothing when the bytes are not valid text. Names the
/// outcome of `String::from_utf8`, which is decided by the bytes alone.
pub uninterp spec fn utf8_decode(bytes: Seq<u8>) -> Option<Seq<char>>;

/// Relies on `String::from_utf8` (std): whether the bytes decode, and to
/// what, is a function of the bytes alone. A failure is rendered to its
/// display form.
#[verifier::external_body]
fn string_from_utf8(bytes: Vec<u8>) -> (r: Result<String, String>)
    ensures
        r is Ok <==> utf8_decode(bytes@) is Some,
        r matches Ok(s) ==> Some(s@) == utf8_decode(bytes@),
{
    match String::from_utf8(bytes) {
        Ok(s) => Ok(s),
        Err(e) => Err(format!("{e}")),
    }
}

/// Whether `m` is a decode-failure message: the fixed prefix, then the
/// decoder's complaint.
pub open spec fn spec_decode_failure_msg(m: Seq<char>) -> bool {
    exists|rest: Seq<char>| m == "could not decode git branch output: "@ + rest
}

/// Check an invocation's outcome and decode the relevant stream: a
/// successful invocation's standard output is returned as text; a failed
/// invocation's standard error becomes the error message; bytes that do not
/// decode are a decode failure either way.
pub fn check_output(success: bool, stdout: Vec<u8>, stderr: Vec<u8>) -> (r: Result<String, Error>)
    ensures
        success && utf8_decode(stdout@) is Some ==> (r matches Ok(s) && Some(s@) == utf8_decode(
            stdout@,
        )),
        success && utf8_decode(stdout@) is None ==> (r matches Err(e) && e matches Error::Git(m)
            && spec_decode_failure_msg(m@)),
        !success && utf8_decode(stderr@) is Some ==> (r matches Err(e) && e matches Error::Git(m)
            && Some(m@) == utf8_decode(stderr@)),
        !success && utf8_decode(stderr@) is None ==> (r matches Err(e) && e matches Error::Git(m)
            && spec_decode_failure_msg(m@)),
{
    if !success {
        return match string_from_utf8(stderr) {
            Ok(text) => Err(Error::Git(text)),
            Err(emsg) => Err(Error::Git(decode_failure_msg(emsg))),
        };
    }
    match string_from_utf8(stdout) {
        Ok(text) => Ok(text),
        Err(emsg) => Err(Error::Git(decode_failure_msg(emsg))),
    }
}

/// Build the decode-failure message around the decoder's complaint.
fn decode_failure_msg(emsg: String) -> (r: String)
    ensures
        spec_decode_failure_msg(r@),
{
    let mut m = String::from_str("could not decode git branch output: ");
    m.append(emsg.as_str());
    proof {
        assert(m@ == "could not decode git branch output: "@ + emsg@);
    }
    m
}

/// A source of raw branch listing output: whether the invocation succeeded,
/// its standard output, and its standard error. One implementation runs an
/// external tool; tests substitute canned bytes.
pub trait Outputter {
    fn get_output(&self) -> Result<(bool, Vec<u8>, Vec<u8>), Error>;
}

/// List branches through an `Outputter`: run it, check and decode what came
/// back, and parse the text into branch names. Whatever the invocation
/// produced, a successful result is always the parse of some decoded
/// listing: trimmed, marker-free names with alias lines dropped.
pub fn branch_list<O: Outputter>(outputter: O) -> (r: Result<Vec<String>, Error>)
    ensures
        r matches Ok(names) ==> exists|text: Seq<char>|
            names.deep_view() == spec_parse_branches(text),
{
    let (success, stdout, stderr) = match outputter.get_output() {
        Ok(out) => out,
        Err(e) => {
            return Err(e);
        },
    };
    match check_output(success, stdout, stderr) {
        Ok(x) => {
            let names = parse_branches(x.as_str());
            proof {
                assert(names.deep_view() == spec_parse_branches(x@));
            }
            Ok(names)
        },
        Err(e) => Err(e),
    }
}

} // verus!
