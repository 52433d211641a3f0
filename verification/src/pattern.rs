//! Regular expressions. Matching and replacing are done by the `regex`
//! crate; what it answers is given a name here, and the rest of the crate
//! is stated over these names.

use crate::error::ErrorView;
use crate::error::RigError;
use crate::text::texts;
use vstd::prelude::*;

verus! {

/// The error that `regex` reports for a pattern it does not compile.
#[verifier::external_type_specification]
#[verifier::external_body]
pub struct ExRegexError(regex::Error);

/// Whether `pattern` is a regular expression that is accepted: whether
/// `regex::Regex::new` compiles it, with the limits that it has by default.
pub uninterp spec fn regex_accepts(pattern: Seq<char>) -> bool;

/// Whether the regular expression `pattern` has a match somewhere in
/// `haystack`: the answer of `regex::Regex::is_match` for the expression
/// that `regex::Regex::new` compiles from `pattern`.
pub uninterp spec fn regex_is_match(pattern: Seq<char>, haystack: Seq<char>) -> bool;

/// `haystack` with the leftmost match of `pattern` replaced by `rep`, in
/// which `$n` and `${n}` stand for the capture groups: the answer of
/// `regex::Regex::replace` for the expression that `regex::Regex::new`
/// compiles from `pattern`.
pub uninterp spec fn regex_replace(
    pattern: Seq<char>,
    haystack: Seq<char>,
    rep: Seq<char>,
) -> Seq<char>;

/// Calls `regex::Regex::is_match` on the expression compiled from
/// `pattern`. Trusted: the call succeeds exactly if `regex::Regex::new`
/// compiles the pattern, which depends on the pattern alone and is named
/// `regex_accepts`; and when it does, the answer is the one named
/// `regex_is_match`.
#[verifier::external_body]
fn engine_is_match(pattern: &str, haystack: &str) -> (r: Result<bool, regex::Error>)
    ensures
        r is Ok <==> regex_accepts(pattern@),
        r matches Ok(b) ==> b == regex_is_match(pattern@, haystack@),
{
    match regex::Regex::new(pattern) {
        Ok(re) => Ok(re.is_match(haystack)),
        Err(e) => Err(e),
    }
}

/// Calls `regex::Regex::replace` on the expression compiled from `pattern`.
/// Trusted: the call succeeds exactly if `regex::Regex::new` compiles the
/// pattern; when it does, the text that comes back is the one named
/// `regex_replace`, and it is the haystack itself where the pattern has no
/// match in it.
#[verifier::external_body]
fn engine_replace(pattern: &str, haystack: &str, rep: &str) -> (r: Result<String, regex::Error>)
    ensures
        r is Ok <==> regex_accepts(pattern@),
        r matches Ok(s) ==> s@ == regex_replace(pattern@, haystack@, rep@),
        r matches Ok(s) ==> (!regex_is_match(pattern@, haystack@) ==> s@ == haystack@),
{
    match regex::Regex::new(pattern) {
        Ok(re) => Ok(re.replace(haystack, rep).into_owned()),
        Err(e) => Err(e),
    }
}

/// Whether `pattern` matches somewhere in `haystack`. Fails with
/// `BadPattern` exactly if the pattern is not accepted.
pub fn is_match(pattern: &str, haystack: &str) -> (r: Result<bool, RigError>)
    ensures
        match r {
            Ok(b) => regex_accepts(pattern@) && b == regex_is_match(pattern@, haystack@),
            Err(e) => !regex_accepts(pattern@) && e@ == ErrorView::BadPattern,
        },
{
    match engine_is_match(pattern, haystack) {
        Ok(b) => Ok(b),
        Err(_) => Err(RigError::BadPattern),
    }
}

/// What `replace` gives for a pattern that is accepted: the named text,
/// which is the haystack itself where the pattern has no match in it.
pub open spec fn replaced(pattern: Seq<char>, haystack: Seq<char>, rep: Seq<char>) -> Seq<char> {
    if regex_is_match(pattern, haystack) {
        regex_replace(pattern, haystack, rep)
    } else {
        haystack
    }
}

/// `haystack` with the leftmost match of `pattern` replaced by `rep`; a
/// haystack without a match comes back as it is. Fails with `BadPattern`
/// exactly if the pattern is not accepted.
pub fn replace(pattern: &str, haystack: &str, rep: &str) -> (r: Result<String, RigError>)
    ensures
        match r {
            Ok(s) => regex_accepts(pattern@) && s@ == replaced(pattern@, haystack@, rep@) && s@
                == regex_replace(pattern@, haystack@, rep@),
            Err(e) => !regex_accepts(pattern@) && e@ == ErrorView::BadPattern,
        },
{
    match engine_replace(pattern, haystack, rep) {
        Ok(s) => Ok(s),
        Err(_) => Err(RigError::BadPattern),
    }
}

/// The position of the first line from `from` on that `pattern` matches,
/// if there is one.
pub open spec fn first_match_from(pattern: Seq<char>, lines: Seq<Seq<char>>, from: int) -> Option<
    int,
>
    decreases lines.len() - from,
{
    if from < 0 || from >= lines.len() {
        None
    } else if regex_is_match(pattern, lines[from]) {
        Some(from)
    } else {
        first_match_from(pattern, lines, from + 1)
    }
}

/// The position of the first line that `pattern` matches, if there is one.
pub open spec fn first_match(pattern: Seq<char>, lines: Seq<Seq<char>>) -> Option<int> {
    first_match_from(pattern, lines, 0)
}

/// Whether a search through `count` lines is held up by `pattern`: it is
/// when there is a line to look at and the pattern is not accepted.
/// Without lines the pattern is never looked at.
pub open spec fn blocked(pattern: Seq<char>, count: nat) -> bool {
    count > 0 && !regex_accepts(pattern)
}

/// The position of the first line that `pattern` matches, if there is one.
/// Fails with `BadPattern` exactly if there are lines and the pattern is
/// not accepted.
pub fn find_line(pattern: &str, lines: &Vec<String>) -> (r: Result<Option<usize>, RigError>)
    ensures
        match r {
            Ok(Some(at)) => !blocked(pattern@, lines@.len()) && at < lines.len() && first_match(
                pattern@,
                texts(lines@),
            ) == Some(at as int),
            Ok(None) => !blocked(pattern@, lines@.len()) && first_match(pattern@, texts(lines@))
                is None,
            Err(e) => blocked(pattern@, lines@.len()) && e@ == ErrorView::BadPattern,
        },
{
    let mut i: usize = 0;
    while i < lines.len()
        invariant
            i <= lines.len(),
            i > 0 ==> regex_accepts(pattern@),
            first_match(pattern@, texts(lines@)) == first_match_from(
                pattern@,
                texts(lines@),
                i as int,
            ),
        decreases lines.len() - i,
    {
        if is_match(pattern, lines[i].as_str())? {
            return Ok(Some(i));
        }
        i += 1;
    }
    Ok(None)
}

} // verus!
