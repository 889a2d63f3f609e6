//! The pattern matcher behind the two list-item tests that are written as
//! regular expressions.

use vstd::prelude::*;

verus! {

/// The error of the `regex` crate, carried through unopened.
#[verifier::external_type_specification]
#[verifier::external_body]
pub struct ExRegexError(regex::Error);

/// Whether the `regex` crate, with its default options, compiles `pattern`:
/// whether the pattern is valid and stays within the crate's size limit.
pub uninterp spec fn regex_compiles(pattern: Seq<char>) -> bool;

/// Whether the regular expression `pattern`, compiled by the `regex` crate with
/// its default options, has a match anywhere in `text`.
pub uninterp spec fn regex_matches(pattern: Seq<char>, text: Seq<char>) -> bool;

/// Compiles `pattern` with `regex::Regex::new` and searches `text` with
/// `regex::Regex::is_match`. Whether the pattern compiles rests on the pattern
/// alone: the crate builds it from the pattern and its own fixed options.
/// Where it compiles, the answer is the crate's for this pattern and this
/// text; where it does not, the crate's error comes back. Nothing is claimed
/// of which patterns compile.
#[verifier::external_body]
pub(crate) fn regex_is_match(pattern: &str, text: &str) -> (r: Result<bool, regex::Error>)
    ensures
        r.is_ok() == regex_compiles(pattern@),
        r matches Ok(found) ==> found == regex_matches(pattern@, text@),
{
    Ok(regex::Regex::new(pattern)?.is_match(text))
}

/// The pattern matcher gave no answer.
#[derive(Clone, Copy, Debug, PartialEq, Eq)]
pub enum ParseError {
    /// The matcher turned down one of this crate's two patterns.
    Matcher,
}

/// The start of a task-list item: a dash, a space, a pair of brackets around a
/// space or an `x`, and a space.
pub const TASK_PATTERN: &'static str = "^- \\[[ x]\\] ";

/// The start of a numbered item: digits, a dot and a space.
pub const NUMBERED_PATTERN: &'static str = "^\\d+\\. ";

/// The matcher's answer on whether `text` starts a task-list item.
pub open spec fn task_match(text: Seq<char>) -> bool {
    regex_matches(TASK_PATTERN@, text)
}

/// The matcher's answer on whether `text` starts a numbered item.
pub open spec fn numbered_match(text: Seq<char>) -> bool {
    regex_matches(NUMBERED_PATTERN@, text)
}

/// Whether the matcher takes the pattern for task-list items.
pub open spec fn task_ready() -> bool {
    regex_compiles(TASK_PATTERN@)
}

/// Whether the matcher takes the pattern for numbered items.
pub open spec fn numbered_ready() -> bool {
    regex_compiles(NUMBERED_PATTERN@)
}

/// Whether the matcher takes both patterns of this crate.
pub open spec fn matcher_ready() -> bool {
    task_ready() && numbered_ready()
}

/// Asks the matcher whether `text` starts a task-list item. Fails where, and
/// only where, the matcher turns the task pattern down.
pub fn ask_task(text: &str) -> (r: Result<bool, ParseError>)
    ensures
        r.is_ok() == regex_compiles(TASK_PATTERN@),
        r matches Ok(found) ==> found == task_match(text@),
        r matches Err(e) ==> e == ParseError::Matcher,
{
    let outcome = regex_is_match(TASK_PATTERN, text);
    answer(outcome)
}

/// Asks the matcher whether `text` starts a numbered item. Fails where, and
/// only where, the matcher turns the numbered pattern down.
pub fn ask_numbered(text: &str) -> (r: Result<bool, ParseError>)
    ensures
        r.is_ok() == regex_compiles(NUMBERED_PATTERN@),
        r matches Ok(found) ==> found == numbered_match(text@),
        r matches Err(e) ==> e == ParseError::Matcher,
{
    let outcome = regex_is_match(NUMBERED_PATTERN, text);
    answer(outcome)
}

/// What this crate makes of the matcher's outcome: the matcher's answer where
/// it gave one, and `ParseError::Matcher` where it turned the pattern down.
pub fn answer(outcome: Result<bool, regex::Error>) -> (r: Result<bool, ParseError>)
    ensures
        outcome matches Ok(found) ==> r == Ok::<bool, ParseError>(found),
        outcome is Err ==> r == Err::<bool, ParseError>(ParseError::Matcher),
{
    match outcome {
        Ok(found) => Ok(found),
        Err(_) => Err(ParseError::Matcher),
    }
}

} // verus!
