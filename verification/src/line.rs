//! What one line is, taken by itself: the kind of block it opens or continues.

use vstd::prelude::*;

use crate::matcher::{
    ask_numbered, ask_task, matcher_ready, numbered_match, numbered_ready, task_match, task_ready,
    ParseError,
};
use crate::text::{count_prefix, is_space, prefix_run, strip_of, to_chars, to_string, trim, Class};

verus! {

/// The kind of a line outside a code block.
#[derive(Clone, Copy, Debug, PartialEq, Eq, Structural)]
pub enum LineKind {
    /// Starts with the fence marker.
    Fence,
    /// Starts with a clean run of `#`.
    Heading,
    /// Starts with a pipe and holds no separator marker.
    Row,
    /// Starts with a pipe and holds a separator marker.
    Rule,
    /// Starts with `>`.
    Quote,
    /// A task-list item.
    Task,
    /// A bullet item.
    Bullet,
    /// A numbered item.
    Numbered,
    /// Ordinary text.
    Plain,
}

/// Whether `c` is the first character of `line`.
pub open spec fn starts_with(line: Seq<char>, c: char) -> bool {
    line.len() > 0 && line[0] == c
}

/// Whether `line` starts with three backticks.
pub open spec fn opens_fence(line: Seq<char>) -> bool {
    line.len() >= 3 && line[0] == '`' && line[1] == '`' && line[2] == '`'
}

/// Whether `line`, trimmed, ends with three backticks.
pub open spec fn closes_fence(line: Seq<char>) -> bool {
    let t = trim(line);
    t.len() >= 3 && t[t.len() - 1] == '`' && t[t.len() - 2] == '`' && t[t.len() - 3] == '`'
}

/// Whether the run of `#` at the start of `line` is not empty and is followed
/// by white space or by nothing.
pub open spec fn is_heading(line: Seq<char>) -> bool {
    let level = prefix_run(line, Class::Only('#')) as int;
    level > 0 && (level < line.len() ==> is_space(line[level]))
}

/// Whether three dashes stand side by side somewhere in `line`.
pub open spec fn has_rule(line: Seq<char>) -> bool {
    exists|i: int| dashes_at(line, i)
}

/// Whether three dashes stand at `i`, `i + 1` and `i + 2`.
pub open spec fn dashes_at(line: Seq<char>, i: int) -> bool {
    0 <= i && i + 2 < line.len() && line[i] == '-' && line[i + 1] == '-' && line[i + 2] == '-'
}

/// Whether `t` starts with a dash and a space.
pub open spec fn is_bullet(t: Seq<char>) -> bool {
    t.len() >= 2 && t[0] == '-' && t[1] == ' '
}

/// Whether `t` is long enough to hold the six characters of a task marker.
pub open spec fn fits_task(t: Seq<char>) -> bool {
    t.len() >= 6
}

/// Whether a space stands somewhere in `t`.
pub open spec fn has_gap(t: Seq<char>) -> bool {
    prefix_run(t, Class::Except(' ')) < t.len()
}

/// The kind of `line`, given the matcher's two answers on its trimmed text. The
/// tests are made in this order and the first that holds decides: the fence
/// marker; `#`, which makes a heading where the marker is clean and ordinary
/// text where it is not; a pipe; `>`; a task item; a bullet; a numbered item.
/// The matcher's answer counts only where the item's text can be read from the
/// trimmed line: a task needs the six characters of its marker, a numbered
/// item a space. What no test takes is ordinary text.
pub open spec fn kind_of(line: Seq<char>, task: bool, numbered: bool) -> LineKind {
    let t = trim(line);
    if opens_fence(line) {
        LineKind::Fence
    } else if starts_with(line, '#') {
        if is_heading(line) {
            LineKind::Heading
        } else {
            LineKind::Plain
        }
    } else if starts_with(line, '|') {
        if has_rule(line) {
            LineKind::Rule
        } else {
            LineKind::Row
        }
    } else if starts_with(line, '>') {
        LineKind::Quote
    } else if task && fits_task(t) {
        LineKind::Task
    } else if is_bullet(t) {
        LineKind::Bullet
    } else if numbered && has_gap(t) {
        LineKind::Numbered
    } else {
        LineKind::Plain
    }
}

/// The kind of `line`.
pub open spec fn line_kind(line: Seq<char>) -> LineKind {
    kind_of(line, task_match(trim(line)), numbered_match(trim(line)))
}

/// Whether the kind of `line` is settled by its first characters, with no
/// question to the matcher.
pub open spec fn has_marker(line: Seq<char>) -> bool {
    opens_fence(line) || starts_with(line, '#') || starts_with(line, '|') || starts_with(line, '>')
}

/// Whether finding the kind of `line` takes a question to the matcher.
pub open spec fn asks_matcher(line: Seq<char>) -> bool {
    let t = trim(line);
    !has_marker(line) && (fits_task(t) || (!is_bullet(t) && has_gap(t)))
}

/// Whether finding the kind of `line` takes the question whether it starts a
/// task-list item: no marker settles the kind, and the trimmed line can hold
/// a task marker.
pub open spec fn asks_task(line: Seq<char>) -> bool {
    !has_marker(line) && fits_task(trim(line))
}

/// Whether finding the kind of `line` takes the question whether it starts a
/// numbered item: no marker settles the kind, the line is neither a task nor a
/// bullet, and a space stands in it.
pub open spec fn asks_numbered(line: Seq<char>) -> bool {
    let t = trim(line);
    !has_marker(line) && !(fits_task(t) && task_match(t)) && !is_bullet(t) && has_gap(t)
}

/// Whether the kind of `line` cannot be found: a question that it takes is one
/// on a pattern that the matcher turns down.
pub open spec fn kind_fails(line: Seq<char>) -> bool {
    (asks_task(line) && !task_ready()) || (asks_numbered(line) && !numbered_ready())
}

/// Tests whether `v` starts with three backticks.
pub fn scan_fence_open(v: &[char]) -> (b: bool)
    ensures
        b == opens_fence(v@),
{
    v.len() >= 3 && v[0] == '`' && v[1] == '`' && v[2] == '`'
}

/// Tests whether `v`, trimmed, ends with three backticks.
pub fn scan_fence_close(v: &[char]) -> (b: bool)
    ensures
        b == closes_fence(v@),
{
    let t = strip_of(v, Class::Space);
    let n = t.len();
    n >= 3 && t[n - 1] == '`' && t[n - 2] == '`' && t[n - 3] == '`'
}

/// Tests whether `v` starts with a clean run of `#`.
pub fn scan_heading(v: &[char]) -> (b: bool)
    ensures
        b == is_heading(v@),
{
    let level = count_prefix(v, Class::Only('#'));
    level > 0 && (level == v.len() || Class::Space.holds(v[level]))
}

/// Looks for three dashes side by side in `v`.
pub fn scan_rule(v: &[char]) -> (b: bool)
    ensures
        b == has_rule(v@),
{
    if v.len() < 3 {
        return false;
    }
    let last = v.len() - 3;
    let mut i: usize = 0;
    while i <= last
        invariant
            last == v.len() - 3,
            forall|j: int| 0 <= j < i ==> !dashes_at(v@, j),
        decreases last + 1 - i,
    {
        if v[i] == '-' && v[i + 1] == '-' && v[i + 2] == '-' {
            assert(dashes_at(v@, i as int));
            return true;
        }
        i += 1;
    }
    false
}

/// Tests whether `t` starts with a dash and a space.
pub fn scan_bullet(t: &[char]) -> (b: bool)
    ensures
        b == is_bullet(t@),
{
    t.len() >= 2 && t[0] == '-' && t[1] == ' '
}

/// Looks for a space in `t`.
pub fn scan_gap(t: &[char]) -> (b: bool)
    ensures
        b == has_gap(t@),
{
    count_prefix(t, Class::Except(' ')) < t.len()
}

/// The kind that the first characters of `v` settle, if they settle one.
fn marker_kind(v: &[char]) -> (k: Option<LineKind>)
    ensures
        k.is_some() == has_marker(v@),
        k matches Some(kind) ==> forall|task: bool, numbered: bool|
            kind == #[trigger] kind_of(v@, task, numbered),
{
    if scan_fence_open(v) {
        Some(LineKind::Fence)
    } else if v.len() == 0 {
        None
    } else if v[0] == '#' {
        if scan_heading(v) {
            Some(LineKind::Heading)
        } else {
            Some(LineKind::Plain)
        }
    } else if v[0] == '|' {
        if scan_rule(v) {
            Some(LineKind::Rule)
        } else {
            Some(LineKind::Row)
        }
    } else if v[0] == '>' {
        Some(LineKind::Quote)
    } else {
        None
    }
}

/// Finds the kind of `line` from the matcher's two answers on its trimmed
/// text.
pub fn classify(line: &str, task: bool, numbered: bool) -> (kind: LineKind)
    ensures
        kind == kind_of(line@, task, numbered),
{
    let chars = to_chars(line);
    match marker_kind(chars.as_slice()) {
        Some(kind) => kind,
        None => {
            let t = strip_of(chars.as_slice(), Class::Space);
            if task && t.len() >= 6 {
                LineKind::Task
            } else if scan_bullet(t) {
                LineKind::Bullet
            } else if numbered && scan_gap(t) {
                LineKind::Numbered
            } else {
                LineKind::Plain
            }
        },
    }
}

/// Finds the kind of `line`, asking the matcher where the first characters do
/// not settle it: for the task pattern where the trimmed text can hold a task
/// marker, and for the numbered pattern where the line is neither a task nor a
/// bullet and a space stands in it. Fails where, and only where, the matcher
/// turns down the pattern of a question that the line takes.
pub fn find_kind(line: &str) -> (r: Result<LineKind, ParseError>)
    ensures
        r.is_err() == kind_fails(line@),
        r matches Ok(kind) ==> kind == line_kind(line@),
        r matches Err(e) ==> e == ParseError::Matcher,
        matcher_ready() ==> r.is_ok(),
        !asks_matcher(line@) ==> r.is_ok(),
{
    let chars = to_chars(line);
    match marker_kind(chars.as_slice()) {
        Some(kind) => Ok(kind),
        None => {
            let t = strip_of(chars.as_slice(), Class::Space);
            let text = to_string(t);
            let task = if t.len() >= 6 {
                match ask_task(text.as_str()) {
                    Ok(found) => found,
                    Err(e) => {
                        return Err(e);
                    },
                }
            } else {
                false
            };
            if task {
                Ok(LineKind::Task)
            } else if scan_bullet(t) {
                Ok(LineKind::Bullet)
            } else if scan_gap(t) {
                match ask_numbered(text.as_str()) {
                    Ok(true) => Ok(LineKind::Numbered),
                    Ok(false) => Ok(LineKind::Plain),
                    Err(e) => Err(e),
                }
            } else {
                Ok(LineKind::Plain)
            }
        },
    }
}

} // verus!
