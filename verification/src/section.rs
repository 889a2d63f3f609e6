//! Typed sections, and the refinement of one raw span into one section.

use vstd::prelude::*;
use vstd::slice::slice_subrange;

use crate::span::RawSpan;
use crate::text::{
    count_prefix, prefix_run, remove, strip_of, to_chars, to_string, trim, without, Class,
};

verus! {

/// A block of the document with its fields drawn out.
#[derive(Debug, PartialEq, Eq)]
pub enum Section {
    /// A paragraph: its trimmed text, never empty where it comes from a document.
    Text(String),
    /// A heading: its level and its text.
    Header(usize, String),
    /// A code block: its language tag and its body.
    CodeBlock(String, String),
    /// A table: its rows of cells, the header row first.
    Table(Vec<Vec<String>>),
    /// A callout: its text, without the first marker.
    Callout(String),
    /// A bullet list: for each item its indent depth and its text.
    BulletList(Vec<(usize, String)>),
    /// A numbered list: for each item its indent depth and its text.
    NumberedList(Vec<(usize, String)>),
    /// A task list: for each item its indent depth, whether it is done, and its text.
    TaskList(Vec<(usize, bool, String)>),
}

/// The model of a section.
pub enum SectionView {
    Text(Seq<char>),
    Header(nat, Seq<char>),
    CodeBlock(Seq<char>, Seq<char>),
    Table(Seq<Seq<Seq<char>>>),
    Callout(Seq<char>),
    BulletList(Seq<(nat, Seq<char>)>),
    NumberedList(Seq<(nat, Seq<char>)>),
    TaskList(Seq<(nat, bool, Seq<char>)>),
}

/// The model of the items of a bullet or numbered list.
pub open spec fn items_view(items: Seq<(usize, String)>) -> Seq<(nat, Seq<char>)> {
    Seq::new(items.len(), |i: int| (items[i].0 as nat, items[i].1@))
}

/// The model of the items of a task list.
pub open spec fn tasks_view(items: Seq<(usize, bool, String)>) -> Seq<(nat, bool, Seq<char>)> {
    Seq::new(items.len(), |i: int| (items[i].0 as nat, items[i].1, items[i].2@))
}

impl View for Section {
    type V = SectionView;

    open spec fn view(&self) -> SectionView {
        match self {
            Section::Text(s) => SectionView::Text(s@),
            Section::Header(level, s) => SectionView::Header(*level as nat, s@),
            Section::CodeBlock(language, body) => SectionView::CodeBlock(language@, body@),
            Section::Table(rows) => SectionView::Table(rows.deep_view()),
            Section::Callout(s) => SectionView::Callout(s@),
            Section::BulletList(items) => SectionView::BulletList(items_view(items@)),
            Section::NumberedList(items) => SectionView::NumberedList(items_view(items@)),
            Section::TaskList(items) => SectionView::TaskList(tasks_view(items@)),
        }
    }
}

impl DeepView for Section {
    type V = SectionView;

    open spec fn deep_view(&self) -> SectionView {
        self@
    }
}

/// The indent depth of an item line: the number of tabs at its start.
pub open spec fn depth(line: Seq<char>) -> nat {
    prefix_run(line, Class::Only('\t'))
}

/// The level of a heading line: the number of `#` at its start.
pub open spec fn heading_level(line: Seq<char>) -> nat {
    prefix_run(line, Class::Only('#'))
}

/// The text of a heading line: what follows the run of `#`, trimmed.
pub open spec fn heading_text(line: Seq<char>) -> Seq<char> {
    trim(line.skip(heading_level(line) as int))
}

/// A code block without its backticks: every backtick of the block is taken
/// out, those of the two fences and any that stands between them.
pub open spec fn code_inner(block: Seq<char>) -> Seq<char> {
    without(block, '`')
}

/// The language tag of a code block: the first line of the block without its
/// backticks.
pub open spec fn code_language(block: Seq<char>) -> Seq<char> {
    let inner = code_inner(block);
    inner.take(prefix_run(inner, Class::Except('\n')) as int)
}

/// The body of a code block: what follows the first line feed of the block
/// without its backticks, and nothing where there is none.
pub open spec fn code_body(block: Seq<char>) -> Seq<char> {
    let inner = code_inner(block);
    let k = prefix_run(inner, Class::Except('\n')) as int;
    if 0 <= k < inner.len() {
        inner.skip(k + 1)
    } else {
        Seq::empty()
    }
}

/// The text of a callout: the block without a `>` at its start, trimmed.
pub open spec fn callout_text(block: Seq<char>) -> Seq<char> {
    if block.len() > 0 && block[0] == '>' {
        trim(block.skip(1))
    } else {
        trim(block)
    }
}

/// The text of a bullet line: the trimmed line without its first two
/// characters; the whole trimmed line where it is shorter than that.
pub open spec fn bullet_text(line: Seq<char>) -> Seq<char> {
    let t = trim(line);
    if t.len() >= 2 {
        t.skip(2)
    } else {
        t
    }
}

/// The text of a numbered line: what follows the first space of the trimmed
/// line; the whole trimmed line where no space stands in it.
pub open spec fn numbered_text(line: Seq<char>) -> Seq<char> {
    let t = trim(line);
    let k = prefix_run(t, Class::Except(' ')) as int;
    if 0 <= k < t.len() {
        t.skip(k + 1)
    } else {
        t
    }
}

/// Whether a task line is ticked: the fourth character of the trimmed line is
/// an `x`.
pub open spec fn task_done(line: Seq<char>) -> bool {
    let t = trim(line);
    t.len() > 3 && t[3] == 'x'
}

/// The text of a task line: the trimmed line without its first six
/// characters; the whole trimmed line where it is shorter than that.
pub open spec fn task_text(line: Seq<char>) -> Seq<char> {
    let t = trim(line);
    if t.len() >= 6 {
        t.skip(6)
    } else {
        t
    }
}

/// The section that a raw span stands for.
pub open spec fn refine(span: RawSpan) -> SectionView {
    match span {
        RawSpan::Text(s) => SectionView::Text(s),
        RawSpan::Header(line) => SectionView::Header(heading_level(line), heading_text(line)),
        RawSpan::CodeBlock(block) => SectionView::CodeBlock(
            code_language(block),
            code_body(block),
        ),
        RawSpan::Table(rows) => SectionView::Table(rows),
        RawSpan::Callout(block) => SectionView::Callout(callout_text(block)),
        RawSpan::BulletList(lines) => SectionView::BulletList(
            Seq::new(lines.len(), |i: int| (depth(lines[i]), bullet_text(lines[i]))),
        ),
        RawSpan::NumberedList(lines) => SectionView::NumberedList(
            Seq::new(lines.len(), |i: int| (depth(lines[i]), numbered_text(lines[i]))),
        ),
        RawSpan::TaskList(lines) => SectionView::TaskList(
            Seq::new(
                lines.len(),
                |i: int| (depth(lines[i]), task_done(lines[i]), task_text(lines[i])),
            ),
        ),
    }
}

/// A copy of `lines`.
pub fn copy_lines(lines: &Vec<String>) -> (copy: Vec<String>)
    ensures
        copy.deep_view() == lines.deep_view(),
{
    let mut copy: Vec<String> = Vec::new();
    let mut i: usize = 0;
    while i < lines.len()
        invariant
            i <= lines.len(),
            copy.len() == i,
            forall|j: int| 0 <= j < i ==> copy@[j]@ == lines@[j]@,
        decreases lines.len() - i,
    {
        copy.push(lines[i].clone());
        i += 1;
    }
    proof {
        assert(copy.deep_view() =~= lines.deep_view());
    }
    copy
}

/// A copy of `rows`.
pub fn copy_rows(rows: &Vec<Vec<String>>) -> (copy: Vec<Vec<String>>)
    ensures
        copy.deep_view() == rows.deep_view(),
{
    let mut copy: Vec<Vec<String>> = Vec::new();
    let mut i: usize = 0;
    while i < rows.len()
        invariant
            i <= rows.len(),
            copy.len() == i,
            forall|j: int| 0 <= j < i ==> copy@[j].deep_view() == rows@[j].deep_view(),
        decreases rows.len() - i,
    {
        copy.push(copy_lines(&rows[i]));
        i += 1;
    }
    proof {
        assert(copy.deep_view() =~= rows.deep_view());
    }
    copy
}

/// Reads the level and the text of a heading line.
pub fn read_heading(line: &str) -> (r: (usize, String))
    ensures
        r.0 == heading_level(line@),
        r.1@ == heading_text(line@),
{
    let chars = to_chars(line);
    let level = count_prefix(chars.as_slice(), Class::Only('#'));
    let rest = slice_subrange(chars.as_slice(), level, chars.len());
    (level, to_string(strip_of(rest, Class::Space)))
}

/// Reads the language tag and the body of a code block.
pub fn read_code(block: &str) -> (r: (String, String))
    ensures
        r.0@ == code_language(block@),
        r.1@ == code_body(block@),
{
    let chars = to_chars(block);
    let left = remove(chars.as_slice(), '`');
    let inner = left.as_slice();
    let k = count_prefix(inner, Class::Except('\n'));
    let language = to_string(slice_subrange(inner, 0, k));
    let body = if k < inner.len() {
        to_string(slice_subrange(inner, k + 1, inner.len()))
    } else {
        String::new()
    };
    (language, body)
}

/// Reads the text of a callout.
pub fn read_callout(block: &str) -> (r: String)
    ensures
        r@ == callout_text(block@),
{
    let chars = to_chars(block);
    if chars.len() > 0 && chars[0] == '>' {
        let rest = slice_subrange(chars.as_slice(), 1, chars.len());
        to_string(strip_of(rest, Class::Space))
    } else {
        to_string(strip_of(chars.as_slice(), Class::Space))
    }
}

/// Reads the depth and the text of a bullet line.
pub fn read_bullet(line: &str) -> (r: (usize, String))
    ensures
        r.0 == depth(line@),
        r.1@ == bullet_text(line@),
{
    let chars = to_chars(line);
    let tabs = count_prefix(chars.as_slice(), Class::Only('\t'));
    let t = strip_of(chars.as_slice(), Class::Space);
    let text = if t.len() >= 2 {
        to_string(slice_subrange(t, 2, t.len()))
    } else {
        to_string(t)
    };
    (tabs, text)
}

/// Reads the depth and the text of a numbered line.
pub fn read_numbered(line: &str) -> (r: (usize, String))
    ensures
        r.0 == depth(line@),
        r.1@ == numbered_text(line@),
{
    let chars = to_chars(line);
    let tabs = count_prefix(chars.as_slice(), Class::Only('\t'));
    let t = strip_of(chars.as_slice(), Class::Space);
    let k = count_prefix(t, Class::Except(' '));
    let text = if k < t.len() {
        to_string(slice_subrange(t, k + 1, t.len()))
    } else {
        to_string(t)
    };
    (tabs, text)
}

/// Reads the depth, the tick and the text of a task line.
pub fn read_task(line: &str) -> (r: (usize, bool, String))
    ensures
        r.0 == depth(line@),
        r.1 == task_done(line@),
        r.2@ == task_text(line@),
{
    let chars = to_chars(line);
    let tabs = count_prefix(chars.as_slice(), Class::Only('\t'));
    let t = strip_of(chars.as_slice(), Class::Space);
    let done = t.len() > 3 && t[3] == 'x';
    let text = if t.len() >= 6 {
        to_string(slice_subrange(t, 6, t.len()))
    } else {
        to_string(t)
    };
    (tabs, done, text)
}

/// Reads every line of a bullet list.
pub fn read_bullets(lines: &Vec<String>) -> (items: Vec<(usize, String)>)
    ensures
        items_view(items@) == Seq::new(
            lines.deep_view().len(),
            |i: int| (depth(lines.deep_view()[i]), bullet_text(lines.deep_view()[i])),
        ),
{
    let mut items: Vec<(usize, String)> = Vec::new();
    let mut i: usize = 0;
    while i < lines.len()
        invariant
            i <= lines.len(),
            items.len() == i,
            forall|j: int|
                0 <= j < i ==> items@[j].0 == depth(lines@[j]@) && items@[j].1@ == bullet_text(
                    lines@[j]@,
                ),
        decreases lines.len() - i,
    {
        items.push(read_bullet(lines[i].as_str()));
        i += 1;
    }
    proof {
        assert(items_view(items@) =~= Seq::new(
            lines.deep_view().len(),
            |i: int| (depth(lines.deep_view()[i]), bullet_text(lines.deep_view()[i])),
        ));
    }
    items
}

/// Reads every line of a numbered list.
pub fn read_numbers(lines: &Vec<String>) -> (items: Vec<(usize, String)>)
    ensures
        items_view(items@) == Seq::new(
            lines.deep_view().len(),
            |i: int| (depth(lines.deep_view()[i]), numbered_text(lines.deep_view()[i])),
        ),
{
    let mut items: Vec<(usize, String)> = Vec::new();
    let mut i: usize = 0;
    while i < lines.len()
        invariant
            i <= lines.len(),
            items.len() == i,
            forall|j: int|
                0 <= j < i ==> items@[j].0 == depth(lines@[j]@) && items@[j].1@ == numbered_text(
                    lines@[j]@,
                ),
        decreases lines.len() - i,
    {
        items.push(read_numbered(lines[i].as_str()));
        i += 1;
    }
    proof {
        assert(items_view(items@) =~= Seq::new(
            lines.deep_view().len(),
            |i: int| (depth(lines.deep_view()[i]), numbered_text(lines.deep_view()[i])),
        ));
    }
    items
}

/// Reads every line of a task list.
pub fn read_tasks(lines: &Vec<String>) -> (items: Vec<(usize, bool, String)>)
    ensures
        tasks_view(items@) == Seq::new(
            lines.deep_view().len(),
            |i: int|
                (
                    depth(lines.deep_view()[i]),
                    task_done(lines.deep_view()[i]),
                    task_text(lines.deep_view()[i]),
                ),
        ),
{
    let mut items: Vec<(usize, bool, String)> = Vec::new();
    let mut i: usize = 0;
    while i < lines.len()
        invariant
            i <= lines.len(),
            items.len() == i,
            forall|j: int|
                0 <= j < i ==> items@[j].0 == depth(lines@[j]@) && items@[j].1 == task_done(
                    lines@[j]@,
                ) && items@[j].2@ == task_text(lines@[j]@),
        decreases lines.len() - i,
    {
        items.push(read_task(lines[i].as_str()));
        i += 1;
    }
    proof {
        assert(tasks_view(items@) =~= Seq::new(
            lines.deep_view().len(),
            |i: int|
                (
                    depth(lines.deep_view()[i]),
                    task_done(lines.deep_view()[i]),
                    task_text(lines.deep_view()[i]),
                ),
        ));
    }
    items
}

} // verus!
