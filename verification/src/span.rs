//! Raw block spans: what the segmenter hands to the refiner.

use vstd::prelude::*;

use crate::line::{fits_task, has_gap, is_bullet, is_heading, opens_fence, starts_with};
use crate::text::{is_space, trim};

verus! {

/// A block of lines of one kind, as it stood in the document.
#[derive(Debug, PartialEq, Eq)]
pub enum Preprocessor {
    /// A paragraph: its lines joined and trimmed.
    Text(String),
    /// A heading: the one line, marker included.
    Header(String),
    /// A code block: its lines joined and trimmed, both fences included.
    CodeBlock(String),
    /// A table: its rows, each a row of trimmed cells.
    Table(Vec<Vec<String>>),
    /// A callout: its lines joined and trimmed, markers included.
    Callout(String),
    /// A bullet list: its lines.
    BulletList(Vec<String>),
    /// A numbered list: its lines.
    NumberedList(Vec<String>),
    /// A task list: its lines.
    TaskList(Vec<String>),
}

/// The model of a raw block span.
pub enum RawSpan {
    Text(Seq<char>),
    Header(Seq<char>),
    CodeBlock(Seq<char>),
    Table(Seq<Seq<Seq<char>>>),
    Callout(Seq<char>),
    BulletList(Seq<Seq<char>>),
    NumberedList(Seq<Seq<char>>),
    TaskList(Seq<Seq<char>>),
}

impl RawSpan {
    /// Whether the span is one that a document can give: a paragraph is not
    /// empty and neither starts nor ends with white space; a heading line
    /// has a clean marker; a code block starts with the fence marker and a
    /// callout with `>`; a table has a row; a list has a line, and each of
    /// its lines, trimmed, is long enough for its marker.
    pub open spec fn well_formed(self) -> bool {
        match self {
            RawSpan::Text(t) => t.len() > 0 && !is_space(t.first()) && !is_space(t.last()),
            RawSpan::Header(line) => is_heading(line),
            RawSpan::CodeBlock(block) => opens_fence(block),
            RawSpan::Table(rows) => rows.len() > 0,
            RawSpan::Callout(block) => starts_with(block, '>'),
            RawSpan::BulletList(lines) => lines.len() > 0 && forall|i: int|
                0 <= i < lines.len() ==> is_bullet(trim(#[trigger] lines[i])),
            RawSpan::NumberedList(lines) => lines.len() > 0 && forall|i: int|
                0 <= i < lines.len() ==> has_gap(trim(#[trigger] lines[i])),
            RawSpan::TaskList(lines) => lines.len() > 0 && forall|i: int|
                0 <= i < lines.len() ==> fits_task(trim(#[trigger] lines[i])),
        }
    }
}

impl View for Preprocessor {
    type V = RawSpan;

    open spec fn view(&self) -> RawSpan {
        match self {
            Preprocessor::Text(s) => RawSpan::Text(s@),
            Preprocessor::Header(s) => RawSpan::Header(s@),
            Preprocessor::CodeBlock(s) => RawSpan::CodeBlock(s@),
            Preprocessor::Table(rows) => RawSpan::Table(rows.deep_view()),
            Preprocessor::Callout(s) => RawSpan::Callout(s@),
            Preprocessor::BulletList(lines) => RawSpan::BulletList(lines.deep_view()),
            Preprocessor::NumberedList(lines) => RawSpan::NumberedList(lines.deep_view()),
            Preprocessor::TaskList(lines) => RawSpan::TaskList(lines.deep_view()),
        }
    }
}

impl DeepView for Preprocessor {
    type V = RawSpan;

    open spec fn deep_view(&self) -> RawSpan {
        self@
    }
}

} // verus!
