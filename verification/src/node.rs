//! The document node: a path and the sections of the document under it.

use vstd::prelude::*;

use crate::matcher::{matcher_ready, ParseError};
use crate::parser::{document_fails, needs_no_matcher, spans_of, PreprocessedNode};
use crate::section::{
    copy_rows, read_bullets, read_callout, read_code, read_heading, read_numbers, read_tasks,
    refine, Section, SectionView,
};
use crate::span::{Preprocessor, RawSpan};
use crate::text::{lines_of, split_lines, to_chars};

verus! {

/// A document: the path that labels it, and its sections in the order in
/// which they stand in it.
#[derive(Debug)]
pub struct Node {
    pub path: String,
    pub content: Vec<Section>,
}

/// The sections that a sequence of spans stands for: one for each span, in the
/// same order.
pub open spec fn refine_all(spans: Seq<RawSpan>) -> Seq<SectionView> {
    Seq::new(spans.len(), |i: int| refine(spans[i]))
}

/// The sections of a document, given as its text.
pub open spec fn sections_of(text: Seq<char>) -> Seq<SectionView> {
    refine_all(spans_of(lines_of(text)))
}

impl Node {
    /// Parses the text of a document into its sections, under `path`: splits
    /// the text into lines, groups the lines into spans and refines each span.
    /// Succeeds wherever the pattern matcher takes this crate's two patterns.
    /// Fails where, and only where, some line takes a question on a pattern
    /// that the matcher turns down; no line that starts with the fence marker,
    /// `#`, a pipe or `>` takes one.
    pub fn parse(content: &str, path: String) -> (r: Result<Node, ParseError>)
        ensures
            r.is_err() == document_fails(lines_of(content@)),
            r matches Ok(node) ==> node.path == path && node.content.deep_view() == sections_of(
                content@,
            ),
            r matches Err(e) ==> e == ParseError::Matcher,
            matcher_ready() ==> r.is_ok(),
            needs_no_matcher(lines_of(content@)) ==> r.is_ok(),
    {
        let chars = to_chars(content);
        let lines = split_lines(chars.as_slice());
        match PreprocessedNode::parse(&lines, path) {
            Ok(pre) => Ok(Node::refine(pre)),
            Err(e) => Err(e),
        }
    }

    /// Refines every span of `pre`, in order, under the same path.
    pub fn refine(pre: PreprocessedNode) -> (node: Node)
        ensures
            node.path == pre.path,
            node.content.deep_view() == refine_all(pre.content.deep_view()),
    {
        let mut content: Vec<Section> = Vec::new();
        let mut i: usize = 0;
        while i < pre.content.len()
            invariant
                i <= pre.content.len(),
                content.len() == i,
                forall|j: int| 0 <= j < i ==> content@[j]@ == refine(pre.content@[j]@),
            decreases pre.content.len() - i,
        {
            content.push(Node::process(&pre.content[i]));
            i += 1;
        }
        assert(content.deep_view() =~= refine_all(pre.content.deep_view()));
        Node { path: pre.path, content }
    }

    /// Refines one span into the section that it stands for.
    pub fn process(s: &Preprocessor) -> (section: Section)
        ensures
            section@ == refine(s@),
    {
        match s {
            Preprocessor::Header(line) => {
                let (level, text) = read_heading(line.as_str());
                Section::Header(level, text)
            },
            Preprocessor::Callout(block) => Section::Callout(read_callout(block.as_str())),
            Preprocessor::CodeBlock(block) => {
                let (language, body) = read_code(block.as_str());
                Section::CodeBlock(language, body)
            },
            Preprocessor::Table(rows) => Section::Table(copy_rows(rows)),
            Preprocessor::Text(text) => Section::Text(text.clone()),
            Preprocessor::BulletList(lines) => Section::BulletList(read_bullets(lines)),
            Preprocessor::TaskList(lines) => Section::TaskList(read_tasks(lines)),
            Preprocessor::NumberedList(lines) => Section::NumberedList(read_numbers(lines)),
        }
    }
}

} // verus!
