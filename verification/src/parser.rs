//! The segmenter: a state machine that takes the lines of a document one at a
//! time, each with the kind of the line after it, and groups them into raw
//! spans.

use vstd::prelude::*;

use crate::line::{
    asks_matcher, closes_fence, find_kind, kind_fails, line_kind, scan_fence_close, LineKind,
};
use crate::matcher::{matcher_ready, ParseError};
use crate::span::{Preprocessor, RawSpan};
use crate::text::{
    cells, cells_of, join, join_lines, strip_of, to_chars, to_string, trim, trim_end, trim_end_of,
    Class,
};

verus! {

/// The block that the segmenter is inside of.
#[derive(Clone, Copy, Debug, PartialEq, Eq, Structural)]
pub enum Mode {
    /// No block is open.
    Idle,
    /// A code block.
    Code,
    /// A table.
    Table,
    /// A callout.
    Callout,
    /// A bullet list.
    Bullets,
    /// A numbered list.
    Numbers,
    /// A task list.
    Tasks,
}

/// The spans of a document, with the path that labels it.
#[derive(Debug)]
pub struct PreprocessedNode {
    pub path: String,
    pub content: Vec<Preprocessor>,
}

/// The segmenter.
pub struct Parser {
    pub node: PreprocessedNode,
    pub current: Vec<String>,
    pub current_table: Vec<Vec<String>>,
    pub mode: Mode,
}

/// The model of the segmenter: its mode, the lines gathered for the paragraph
/// or the block in progress, the rows gathered for the table in progress, and
/// the spans emitted so far.
pub struct ParserState {
    pub mode: Mode,
    pub current: Seq<Seq<char>>,
    pub table: Seq<Seq<Seq<char>>>,
    pub content: Seq<RawSpan>,
}

/// The text of a block of lines: the lines joined by line feeds, trimmed.
pub open spec fn joined(lines: Seq<Seq<char>>) -> Seq<char> {
    trim(join_lines(lines))
}

/// Whether a line of kind `kind` starts with a pipe.
pub open spec fn is_pipe(kind: LineKind) -> bool {
    kind == LineKind::Row || kind == LineKind::Rule
}

impl ParserState {
    /// The segmenter before the first line.
    pub open spec fn start() -> ParserState {
        ParserState {
            mode: Mode::Idle,
            current: Seq::empty(),
            table: Seq::empty(),
            content: Seq::empty(),
        }
    }

    /// Emits `span`. An empty paragraph changes nothing. A table is appended
    /// and empties the rows gathered; any other span is appended and empties
    /// the lines gathered.
    pub open spec fn write(self, span: RawSpan) -> ParserState {
        match span {
            RawSpan::Text(s) => if s.len() == 0 {
                self
            } else {
                ParserState { current: Seq::empty(), content: self.content.push(span), ..self }
            },
            RawSpan::Table(_) => ParserState {
                table: Seq::empty(),
                content: self.content.push(span),
                ..self
            },
            _ => ParserState { current: Seq::empty(), content: self.content.push(span), ..self },
        }
    }

    /// Ends the paragraph in progress: emits the lines gathered as a
    /// paragraph, unless their text is empty, and lets go of them.
    pub open spec fn flush(self) -> ParserState {
        ParserState {
            current: Seq::empty(),
            ..self.write(RawSpan::Text(joined(self.current)))
        }
    }

    /// The span that the lines gathered make as a block of mode `mode`.
    pub open spec fn block(self, mode: Mode) -> RawSpan {
        match mode {
            Mode::Code => RawSpan::CodeBlock(joined(self.current)),
            Mode::Callout => RawSpan::Callout(joined(self.current)),
            Mode::Bullets => RawSpan::BulletList(self.current),
            Mode::Numbers => RawSpan::NumberedList(self.current),
            Mode::Tasks => RawSpan::TaskList(self.current),
            _ => RawSpan::Text(joined(self.current)),
        }
    }

    /// Takes `item` as a line of a block of mode `mode`: opens the block,
    /// after ending the paragraph in progress, where it is not open; gathers
    /// the line; and emits the block unless `more` of it is to come.
    pub open spec fn gather(self, mode: Mode, item: Seq<char>, more: bool) -> ParserState {
        let opened = if self.mode == mode {
            self
        } else {
            self.flush()
        };
        let grown = ParserState { mode: mode, current: opened.current.push(item), ..opened };
        if more {
            grown
        } else {
            ParserState { mode: Mode::Idle, ..grown.write(grown.block(mode)) }
        }
    }

    /// Takes a line that starts with a pipe. Inside a table, a line that
    /// holds a separator marker is passed over and any other gives a row;
    /// then the table is emitted unless `more` pipe lines follow. Outside a
    /// table, where the line after it is a separator (`confirmed`), the line
    /// ends the paragraph in progress, opens a table and gives its first
    /// row; where not, the line is dropped.
    pub open spec fn pipe(self, line: Seq<char>, rule: bool, more: bool, confirmed: bool)
        -> ParserState {
        if self.mode == Mode::Table {
            let grown = if rule {
                self
            } else {
                ParserState { table: self.table.push(cells(line)), ..self }
            };
            if more {
                grown
            } else {
                ParserState { mode: Mode::Idle, ..grown.write(RawSpan::Table(grown.table)) }
            }
        } else if confirmed {
            let ended = self.flush();
            ParserState { mode: Mode::Table, table: ended.table.push(cells(line)), ..ended }
        } else {
            self
        }
    }

    /// The segmenter after `line`, which is of kind `kind` and is followed by
    /// a line of kind `next`, or by none. Inside a code block the kind counts
    /// for nothing: the line is gathered, and closes the block where it ends
    /// with the fence marker.
    pub open spec fn step(self, line: Seq<char>, kind: LineKind, next: Option<LineKind>)
        -> ParserState {
        if self.mode == Mode::Code {
            self.gather(Mode::Code, line, !closes_fence(line))
        } else {
            match kind {
                LineKind::Fence => ParserState {
                    mode: Mode::Code,
                    current: seq![line],
                    ..self.flush()
                },
                LineKind::Heading => ParserState {
                    mode: Mode::Idle,
                    ..self.flush().write(RawSpan::Header(line))
                },
                LineKind::Row | LineKind::Rule => self.pipe(
                    line,
                    kind == LineKind::Rule,
                    next matches Some(k) && is_pipe(k),
                    next == Some(LineKind::Rule),
                ),
                LineKind::Quote => self.gather(Mode::Callout, line, next == Some(kind)),
                LineKind::Task => self.gather(Mode::Tasks, trim_end(line), next == Some(kind)),
                LineKind::Bullet => self.gather(Mode::Bullets, trim_end(line), next == Some(kind)),
                LineKind::Numbered => self.gather(
                    Mode::Numbers,
                    trim_end(line),
                    next == Some(kind),
                ),
                LineKind::Plain => ParserState {
                    mode: Mode::Idle,
                    current: self.current.push(line),
                    ..self
                },
            }
        }
    }

    /// The spans of a document whose last line the segmenter has taken: those
    /// emitted, and the lines still gathered as a last paragraph.
    pub open spec fn finish(self) -> Seq<RawSpan> {
        self.flush().content
    }
}

/// The kind of the line after line `i` of a document, if there is one.
pub open spec fn kind_after(kinds: Seq<LineKind>, i: int) -> Option<LineKind> {
    if i + 1 < kinds.len() {
        Some(kinds[i + 1])
    } else {
        None
    }
}

/// The segmenter that was in state `from` before a document, after the first
/// `n` lines of it.
pub open spec fn run(from: ParserState, lines: Seq<Seq<char>>, kinds: Seq<LineKind>, n: nat)
    -> ParserState
    decreases n,
{
    if n == 0 {
        from
    } else {
        run(from, lines, kinds, (n - 1) as nat).step(
            lines[n - 1],
            kinds[n - 1],
            kind_after(kinds, n - 1),
        )
    }
}

/// The spans of a document, given the kind of each of its lines.
pub open spec fn segment(lines: Seq<Seq<char>>, kinds: Seq<LineKind>) -> Seq<RawSpan> {
    run(ParserState::start(), lines, kinds, lines.len()).finish()
}

/// Whether no line of a document takes a question to the matcher.
pub open spec fn needs_no_matcher(lines: Seq<Seq<char>>) -> bool {
    forall|i: int| 0 <= i < lines.len() ==> !asks_matcher(#[trigger] lines[i])
}

/// The kind of each line of a document.
pub open spec fn kinds_of(lines: Seq<Seq<char>>) -> Seq<LineKind> {
    Seq::new(lines.len(), |i: int| line_kind(lines[i]))
}

/// The spans of a document.
pub open spec fn spans_of(lines: Seq<Seq<char>>) -> Seq<RawSpan> {
    segment(lines, kinds_of(lines))
}

/// Appends `line` to `lines`.
fn push_line(lines: &mut Vec<String>, line: String)
    ensures
        final(lines).deep_view() == old(lines).deep_view().push(line@),
{
    lines.push(line);
    assert(lines.deep_view() =~= old(lines).deep_view().push(line@));
}

/// Appends `row` to `rows`.
fn push_row(rows: &mut Vec<Vec<String>>, row: Vec<String>)
    ensures
        final(rows).deep_view() == old(rows).deep_view().push(row.deep_view()),
{
    rows.push(row);
    assert(rows.deep_view() =~= old(rows).deep_view().push(row.deep_view()));
}

/// Appends `span` to `content`.
fn push_span(content: &mut Vec<Preprocessor>, span: Preprocessor)
    ensures
        final(content).deep_view() == old(content).deep_view().push(span@),
{
    content.push(span);
    assert(content.deep_view() =~= old(content).deep_view().push(span@));
}

/// Empties `lines`.
fn clear_lines(lines: &mut Vec<String>)
    ensures
        final(lines).deep_view() == Seq::<Seq<char>>::empty(),
{
    lines.clear();
    assert(lines.deep_view() =~= Seq::<Seq<char>>::empty());
}

/// Empties `rows`.
fn clear_rows(rows: &mut Vec<Vec<String>>)
    ensures
        final(rows).deep_view() == Seq::<Seq<Seq<char>>>::empty(),
{
    rows.clear();
    assert(rows.deep_view() =~= Seq::<Seq<Seq<char>>>::empty());
}

/// Takes the lines out of `lines` and leaves it empty.
fn take_lines(lines: &mut Vec<String>) -> (taken: Vec<String>)
    ensures
        taken.deep_view() == old(lines).deep_view(),
        final(lines).deep_view() == Seq::<Seq<char>>::empty(),
{
    let mut taken: Vec<String> = Vec::new();
    core::mem::swap(lines, &mut taken);
    assert(lines.deep_view() =~= Seq::<Seq<char>>::empty());
    taken
}

/// Takes the rows out of `rows` and leaves it empty.
fn take_rows(rows: &mut Vec<Vec<String>>) -> (taken: Vec<Vec<String>>)
    ensures
        taken.deep_view() == old(rows).deep_view(),
        final(rows).deep_view() == Seq::<Seq<Seq<char>>>::empty(),
{
    let mut taken: Vec<Vec<String>> = Vec::new();
    core::mem::swap(rows, &mut taken);
    assert(rows.deep_view() =~= Seq::<Seq<Seq<char>>>::empty());
    taken
}

/// Whether the kind of some line of a document cannot be found.
pub open spec fn document_fails(lines: Seq<Seq<char>>) -> bool {
    exists|i: int| 0 <= i < lines.len() && kind_fails(#[trigger] lines[i])
}

/// Finds the kind of each line of a document. Fails where, and only where,
/// some line takes a question on a pattern that the matcher turns down.
pub fn find_kinds(lines: &Vec<String>) -> (r: Result<Vec<LineKind>, ParseError>)
    ensures
        r.is_err() == document_fails(lines.deep_view()),
        r matches Ok(kinds) ==> kinds@ == kinds_of(lines.deep_view()),
        r matches Err(e) ==> e == ParseError::Matcher,
        matcher_ready() ==> r.is_ok(),
        needs_no_matcher(lines.deep_view()) ==> r.is_ok(),
{
    let ghost model = lines.deep_view();
    let mut kinds: Vec<LineKind> = Vec::new();
    let mut i: usize = 0;
    while i < lines.len()
        invariant
            i <= lines.len(),
            model == lines.deep_view(),
            kinds.len() == i,
            forall|j: int| 0 <= j < i ==> kinds@[j] == line_kind(model[j]),
            forall|j: int| 0 <= j < i ==> !kind_fails(#[trigger] model[j]),
        decreases lines.len() - i,
    {
        assert(model[i as int] == lines@[i as int]@);
        match find_kind(lines[i].as_str()) {
            Ok(kind) => kinds.push(kind),
            Err(e) => {
                assert(kind_fails(model[i as int]));
                return Err(e);
            },
        }
        i += 1;
    }
    assert(kinds@ =~= kinds_of(model));
    Ok(kinds)
}

impl View for Parser {
    type V = ParserState;

    open spec fn view(&self) -> ParserState {
        ParserState {
            mode: self.mode,
            current: self.current.deep_view(),
            table: self.current_table.deep_view(),
            content: self.node.content.deep_view(),
        }
    }
}

impl Parser {
    /// A segmenter before the first line, with an empty path.
    pub fn new() -> (parser: Parser)
        ensures
            parser@ == ParserState::start(),
            parser.node.path@ == Seq::<char>::empty(),
    {
        let parser = Parser {
            node: PreprocessedNode { path: String::new(), content: Vec::new() },
            current: Vec::new(),
            current_table: Vec::new(),
            mode: Mode::Idle,
        };
        assert(parser@.current =~= Seq::empty());
        assert(parser@.table =~= Seq::empty());
        assert(parser@.content =~= Seq::empty());
        parser
    }

    /// Emits `section`.
    pub fn write(&mut self, section: Preprocessor)
        ensures
            final(self)@ == old(self)@.write(section@),
            final(self).node.path == old(self).node.path,
    {
        if let Preprocessor::Text(s) = &section {
            if s.as_str().is_empty() {
                return ;
            }
        }
        match &section {
            Preprocessor::Table(_) => clear_rows(&mut self.current_table),
            _ => clear_lines(&mut self.current),
        }
        push_span(&mut self.node.content, section);
    }

    /// The text of the lines gathered.
    pub fn current_joined(&self) -> (text: String)
        ensures
            text@ == joined(self@.current),
    {
        let chars = join(&self.current);
        to_string(strip_of(chars.as_slice(), Class::Space))
    }

    /// Ends the paragraph in progress.
    pub fn flush(&mut self)
        ensures
            final(self)@ == old(self)@.flush(),
            final(self).node.path == old(self).node.path,
    {
        let text = self.current_joined();
        self.write(Preprocessor::Text(text));
        clear_lines(&mut self.current);
    }

    /// Emits the lines gathered as a block of mode `mode`.
    fn close(&mut self, mode: Mode)
        ensures
            final(self)@ == (ParserState {
                mode: Mode::Idle,
                ..old(self)@.write(old(self)@.block(mode))
            }),
            final(self).node.path == old(self).node.path,
    {
        let span = match mode {
            Mode::Code => Preprocessor::CodeBlock(self.current_joined()),
            Mode::Callout => Preprocessor::Callout(self.current_joined()),
            Mode::Bullets => Preprocessor::BulletList(take_lines(&mut self.current)),
            Mode::Numbers => Preprocessor::NumberedList(take_lines(&mut self.current)),
            Mode::Tasks => Preprocessor::TaskList(take_lines(&mut self.current)),
            _ => Preprocessor::Text(self.current_joined()),
        };
        self.write(span);
        self.mode = Mode::Idle;
    }

    /// Takes `item` as a line of a block of mode `mode`.
    fn gather(&mut self, mode: Mode, item: String, more: bool)
        ensures
            final(self)@ == old(self)@.gather(mode, item@, more),
            final(self).node.path == old(self).node.path,
    {
        if self.mode != mode {
            self.flush();
        }
        self.mode = mode;
        push_line(&mut self.current, item);
        if !more {
            self.close(mode);
        }
    }

    /// Takes a line that starts with a pipe.
    fn pipe(&mut self, line: &str, rule: bool, more: bool, confirmed: bool)
        ensures
            final(self)@ == old(self)@.pipe(line@, rule, more, confirmed),
            final(self).node.path == old(self).node.path,
    {
        if self.mode == Mode::Table {
            if !rule {
                let chars = to_chars(line);
                push_row(&mut self.current_table, cells_of(chars.as_slice()));
            }
            if !more {
                let rows = take_rows(&mut self.current_table);
                self.write(Preprocessor::Table(rows));
                self.mode = Mode::Idle;
            }
        } else if confirmed {
            self.flush();
            let chars = to_chars(line);
            push_row(&mut self.current_table, cells_of(chars.as_slice()));
            self.mode = Mode::Table;
        }
    }

    /// Takes one line of the document: `line`, of kind `kind`, followed by a
    /// line of kind `next` or by none.
    pub fn step(&mut self, line: &str, kind: LineKind, next: Option<LineKind>)
        ensures
            final(self)@ == old(self)@.step(line@, kind, next),
            final(self).node.path == old(self).node.path,
    {
        let chars = to_chars(line);
        if self.mode == Mode::Code {
            let more = !scan_fence_close(chars.as_slice());
            self.gather(Mode::Code, to_string(chars.as_slice()), more);
            return ;
        }
        let same = match next {
            Some(k) => k == kind,
            None => false,
        };
        match kind {
            LineKind::Fence => {
                self.flush();
                push_line(&mut self.current, to_string(chars.as_slice()));
                self.mode = Mode::Code;
                assert(self@.current =~= seq![line@]);
            },
            LineKind::Heading => {
                self.flush();
                self.write(Preprocessor::Header(to_string(chars.as_slice())));
                self.mode = Mode::Idle;
            },
            LineKind::Row | LineKind::Rule => {
                let more = match next {
                    Some(k) => k == LineKind::Row || k == LineKind::Rule,
                    None => false,
                };
                let confirmed = match next {
                    Some(k) => k == LineKind::Rule,
                    None => false,
                };
                self.pipe(line, kind == LineKind::Rule, more, confirmed);
            },
            LineKind::Quote => {
                self.gather(Mode::Callout, to_string(chars.as_slice()), same);
            },
            LineKind::Task => {
                self.gather(Mode::Tasks, to_string(trim_end_of(chars.as_slice())), same);
            },
            LineKind::Bullet => {
                self.gather(Mode::Bullets, to_string(trim_end_of(chars.as_slice())), same);
            },
            LineKind::Numbered => {
                self.gather(Mode::Numbers, to_string(trim_end_of(chars.as_slice())), same);
            },
            LineKind::Plain => {
                push_line(&mut self.current, to_string(chars.as_slice()));
                self.mode = Mode::Idle;
            },
        }
    }

    /// Takes every line of a document whose lines are of the kinds `kinds`
    /// and ends it under `path`.
    fn take_all(self, lines: &Vec<String>, kinds: &Vec<LineKind>, path: String) -> (node:
        PreprocessedNode)
        requires
            kinds@.len() == lines@.len(),
        ensures
            node.path == path,
            node.content.deep_view() == run(
                self@,
                lines.deep_view(),
                kinds@,
                lines@.len(),
            ).finish(),
    {
        let ghost model = lines.deep_view();
        let ghost from = self@;
        let mut parser = self;
        parser.node.path = path;
        let mut i: usize = 0;
        while i < lines.len()
            invariant
                i <= lines.len(),
                kinds@.len() == lines@.len(),
                model == lines.deep_view(),
                parser.node.path == path,
                parser@ == run(from, model, kinds@, i as nat),
            decreases lines.len() - i,
        {
            let next = if i + 1 < lines.len() {
                Some(kinds[i + 1])
            } else {
                None
            };
            assert(model[i as int] == lines@[i as int]@);
            parser.step(lines[i].as_str(), kinds[i], next);
            i += 1;
        }
        parser.finish()
    }

    /// Takes every line of a document whose lines are of the kinds `kinds`
    /// and ends it under `path`. There must be one kind for each line: where
    /// there is not, nothing is done.
    pub fn feed(self, lines: &Vec<String>, kinds: &Vec<LineKind>, path: String) -> (r: Option<
        PreprocessedNode,
    >)
        ensures
            r.is_some() == (kinds@.len() == lines@.len()),
            r matches Some(node) ==> node.path == path && node.content.deep_view() == run(
                self@,
                lines.deep_view(),
                kinds@,
                lines@.len(),
            ).finish(),
    {
        if kinds.len() == lines.len() {
            Some(self.take_all(lines, kinds, path))
        } else {
            None
        }
    }

    /// Segments a document: finds the kind of each line, takes the lines one
    /// by one and ends the document under `path`. Fails where, and only
    /// where, some line takes a question on a pattern that the matcher turns
    /// down.
    pub fn parse(self, lines: &Vec<String>, path: String) -> (r: Result<
        PreprocessedNode,
        ParseError,
    >)
        ensures
            r.is_err() == document_fails(lines.deep_view()),
            r matches Ok(node) ==> node.path == path && node.content.deep_view() == run(
                self@,
                lines.deep_view(),
                kinds_of(lines.deep_view()),
                lines@.len(),
            ).finish(),
            r matches Err(e) ==> e == ParseError::Matcher,
            matcher_ready() ==> r.is_ok(),
            needs_no_matcher(lines.deep_view()) ==> r.is_ok(),
    {
        match find_kinds(lines) {
            Ok(kinds) => Ok(self.take_all(lines, &kinds, path)),
            Err(e) => Err(e),
        }
    }

    /// Ends the document: the spans emitted, with the lines still gathered as
    /// a last paragraph, under the segmenter's path.
    pub fn finish(self) -> (node: PreprocessedNode)
        ensures
            node.content.deep_view() == self@.finish(),
            node.path == self.node.path,
    {
        let mut parser = self;
        parser.flush();
        parser.node
    }
}

impl PreprocessedNode {
    /// The spans of the document made of `lines`, under `path`. Fails where,
    /// and only where, some line takes a question on a pattern that the
    /// matcher turns down.
    pub fn parse(lines: &Vec<String>, path: String) -> (r: Result<PreprocessedNode, ParseError>)
        ensures
            r.is_err() == document_fails(lines.deep_view()),
            r matches Ok(node) ==> node.path == path && node.content.deep_view() == spans_of(
                lines.deep_view(),
            ),
            r matches Err(e) ==> e == ParseError::Matcher,
            matcher_ready() ==> r.is_ok(),
            needs_no_matcher(lines.deep_view()) ==> r.is_ok(),
    {
        let parser = Parser::new();
        parser.parse(lines, path)
    }
}

} // verus!
