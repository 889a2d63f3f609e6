//! What holds of every document.

use vstd::prelude::*;

use crate::line::{
    closes_fence, fits_task, has_gap, is_bullet, is_heading, kind_of, opens_fence, starts_with,
    LineKind,
};
use crate::matcher::{numbered_match, task_match};
use crate::node::sections_of;
use crate::parser::{is_pipe, joined, kind_after, kinds_of, run, spans_of, Mode, ParserState};
use crate::section::{depth, refine, SectionView};
use crate::span::RawSpan;
use crate::text::{
    cells, is_blank, is_space, join_lines, lemma_prefix_run, lemma_prefix_run_is, lemma_suffix_run,
    lemma_suffix_run_is, lines_of, prefix_run, suffix_run, trim, trim_end, without_cr, Class,
};

verus! {

/// Trimming leaves nothing of white space.
pub proof fn lemma_trim_blank(s: Seq<char>)
    requires
        is_blank(s),
    ensures
        trim(s).len() == 0,
{
    lemma_prefix_run_is(s, Class::Space, s.len());
}

/// What trimming leaves neither starts nor ends with white space.
pub proof fn lemma_trim_ends(s: Seq<char>)
    requires
        trim(s).len() > 0,
    ensures
        !is_space(trim(s).first()),
        !is_space(trim(s).last()),
{
    lemma_prefix_run(s, Class::Space);
    let rest = s.skip(prefix_run(s, Class::Space) as int);
    lemma_suffix_run(rest, Class::Space);
}

/// Lines of white space, joined, are white space.
pub proof fn lemma_join_blank(lines: Seq<Seq<char>>)
    requires
        forall|i: int| 0 <= i < lines.len() ==> is_blank(#[trigger] lines[i]),
    ensures
        is_blank(join_lines(lines)),
    decreases lines.len(),
{
    if lines.len() >= 2 {
        let front = lines.drop_last();
        assert forall|i: int| 0 <= i < front.len() implies is_blank(#[trigger] front[i]) by {
            assert(front[i] == lines[i]);
        }
        lemma_join_blank(front);
        assert(is_blank(lines.last()));
    } else if lines.len() == 1 {
        assert(is_blank(lines[0]));
    }
}

/// A line of white space is ordinary text, whatever the matcher says of it.
pub proof fn lemma_blank_is_plain(line: Seq<char>, task: bool, numbered: bool)
    requires
        is_blank(line),
    ensures
        kind_of(line, task, numbered) == LineKind::Plain,
{
    lemma_trim_blank(line);
    if line.len() > 0 {
        assert(is_space(line[0]));
    }
}

/// Segmenting is a function of the lines alone: two runs over the same lines
/// give the same spans.
pub proof fn segmenting_is_deterministic(
    lines: Seq<Seq<char>>,
    again: Seq<Seq<char>>,
    first: Seq<RawSpan>,
    second: Seq<RawSpan>,
)
    requires
        lines == again,
        first == spans_of(lines),
        second == spans_of(again),
    ensures
        first == second,
{
}

/// The sections of a document are as many as its spans, and the section at
/// each place is the one that the span at that place stands for.
pub proof fn sections_follow_spans(text: Seq<char>)
    ensures
        sections_of(text).len() == spans_of(lines_of(text)).len(),
        forall|n: int|
            0 <= n < sections_of(text).len() ==> #[trigger] sections_of(text)[n] == refine(
                spans_of(lines_of(text))[n],
            ),
{
}

/// A span is never taken back nor moved: what the segmenter has emitted
/// after some lines stands, in the same places, at the start of what it has
/// emitted after more lines.
pub proof fn emitted_spans_stay(
    from: ParserState,
    lines: Seq<Seq<char>>,
    kinds: Seq<LineKind>,
    n: nat,
    m: nat,
)
    requires
        n <= m,
    ensures
        run(from, lines, kinds, n).content.is_prefix_of(run(from, lines, kinds, m).content),
    decreases m,
{
    if n < m {
        let before = run(from, lines, kinds, (m - 1) as nat);
        emitted_spans_stay(from, lines, kinds, n, (m - 1) as nat);
        lemma_step_appends(before, lines[m - 1], kinds[m - 1], kind_after(kinds, m - 1));
    }
}

/// Flushing appends to the spans emitted.
pub proof fn lemma_flush_appends(st: ParserState)
    ensures
        st.content.is_prefix_of(st.flush().content),
{
}

/// One line appends to the spans emitted.
pub proof fn lemma_step_appends(
    st: ParserState,
    line: Seq<char>,
    kind: LineKind,
    next: Option<LineKind>,
)
    ensures
        st.content.is_prefix_of(st.step(line, kind, next).content),
{
    lemma_flush_appends(st);
}

/// The spans of a document end with no more than it had emitted at its last
/// line and one paragraph.
pub proof fn finished_spans_stay(lines: Seq<Seq<char>>, n: nat)
    requires
        n <= lines.len(),
    ensures
        run(ParserState::start(), lines, kinds_of(lines), n).content.is_prefix_of(
            spans_of(lines),
        ),
{
    let kinds = kinds_of(lines);
    emitted_spans_stay(ParserState::start(), lines, kinds, n, lines.len());
    lemma_flush_appends(run(ParserState::start(), lines, kinds, lines.len()));
}

/// The kind of line `n` of a document, if there is such a line.
pub open spec fn kind_at(kinds: Seq<LineKind>, n: int) -> Option<LineKind> {
    if 0 <= n < kinds.len() {
        Some(kinds[n])
    } else {
        None
    }
}

/// Whether the segmenter holds one block at most, before a line of kind
/// `upcoming` or before the end: inside a table it has let go of every line
/// gathered and a pipe line is to come; outside a table it holds no row.
pub open spec fn single(st: ParserState, upcoming: Option<LineKind>) -> bool {
    &&& st.mode == Mode::Table ==> st.current.len() == 0 && upcoming is Some && is_pipe(
        upcoming->Some_0,
    )
    &&& st.mode != Mode::Table ==> st.table.len() == 0
}

/// One line keeps the segmenter to one block at most.
pub proof fn lemma_step_single(
    st: ParserState,
    line: Seq<char>,
    kind: LineKind,
    next: Option<LineKind>,
)
    requires
        single(st, Some(kind)),
    ensures
        single(st.step(line, kind, next), next),
{
}

/// Blocks are runs of lines that touch: between any two lines of a document
/// the segmenter holds the lines of a paragraph or block, or the rows of a
/// table, never both, and a table in progress goes on with the next line. So
/// no paragraph goes on across a table, and the spans stand in the order of
/// the lines that they are made of.
pub proof fn one_block_at_a_time(lines: Seq<Seq<char>>, kinds: Seq<LineKind>, n: nat)
    requires
        kinds.len() == lines.len(),
        n <= lines.len(),
    ensures
        single(run(ParserState::start(), lines, kinds, n), kind_at(kinds, n as int)),
    decreases n,
{
    if n > 0 {
        one_block_at_a_time(lines, kinds, (n - 1) as nat);
        lemma_step_single(
            run(ParserState::start(), lines, kinds, (n - 1) as nat),
            lines[n - 1],
            kinds[n - 1],
            kind_after(kinds, n - 1),
        );
    }
}

/// At the end of a document no row of a table is left behind: every table
/// that was opened has been emitted.
pub proof fn no_row_is_left(lines: Seq<Seq<char>>)
    ensures
        run(ParserState::start(), lines, kinds_of(lines), lines.len()).mode != Mode::Table,
        run(ParserState::start(), lines, kinds_of(lines), lines.len()).table.len() == 0,
{
    one_block_at_a_time(lines, kinds_of(lines), lines.len());
}

/// A document of blank lines alone has no span.
pub proof fn blank_lines_give_no_span(lines: Seq<Seq<char>>)
    requires
        forall|i: int| 0 <= i < lines.len() ==> is_blank(#[trigger] lines[i]),
    ensures
        spans_of(lines) == Seq::<RawSpan>::empty(),
{
    lemma_blank_run(lines, lines.len());
    assert(lines.take(lines.len() as int) =~= lines);
    lemma_join_blank(lines);
    lemma_trim_blank(join_lines(lines));
}

/// Over blank lines the segmenter only gathers.
proof fn lemma_blank_run(lines: Seq<Seq<char>>, n: nat)
    requires
        n <= lines.len(),
        forall|i: int| 0 <= i < lines.len() ==> is_blank(#[trigger] lines[i]),
    ensures
        run(ParserState::start(), lines, kinds_of(lines), n) == (ParserState {
            mode: Mode::Idle,
            current: lines.take(n as int),
            table: Seq::empty(),
            content: Seq::empty(),
        }),
    decreases n,
{
    if n == 0 {
        assert(lines.take(0) =~= Seq::<Seq<char>>::empty());
    } else {
        lemma_blank_run(lines, (n - 1) as nat);
        let line = lines[n - 1];
        assert(is_blank(line));
        lemma_blank_is_plain(line, task_match(trim(line)), numbered_match(trim(line)));
        assert(kinds_of(lines)[n - 1] == LineKind::Plain);
        assert(lines.take(n - 1).push(line) =~= lines.take(n as int));
    }
}

/// A document of blank lines alone has no section.
pub proof fn blank_lines_give_no_section(text: Seq<char>)
    requires
        forall|i: int| 0 <= i < lines_of(text).len() ==> is_blank(#[trigger] lines_of(text)[i]),
    ensures
        sections_of(text) == Seq::<SectionView>::empty(),
{
    blank_lines_give_no_span(lines_of(text));
    assert(sections_of(text) =~= Seq::<SectionView>::empty());
}

/// The lines of a text of white space are of white space.
pub proof fn lemma_lines_of_blank(text: Seq<char>)
    requires
        is_blank(text),
    ensures
        forall|i: int| 0 <= i < lines_of(text).len() ==> is_blank(#[trigger] lines_of(text)[i]),
    decreases text.len(),
{
    if text.len() > 0 {
        let k = prefix_run(text, Class::Except('\n')) as int;
        if k < text.len() {
            let rest = text.skip(k + 1);
            assert forall|i: int| 0 <= i < rest.len() implies is_space(#[trigger] rest[i]) by {
                assert(rest[i] == text[i + k + 1]);
            }
            lemma_lines_of_blank(rest);
            let line = without_cr(text.take(k));
            assert forall|i: int| 0 <= i < line.len() implies is_space(#[trigger] line[i]) by {
                assert(line[i] == text[i]);
            }
            assert forall|i: int| 0 <= i < lines_of(text).len() implies is_blank(
                #[trigger] lines_of(text)[i],
            ) by {
                if i > 0 {
                    assert(lines_of(text)[i] == lines_of(rest)[i - 1]);
                }
            }
        }
    }
}

/// A document of white space alone has no section.
pub proof fn blank_text_gives_no_section(text: Seq<char>)
    requires
        is_blank(text),
    ensures
        sections_of(text) == Seq::<SectionView>::empty(),
{
    lemma_lines_of_blank(text);
    blank_lines_give_no_section(text);
}

/// The tabs at the start of a line that is not blank are those at the start
/// of the line without the white space at its end: the depth of an item is
/// that of its line in the document.
pub proof fn depth_is_of_the_line(line: Seq<char>)
    requires
        trim(line).len() > 0,
    ensures
        depth(trim_end(line)) == depth(line),
{
    let p = prefix_run(line, Class::Space) as int;
    let q = suffix_run(line, Class::Space) as int;
    let r = prefix_run(line, Class::Only('\t')) as int;
    let cut = trim_end(line);
    lemma_prefix_run(line, Class::Space);
    lemma_suffix_run(line, Class::Space);
    lemma_prefix_run(line, Class::Only('\t'));
    lemma_suffix_run(line.skip(p), Class::Space);
    assert(p < line.len());
    assert(!is_space(line[p]));
    assert(p < line.len() - q);
    if r > p {
        assert(Class::Only('\t').has(line[p]));
    }
    assert forall|i: int| 0 <= i < r implies Class::Only('\t').has(#[trigger] cut[i]) by {
        assert(cut[i] == line[i]);
    }
    assert(cut[r] == line[r]);
    lemma_prefix_run_is(cut, Class::Only('\t'), r as nat);
}

/// Trimming the end first changes nothing of what trimming leaves.
pub proof fn lemma_trim_of_trim_end(s: Seq<char>)
    ensures
        trim(trim_end(s)) == trim(s),
{
    let p = prefix_run(s, Class::Space) as int;
    let q = suffix_run(s, Class::Space) as int;
    let cut = trim_end(s);
    lemma_prefix_run(s, Class::Space);
    lemma_suffix_run(s, Class::Space);
    if p == s.len() {
        lemma_suffix_run_is(s, Class::Space, s.len());
        assert(cut.len() == 0);
        assert(trim(cut) =~= trim(s));
    } else {
        assert(!is_space(s[p]));
        assert(p < s.len() - q);
        assert forall|i: int| 0 <= i < p implies Class::Space.has(#[trigger] cut[i]) by {
            assert(cut[i] == s[i]);
        }
        assert(cut[p] == s[p]);
        lemma_prefix_run_is(cut, Class::Space, p as nat);
        let rest_cut = cut.skip(p);
        assert(rest_cut.last() == s[s.len() - q - 1]);
        assert(suffix_run(rest_cut, Class::Space) == 0);
        let rest = s.skip(p);
        assert forall|i: int| rest.len() - q <= i < rest.len() implies Class::Space.has(
            #[trigger] rest[i],
        ) by {
            assert(rest[i] == s[i + p]);
        }
        assert(rest[rest.len() - q - 1] == s[s.len() - q - 1]);
        lemma_suffix_run_is(rest, Class::Space, q as nat);
        assert(trim(cut) =~= trim(s));
    }
}

/// Lines joined start with the first of them.
pub proof fn lemma_join_starts(lines: Seq<Seq<char>>)
    requires
        lines.len() > 0,
    ensures
        lines[0].is_prefix_of(join_lines(lines)),
    decreases lines.len(),
{
    if lines.len() >= 2 {
        lemma_join_starts(lines.drop_last());
        assert(lines.drop_last()[0] == lines[0]);
    }
}

/// Where the first of some lines starts with `k` characters that are no white
/// space, the text of the lines starts with the same `k` characters.
pub proof fn lemma_joined_keeps_start(lines: Seq<Seq<char>>, k: int)
    requires
        lines.len() > 0,
        0 < k <= lines[0].len(),
        forall|i: int| 0 <= i < k ==> !is_space(#[trigger] lines[0][i]),
    ensures
        joined(lines).len() >= k,
        forall|i: int| 0 <= i < k ==> #[trigger] joined(lines)[i] == lines[0][i],
{
    let whole = join_lines(lines);
    lemma_join_starts(lines);
    assert forall|i: int| 0 <= i < k implies #[trigger] whole[i] == lines[0][i] by {
        assert(whole.subrange(0, lines[0].len() as int)[i] == lines[0][i]);
    }
    assert(!is_space(lines[0][0]));
    assert(whole[0] == lines[0][0]);
    assert(prefix_run(whole, Class::Space) == 0);
    assert(whole.skip(0) =~= whole);
    lemma_suffix_run(whole, Class::Space);
    let q = suffix_run(whole, Class::Space) as int;
    if whole.len() - q < k {
        let i = whole.len() - q;
        assert(is_space(whole[i]));
        assert(whole[i] == lines[0][i]);
    }
}

/// What the kind of a line says of the line.
pub open spec fn agrees(line: Seq<char>, kind: LineKind) -> bool {
    match kind {
        LineKind::Fence => opens_fence(line),
        LineKind::Heading => is_heading(line),
        LineKind::Row | LineKind::Rule => starts_with(line, '|'),
        LineKind::Quote => starts_with(line, '>'),
        LineKind::Task => fits_task(trim(line)),
        LineKind::Bullet => is_bullet(trim(line)),
        LineKind::Numbered => has_gap(trim(line)),
        LineKind::Plain => true,
    }
}

/// The kind found for a line agrees with the line, whatever the matcher said.
pub proof fn lemma_kind_agrees(line: Seq<char>, task: bool, numbered: bool)
    ensures
        agrees(line, kind_of(line, task, numbered)),
{
}

/// What holds of the segmenter between any two lines of a document: every
/// span emitted is well formed, and the lines and rows gathered are such that
/// the block in progress will be.
pub open spec fn sound(st: ParserState) -> bool {
    &&& forall|i: int| 0 <= i < st.content.len() ==> (#[trigger] st.content[i]).well_formed()
    &&& st.mode == Mode::Table ==> st.table.len() > 0
    &&& st.mode == Mode::Code ==> st.current.len() > 0 && opens_fence(st.current[0])
    &&& st.mode == Mode::Callout ==> st.current.len() > 0 && starts_with(st.current[0], '>')
    &&& st.mode == Mode::Bullets ==> forall|j: int|
        0 <= j < st.current.len() ==> is_bullet(trim(#[trigger] st.current[j]))
    &&& st.mode == Mode::Numbers ==> forall|j: int|
        0 <= j < st.current.len() ==> has_gap(trim(#[trigger] st.current[j]))
    &&& st.mode == Mode::Tasks ==> forall|j: int|
        0 <= j < st.current.len() ==> fits_task(trim(#[trigger] st.current[j]))
}

/// Emitting a well-formed span, or an empty paragraph, keeps the spans
/// emitted well formed.
proof fn lemma_write_sound(st: ParserState, span: RawSpan)
    requires
        forall|i: int| 0 <= i < st.content.len() ==> (#[trigger] st.content[i]).well_formed(),
        span.well_formed() || span == RawSpan::Text(Seq::<char>::empty()),
    ensures
        forall|i: int|
            0 <= i < st.write(span).content.len() ==> (#[trigger] st.write(
                span,
            ).content[i]).well_formed(),
        st.write(span).mode == st.mode,
{
    let after = st.write(span);
    assert forall|i: int| 0 <= i < after.content.len() implies (
    #[trigger] after.content[i]).well_formed() by {
        if i < st.content.len() {
            assert(after.content[i] == st.content[i]);
        }
    }
}

/// Ending the paragraph in progress keeps the spans emitted well formed.
proof fn lemma_flush_sound(st: ParserState)
    requires
        forall|i: int| 0 <= i < st.content.len() ==> (#[trigger] st.content[i]).well_formed(),
    ensures
        forall|i: int|
            0 <= i < st.flush().content.len() ==> (#[trigger] st.flush().content[i]).well_formed(),
        st.flush().current.len() == 0,
        st.flush().mode == st.mode,
        st.flush().table == st.table,
{
    let text = joined(st.current);
    if text.len() > 0 {
        lemma_trim_ends(join_lines(st.current));
    } else {
        assert(text =~= Seq::<char>::empty());
    }
    lemma_write_sound(st, RawSpan::Text(text));
}

/// Gathering a line that agrees with its block keeps the segmenter sound.
proof fn lemma_gather_sound(st: ParserState, mode: Mode, line: Seq<char>, item: Seq<char>, more: bool)
    requires
        sound(st),
        mode != Mode::Idle && mode != Mode::Table,
        item == line || item == trim_end(line),
        mode == Mode::Code ==> st.mode == Mode::Code,
        mode == Mode::Callout ==> item == line && starts_with(line, '>'),
        mode == Mode::Bullets ==> is_bullet(trim(line)),
        mode == Mode::Numbers ==> has_gap(trim(line)),
        mode == Mode::Tasks ==> fits_task(trim(line)),
    ensures
        sound(st.gather(mode, item, more)),
{
    lemma_trim_of_trim_end(line);
    lemma_flush_sound(st);
    let opened = if st.mode == mode {
        st
    } else {
        st.flush()
    };
    let grown = ParserState { mode: mode, current: opened.current.push(item), ..opened };
    assert(grown.current.len() > 0);
    assert(grown.current[0] == if opened.current.len() > 0 {
        opened.current[0]
    } else {
        item
    });
    assert forall|j: int| 0 <= j < grown.current.len() implies (mode == Mode::Bullets
        ==> is_bullet(trim(#[trigger] grown.current[j]))) && (mode == Mode::Numbers ==> has_gap(
        trim(grown.current[j]),
    )) && (mode == Mode::Tasks ==> fits_task(trim(grown.current[j]))) by {
        if j < opened.current.len() {
            assert(grown.current[j] == opened.current[j]);
        }
    }
    if !more {
        let span = grown.block(mode);
        if mode == Mode::Code {
            lemma_joined_keeps_start(grown.current, 3);
        }
        if mode == Mode::Callout {
            lemma_joined_keeps_start(grown.current, 1);
        }
        assert(span.well_formed());
        lemma_write_sound(grown, span);
    }
}

/// One line that agrees with its kind keeps the segmenter sound.
pub proof fn lemma_step_sound(
    st: ParserState,
    line: Seq<char>,
    kind: LineKind,
    next: Option<LineKind>,
)
    requires
        sound(st),
        agrees(line, kind),
    ensures
        sound(st.step(line, kind, next)),
{
    lemma_flush_sound(st);
    if st.mode == Mode::Code {
        lemma_gather_sound(st, Mode::Code, line, line, !closes_fence(line));
    } else {
        match kind {
            LineKind::Fence => {},
            LineKind::Heading => {
                lemma_write_sound(st.flush(), RawSpan::Header(line));
            },
            LineKind::Row | LineKind::Rule => {
                if st.mode == Mode::Table {
                    let grown = if kind == LineKind::Rule {
                        st
                    } else {
                        ParserState { table: st.table.push(cells(line)), ..st }
                    };
                    lemma_write_sound(grown, RawSpan::Table(grown.table));
                }
            },
            LineKind::Quote => {
                lemma_gather_sound(st, Mode::Callout, line, line, next == Some(kind));
            },
            LineKind::Task => {
                lemma_gather_sound(st, Mode::Tasks, line, trim_end(line), next == Some(kind));
            },
            LineKind::Bullet => {
                lemma_gather_sound(st, Mode::Bullets, line, trim_end(line), next == Some(kind));
            },
            LineKind::Numbered => {
                lemma_gather_sound(st, Mode::Numbers, line, trim_end(line), next == Some(kind));
            },
            LineKind::Plain => {},
        }
    }
}

/// The segmenter is sound after any number of lines of a document.
pub proof fn lemma_run_sound(lines: Seq<Seq<char>>, n: nat)
    requires
        n <= lines.len(),
    ensures
        sound(run(ParserState::start(), lines, kinds_of(lines), n)),
    decreases n,
{
    if n > 0 {
        lemma_run_sound(lines, (n - 1) as nat);
        let line = lines[n - 1];
        lemma_kind_agrees(line, task_match(trim(line)), numbered_match(trim(line)));
        lemma_step_sound(
            run(ParserState::start(), lines, kinds_of(lines), (n - 1) as nat),
            line,
            kinds_of(lines)[n - 1],
            kind_after(kinds_of(lines), n - 1),
        );
    }
}

/// Every span of a document is well formed.
pub proof fn spans_are_well_formed(lines: Seq<Seq<char>>)
    ensures
        forall|n: int| 0 <= n < spans_of(lines).len() ==> (#[trigger] spans_of(lines)[n]).well_formed(),
{
    lemma_run_sound(lines, lines.len());
    lemma_flush_sound(run(ParserState::start(), lines, kinds_of(lines), lines.len()));
}

/// No paragraph of a document is empty, and none starts or ends with white
/// space.
pub proof fn paragraphs_are_trimmed(lines: Seq<Seq<char>>, n: int)
    requires
        0 <= n < spans_of(lines).len(),
        spans_of(lines)[n] is Text,
    ensures
        spans_of(lines)[n]->Text_0.len() > 0,
        !is_space(spans_of(lines)[n]->Text_0.first()),
        !is_space(spans_of(lines)[n]->Text_0.last()),
{
    spans_are_well_formed(lines);
    assert(spans_of(lines)[n].well_formed());
}

/// Every heading of a document has a level of one or more.
pub proof fn headings_have_a_level(lines: Seq<Seq<char>>, n: int)
    requires
        0 <= n < spans_of(lines).len(),
        spans_of(lines)[n] is Header,
    ensures
        refine(spans_of(lines)[n]) is Header,
        refine(spans_of(lines)[n])->Header_0 >= 1,
{
    spans_are_well_formed(lines);
    assert(spans_of(lines)[n].well_formed());
}

} // verus!
