use mdblocks::line::{classify, find_kind};
use mdblocks::text::{split_lines, to_chars};
use mdblocks::{LineKind, Node, Parser, PreprocessedNode, Preprocessor, Section};

fn lines_of(text: &str) -> Vec<String> {
    split_lines(&to_chars(text))
}

fn spans(text: &str) -> Vec<Preprocessor> {
    PreprocessedNode::parse(&lines_of(text), String::from("doc.md"))
        .unwrap()
        .content
}

fn sections(text: &str) -> Vec<Section> {
    Node::parse(text, String::from("doc.md")).unwrap().content
}

fn s(text: &str) -> String {
    String::from(text)
}

#[test]
fn empty_document_has_no_span() {
    assert_eq!(spans(""), vec![]);
    assert_eq!(sections(""), vec![]);
}

#[test]
fn blank_lines_have_no_span() {
    assert_eq!(spans("\n   \n\t\n\u{3000}\n"), vec![]);
    assert_eq!(sections("\n   \n\t\n\u{3000}\n"), vec![]);
}

#[test]
fn paragraph_is_joined_and_trimmed() {
    assert_eq!(
        spans("\n  first line  \nsecond\n\n"),
        vec![Preprocessor::Text(s("first line  \nsecond"))]
    );
}

#[test]
fn header_span_holds_the_line_as_it_stands() {
    assert_eq!(spans("## Two  "), vec![Preprocessor::Header(s("## Two  "))]);
    assert_eq!(sections("## Two  "), vec![Section::Header(2, s("Two"))]);
}

#[test]
fn header_marker_may_end_the_line_or_be_followed_by_a_tab() {
    assert_eq!(sections("##"), vec![Section::Header(2, s(""))]);
    assert_eq!(sections("#\tTitle"), vec![Section::Header(1, s("Title"))]);
}

#[test]
fn unclean_header_marker_is_text() {
    assert_eq!(sections("#hashtag here"), vec![Section::Text(s("#hashtag here"))]);
    assert_eq!(sections("#a# b"), vec![Section::Text(s("#a# b"))]);
}

#[test]
fn header_ends_the_paragraph_before_it() {
    assert_eq!(
        sections("intro\n# Title\noutro"),
        vec![
            Section::Text(s("intro")),
            Section::Header(1, s("Title")),
            Section::Text(s("outro")),
        ]
    );
}

#[test]
fn code_span_holds_both_fences() {
    assert_eq!(
        spans("```sh\nls\n```"),
        vec![Preprocessor::CodeBlock(s("```sh\nls\n```"))]
    );
}

#[test]
fn code_block_suppresses_every_other_kind() {
    assert_eq!(
        sections("```\n# not a header\n- not a bullet\n|not|a|table|\n> not a callout\n```"),
        vec![Section::CodeBlock(
            s(""),
            s("# not a header\n- not a bullet\n|not|a|table|\n> not a callout\n")
        )]
    );
}

#[test]
fn fence_closes_on_a_line_that_ends_with_the_marker() {
    assert_eq!(
        sections("```js\nx\nend```  \nafter"),
        vec![Section::CodeBlock(s("js"), s("x\nend")), Section::Text(s("after"))]
    );
}

#[test]
fn backticks_inside_a_code_block_are_stripped() {
    assert_eq!(
        sections("```\na `b` c\n```"),
        vec![Section::CodeBlock(s(""), s("a b c\n"))]
    );
    assert_eq!(
        sections("```sh\necho `date`\n```"),
        vec![Section::CodeBlock(s("sh"), s("echo date\n"))]
    );
}

#[test]
fn unterminated_code_block_is_text() {
    assert_eq!(
        sections("```rust\nlet x;"),
        vec![Section::Text(s("```rust\nlet x;"))]
    );
    assert_eq!(sections("```only```"), vec![Section::Text(s("```only```"))]);
}

#[test]
fn unconfirmed_table_start_is_dropped() {
    assert_eq!(sections("|a|b|\ntext"), vec![Section::Text(s("text"))]);
    assert_eq!(sections("|a|b|\n|c|d|"), vec![]);
    assert_eq!(sections("|a|b|"), vec![]);
}

#[test]
fn table_of_header_and_separator_alone() {
    assert_eq!(
        sections("|a|b|\n|---|---|"),
        vec![Section::Table(vec![vec![s("a"), s("b")]])]
    );
    assert_eq!(
        sections("|a|b|\n|---|---|\nafter"),
        vec![Section::Table(vec![vec![s("a"), s("b")]]), Section::Text(s("after"))]
    );
}

#[test]
fn separator_rows_are_passed_over() {
    assert_eq!(
        sections("| a |\n|---|\n| b |\n|---|\n| c |"),
        vec![Section::Table(vec![vec![s("a")], vec![s("b")], vec![s("c")]])]
    );
}

#[test]
fn table_row_loses_its_first_and_last_piece() {
    assert_eq!(
        sections("|a|b\n|---|---|\n|c|d"),
        vec![Section::Table(vec![vec![s("a")], vec![s("c")]])]
    );
    assert_eq!(
        sections("|\n|---|\n| x | | y |"),
        vec![Section::Table(vec![vec![], vec![s("x"), s(""), s("y")]])]
    );
}

#[test]
fn table_ends_the_paragraph_before_it() {
    assert_eq!(
        sections("before\n|a|b|\n|---|---|\n|c|d|\nafter"),
        vec![
            Section::Text(s("before")),
            Section::Table(vec![vec![s("a"), s("b")], vec![s("c"), s("d")]]),
            Section::Text(s("after")),
        ]
    );
    assert_eq!(
        spans("para\n| a | b |\n| --- | --- |\n| 1 | 2 |"),
        vec![
            Preprocessor::Text(s("para")),
            Preprocessor::Table(vec![vec![s("a"), s("b")], vec![s("1"), s("2")]]),
        ]
    );
}

#[test]
fn dropped_table_start_leaves_the_paragraph_open() {
    assert_eq!(
        sections("before\n|x|\nafter"),
        vec![Section::Text(s("before\nafter"))]
    );
}

#[test]
fn callout_keeps_the_markers_of_its_later_lines() {
    assert_eq!(
        spans("> one\n> two"),
        vec![Preprocessor::Callout(s("> one\n> two"))]
    );
    assert_eq!(sections("> one\n> two"), vec![Section::Callout(s("one\n> two"))]);
    assert_eq!(sections(">"), vec![Section::Callout(s(""))]);
}

#[test]
fn callout_ends_where_the_marker_is_missing() {
    assert_eq!(
        sections("> one\ntwo"),
        vec![Section::Callout(s("one")), Section::Text(s("two"))]
    );
}

#[test]
fn nested_bullets_stay_in_one_list() {
    assert_eq!(
        sections("- a\n\t- b\n\t\t- c  "),
        vec![Section::BulletList(vec![(0, s("a")), (1, s("b")), (2, s("c"))])]
    );
    assert_eq!(
        spans("- a\n\t- b  "),
        vec![Preprocessor::BulletList(vec![s("- a"), s("\t- b")])]
    );
}

#[test]
fn lists_of_different_kinds_are_apart() {
    assert_eq!(
        sections("- a\n- [ ] b\n- [x] c\n1. d\n- e"),
        vec![
            Section::BulletList(vec![(0, s("a"))]),
            Section::TaskList(vec![(0, false, s("b")), (0, true, s("c"))]),
            Section::NumberedList(vec![(0, s("d"))]),
            Section::BulletList(vec![(0, s("e"))]),
        ]
    );
}

#[test]
fn list_ends_the_paragraph_before_it() {
    assert_eq!(
        sections("text\n- a\nmore"),
        vec![
            Section::Text(s("text")),
            Section::BulletList(vec![(0, s("a"))]),
            Section::Text(s("more")),
        ]
    );
}

#[test]
fn blank_lines_before_a_list_are_let_go() {
    assert_eq!(sections("\n\n- a"), vec![Section::BulletList(vec![(0, s("a"))])]);
    assert_eq!(
        sections("\n1. a"),
        vec![Section::NumberedList(vec![(0, s("a"))])]
    );
}

#[test]
fn blank_line_parts_two_lists() {
    assert_eq!(
        sections("- a\n\n- b"),
        vec![
            Section::BulletList(vec![(0, s("a"))]),
            Section::BulletList(vec![(0, s("b"))]),
        ]
    );
}

#[test]
fn task_marker_takes_a_space_or_a_small_x() {
    assert_eq!(
        sections("- [X] a"),
        vec![Section::BulletList(vec![(0, s("[X] a"))])]
    );
    assert_eq!(
        sections("- [] a"),
        vec![Section::BulletList(vec![(0, s("[] a"))])]
    );
    assert_eq!(
        sections("\t- [x] a"),
        vec![Section::TaskList(vec![(1, true, s("a"))])]
    );
}

#[test]
fn dash_without_a_space_is_text() {
    assert_eq!(sections("-a"), vec![Section::Text(s("-a"))]);
    assert_eq!(sections("-"), vec![Section::Text(s("-"))]);
    assert_eq!(sections("- "), vec![Section::Text(s("-"))]);
}

#[test]
fn numbered_items_take_digits_a_dot_and_a_space() {
    assert_eq!(
        sections("10. ten\n11. eleven"),
        vec![Section::NumberedList(vec![(0, s("ten")), (0, s("eleven"))])]
    );
    assert_eq!(sections("1.no"), vec![Section::Text(s("1.no"))]);
    assert_eq!(sections("1. "), vec![Section::Text(s("1."))]);
    assert_eq!(sections("a1. x"), vec![Section::Text(s("a1. x"))]);
}

#[test]
fn digits_of_other_scripts_number_an_item() {
    assert_eq!(
        sections("\u{663}. three"),
        vec![Section::NumberedList(vec![(0, s("three"))])]
    );
}

#[test]
fn lines_may_end_with_a_carriage_return() {
    assert_eq!(
        sections("# Test\r\n- a\r\n- b\r\n"),
        vec![
            Section::Header(1, s("Test")),
            Section::BulletList(vec![(0, s("a")), (0, s("b"))]),
        ]
    );
}

#[test]
fn mixed_document_gives_its_blocks_in_order() {
    let text = "# One\n```sh\nls\n```\n## Two\n|a|b|\n|---|---|\n|c|d|\nwords\n> note\n- item\n";
    let got = sections(text);
    assert_eq!(got.len(), 7);
    assert!(matches!(got[0], Section::Header(1, _)));
    assert!(matches!(got[1], Section::CodeBlock(_, _)));
    assert!(matches!(got[2], Section::Header(2, _)));
    assert!(matches!(got[3], Section::Table(_)));
    assert!(matches!(got[4], Section::Text(_)));
    assert!(matches!(got[5], Section::Callout(_)));
    assert!(matches!(got[6], Section::BulletList(_)));
}

#[test]
fn node_keeps_its_path() {
    let node = Node::parse("# T", String::from("notes/today.md")).unwrap();
    assert_eq!(node.path, "notes/today.md");
    let pre = PreprocessedNode::parse(&lines_of("# T"), String::from("x.md")).unwrap();
    assert_eq!(pre.path, "x.md");
}

#[test]
fn kind_follows_the_answers_given() {
    assert_eq!(classify("- [ ] x", true, false), LineKind::Task);
    assert_eq!(classify("- [ ] x", false, false), LineKind::Bullet);
    assert_eq!(classify("1. x", false, true), LineKind::Numbered);
    assert_eq!(classify("1. x", false, false), LineKind::Plain);
    assert_eq!(classify("abcdef", true, false), LineKind::Task);
    assert_eq!(classify("abc", true, true), LineKind::Plain);
    assert_eq!(classify("a b", true, true), LineKind::Numbered);
    assert_eq!(classify("# x", true, true), LineKind::Heading);
    assert_eq!(classify("#x", true, true), LineKind::Plain);
    assert_eq!(classify("```", true, true), LineKind::Fence);
    assert_eq!(classify("|a|", true, true), LineKind::Row);
    assert_eq!(classify("|--|", true, true), LineKind::Row);
    assert_eq!(classify("|---|", true, true), LineKind::Rule);
    assert_eq!(classify("> q", true, true), LineKind::Quote);
    assert_eq!(classify(" > q", false, false), LineKind::Plain);
    assert_eq!(classify("", true, true), LineKind::Plain);
}

#[test]
fn kind_is_found_with_the_matcher() {
    assert_eq!(find_kind("- [x] done"), Ok(LineKind::Task));
    assert_eq!(find_kind("  - [ ] open  "), Ok(LineKind::Task));
    assert_eq!(find_kind("- [y] odd"), Ok(LineKind::Bullet));
    assert_eq!(find_kind("12. twelve"), Ok(LineKind::Numbered));
    assert_eq!(find_kind("12.twelve and more"), Ok(LineKind::Plain));
    assert_eq!(find_kind("plain words"), Ok(LineKind::Plain));
    assert_eq!(find_kind("### h"), Ok(LineKind::Heading));
}

#[test]
fn feed_takes_the_kinds_it_is_given() {
    let lines = vec![s("one"), s("two  "), s("three")];
    let kinds = vec![LineKind::Bullet, LineKind::Bullet, LineKind::Plain];
    let node = Parser::new().feed(&lines, &kinds, s("p")).unwrap();
    assert_eq!(
        node.content,
        vec![
            Preprocessor::BulletList(vec![s("one"), s("two")]),
            Preprocessor::Text(s("three")),
        ]
    );
    assert_eq!(node.path, "p");
}

#[test]
fn feed_wants_one_kind_for_each_line() {
    let lines = vec![s("one"), s("two")];
    assert!(Parser::new().feed(&lines, &vec![LineKind::Plain], s("p")).is_none());
    assert!(Parser::new().feed(&lines, &vec![], s("p")).is_none());
    assert!(Parser::new()
        .feed(&vec![], &vec![], s("p"))
        .unwrap()
        .content
        .is_empty());
}

#[test]
fn parser_goes_line_by_line() {
    let mut parser = Parser::new();
    parser.step("para", LineKind::Plain, Some(LineKind::Quote));
    assert_eq!(parser.current, vec![s("para")]);
    assert_eq!(parser.current_joined(), "para");
    parser.step("> a", LineKind::Quote, Some(LineKind::Quote));
    assert_eq!(parser.node.content, vec![Preprocessor::Text(s("para"))]);
    assert_eq!(parser.current, vec![s("> a")]);
    parser.step("> b", LineKind::Quote, None);
    assert_eq!(
        parser.node.content,
        vec![
            Preprocessor::Text(s("para")),
            Preprocessor::Callout(s("> a\n> b")),
        ]
    );
    assert!(parser.current.is_empty());
    let node = parser.finish();
    assert_eq!(node.content.len(), 2);
}

#[test]
fn writing_an_empty_paragraph_changes_nothing() {
    let mut parser = Parser::new();
    parser.step("kept", LineKind::Plain, None);
    parser.write(Preprocessor::Text(s("")));
    assert_eq!(parser.current, vec![s("kept")]);
    assert!(parser.node.content.is_empty());
    parser.write(Preprocessor::Text(s("given")));
    assert!(parser.current.is_empty());
    assert_eq!(parser.node.content, vec![Preprocessor::Text(s("given"))]);
}

#[test]
fn writing_a_table_empties_the_rows_alone() {
    let mut parser = Parser::new();
    parser.step("kept", LineKind::Plain, None);
    parser.current_table.push(vec![s("a")]);
    parser.write(Preprocessor::Table(vec![vec![s("a")]]));
    assert!(parser.current_table.is_empty());
    assert_eq!(parser.current, vec![s("kept")]);
    assert_eq!(
        parser.node.content,
        vec![Preprocessor::Table(vec![vec![s("a")]])]
    );
}

#[test]
fn opening_a_table_ends_the_paragraph() {
    let mut parser = Parser::new();
    parser.step("para", LineKind::Plain, Some(LineKind::Row));
    parser.step("|a|", LineKind::Row, Some(LineKind::Rule));
    assert!(parser.current.is_empty());
    assert_eq!(parser.current_table, vec![vec![s("a")]]);
    assert_eq!(parser.node.content, vec![Preprocessor::Text(s("para"))]);
    parser.step("|---|", LineKind::Rule, None);
    assert!(parser.current_table.is_empty());
    assert_eq!(
        parser.node.content,
        vec![
            Preprocessor::Text(s("para")),
            Preprocessor::Table(vec![vec![s("a")]]),
        ]
    );
}
