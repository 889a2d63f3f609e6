use mdblocks::text::{
    cells_of, count_prefix, count_suffix, join, remove, split_lines, strip_of, to_chars,
    to_string, trim_end_of, Class,
};

fn s(text: &str) -> String {
    String::from(text)
}

fn strip(text: &str, class: Class) -> String {
    to_string(strip_of(&to_chars(text), class))
}

#[test]
fn characters_go_there_and_back() {
    let chars = to_chars("a\u{e9}\u{4e2d}\u{1f600}!");
    assert_eq!(chars, vec!['a', '\u{e9}', '\u{4e2d}', '\u{1f600}', '!']);
    assert_eq!(to_string(&chars), "a\u{e9}\u{4e2d}\u{1f600}!");
    assert_eq!(to_chars(""), vec![]);
    assert_eq!(to_string(&[]), "");
}

#[test]
fn white_space_is_what_trimming_takes() {
    for c in [
        '\u{9}', '\u{a}', '\u{b}', '\u{c}', '\u{d}', ' ', '\u{85}', '\u{a0}', '\u{1680}',
        '\u{2000}', '\u{2005}', '\u{200a}', '\u{2028}', '\u{2029}', '\u{202f}', '\u{205f}',
        '\u{3000}',
    ] {
        assert!(Class::Space.holds(c));
        assert!(c.is_whitespace());
    }
    for c in ['a', '-', '\u{8}', '\u{e}', '\u{200b}', '\u{feff}', '\u{1f}', '\u{2060}'] {
        assert!(!Class::Space.holds(c));
        assert!(!c.is_whitespace());
    }
}

#[test]
fn white_space_agrees_with_std_on_every_character() {
    let mut code: u32 = 0;
    while code <= 0x10ffff {
        if let Some(c) = char::from_u32(code) {
            assert_eq!(Class::Space.holds(c), c.is_whitespace());
        }
        code += 1;
    }
}

#[test]
fn classes_hold_their_characters() {
    assert!(Class::Only('#').holds('#'));
    assert!(!Class::Only('#').holds('a'));
    assert!(Class::Except('|').holds('a'));
    assert!(!Class::Except('|').holds('|'));
}

#[test]
fn runs_are_counted_at_both_ends() {
    assert_eq!(count_prefix(&to_chars("###  x"), Class::Only('#')), 3);
    assert_eq!(count_prefix(&to_chars("x###"), Class::Only('#')), 0);
    assert_eq!(count_prefix(&to_chars("###"), Class::Only('#')), 3);
    assert_eq!(count_prefix(&to_chars(""), Class::Space), 0);
    assert_eq!(count_prefix(&to_chars("ab|c"), Class::Except('|')), 2);
    assert_eq!(count_suffix(&to_chars("x \t\n"), Class::Space), 3);
    assert_eq!(count_suffix(&to_chars("  "), Class::Space), 2);
    assert_eq!(count_suffix(&to_chars(" x"), Class::Space), 0);
}

#[test]
fn stripping_cuts_both_ends() {
    assert_eq!(strip("  a b \t", Class::Space), "a b");
    assert_eq!(strip("\u{3000}x\u{a0}", Class::Space), "x");
    assert_eq!(strip(" \n ", Class::Space), "");
    assert_eq!(strip("", Class::Space), "");
    assert_eq!(strip("``a`b``", Class::Only('`')), "a`b");
    assert_eq!(strip("````", Class::Only('`')), "");
    assert_eq!(to_string(trim_end_of(&to_chars("  a  "))), "  a");
    assert_eq!(to_string(trim_end_of(&to_chars("   "))), "");
}

#[test]
fn stripping_agrees_with_std() {
    for text in ["", " ", "a", " a", "a ", "\t a b \r\n", "\u{2003}x\u{2003}y\u{2003}", "``"] {
        assert_eq!(strip(text, Class::Space), text.trim());
        assert_eq!(to_string(trim_end_of(&to_chars(text))), text.trim_end());
        assert_eq!(strip(text, Class::Only('`')), text.trim_matches('`'));
    }
}

#[test]
fn every_occurrence_is_taken_out() {
    assert_eq!(to_string(&remove(&to_chars("``a`b``"), '`')), "ab");
    assert_eq!(to_string(&remove(&to_chars("````"), '`')), "");
    assert_eq!(to_string(&remove(&to_chars("none"), '`')), "none");
    assert_eq!(to_string(&remove(&to_chars(""), '`')), "");
    assert_eq!(to_string(&remove(&to_chars("a-b-c"), '-')), "abc");
}

#[test]
fn lines_are_joined_by_line_feeds() {
    assert_eq!(to_string(&join(&vec![])), "");
    assert_eq!(to_string(&join(&vec![s("one")])), "one");
    assert_eq!(to_string(&join(&vec![s("a"), s(""), s("b")])), "a\n\nb");
    assert_eq!(to_string(&join(&vec![s(""), s("")])), "\n");
}

#[test]
fn text_is_split_into_lines() {
    assert_eq!(split_lines(&to_chars("")), Vec::<String>::new());
    assert_eq!(split_lines(&to_chars("a")), vec![s("a")]);
    assert_eq!(split_lines(&to_chars("a\n")), vec![s("a")]);
    assert_eq!(split_lines(&to_chars("a\nb")), vec![s("a"), s("b")]);
    assert_eq!(split_lines(&to_chars("\n")), vec![s("")]);
    assert_eq!(split_lines(&to_chars("a\n\nb\n")), vec![s("a"), s(""), s("b")]);
    assert_eq!(split_lines(&to_chars("a\r\nb\r\n")), vec![s("a"), s("b")]);
    assert_eq!(split_lines(&to_chars("a\rb\n")), vec![s("a\rb")]);
    assert_eq!(split_lines(&to_chars("a\r")), vec![s("a\r")]);
    assert_eq!(split_lines(&to_chars("\r\n\r\n")), vec![s(""), s("")]);
    assert_eq!(split_lines(&to_chars("a\r\r\n")), vec![s("a\r")]);
}

#[test]
fn lines_agree_with_std() {
    for text in ["", "a", "a\n", "\n\n", "a\r\nb", "a\rb\r", "x\n\r\ny\r\n\n", "\r"] {
        let expected: Vec<String> = text.lines().map(String::from).collect();
        assert_eq!(split_lines(&to_chars(text)), expected);
    }
}

#[test]
fn table_line_is_split_into_cells() {
    assert_eq!(cells_of(&to_chars("|a|b|")), vec![s("a"), s("b")]);
    assert_eq!(cells_of(&to_chars("|  a b  |\tc |")), vec![s("a b"), s("c")]);
    assert_eq!(cells_of(&to_chars("|a|b")), vec![s("a")]);
    assert_eq!(cells_of(&to_chars("a|b|c")), vec![s("b")]);
    assert_eq!(cells_of(&to_chars("|")), Vec::<String>::new());
    assert_eq!(cells_of(&to_chars("||")), vec![s("")]);
    assert_eq!(cells_of(&to_chars("none")), Vec::<String>::new());
    assert_eq!(cells_of(&to_chars("")), Vec::<String>::new());
    assert_eq!(cells_of(&to_chars("|---|---|")), vec![s("---"), s("---")]);
}
