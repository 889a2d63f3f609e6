use mdblocks::{Node, Section};

const CODEBLOCK_PL: &str = "powershell";
const CODEBLOCK: &str = "Get-ChildItem -Recurse\npeperober\nsalchichon\n";
const TEXT: &str = "test file\ntesting\nhi";
const HEADER1: &str = "Test";
const HEADER2: &str = "Testing";
const TABLE_0_0: &str = "Testcolumn1";
const TABLE_1_0: &str = "Testcolumn2";
const TABLE_0_1: &str = "result1";
const TABLE_1_1: &str = "result2";
const CALLOUT: &str = "Callout nice!\n>Pepechivich";
const BULLETLIST1: &str = "Sandwich";
const BULLETLIST2: &str = "Salami";
const NUMBEREDLIST1: &str = "Pepeeeee";
const NUMBEREDLIST2: &str = "Manoooooolo";
const TASKLIST1: &str = "Pepe rocks";
const TASKLIST2: &str = "chimichanga";

const SIMPLE_MD: &str = "test file\ntesting\nhi\n";
const CODE_MD: &str = "```powershell\nGet-ChildItem -Recurse\npeperober\nsalchichon\n```\n";
const HEADER_MD: &str = "# Test\n";
const MULTIPLE_HEADERS_MD: &str = "# Test\n### Testing\n";
const TABLE_MD: &str = "|Testcolumn1|Testcolumn2|\n|---|---|\n|result1|result2|\n";
const CALLOUT_MD: &str = "> Callout nice!\n>Pepechivich\n";
const BULLETLIST_MD: &str = "- Sandwich\n- Salami\n";
const NUMBEREDLIST_MD: &str = "1. Pepeeeee\n2. Manoooooolo\n";
const TASKLIST_MD: &str = "- [ ] Pepe rocks\n- [x] chimichanga\n";
const MULTIPLE_MD: &str = "# Test\n```powershell\nGet-ChildItem -Recurse\npeperober\nsalchichon\n```\n# Test\n### Testing\n|Testcolumn1|Testcolumn2|\n|---|---|\n|result1|result2|\ntest file\ntesting\nhi\n> Callout nice!\n>Pepechivich\n- Sandwich\n- Salami\n";

#[test]
fn simple_text() {
    let node = Node::parse(SIMPLE_MD, String::from("tests/simple.md")).unwrap();
    assert_eq!(node.content, vec![Section::Text(String::from(TEXT))]);
}

#[test]
fn code_block() {
    let node = Node::parse(CODE_MD, String::from("tests/code.md")).unwrap();
    assert_eq!(
        node.content,
        vec![Section::CodeBlock(String::from(CODEBLOCK_PL), String::from(CODEBLOCK))]
    )
}

#[test]
fn header() {
    let node = Node::parse(HEADER_MD, String::from("tests/header.md")).unwrap();
    assert_eq!(node.content, vec![Section::Header(1, String::from(HEADER1))]);
}

#[test]
fn multiple_headers() {
    let node = Node::parse(MULTIPLE_HEADERS_MD, String::from("tests/multiple_headers.md")).unwrap();
    assert_eq!(
        node.content,
        vec![
            Section::Header(1, String::from(HEADER1)),
            Section::Header(3, String::from(HEADER2))
        ]
    );
}

#[test]
fn table() {
    let table: Vec<Vec<String>> = vec![
        vec![String::from(TABLE_0_0), String::from(TABLE_1_0)],
        vec![String::from(TABLE_0_1), String::from(TABLE_1_1)],
    ];
    let node = Node::parse(TABLE_MD, String::from("tests/table.md")).unwrap();
    assert_eq!(node.content, vec![Section::Table(table)]);
}

#[test]
fn callout() {
    let node = Node::parse(CALLOUT_MD, String::from("tests/callout.md")).unwrap();
    assert_eq!(node.content, vec![Section::Callout(String::from(CALLOUT))]);
}

#[test]
fn bulletlist() {
    let node = Node::parse(BULLETLIST_MD, String::from("tests/bulletlist.md")).unwrap();
    assert_eq!(
        node.content,
        vec![Section::BulletList(vec![
            (0, String::from(BULLETLIST1)),
            (0, String::from(BULLETLIST2))
        ])]
    );
}

#[test]
fn numberedlist() {
    let node = Node::parse(NUMBEREDLIST_MD, String::from("tests/numberedlist.md")).unwrap();
    assert_eq!(
        node.content,
        vec![Section::NumberedList(vec![
            (0, String::from(NUMBEREDLIST1)),
            (0, String::from(NUMBEREDLIST2))
        ])]
    );
}

#[test]
fn tasklist() {
    let node = Node::parse(TASKLIST_MD, String::from("tests/tasklist.md")).unwrap();
    assert_eq!(
        node.content,
        vec![Section::TaskList(vec![
            (0, false, String::from(TASKLIST1)),
            (0, true, String::from(TASKLIST2))
        ])]
    );
}

#[test]
fn multiple_things() {
    let node = Node::parse(MULTIPLE_MD, String::from("tests/multiple.md")).unwrap();
    let table: Vec<Vec<String>> = vec![
        vec![String::from(TABLE_0_0), String::from(TABLE_1_0)],
        vec![String::from(TABLE_0_1), String::from(TABLE_1_1)],
    ];
    assert_eq!(node.content[0], Section::Header(1, String::from(HEADER1)));
    assert_eq!(
        node.content[1],
        Section::CodeBlock(String::from(CODEBLOCK_PL), String::from(CODEBLOCK))
    );
    assert_eq!(node.content[2], Section::Header(1, String::from(HEADER1)));
    assert_eq!(node.content[3], Section::Header(3, String::from(HEADER2)));
    assert_eq!(node.content[4], Section::Table(table));
    assert_eq!(node.content[5], Section::Text(String::from(TEXT)));
    assert_eq!(node.content[6], Section::Callout(String::from(CALLOUT)));
    assert_eq!(
        node.content[7],
        Section::BulletList(vec![
            (0, String::from(BULLETLIST1)),
            (0, String::from(BULLETLIST2))
        ])
    );
}
