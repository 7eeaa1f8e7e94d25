use qi_lsp::ast::{ParseError, Program};
use qi_lsp::document::DocumentManager;
use qi_lsp::position::Position;
use qi_lsp::text::{
    char_range_on_line, is_identifier_char, line_before_cursor, pos_to_lsp, word_at_position,
};

fn empty_program() -> Result<Program, ParseError> {
    Ok(Program { package_name: None, imports: Vec::new(), statements: Vec::new() })
}

fn mgr_with(content: &str) -> (DocumentManager, String) {
    let mut dm = DocumentManager::new();
    let uri = "file:///t.qi".to_string();
    dm.open_document(&uri, content.to_string(), empty_program());
    (dm, uri)
}

#[test]
fn extracts_ascii_word() {
    let (dm, uri) = mgr_with("let foo = 1\n");
    let p = Position { line: 0, character: 5 };
    let (w, r) = word_at_position(&uri, p, &dm).unwrap();
    assert_eq!(w, "foo");
    assert_eq!(r, 4..7);
}

#[test]
fn extracts_cjk_word_no_panic() {
    let (dm, uri) = mgr_with("变量 名字 = 1\n");
    let p = Position { line: 0, character: 1 };
    let (w, r) = word_at_position(&uri, p, &dm).unwrap();
    assert_eq!(w, "变量");
    assert_eq!(r, 0..2);
}

#[test]
fn extracts_cjk_word_at_end_of_identifier() {
    let (dm, uri) = mgr_with("变量 名字 = 1\n");
    let p = Position { line: 0, character: 5 };
    let (w, r) = word_at_position(&uri, p, &dm).unwrap();
    assert_eq!(w, "名字");
    assert_eq!(r, 3..5);
}

#[test]
fn no_word_at_whitespace() {
    let (dm, uri) = mgr_with("变量 名字\n");
    let p = Position { line: 0, character: 2 };
    let (w, _) = word_at_position(&uri, p, &dm).unwrap();
    assert_eq!(w, "变量");
}

#[test]
fn line_before_cursor_cjk_safe() {
    let (dm, uri) = mgr_with("变量 名字 = \"小李\";\n");
    let p = Position { line: 0, character: 9 };
    let prefix = line_before_cursor(&uri, p, &dm);
    assert_eq!(prefix.chars().count(), 9);
    assert!(prefix.ends_with('"'), "prefix={:?}", prefix);
}

#[test]
fn line_before_cursor_missing_line_returns_empty() {
    let (dm, uri) = mgr_with("x\n");
    let p = Position { line: 99, character: 0 };
    assert_eq!(line_before_cursor(&uri, p, &dm), "");
}

#[test]
fn no_word_between_spaces_or_past_end() {
    let (dm, uri) = mgr_with("a  b\r\n");
    assert!(word_at_position(&uri, Position { line: 0, character: 2 }, &dm).is_none());
    assert!(word_at_position(&uri, Position { line: 0, character: 5 }, &dm).is_none());
    let (w, r) = word_at_position(&uri, Position { line: 0, character: 4 }, &dm).unwrap();
    assert_eq!((w.as_str(), r), ("b", 3..4));
    assert!(word_at_position("file:///other.qi", Position { line: 0, character: 0 }, &dm).is_none());
}

#[test]
fn identifier_chars() {
    assert!(is_identifier_char('a'));
    assert!(is_identifier_char('_'));
    assert!(is_identifier_char('9'));
    assert!(is_identifier_char('变'));
    assert!(!is_identifier_char(' '));
    assert!(!is_identifier_char('.'));
    assert!(!is_identifier_char('('));
}

#[test]
fn ranges_and_positions() {
    let r = char_range_on_line(3, 1, 4);
    assert_eq!((r.start.line, r.start.character, r.end.line, r.end.character), (3, 1, 3, 4));
    let p = pos_to_lsp(qi_lsp::position::DocumentPosition { line: 2, character: 7 });
    assert_eq!(p, Position { line: 2, character: 7 });
}
