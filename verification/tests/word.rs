use qi_lsp::document::DocumentManager;
use qi_lsp::position::Position;
use qi_lsp::word::{get_method_call_info, get_word_at_position, is_word_char, method_call_at, word_at};

#[test]
fn word_characters() {
    assert!(is_word_char('a'));
    assert!(is_word_char('_'));
    assert!(is_word_char('7'));
    assert!(is_word_char('名'));
    assert!(!is_word_char('-'));
    assert!(!is_word_char('.'));
    assert!(!is_word_char(' '));
}

#[test]
fn words_around_a_cursor() {
    assert_eq!(word_at("let foo = 1", 5), Some("foo".to_string()));
    assert_eq!(word_at("let foo = 1", 4), Some("foo".to_string()));
    assert_eq!(word_at("let foo = 1", 3), Some("let".to_string()));
    assert_eq!(word_at("a  b", 2), None);
    assert_eq!(word_at("ab", 2), None);
    assert_eq!(word_at("变量 名字 = 1", 1), Some("变量".to_string()));
    assert_eq!(word_at("变量 名字 = 1", 4), Some("名字".to_string()));
    assert_eq!(word_at("变量", 2), None);
}

#[test]
fn method_calls_around_a_cursor() {
    let line = "x = tools.add(1)";
    assert_eq!(method_call_at(line, 11), Some(("tools".to_string(), "add".to_string())));
    assert_eq!(method_call_at("x = tools .add(1)", 12), Some(("tools".to_string(), "add".to_string())));
    assert_eq!(method_call_at(line, 6), None);
    assert_eq!(method_call_at(".add", 2), None);
    assert_eq!(method_call_at("工具包.加法()", 4), Some(("工具包".to_string(), "加法".to_string())));
}

#[test]
fn lookups_in_documents() {
    let mut dm = DocumentManager::new();
    let uri = "file:///w.qi";
    dm.open_document(uri, "x = tools.add(1)\n变量 名字 = 1\n工具包.加法()\n".to_string(), Err(qi_lsp::ast::ParseError::ParseFailed));
    let p = Position { line: 0, character: 11 };
    assert_eq!(get_word_at_position(uri, p, &dm), Some("add".to_string()));
    assert_eq!(get_method_call_info(uri, p, &dm), Some(("tools".to_string(), "add".to_string())));
    assert_eq!(get_word_at_position(uri, Position { line: 1, character: 1 }, &dm), Some("变量".to_string()));
    assert_eq!(
        get_method_call_info(uri, Position { line: 2, character: 4 }, &dm),
        Some(("工具包".to_string(), "加法".to_string()))
    );
    assert_eq!(get_word_at_position(uri, Position { line: 4, character: 0 }, &dm), None);
}
