use qi_lsp::excerpt::get_text_in_range;
use qi_lsp::position::{Position, Range};

fn range(l0: u32, c0: u32, l1: u32, c1: u32) -> Range {
    Range { start: Position { line: l0, character: c0 }, end: Position { line: l1, character: c1 } }
}

#[test]
fn text_of_edit_ranges() {
    let content = "a\r\n变量 x\nlast\r";
    assert_eq!(get_text_in_range(content, range(1, 0, 1, 6)), "变量");
    assert_eq!(get_text_in_range(content, range(1, 7, 1, 8)), "x");
    assert_eq!(get_text_in_range(content, range(0, 0, 0, 1)), "a");
    assert_eq!(get_text_in_range(content, range(2, 0, 2, 5)), "last\r");
    assert_eq!(get_text_in_range(content, range(1, 3, 2, 1)), "量 x ...");
}

#[test]
fn placeholder_when_the_text_is_not_there() {
    let content = "a\n\nb\n";
    assert_eq!(get_text_in_range(content, range(5, 0, 5, 1)), "[无法提取文本]");
    assert_eq!(get_text_in_range(content, range(0, 0, 0, 5)), "[无法提取文本]");
    assert_eq!(get_text_in_range(content, range(0, 3, 1, 0)), "[无法提取文本]");
    assert_eq!(get_text_in_range(content, range(1, 0, 1, 0)), "");
    assert_eq!(get_text_in_range(content, range(3, 0, 3, 0)), "[无法提取文本]");
}
