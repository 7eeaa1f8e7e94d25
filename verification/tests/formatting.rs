use qi_lsp::formatting::{position_to_byte_offset, slice_by_range};
use qi_lsp::position::{Position, Range};

#[test]
fn slice_extracts_simple_range() {
    let src = "包 主程序;\n变量 x: 整数 = 1;\n";
    let line1_bytes = "变量 x: 整数 = 1;".len();
    let r = Range {
        start: Position { line: 1, character: 0 },
        end: Position { line: 1, character: line1_bytes as u32 },
    };
    let s = slice_by_range(src, r).expect("slice");
    assert_eq!(s, "变量 x: 整数 = 1;");
}

#[test]
fn slice_out_of_bounds_returns_none() {
    let src = "x\n";
    let r = Range {
        start: Position { line: 5, character: 0 },
        end: Position { line: 5, character: 1 },
    };
    assert!(slice_by_range(src, r).is_none());
}

#[test]
fn position_to_byte_offset_handles_chinese() {
    let src = "变量\n";
    let off = position_to_byte_offset(src, Position { line: 0, character: 3 }).unwrap();
    assert_eq!(off, 3);
}

#[test]
fn byte_offsets_on_later_lines_and_line_ends() {
    let src = "ab\n变量\n";
    assert_eq!(position_to_byte_offset(src, Position { line: 0, character: 0 }), Some(0));
    assert_eq!(position_to_byte_offset(src, Position { line: 0, character: 2 }), Some(2));
    assert_eq!(position_to_byte_offset(src, Position { line: 1, character: 0 }), Some(3));
    assert_eq!(position_to_byte_offset(src, Position { line: 1, character: 6 }), Some(9));
    assert_eq!(position_to_byte_offset(src, Position { line: 2, character: 0 }), Some(10));
    // a column inside a character is not found
    assert_eq!(position_to_byte_offset(src, Position { line: 1, character: 1 }), None);
    // past the end of a line is not found
    assert_eq!(position_to_byte_offset(src, Position { line: 0, character: 3 }), None);
}

#[test]
fn reversed_range_gives_none_and_multi_line_slice() {
    let src = "ab\ncd\n";
    let back = Range {
        start: Position { line: 1, character: 1 },
        end: Position { line: 0, character: 1 },
    };
    assert!(slice_by_range(src, back).is_none());
    let across = Range {
        start: Position { line: 0, character: 1 },
        end: Position { line: 1, character: 1 },
    };
    assert_eq!(slice_by_range(src, across).as_deref(), Some("b\nc"));
}
