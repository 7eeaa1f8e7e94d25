use qi_lsp::ast::{ParseError, Program};
use qi_lsp::document::DocumentManager;
use qi_lsp::position::{DocumentPosition, DocumentRange, Position, Range};

fn empty_program() -> Program {
    Program { package_name: None, imports: Vec::new(), statements: Vec::new() }
}

fn pos(line: usize, character: usize) -> DocumentPosition {
    DocumentPosition { line, character }
}

#[test]
fn open_read_update_close() {
    let mut dm = DocumentManager::new();
    let uri = "file:///a.qi";
    assert!(!dm.has_document(uri));
    dm.open_document(uri, "包 主程序;\n".to_string(), Ok(empty_program()));
    assert!(dm.has_document(uri));
    assert_eq!(dm.get_document_content(uri).unwrap(), "包 主程序;\n");
    let d = dm.get_document(uri).unwrap();
    assert_eq!((d.version, d.language_id.as_str(), d.uri.as_str()), (1, "qi", uri));
    assert!(dm.get_document_ast(uri).is_some());
    assert!(dm.get_document_errors(uri).is_none());

    dm.update_document(uri, "x\ny", Err(ParseError::UnexpectedEof));
    let d = dm.get_document(uri).unwrap();
    assert_eq!(d.version, 2);
    assert_eq!(dm.get_document_content(uri).unwrap(), "x\ny");
    assert!(dm.get_document_ast(uri).is_none());
    assert_eq!(dm.get_document_errors(uri).unwrap().len(), 1);

    dm.update_document("file:///missing.qi", "z", Ok(empty_program()));
    assert!(!dm.has_document("file:///missing.qi"));

    dm.close_document(uri);
    assert!(!dm.has_document(uri));
    assert!(dm.get_document_content(uri).is_none());
}

#[test]
fn all_uris_each_once() {
    let mut dm = DocumentManager::default();
    dm.open_document("file:///a.qi", String::new(), Ok(empty_program()));
    dm.open_document("file:///b.qi", String::new(), Ok(empty_program()));
    dm.open_document("file:///a.qi", "x".to_string(), Ok(empty_program()));
    let mut uris = dm.get_all_uris();
    uris.sort();
    assert_eq!(uris, vec!["file:///a.qi".to_string(), "file:///b.qi".to_string()]);
}

#[test]
fn positions_and_offsets() {
    let mut dm = DocumentManager::new();
    let uri = "file:///p.qi";
    dm.open_document(uri, "变量\nab\r\ncd".to_string(), Ok(empty_program()));
    assert_eq!(dm.position_to_offset(uri, pos(0, 0)), Some(0));
    assert_eq!(dm.position_to_offset(uri, pos(0, 1)), Some(3));
    assert_eq!(dm.position_to_offset(uri, pos(0, 3)), Some(7));
    assert_eq!(dm.position_to_offset(uri, pos(0, 4)), None);
    assert_eq!(dm.position_to_offset(uri, pos(1, 1)), Some(8));
    assert_eq!(dm.position_to_offset(uri, pos(2, 2)), Some(13));
    assert_eq!(dm.position_to_offset(uri, pos(3, 0)), None);
    assert_eq!(dm.offset_to_position(uri, 3), Some(pos(0, 1)));
    assert_eq!(dm.offset_to_position(uri, 8), Some(pos(1, 1)));
    assert_eq!(dm.offset_to_position(uri, 10), Some(pos(1, 3)));
    assert_eq!(dm.offset_to_position(uri, 11), Some(pos(2, 0)));
    assert_eq!(dm.offset_to_position(uri, 1), None);
    assert_eq!(dm.offset_to_position(uri, 14), None);
    for o in [0, 3, 6, 7, 8, 9, 10, 11, 12, 13] {
        let p = dm.offset_to_position(uri, o).unwrap();
        assert_eq!(dm.position_to_offset(uri, p), Some(o));
    }
    assert_eq!(dm.get_line_content(uri, 1).unwrap(), "ab\r\n");
    assert_eq!(dm.get_line_content(uri, 2).unwrap(), "cd");
    assert!(dm.get_line_content(uri, 3).is_none());
    let r = DocumentRange { start: pos(0, 1), end: pos(1, 2) };
    assert_eq!(dm.get_range_text(uri, r).unwrap(), "量\nab");
    let back = DocumentRange { start: pos(1, 2), end: pos(0, 1) };
    assert!(dm.get_range_text(uri, back).is_none());
}

#[test]
fn unicode_line_breaks_count_as_lines() {
    let mut dm = DocumentManager::new();
    let uri = "file:///u.qi";
    dm.open_document(uri, "a\u{2028}b\rc".to_string(), Ok(empty_program()));
    assert_eq!(dm.get_line_content(uri, 1).unwrap(), "b\r");
    assert_eq!(dm.get_line_content(uri, 2).unwrap(), "c");
}

#[test]
fn position_conversions() {
    let p = Position { line: 4, character: 9 };
    let d: DocumentPosition = p.into();
    assert_eq!(d, pos(4, 9));
    let back: Position = d.into();
    assert_eq!(back, p);
    let r = Range { start: Position { line: 1, character: 2 }, end: Position { line: 3, character: 4 } };
    let dr: DocumentRange = r.into();
    assert_eq!(dr, DocumentRange { start: pos(1, 2), end: pos(3, 4) });
    let rr: Range = dr.into();
    assert_eq!(rr, r);
}

#[test]
fn lines_join_back_to_the_text() {
    let mut dm = DocumentManager::new();
    let uri = "file:///lines.qi";
    let text = "变量 a\nb\r\nc\rd\u{2028}e\n";
    dm.open_document(uri, text.to_string(), Ok(empty_program()));
    let mut joined = String::new();
    let mut line = 0;
    while let Some(t) = dm.get_line_content(uri, line) {
        joined.push_str(&t);
        line += 1;
    }
    assert_eq!(line, 6);
    assert_eq!(joined, text);
}
