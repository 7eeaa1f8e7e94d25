use qi_lsp::ast::{AstNode, Program, Span, VariableDeclaration};
use qi_lsp::document::DocumentManager;
use qi_lsp::packages::PackageSearch;
use qi_lsp::position::{Position, Range};
use qi_lsp::rename::{
    has_symbol_conflict, is_qi_keyword, is_rename_safe, is_valid_identifier, perform_rename,
    DocumentEdits, TextEdit, WorkspaceEdit,
};

fn no_search() -> PackageSearch {
    PackageSearch {
        packages_root: None,
        work_dir: None,
        home_dir: None,
        windows: false,
        existing_files: Vec::new(),
    }
}

fn var(name: &str, start: usize, end: usize) -> AstNode {
    AstNode::VariableDecl(VariableDeclaration {
        name: name.to_string(),
        type_annotation: None,
        initializer: None,
        is_mutable: false,
        span: Span { start, end },
    })
}

fn ident(name: &str, start: usize, end: usize) -> AstNode {
    AstNode::ExpressionStmt {
        expression: Box::new(AstNode::Identifier { name: name.to_string(), span: Span { start, end } }),
    }
}

fn range(l0: u32, c0: u32, l1: u32, c1: u32) -> Range {
    Range { start: Position { line: l0, character: c0 }, end: Position { line: l1, character: c1 } }
}

fn doc() -> (DocumentManager, String) {
    let mut dm = DocumentManager::new();
    let uri = "file:///r.qi".to_string();
    let ast = Program {
        package_name: None,
        imports: Vec::new(),
        statements: vec![var("old", 4, 7), var("other", 16, 21), ident("old", 26, 29)],
    };
    dm.open_document(&uri, "let old = 1\nlet other = 2\nold\n".to_string(), Ok(ast));
    (dm, uri)
}

#[test]
fn keywords_and_identifiers() {
    assert!(is_qi_keyword("函数"));
    assert!(is_qi_keyword("无"));
    assert!(!is_qi_keyword("变量"));
    assert!(is_valid_identifier("名字"));
    assert!(is_valid_identifier("_x1"));
    assert!(is_valid_identifier("变量"));
    assert!(!is_valid_identifier(""));
    assert!(!is_valid_identifier("1abc"));
    assert!(!is_valid_identifier("a-b"));
    assert!(!is_valid_identifier("如果"));
}

#[test]
fn conflicts_and_safety() {
    let (dm, uri) = doc();
    let ast = dm.get_document_ast(&uri).unwrap();
    assert!(has_symbol_conflict(&ast, "other"));
    assert!(!has_symbol_conflict(&ast, "fresh"));
    assert!(is_rename_safe("old", "fresh", &dm));
    assert!(!is_rename_safe("old", "other", &dm));
    assert!(!is_rename_safe("函数", "fresh", &dm));
}

#[test]
fn rename_replaces_definition_and_uses() {
    let (dm, uri) = doc();
    let e = perform_rename(&uri, Position { line: 2, character: 1 }, "fresh", &dm, &no_search()).unwrap();
    let edit = |r: Range| TextEdit { range: r, new_text: "fresh".to_string() };
    assert_eq!(
        e,
        WorkspaceEdit {
            changes: Some(vec![DocumentEdits {
                uri: uri.clone(),
                edits: vec![edit(range(0, 4, 0, 7)), edit(range(2, 0, 2, 3))],
            }]),
        }
    );
}

#[test]
fn rename_refusals_and_empty_edits() {
    let (dm, uri) = doc();
    let at = Position { line: 2, character: 0 };
    let s = no_search();
    assert_eq!(perform_rename(&uri, at, "如果", &dm, &s), None);
    assert_eq!(perform_rename(&uri, at, "9x", &dm, &s), None);
    assert_eq!(perform_rename(&uri, at, "other", &dm, &s), None);
    assert_eq!(perform_rename(&uri, at, "old", &dm, &s), Some(WorkspaceEdit { changes: None }));
    assert_eq!(perform_rename(&uri, Position { line: 0, character: 9 }, "x", &dm, &s), None);
    assert_eq!(perform_rename("file:///none.qi", at, "x", &dm, &s), None);
}
