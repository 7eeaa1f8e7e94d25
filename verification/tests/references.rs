use qi_lsp::ast::{AstNode, Program, Span, VariableDeclaration};
use qi_lsp::definition::Location;
use qi_lsp::document::DocumentManager;
use qi_lsp::packages::PackageSearch;
use qi_lsp::position::{DocumentPosition, Position, Range};
use qi_lsp::references::find_all_references;

fn no_search() -> PackageSearch {
    PackageSearch { packages_root: None, work_dir: None, home_dir: None, windows: false, existing_files: Vec::new() }
}

fn loc(uri: &str, l0: u32, c0: u32, l1: u32, c1: u32) -> Location {
    Location {
        uri: uri.to_string(),
        range: Range { start: Position { line: l0, character: c0 }, end: Position { line: l1, character: c1 } },
    }
}

fn manager() -> DocumentManager {
    let mut dm = DocumentManager::new();
    let ast = Program {
        package_name: None,
        imports: Vec::new(),
        statements: vec![
            AstNode::VariableDecl(VariableDeclaration {
                name: "n".to_string(),
                type_annotation: None,
                initializer: None,
                is_mutable: false,
                span: Span { start: 4, end: 5 },
            }),
            AstNode::ExpressionStmt {
                expression: Box::new(AstNode::Binary {
                    left: Box::new(AstNode::Identifier { name: "n".to_string(), span: Span { start: 10, end: 11 } }),
                    right: Box::new(AstNode::ArrayAccess {
                        array: Box::new(AstNode::Identifier { name: "n".to_string(), span: Span { start: 14, end: 15 } }),
                        index: Box::new(AstNode::Other),
                    }),
                }),
            },
        ],
    };
    dm.open_document("file:///m.qi", "let n = 1\nn + n[0]\n".to_string(), Ok(ast));
    dm
}

#[test]
fn references_with_and_without_declaration() {
    let dm = manager();
    let at = DocumentPosition { line: 1, character: 0 };
    let with = find_all_references("file:///m.qi", at, true, &dm, &no_search());
    assert_eq!(
        with,
        vec![loc("file:///m.qi", 0, 4, 0, 5), loc("file:///m.qi", 1, 0, 1, 1), loc("file:///m.qi", 1, 4, 1, 5)]
    );
    let without = find_all_references("file:///m.qi", at, false, &dm, &no_search());
    assert_eq!(without, vec![loc("file:///m.qi", 1, 0, 1, 1), loc("file:///m.qi", 1, 4, 1, 5)]);
}

#[test]
fn no_references_off_a_word() {
    let dm = manager();
    let r = find_all_references("file:///m.qi", DocumentPosition { line: 1, character: 2 }, true, &dm, &no_search());
    assert!(r.is_empty());
    let r = find_all_references("file:///x.qi", DocumentPosition { line: 0, character: 0 }, false, &dm, &no_search());
    assert!(r.is_empty());
}
