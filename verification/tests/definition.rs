use qi_lsp::ast::{AstNode, FunctionDeclaration, ImportStatement, Program, Span, VariableDeclaration};
use qi_lsp::definition::{
    find_definition, find_imported_package_location, find_references, search_statement_for_definition,
    span_to_range_in, strings_contain, Location,
};
use qi_lsp::document::DocumentManager;
use qi_lsp::packages::PackageSearch;
use qi_lsp::position::{Position, Range};

fn search_with(files: Vec<String>) -> PackageSearch {
    PackageSearch {
        packages_root: None,
        work_dir: None,
        home_dir: None,
        windows: false,
        existing_files: files,
    }
}

fn range(l0: u32, c0: u32, l1: u32, c1: u32) -> Range {
    Range { start: Position { line: l0, character: c0 }, end: Position { line: l1, character: c1 } }
}

fn loc(uri: &str, r: Range) -> Location {
    Location { uri: uri.to_string(), range: r }
}

fn workspace() -> DocumentManager {
    let mut dm = DocumentManager::new();
    let a = Program {
        package_name: None,
        imports: vec![ImportStatement {
            module_segments: vec!["工具".to_string()],
            items: None,
            span: Span { start: 0, end: 0 },
        }],
        statements: vec![
            AstNode::VariableDecl(VariableDeclaration {
                name: "old".to_string(),
                type_annotation: None,
                initializer: None,
                is_mutable: false,
                span: Span { start: 4, end: 7 },
            }),
            AstNode::ExpressionStmt {
                expression: Box::new(AstNode::FunctionCall {
                    callee: "helper".to_string(),
                    arguments: vec![AstNode::Identifier { name: "old".to_string(), span: Span { start: 19, end: 22 } }],
                    span: Span { start: 12, end: 18 },
                }),
            },
        ],
    };
    dm.open_document("file:///proj/a.qi", "let old = 1\nhelper(old)\n工具.run()\n".to_string(), Ok(a));
    let b = Program {
        package_name: None,
        imports: Vec::new(),
        statements: vec![AstNode::FunctionDecl(FunctionDeclaration {
            name: "helper".to_string(),
            parameters: Vec::new(),
            return_type: None,
            body: vec![AstNode::Identifier { name: "old".to_string(), span: Span { start: 12, end: 15 } }],
            span: Span { start: 3, end: 9 },
        })],
    };
    dm.open_document("file:///proj/b.qi", "fn helper\n  old\n".to_string(), Ok(b));
    dm
}

#[test]
fn span_offsets_become_line_and_column() {
    let text = "let old = 1\nold\n";
    assert_eq!(span_to_range_in(Span { start: 4, end: 7 }, text), Some(range(0, 4, 0, 7)));
    assert_eq!(span_to_range_in(Span { start: 12, end: 15 }, text), Some(range(1, 0, 1, 3)));
    assert_eq!(span_to_range_in(Span { start: 0, end: 1 }, ""), None);
}

#[test]
fn span_columns_count_utf16_units() {
    let text = "变量 x = 1;";
    assert_eq!(span_to_range_in(Span { start: 7, end: 8 }, text), Some(range(0, 3, 0, 4)));
    // A character outside the basic plane takes two UTF-16 units.
    let text = "😀a\n好b";
    assert_eq!(span_to_range_in(Span { start: 4, end: 5 }, text), Some(range(0, 2, 0, 3)));
    assert_eq!(span_to_range_in(Span { start: 6, end: 10 }, text), Some(range(1, 0, 1, 2)));
}

#[test]
fn definition_in_same_document() {
    let dm = workspace();
    let r = find_definition("file:///proj/a.qi", Position { line: 0, character: 5 }, &dm, &search_with(Vec::new()));
    assert_eq!(r, Some(loc("file:///proj/a.qi", range(0, 4, 0, 7))));
    let r = find_definition("file:///proj/a.qi", Position { line: 0, character: 9 }, &dm, &search_with(Vec::new()));
    assert_eq!(r, None);
}

#[test]
fn definition_in_other_open_document() {
    let dm = workspace();
    let r = find_definition("file:///proj/a.qi", Position { line: 1, character: 2 }, &dm, &search_with(Vec::new()));
    assert_eq!(r, Some(loc("file:///proj/b.qi", range(0, 3, 0, 9))));
}

#[test]
fn definition_of_imported_package_file() {
    let search = search_with(vec!["/proj/tools/tools.qi".to_string()]);
    let r = find_imported_package_location(&vec!["tools".to_string()], "file:///proj/a.qi", &search);
    assert_eq!(r, Some(loc("file:///proj/tools/tools.qi", range(0, 0, 0, 0))));
    let none = search_with(Vec::new());
    assert_eq!(find_imported_package_location(&vec!["tools".to_string()], "file:///proj/a.qi", &none), None);
    assert_eq!(find_imported_package_location(&vec!["tools".to_string()], "untitled:a", &search), None);
    // a file whose URI does not parse (raw non-ASCII characters) gives no location
    let cjk = search_with(vec!["/proj/工具.qi".to_string()]);
    assert_eq!(find_imported_package_location(&vec!["工具".to_string()], "file:///proj/a.qi", &cjk), None);
    assert!(strings_contain(&vec!["/proj/工具.qi".to_string()], "/proj/工具.qi"));
    assert!(!strings_contain(&Vec::new(), "x"));
}

#[test]
fn statement_search_looks_into_blocks_not_function_bodies() {
    let dm = workspace();
    let inner = || {
        AstNode::VariableDecl(VariableDeclaration {
            name: "inner".to_string(),
            type_annotation: None,
            initializer: None,
            is_mutable: true,
            span: Span { start: 0, end: 3 },
        })
    };
    let block = AstNode::Block { statements: vec![inner()] };
    assert_eq!(
        search_statement_for_definition("inner", "file:///proj/a.qi", &block, &dm),
        Some(loc("file:///proj/a.qi", range(0, 0, 0, 3)))
    );
    let f = AstNode::FunctionDecl(FunctionDeclaration {
        name: "outer".to_string(),
        parameters: Vec::new(),
        return_type: None,
        body: vec![inner()],
        span: Span { start: 3, end: 9 },
    });
    assert_eq!(search_statement_for_definition("inner", "file:///proj/a.qi", &f, &dm), None);
    assert_eq!(
        search_statement_for_definition("outer", "file:///proj/a.qi", &f, &dm),
        Some(loc("file:///proj/a.qi", range(0, 3, 0, 9)))
    );
}

#[test]
fn references_in_current_then_other_documents() {
    let dm = workspace();
    let refs = find_references("old", "file:///proj/a.qi", Position { line: 0, character: 5 }, &dm);
    assert_eq!(
        refs,
        vec![loc("file:///proj/a.qi", range(1, 7, 1, 10)), loc("file:///proj/b.qi", range(1, 2, 1, 5))]
    );
    let refs = find_references("helper", "file:///proj/a.qi", Position { line: 1, character: 0 }, &dm);
    assert_eq!(refs, vec![loc("file:///proj/a.qi", range(1, 0, 1, 6))]);
}

#[test]
fn definition_through_an_imported_package() {
    let mut dm = DocumentManager::new();
    let a = Program {
        package_name: None,
        imports: vec![ImportStatement { module_segments: vec!["tools".to_string()], items: None, span: Span { start: 0, end: 0 } }],
        statements: Vec::new(),
    };
    dm.open_document("file:///proj/a.qi", "tools.run()\n".to_string(), Ok(a));
    let pkg = Program {
        package_name: None,
        imports: Vec::new(),
        statements: vec![AstNode::FunctionDecl(FunctionDeclaration {
            name: "run".to_string(),
            parameters: Vec::new(),
            return_type: None,
            body: Vec::new(),
            span: Span { start: 3, end: 6 },
        })],
    };
    dm.open_document("file:///proj/tools.qi", "fn run\n".to_string(), Ok(pkg));
    let search = search_with(vec!["/proj/tools.qi".to_string()]);
    let on_method = find_definition("file:///proj/a.qi", Position { line: 0, character: 7 }, &dm, &search);
    assert_eq!(on_method, Some(loc("file:///proj/tools.qi", range(0, 3, 0, 6))));
    let on_module = find_definition("file:///proj/a.qi", Position { line: 0, character: 2 }, &dm, &search);
    assert_eq!(on_module, Some(loc("file:///proj/tools.qi", range(0, 0, 0, 0))));
}
