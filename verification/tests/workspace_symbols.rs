use qi_lsp::ast::{
    AstNode, BasicType, EnumDeclaration, EnumVariant, FunctionDeclaration, Parameter, Program, Span,
    StructDeclaration, StructField, TypeAnnotation, TypeNode, VariableDeclaration,
};
use qi_lsp::document::DocumentManager;
use qi_lsp::document_symbols::SymbolKind;
use qi_lsp::position::{Position, Range};
use qi_lsp::workspace_symbols::{
    create_workspace_symbol, find_symbols_in_document, find_workspace_symbols, format_parameters,
    matches_query, sort_symbols,
};

fn sp(start: usize, end: usize) -> Span {
    Span { start, end }
}

fn func(name: &str) -> AstNode {
    AstNode::FunctionDecl(FunctionDeclaration {
        name: name.to_string(),
        parameters: vec![Parameter {
            name: "a".to_string(),
            type_annotation: Some(TypeAnnotation { node: TypeNode::Basic(BasicType::Integer), debug: String::new() }),
            span: sp(0, 1),
        }],
        return_type: None,
        body: Vec::new(),
        span: sp(0, 3),
    })
}

fn names(v: &[qi_lsp::workspace_symbols::WorkspaceSymbol]) -> Vec<String> {
    v.iter().map(|s| s.name.clone()).collect()
}

fn program(statements: Vec<AstNode>) -> Program {
    Program { package_name: None, imports: Vec::new(), statements }
}

#[test]
fn query_matching_ignores_case_and_star_matches_all() {
    assert!(matches_query("Hello", "*"));
    assert!(matches_query("Hello", "hello"));
    assert!(matches_query("Hello", "ELL"));
    assert!(!matches_query("Hello", "world"));
    assert!(matches_query("计算总和", "总和"));
}

fn range(l0: u32, c0: u32, l1: u32, c1: u32) -> Range {
    Range { start: Position { line: l0, character: c0 }, end: Position { line: l1, character: c1 } }
}

#[test]
fn symbol_records_and_parameters() {
    let mut dm = DocumentManager::new();
    dm.open_document("file:///w.qi", "ab\n变量 函数f;\n".to_string(), Ok(program(Vec::new())));
    let s = create_workspace_symbol("f".to_string(), SymbolKind::Function, "file:///w.qi", sp(2, 5), "d".to_string(), &dm);
    assert_eq!(s.uri, "file:///w.qi");
    assert_eq!(s.range, range(0, 2, 1, 1));
    assert_eq!(s.container_name.as_deref(), Some("d"));
    // Columns count UTF-16 units within the symbol's line.
    let s = create_workspace_symbol("f".to_string(), SymbolKind::Function, "file:///w.qi", sp(10, 17), "d".to_string(), &dm);
    assert_eq!(s.range, range(1, 3, 1, 6));
    // A document that is not open places the symbol at its first character.
    let s = create_workspace_symbol("f".to_string(), SymbolKind::Function, "file:///gone.qi", sp(2, 5), "d".to_string(), &dm);
    assert_eq!(s.range, range(0, 0, 0, 1));
    let ps = vec![
        Parameter { name: "a".to_string(), type_annotation: Some(TypeAnnotation { node: TypeNode::Basic(BasicType::Text), debug: String::new() }), span: sp(0, 0) },
        Parameter { name: "b".to_string(), type_annotation: None, span: sp(0, 0) },
    ];
    assert_eq!(format_parameters(&ps), "a: 字符串, b: _");
    assert_eq!(format_parameters(&Vec::new()), "");
}

#[test]
fn members_of_matching_declarations() {
    let st = AstNode::StructDecl(StructDeclaration {
        name: "Point".to_string(),
        fields: vec![StructField { name: "px".to_string(), type_annotation: TypeAnnotation { node: TypeNode::Basic(BasicType::Integer), debug: String::new() }, span: sp(0, 1) }],
        methods: Vec::new(),
        span: sp(0, 5),
    });
    let en = AstNode::EnumDecl(EnumDeclaration {
        name: "Pole".to_string(),
        variants: vec![EnumVariant { name: "North".to_string(), span: sp(0, 1) }, EnumVariant { name: "Pa".to_string(), span: sp(0, 1) }],
        span: sp(0, 4),
    });
    let dm = DocumentManager::new();
    let syms = find_symbols_in_document("file:///w.qi", &program(vec![st, en, func("pfun")]), "p", &dm);
    assert_eq!(names(&syms), vec!["Point", "Point.px", "Pole", "Pole.Pa", "pfun"]);
    assert_eq!(syms[0].container_name.as_deref(), Some("结构体 (1 个字段)"));
    assert_eq!(syms[1].container_name.as_deref(), Some("字段: px (整数)"));
    assert_eq!(syms[2].container_name.as_deref(), Some("枚举 (2 个变体)"));
    assert_eq!(syms[3].kind, SymbolKind::EnumMember);
    assert_eq!(syms[4].container_name.as_deref(), Some("函数 pfun(a: 整数)"));
}

#[test]
fn exact_matches_first_then_prefix_then_others() {
    let mut dm = DocumentManager::new();
    let add = AstNode::VariableDecl(VariableDeclaration {
        name: "add".to_string(),
        type_annotation: None,
        initializer: None,
        is_mutable: false,
        span: sp(0, 3),
    });
    dm.open_document("file:///w.qi", "x\n".to_string(), Ok(program(vec![func("xadd"), func("adder"), add, func("other")])));
    let r = find_workspace_symbols("add", &dm);
    assert_eq!(names(&r), vec!["add", "adder", "xadd"]);
    assert_eq!(r[0].kind, SymbolKind::Constant);
    assert_eq!(r[0].container_name.as_deref(), Some("变量: add (自动推断)"));
    let all = find_workspace_symbols("", &dm);
    assert_eq!(names(&all), vec!["add", "adder", "other", "xadd"]);
}

#[test]
fn sorting_is_stable_for_equal_names() {
    let dm = DocumentManager::new();
    let a = create_workspace_symbol("Same".to_string(), SymbolKind::Function, "file:///a.qi", sp(0, 1), "1".to_string(), &dm);
    let b = create_workspace_symbol("same".to_string(), SymbolKind::Function, "file:///a.qi", sp(0, 1), "2".to_string(), &dm);
    let c = create_workspace_symbol("sam".to_string(), SymbolKind::Function, "file:///a.qi", sp(0, 1), "3".to_string(), &dm);
    let sorted = sort_symbols(vec![c, a, b], "same");
    assert_eq!(
        sorted.iter().map(|s| s.container_name.clone().unwrap()).collect::<Vec<_>>(),
        vec!["1", "2", "3"]
    );
}

#[test]
fn at_most_a_hundred_results() {
    let fields: Vec<StructField> = (0..120)
        .map(|i| StructField {
            name: format!("f{}", i),
            type_annotation: TypeAnnotation { node: TypeNode::Basic(BasicType::Integer), debug: String::new() },
            span: sp(0, 1),
        })
        .collect();
    let st = AstNode::StructDecl(StructDeclaration { name: "Big".to_string(), fields, methods: Vec::new(), span: sp(0, 3) });
    let mut dm = DocumentManager::new();
    dm.open_document("file:///big.qi", "x\n".to_string(), Ok(program(vec![st])));
    assert_eq!(find_workspace_symbols("*", &dm).len(), 100);
}
