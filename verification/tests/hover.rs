use qi_lsp::ast::{
    AstNode, BasicType, FunctionDeclaration, Parameter, ParseError, Program, Span, TypeAnnotation,
    TypeNode, VariableDeclaration,
};
use qi_lsp::document::DocumentManager;
use qi_lsp::hover::{
    create_function_hover, create_symbol_hover, create_variable_hover, get_hover_info,
    get_keyword_hover_info, get_symbol_hover_info, get_type_hover_info, Hover, HoverContents,
    SymbolInfo, SymbolType,
};
use qi_lsp::position::Position;

fn ty(b: BasicType) -> TypeAnnotation {
    TypeAnnotation { node: TypeNode::Basic(b), debug: String::new() }
}

fn sp(start: usize, end: usize) -> Span {
    Span { start, end }
}

fn texts(h: &Hover) -> Vec<String> {
    match &h.contents {
        HoverContents::Array(v) => v.clone(),
        HoverContents::Scalar(s) => vec![s.clone()],
    }
}

fn sample_program() -> Program {
    let var = AstNode::VariableDecl(VariableDeclaration {
        name: "count".to_string(),
        type_annotation: Some(ty(BasicType::Integer)),
        initializer: None,
        is_mutable: true,
        span: sp(0, 5),
    });
    let func = AstNode::FunctionDecl(FunctionDeclaration {
        name: "add".to_string(),
        parameters: vec![
            Parameter { name: "a".to_string(), type_annotation: Some(ty(BasicType::Integer)), span: sp(0, 1) },
            Parameter { name: "b".to_string(), type_annotation: None, span: sp(0, 1) },
        ],
        return_type: Some(ty(BasicType::Integer)),
        body: Vec::new(),
        span: sp(6, 20),
    });
    Program { package_name: None, imports: Vec::new(), statements: vec![var, func] }
}

#[test]
fn keyword_hover_shows_kind_and_usage() {
    let h = get_keyword_hover_info("函数").unwrap();
    assert!(matches!(h.contents, HoverContents::Array(_)));
    assert_eq!(h.range, None);
    assert_eq!(
        texts(&h),
        vec![
            "**function declaration**".to_string(),
            "```qi\n函数 name() {\n    // function body\n}\n\ndeclares a new function\n```".to_string(),
        ]
    );
    assert!(get_keyword_hover_info("名字").is_none());
}

#[test]
fn type_hover_shows_rust_type_and_range() {
    let h = get_type_hover_info("字节").unwrap();
    assert_eq!(texts(&h), vec!["**Type: u8**".to_string(), "8-bit unsigned integer\n\n范围: 0 到 255".to_string()]);
    assert!(get_type_hover_info("变量").is_none());
}

#[test]
fn variable_and_function_hover_texts() {
    let v = create_variable_hover("x", "整数", false);
    assert_eq!(v.contents, HoverContents::Scalar("**不可变** `x`: 整数".to_string()));
    let f = create_function_hover("f", &vec!["a: 整数".to_string(), "b: 字符串".to_string()], Some("布尔"));
    assert_eq!(f.contents, HoverContents::Scalar("函数 f(a: 整数, b: 字符串) -> 布尔\n\n函数定义".to_string()));
    let g = create_function_hover("g", &Vec::new(), None);
    assert_eq!(g.contents, HoverContents::Scalar("函数 g()\n\n函数定义".to_string()));
}

#[test]
fn symbol_hover_for_each_kind() {
    let info = SymbolInfo {
        name: "Point".to_string(),
        symbol_type: SymbolType::Struct { fields: vec!["x: 整数".to_string(), "y: 整数".to_string()] },
        description: "结构体: Point".to_string(),
        documentation: None,
        span: sp(0, 0),
    };
    assert_eq!(
        texts(&create_symbol_hover("Point", info)),
        vec!["**结构体: Point**".to_string(), "字段:\n  x: 整数\n  y: 整数".to_string()]
    );
    let info = SymbolInfo {
        name: "E".to_string(),
        symbol_type: SymbolType::Enum { variants: Vec::new() },
        description: "枚举: E".to_string(),
        documentation: Some("doc".to_string()),
        span: sp(0, 0),
    };
    assert_eq!(
        texts(&create_symbol_hover("E", info)),
        vec!["**枚举: E**".to_string(), "空枚举".to_string(), "\ndoc".to_string()]
    );
}

#[test]
fn symbol_hover_from_syntax_tree() {
    let ast = sample_program();
    let p = Position { line: 0, character: 0 };
    let h = get_symbol_hover_info("count", &ast, p).unwrap();
    assert_eq!(
        texts(&h),
        vec![
            "**可变变量: count**".to_string(),
            "类型: 整数".to_string(),
            "可变性: 可变".to_string(),
            "\n变量声明".to_string(),
        ]
    );
    let h = get_symbol_hover_info("add", &ast, p).unwrap();
    assert_eq!(
        texts(&h),
        vec![
            "**函数: add**".to_string(),
            "```qi\nadd(a: 整数, b: _) -> 整数\n```".to_string(),
            "\n函数声明".to_string(),
        ]
    );
    let h = get_symbol_hover_info("nothing", &ast, p).unwrap();
    assert!(matches!(h.contents, HoverContents::Scalar(ref s) if s.starts_with("**未找到符号**: `nothing`")));
}

#[test]
fn hover_at_position_prefers_keyword_then_symbol() {
    let mut dm = DocumentManager::new();
    let uri = "file:///h.qi".to_string();
    dm.open_document(&uri, "count = add(1, 2)\n".to_string(), Ok(sample_program()));
    let h = get_hover_info(&uri, Position { line: 0, character: 2 }, &dm).unwrap();
    assert_eq!(texts(&h)[0], "**可变变量: count**");
    let h = get_hover_info(&uri, Position { line: 0, character: 9 }, &dm).unwrap();
    assert_eq!(texts(&h)[0], "**函数: add**");
    assert!(get_hover_info(&uri, Position { line: 0, character: 6 }, &dm).is_none());
    let mut dm2 = DocumentManager::new();
    dm2.open_document(&uri, "x\n".to_string(), Err(ParseError::UnexpectedEof));
    assert!(get_hover_info(&uri, Position { line: 0, character: 0 }, &dm2).is_none());
}

#[test]
fn hover_on_a_builtin_type_shows_its_type_documentation() {
    let mut dm = DocumentManager::new();
    let uri = "file:///t.qi".to_string();
    dm.open_document(&uri, "变量 x: 整数 = 1;\n".to_string(), Ok(sample_program()));
    let h = get_hover_info(&uri, Position { line: 0, character: 7 }, &dm).unwrap();
    assert_eq!(
        texts(&h),
        vec!["**Type: i32**".to_string(), "32-bit signed integer\n\n范围: -2,147,483,648 到 2,147,483,647".to_string()]
    );
    let h = get_hover_info(&uri, Position { line: 0, character: 1 }, &dm).unwrap();
    assert_eq!(texts(&h)[0], "**variable declaration**");
}
