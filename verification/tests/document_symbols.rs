use qi_lsp::ast::{
    AstNode, BasicType, EnumDeclaration, EnumVariant, FunctionDeclaration, Parameter, Program, Span,
    StructDeclaration, StructField, TypeAnnotation, TypeNode, VariableDeclaration,
};
use qi_lsp::document::DocumentManager;
use qi_lsp::document_symbols::{
    find_document_symbols, format_enum_signature, format_function_signature, format_struct_signature,
    DocumentSymbol, SymbolKind,
};
use qi_lsp::position::{Position, Range};

fn ty(b: BasicType, debug: &str) -> TypeAnnotation {
    TypeAnnotation { node: TypeNode::Basic(b), debug: debug.to_string() }
}

fn sp(start: usize, end: usize) -> Span {
    Span { start, end }
}

fn range(l0: u32, c0: u32, l1: u32, c1: u32) -> Range {
    Range { start: Position { line: l0, character: c0 }, end: Position { line: l1, character: c1 } }
}

fn main_fn() -> FunctionDeclaration {
    FunctionDeclaration {
        name: "main".to_string(),
        parameters: vec![Parameter { name: "x".to_string(), type_annotation: Some(ty(BasicType::Integer, "整数")), span: sp(0, 1) }],
        return_type: Some(ty(BasicType::Void, "空")),
        body: vec![AstNode::VariableDecl(VariableDeclaration {
            name: "count".to_string(),
            type_annotation: Some(ty(BasicType::Integer, "整数")),
            initializer: None,
            is_mutable: true,
            span: sp(0, 4),
        })],
        span: sp(0, 4),
    }
}

fn point() -> StructDeclaration {
    StructDeclaration {
        name: "Point".to_string(),
        fields: vec![StructField { name: "x".to_string(), type_annotation: ty(BasicType::Integer, "整数"), span: sp(5, 6) }],
        methods: Vec::new(),
        span: sp(5, 10),
    }
}

fn color() -> EnumDeclaration {
    EnumDeclaration {
        name: "Color".to_string(),
        variants: vec![EnumVariant { name: "Red".to_string(), span: sp(11, 12) }, EnumVariant { name: "Green".to_string(), span: sp(12, 13) }],
        span: sp(11, 16),
    }
}

fn summary(s: &DocumentSymbol) -> (String, SymbolKind, Option<String>, Range) {
    (s.name.clone(), s.kind, s.detail.clone(), s.range)
}

#[test]
fn signatures() {
    assert_eq!(format_function_signature(&main_fn()), "函数 main(x: Some(整数)): 空");
    assert_eq!(format_struct_signature(&point()), "结构体 Point { x: 整数 }");
    assert_eq!(format_enum_signature(&color()), "枚举 Color { Red | Green }");
}

#[test]
fn outline_of_a_document() {
    let mut dm = DocumentManager::new();
    let uri = "file:///o.qi";
    let ast = Program {
        package_name: None,
        imports: Vec::new(),
        statements: vec![
            AstNode::FunctionDecl(main_fn()),
            AstNode::StructDecl(point()),
            AstNode::EnumDecl(color()),
            AstNode::Other,
        ],
    };
    dm.open_document(uri, "main\nPoint\nColor\n".to_string(), Ok(ast));
    let syms = find_document_symbols(uri, &dm);
    assert_eq!(syms.len(), 3);
    assert_eq!(
        summary(&syms[0]),
        ("main".to_string(), SymbolKind::Function, Some("函数 main(x: Some(整数)): 空".to_string()), range(0, 0, 0, 4))
    );
    let kids = syms[0].children.as_ref().unwrap();
    assert_eq!(
        kids.iter().map(summary).collect::<Vec<_>>(),
        vec![
            ("x".to_string(), SymbolKind::Variable, Some("Some(整数)".to_string()), range(0, 0, 0, 1)),
            ("count".to_string(), SymbolKind::Variable, Some("整数".to_string()), range(0, 0, 0, 4)),
        ]
    );
    assert_eq!(summary(&syms[1]).3, range(1, 0, 1, 5));
    let fields = syms[1].children.as_ref().unwrap();
    assert_eq!(summary(&fields[0]), ("x".to_string(), SymbolKind::Field, Some("整数".to_string()), range(1, 0, 1, 1)));
    let variants = syms[2].children.as_ref().unwrap();
    assert_eq!(
        variants.iter().map(|v| (v.name.clone(), v.kind)).collect::<Vec<_>>(),
        vec![("Red".to_string(), SymbolKind::EnumMember), ("Green".to_string(), SymbolKind::EnumMember)]
    );
    assert!(find_document_symbols("file:///missing.qi", &dm).is_empty());
}
