use qi_lsp::ast::{
    AstNode, BasicType, ImportStatement, LiteralKind, ParseError, Program, Span, TypeAnnotation, TypeNode,
    VariableDeclaration,
};
use qi_lsp::diagnostics::{
    compute_diagnostics, convert_parse_error_to_diagnostic, create_error_diagnostic,
    create_hint_diagnostic, create_info_diagnostic, create_warning_diagnostic, span_to_range,
    Diagnostic, DiagnosticSeverity, DiagnosticsManager,
};
use qi_lsp::document::DocumentManager;
use qi_lsp::position::{Position, Range};
use qi_lsp::semantic::analyze_semantics;

fn range(l0: u32, c0: u32, l1: u32, c1: u32) -> Range {
    Range { start: Position { line: l0, character: c0 }, end: Position { line: l1, character: c1 } }
}

fn var(name: &str, start: usize, end: usize) -> AstNode {
    AstNode::VariableDecl(VariableDeclaration {
        name: name.to_string(),
        type_annotation: None,
        initializer: None,
        is_mutable: false,
        span: Span { start, end },
    })
}

fn summary(d: &Diagnostic) -> (Range, Option<DiagnosticSeverity>, Option<String>, Option<String>, String) {
    (d.range, d.severity, d.code.clone(), d.source.clone(), d.message.clone())
}

#[test]
fn parse_errors_become_one_character_errors() {
    let e = ParseError::UnexpectedToken { token: "x".to_string(), line: 3, column: 5 };
    let d = convert_parse_error_to_diagnostic(&e, "").unwrap();
    assert_eq!(
        summary(&d),
        (
            range(2, 4, 2, 5),
            Some(DiagnosticSeverity::Error),
            Some("parse-error".to_string()),
            Some("qi-compiler".to_string()),
            "意外的标记: x".to_string()
        )
    );
    let d = convert_parse_error_to_diagnostic(&ParseError::UnexpectedEof, "").unwrap();
    assert_eq!(d.range, range(0, 0, 0, 1));
    assert_eq!(d.message, "意外的文件结束");
    let e = ParseError::ExpectedToken { expected: ";".to_string(), found: "}".to_string(), line: 0, column: 0 };
    let d = convert_parse_error_to_diagnostic(&e, "").unwrap();
    assert_eq!((d.range, d.message), (range(0, 0, 0, 1), "期望 ; 但找到 }".to_string()));
}

#[test]
fn diagnostic_builders() {
    let r = range(1, 2, 1, 3);
    assert_eq!(create_warning_diagnostic("m", r, "c").severity, Some(DiagnosticSeverity::Warning));
    assert_eq!(create_error_diagnostic("m", r, "c").severity, Some(DiagnosticSeverity::Error));
    assert_eq!(create_info_diagnostic("m", r, "c").severity, Some(DiagnosticSeverity::Information));
    let h = create_hint_diagnostic("msg", r, "code");
    assert_eq!(
        summary(&h),
        (r, Some(DiagnosticSeverity::Hint), Some("code".to_string()), Some("qi-lsp".to_string()), "msg".to_string())
    );
    assert_eq!(span_to_range(Span { start: 2, end: 4 }, "ab\ncd\n"), Some(range(0, 2, 1, 1)));
}

#[test]
fn semantic_findings_in_order() {
    let mut dm = DocumentManager::new();
    let uri = "file:///d.qi";
    let ast = Program {
        package_name: None,
        imports: vec![ImportStatement { module_segments: Vec::new(), items: None, span: Span { start: 0, end: 3 } }],
        statements: vec![
            var("a", 4, 5),
            var("a", 14, 15),
            AstNode::ExpressionStmt { expression: Box::new(AstNode::Identifier { name: "b".to_string(), span: Span { start: 20, end: 21 } }) },
            AstNode::ExpressionStmt {
                expression: Box::new(AstNode::FunctionCall { callee: "foo".to_string(), arguments: Vec::new(), span: Span { start: 22, end: 25 } }),
            },
            var("_x", 28, 30),
        ],
    };
    let content = "let a = 1\nlet a = 2\nb\nfoo()\n_x\n";
    dm.open_document(uri, content.to_string(), Ok(ast));
    let ds = compute_diagnostics(uri, content, &dm);
    let got: Vec<(Range, Option<DiagnosticSeverity>, Option<String>, String)> =
        ds.iter().map(|d| (d.range, d.severity, d.code.clone(), d.message.clone())).collect();
    let err = Some(DiagnosticSeverity::Error);
    let warn = Some(DiagnosticSeverity::Warning);
    assert_eq!(
        got,
        vec![
            (range(0, 0, 0, 3), err, Some("empty-import-path".to_string()), "导入路径不能为空".to_string()),
            (range(1, 4, 1, 5), err, Some("duplicate-variable".to_string()), "变量 'a' 已在当前作用域中定义".to_string()),
            (range(2, 0, 2, 1), err, Some("undefined-symbol".to_string()), "未定义的符号: 'b'".to_string()),
            (range(3, 0, 3, 3), err, Some("undefined-function".to_string()), "未定义的函数: 'foo'".to_string()),
            (range(0, 4, 0, 5), warn, Some("unused-variable".to_string()), "未使用的变量: 'a'".to_string()),
            (range(1, 4, 1, 5), warn, Some("unused-variable".to_string()), "未使用的变量: 'a'".to_string()),
        ]
    );
    assert!(ds.iter().all(|d| d.source.as_deref() == Some("qi-semantic-analyzer")));
    let mut again = Vec::new();
    let ast = dm.get_document_ast(uri).unwrap();
    analyze_semantics(uri, &ast, &mut again, &dm);
    assert_eq!(again.len(), 6);
}

#[test]
fn used_variables_are_not_reported_and_parse_errors_come_first() {
    let mut dm = DocumentManager::new();
    let uri = "file:///e.qi";
    let ast = Program {
        package_name: Some("主程序".to_string()),
        imports: Vec::new(),
        statements: vec![
            var("n", 4, 5),
            AstNode::ExpressionStmt { expression: Box::new(AstNode::Identifier { name: "n".to_string(), span: Span { start: 10, end: 11 } }) },
        ],
    };
    dm.open_document(uri, "let n = 1\nn\n".to_string(), Ok(ast));
    assert!(compute_diagnostics(uri, "let n = 1\nn\n", &dm).is_empty());
    dm.open_document("file:///f.qi", "?".to_string(), Err(ParseError::General("bad".to_string())));
    let ds = compute_diagnostics("file:///f.qi", "?", &dm);
    assert_eq!(ds.len(), 1);
    assert_eq!(ds[0].message, "解析错误: bad");
    assert!(compute_diagnostics("file:///none.qi", "", &dm).is_empty());
    let mut mgr = DiagnosticsManager::new();
    mgr.clear_document_diagnostics(uri);
    mgr.clear_cache();
    let _ = DiagnosticsManager::default();
}

fn typed_literal(name: &str, t: BasicType, kind: LiteralKind, start: usize, end: usize) -> AstNode {
    AstNode::VariableDecl(VariableDeclaration {
        name: name.to_string(),
        type_annotation: Some(TypeAnnotation { node: TypeNode::Basic(t), debug: format!("Basic({:?})", t) }),
        initializer: Some(Box::new(AstNode::Literal { kind, span: Span { start: end - 1, end } })),
        is_mutable: false,
        span: Span { start, end },
    })
}

#[test]
fn literal_of_another_type_is_a_type_mismatch() {
    let mut dm = DocumentManager::new();
    let uri = "file:///t.qi";
    let content = "变量 x: 整数 = \"hello\";\n变量 y: 长整数 = 1;\n变量 z: 整数 = 真;\n";
    let ast = Program {
        package_name: None,
        imports: Vec::new(),
        statements: vec![
            typed_literal("x", BasicType::Integer, LiteralKind::Text, 0, 27),
            typed_literal("y", BasicType::LongInteger, LiteralKind::Integer, 28, 52),
            typed_literal("z", BasicType::Integer, LiteralKind::Boolean, 53, 76),
        ],
    };
    dm.open_document(uri, content.to_string(), Ok(ast));
    let ds = compute_diagnostics(uri, content, &dm);
    let errors: Vec<(Range, Option<String>, String)> = ds
        .iter()
        .filter(|d| d.severity == Some(DiagnosticSeverity::Error))
        .map(|d| (d.range, d.code.clone(), d.message.clone()))
        .collect();
    assert_eq!(
        errors,
        vec![
            (range(0, 0, 0, 19), Some("type-mismatch".to_string()), "类型不匹配: 期望 整数, 实际 字符串".to_string()),
            (range(2, 0, 2, 13), Some("type-mismatch".to_string()), "类型不匹配: 期望 整数, 实际 布尔".to_string()),
        ]
    );
}
