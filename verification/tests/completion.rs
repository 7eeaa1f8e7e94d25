use qi_lsp::ast::{
    AstNode, BasicType, FunctionDeclaration, MethodDeclaration, Parameter, Program, Span,
    StructDeclaration, StructField, TypeAnnotation, TypeNode, VariableDeclaration,
};
use qi_lsp::completion::{
    analyze_completion_context, completion_items, create_simple_completion, create_snippet_completion,
    extract_struct_name_before_dot, filter_completions_by_context, get_function_completions,
    get_import_completions, get_keyword_completions, get_package_completions, get_type_completions,
    is_identifier_context, CompletionContext, CompletionItemKind, InsertTextFormat,
};
use qi_lsp::document::DocumentManager;
use qi_lsp::position::Position;

fn int_ty() -> TypeAnnotation {
    TypeAnnotation { node: TypeNode::Basic(BasicType::Integer), debug: String::new() }
}

fn sp() -> Span {
    Span { start: 0, end: 1 }
}

fn program() -> Program {
    let st = AstNode::StructDecl(StructDeclaration {
        name: "p".to_string(),
        fields: vec![StructField { name: "x".to_string(), type_annotation: int_ty(), span: sp() }],
        methods: vec![MethodDeclaration {
            receiver_type: "p".to_string(),
            method_name: "len".to_string(),
            parameters: Vec::new(),
            return_type: None,
            body: Vec::new(),
            span: sp(),
        }],
        span: sp(),
    });
    let f = AstNode::FunctionDecl(FunctionDeclaration {
        name: "sum".to_string(),
        parameters: vec![
            Parameter { name: "a".to_string(), type_annotation: Some(int_ty()), span: sp() },
            Parameter { name: "b".to_string(), type_annotation: None, span: sp() },
        ],
        return_type: Some(int_ty()),
        body: Vec::new(),
        span: sp(),
    });
    let v = AstNode::VariableDecl(VariableDeclaration {
        name: "total".to_string(),
        type_annotation: Some(int_ty()),
        initializer: None,
        is_mutable: true,
        span: sp(),
    });
    Program { package_name: None, imports: Vec::new(), statements: vec![st, f, v] }
}

fn labels(v: &[qi_lsp::completion::CompletionItem]) -> Vec<String> {
    v.iter().map(|c| c.label.clone()).collect()
}

#[test]
fn fixed_completion_tables() {
    let k = get_keyword_completions();
    assert_eq!(k.len(), 56);
    assert_eq!(k[55].label, "异步函数");
    assert!(k.iter().any(|c| c.label == "函数"));
    assert_eq!(k[0].label, "包");
    assert_eq!(k[0].insert_text.as_deref(), Some("包 主程序;"));
    assert_eq!(k[54].label, "打印");
    assert_eq!(k[54].sort_text.as_deref(), Some("0054"));
    assert_eq!(k[1].insert_text_format, Some(InsertTextFormat::Snippet));
    let t = get_type_completions();
    assert_eq!(t.len(), 16);
    assert_eq!(t[0].label, "整数");
    assert_eq!(t[0].kind, Some(CompletionItemKind::TypeParameter));
    assert_eq!(get_import_completions().len(), 26);
    assert_eq!(get_package_completions().len(), 4);
}

#[test]
fn helpers_for_single_items() {
    let s = create_simple_completion("名字", CompletionItemKind::Variable, Some("细节"));
    assert_eq!(s.label, "名字");
    assert_eq!(s.detail.as_deref(), Some("细节"));
    assert_eq!(s.insert_text.as_deref(), Some("名字"));
    assert_eq!(s.insert_text_format, Some(InsertTextFormat::PlainText));
    let n = create_snippet_completion("f", CompletionItemKind::Function, None, "f(${1:x})");
    assert_eq!(n.insert_text.as_deref(), Some("f(${1:x})"));
    assert_eq!(n.insert_text_format, Some(InsertTextFormat::Snippet));
    assert_eq!(n.detail, None);
}

#[test]
fn function_items_show_parameters_and_return_type() {
    let items = get_function_completions(&program());
    assert_eq!(labels(&items), vec!["sum"]);
    assert_eq!(items[0].detail.as_deref(), Some("函数a: 整数, b: _ -> 整数"));
    assert_eq!(items[0].sort_text.as_deref(), Some("funcsum"));
}

#[test]
fn context_from_text_before_cursor() {
    let dm = DocumentManager::new();
    let at = Position { line: 0, character: 0 };
    let ctx = |s: &str| analyze_completion_context(s, "file:///c.qi", at, &dm);
    assert!(matches!(ctx("变量 x: "), CompletionContext::VariableDeclaration));
    assert!(matches!(ctx("  点."), CompletionContext::StructFieldAccess { ref struct_name } if struct_name == "点"));
    assert!(matches!(ctx("f(a."), CompletionContext::StructFieldAccess { ref struct_name } if struct_name == "a"));
    assert!(matches!(ctx("x = ."), CompletionContext::MethodAccess));
    assert!(matches!(ctx("sum("), CompletionContext::FunctionCall));
    assert!(matches!(ctx("导入 标准"), CompletionContext::ImportStatement));
    assert!(matches!(ctx("package m"), CompletionContext::PackageDeclaration));
    assert!(matches!(ctx("abc"), CompletionContext::VariableReference));
    assert!(matches!(ctx(""), CompletionContext::VariableReference));
    assert!(matches!(ctx("1 + 2"), CompletionContext::General));
    assert_eq!(extract_struct_name_before_dot("变量 a = 点.."), Some("点".to_string()));
    assert_eq!(extract_struct_name_before_dot("..."), None);
    assert_eq!(extract_struct_name_before_dot("a.b."), Some("b".to_string()));
    assert_eq!(extract_struct_name_before_dot("x = ."), None);
    assert!(is_identifier_context("  名 "));
    assert!(!is_identifier_context("x)"));
}

#[test]
fn completions_after_dot_colon_and_elsewhere() {
    let mut dm = DocumentManager::new();
    let uri = "file:///c.qi";
    dm.open_document(uri, "p.\ntotal: \nto\n".to_string(), Ok(program()));
    let after_dot = completion_items(uri, Position { line: 0, character: 2 }, &dm);
    assert_eq!(labels(&after_dot), vec!["x", "len"]);
    assert_eq!(after_dot[0].detail.as_deref(), Some("字段: 整数"));
    let after_colon = completion_items(uri, Position { line: 1, character: 6 }, &dm);
    assert_eq!(after_colon.len(), 32);
    assert!(after_colon.iter().all(|c| c.kind == Some(CompletionItemKind::TypeParameter)));
    let ident = completion_items(uri, Position { line: 2, character: 2 }, &dm);
    assert_eq!(ident.len(), 56 + 16 + 2);
    assert_eq!(labels(&ident)[72..].to_vec(), vec!["p", "total"]);
    let unfiltered = get_keyword_completions();
    let kept = filter_completions_by_context(unfiltered, uri, Position { line: 0, character: 1 }, &dm);
    assert_eq!(kept.len(), 56);
}
