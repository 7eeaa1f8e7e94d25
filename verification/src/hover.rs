//! Hover information: documentation of keywords and types, and a summary
//! of the declaration of a symbol.

use vstd::prelude::*;
use crate::ast::{decl_span, declares_directly, AstNode, BasicType, Parameter, Program, Span, TypeAnnotation};
use crate::document::DocumentManager;
use crate::position::{Position, Range};
use crate::strings::text_eq;
use crate::type_text::{basic_type_name, format_type_annotation, join, spec_join, spec_type_text, views};
use crate::word::{get_word_at_position, spec_doc_word};

verus! {

/// What a hover shows: one text, or several.
#[derive(Debug, Clone, PartialEq, Eq)]
pub enum HoverContents {
    /// A single text.
    Scalar(String),
    /// Several texts, in order.
    Array(Vec<String>),
}

/// A hover: its texts, and the range it is about, if any.
#[derive(Debug, Clone, PartialEq, Eq)]
pub struct Hover {
    /// What is shown.
    pub contents: HoverContents,
    /// The range the hover is about.
    pub range: Option<Range>,
}

/// A hover seen as whether it holds several texts, and its texts.
pub open spec fn hover_view(h: Hover) -> (bool, Seq<Seq<char>>) {
    match h.contents {
        HoverContents::Scalar(s) => (false, seq![s@]),
        HoverContents::Array(v) => (true, views(v@)),
    }
}

/// `h` shows exactly these texts and has no range.
pub open spec fn shows(h: Hover, view: (bool, Seq<Seq<char>>)) -> bool {
    hover_view(h) == view && h.range is None
}

/// The kind and the usage text of each documented keyword.
pub open spec fn spec_keyword_doc(k: Seq<char>) -> Option<(Seq<char>, Seq<char>)> {
    if k == "包"@ {
        Some(("package declaration"@, "包 主程序;\n\ndeclares the package for the current file"@))
    } else if k == "函数"@ {
        Some(("function declaration"@, "函数 name() {\n    // function body\n}\n\ndeclares a new function"@))
    } else if k == "异步函数"@ {
        Some(("async function declaration"@, "异步函数 name() {\n    // async function body\n}\n\ndeclares an async function"@))
    } else if k == "变量"@ {
        Some(("variable declaration"@, "变量 name: Type = value;\n\ndeclares a new variable"@))
    } else if k == "如果"@ {
        Some(("conditional statement"@, "如果 condition {\n    // then branch\n} 否则 {\n    // else branch\n}\n\nif-else conditional"@))
    } else if k == "当"@ {
        Some(("while loop"@, "当 condition {\n    // loop body\n}\n\nwhile loop that runs while condition is true"@))
    } else if k == "对于"@ {
        Some(("for loop"@, "对于 variable 在 range {\n    // loop body\n}\n\nfor loop over a range"@))
    } else if k == "循环"@ {
        Some(("infinite loop"@, "循环 {\n    // loop body\n}\n\ninfinite loop"@))
    } else if k == "返回"@ {
        Some(("return statement"@, "返回 value;\n\nreturns a value from a function"@))
    } else if k == "结构体"@ {
        Some(("struct declaration"@, "结构体 Name {\n    field: Type,\n}\n\ndeclares a struct type"@))
    } else if k == "枚举"@ {
        Some(("enum declaration"@, "枚举 Name {\n    Variant1,\n    Variant2,\n}\n\ndeclares an enum type"@))
    } else if k == "打印"@ {
        Some(("print function"@, "打印(\"message\");\n\nprints a message to stdout"@))
    } else if k == "等待"@ {
        Some(("await expression"@, "等待 async_call();\n\nawaits an async function call"@))
    } else if k == "整数"@ {
        Some(("integer type"@, "整数\n\n32-bit signed integer type"@))
    } else if k == "浮点数"@ {
        Some(("float type"@, "浮点数\n\n64-bit floating point type"@))
    } else if k == "字符串"@ {
        Some(("string type"@, "字符串\n\nUTF-8 string type"@))
    } else if k == "布尔"@ {
        Some(("boolean type"@, "布尔\n\nboolean type (真/假)"@))
    } else {
        None
    }
}

/// Look up a keyword's kind and usage text.
fn keyword_doc(k: &str) -> (r: Option<(&'static str, &'static str)>)
    ensures
        match spec_keyword_doc(k@) {
            Some((a, b)) => r matches Some((x, y)) && x@ == a && y@ == b,
            None => r is None,
        },
{
    if text_eq(k, "包") {
        Some(("package declaration", "包 主程序;\n\ndeclares the package for the current file"))
    } else if text_eq(k, "函数") {
        Some(("function declaration", "函数 name() {\n    // function body\n}\n\ndeclares a new function"))
    } else if text_eq(k, "异步函数") {
        Some(("async function declaration", "异步函数 name() {\n    // async function body\n}\n\ndeclares an async function"))
    } else if text_eq(k, "变量") {
        Some(("variable declaration", "变量 name: Type = value;\n\ndeclares a new variable"))
    } else if text_eq(k, "如果") {
        Some(("conditional statement", "如果 condition {\n    // then branch\n} 否则 {\n    // else branch\n}\n\nif-else conditional"))
    } else if text_eq(k, "当") {
        Some(("while loop", "当 condition {\n    // loop body\n}\n\nwhile loop that runs while condition is true"))
    } else if text_eq(k, "对于") {
        Some(("for loop", "对于 variable 在 range {\n    // loop body\n}\n\nfor loop over a range"))
    } else if text_eq(k, "循环") {
        Some(("infinite loop", "循环 {\n    // loop body\n}\n\ninfinite loop"))
    } else if text_eq(k, "返回") {
        Some(("return statement", "返回 value;\n\nreturns a value from a function"))
    } else if text_eq(k, "结构体") {
        Some(("struct declaration", "结构体 Name {\n    field: Type,\n}\n\ndeclares a struct type"))
    } else if text_eq(k, "枚举") {
        Some(("enum declaration", "枚举 Name {\n    Variant1,\n    Variant2,\n}\n\ndeclares an enum type"))
    } else if text_eq(k, "打印") {
        Some(("print function", "打印(\"message\");\n\nprints a message to stdout"))
    } else if text_eq(k, "等待") {
        Some(("await expression", "等待 async_call();\n\nawaits an async function call"))
    } else if text_eq(k, "整数") {
        Some(("integer type", "整数\n\n32-bit signed integer type"))
    } else if text_eq(k, "浮点数") {
        Some(("float type", "浮点数\n\n64-bit floating point type"))
    } else if text_eq(k, "字符串") {
        Some(("string type", "字符串\n\nUTF-8 string type"))
    } else if text_eq(k, "布尔") {
        Some(("boolean type", "布尔\n\nboolean type (真/假)"))
    } else {
        None
    }
}

/// The Rust counterpart and the description of each documented type.
pub open spec fn spec_type_doc(k: Seq<char>) -> Option<(Seq<char>, Seq<char>)> {
    if k == "整数"@ {
        Some(("i32"@, "32-bit signed integer\n\n范围: -2,147,483,648 到 2,147,483,647"@))
    } else if k == "长整数"@ {
        Some(("i64"@, "64-bit signed integer\n\n范围: -9,223,372,036,854,775,808 到 9,223,372,036,854,775,807"@))
    } else if k == "短整数"@ {
        Some(("i16"@, "16-bit signed integer\n\n范围: -32,768 到 32,767"@))
    } else if k == "字节"@ {
        Some(("u8"@, "8-bit unsigned integer\n\n范围: 0 到 255"@))
    } else if k == "浮点数"@ {
        Some(("f64"@, "64-bit double-precision floating point number"@))
    } else if k == "布尔"@ {
        Some(("bool"@, "Boolean value\n\n值: 真 or 假"@))
    } else if k == "字符"@ {
        Some(("char"@, "Unicode character\n\n单个 Unicode 字符"@))
    } else if k == "字符串"@ {
        Some(("String"@, "UTF-8 string\n\n可变长度的 UTF-8 字符串"@))
    } else if k == "空"@ {
        Some(("()"@, "Unit type\n\n表示无返回值或空值"@))
    } else {
        None
    }
}

/// Look up a type's Rust counterpart and description.
fn type_doc(k: &str) -> (r: Option<(&'static str, &'static str)>)
    ensures
        match spec_type_doc(k@) {
            Some((a, b)) => r matches Some((x, y)) && x@ == a && y@ == b,
            None => r is None,
        },
{
    if text_eq(k, "整数") {
        Some(("i32", "32-bit signed integer\n\n范围: -2,147,483,648 到 2,147,483,647"))
    } else if text_eq(k, "长整数") {
        Some(("i64", "64-bit signed integer\n\n范围: -9,223,372,036,854,775,808 到 9,223,372,036,854,775,807"))
    } else if text_eq(k, "短整数") {
        Some(("i16", "16-bit signed integer\n\n范围: -32,768 到 32,767"))
    } else if text_eq(k, "字节") {
        Some(("u8", "8-bit unsigned integer\n\n范围: 0 到 255"))
    } else if text_eq(k, "浮点数") {
        Some(("f64", "64-bit double-precision floating point number"))
    } else if text_eq(k, "布尔") {
        Some(("bool", "Boolean value\n\n值: 真 or 假"))
    } else if text_eq(k, "字符") {
        Some(("char", "Unicode character\n\n单个 Unicode 字符"))
    } else if text_eq(k, "字符串") {
        Some(("String", "UTF-8 string\n\n可变长度的 UTF-8 字符串"))
    } else if text_eq(k, "空") {
        Some(("()", "Unit type\n\n表示无返回值或空值"))
    } else {
        None
    }
}

/// The texts of a keyword hover.
pub open spec fn keyword_hover_texts(kind: Seq<char>, doc: Seq<char>) -> Seq<Seq<char>> {
    seq!["**"@ + kind + "**"@, "```qi\n"@ + doc + "\n```"@]
}

fn array_hover(texts: Vec<String>) -> (r: Hover)
    ensures
        shows(r, (true, views(texts@))),
{
    Hover { contents: HoverContents::Array(texts), range: None }
}

fn scalar_hover(text: String) -> (r: Hover)
    ensures
        shows(r, (false, seq![text@])),
{
    Hover { contents: HoverContents::Scalar(text), range: None }
}

fn two_texts(a: String, b: String) -> (r: Vec<String>)
    ensures
        views(r@) == seq![a@, b@],
{
    let mut v = Vec::new();
    v.push(a);
    v.push(b);
    assert(views(v@) =~= seq![a@, b@]);
    v
}

/// Get hover information for keywords.
pub fn get_keyword_hover_info(keyword: &str) -> (r: Option<Hover>)
    ensures
        match spec_keyword_doc(keyword@) {
            Some((kind, doc)) => r matches Some(h) && shows(h, (true, keyword_hover_texts(kind, doc))),
            None => r is None,
        },
{
    match keyword_doc(keyword) {
        Some((kind, doc)) => {
            let first = String::from_str("**").concat(kind).concat("**");
            let second = String::from_str("```qi\n").concat(doc).concat("\n```");
            Some(array_hover(two_texts(first, second)))
        },
        None => None,
    }
}

/// The texts of a type hover.
pub open spec fn type_hover_texts(kind: Seq<char>, doc: Seq<char>) -> Seq<Seq<char>> {
    seq!["**Type: "@ + kind + "**"@, doc]
}

/// Get hover information for types.
pub fn get_type_hover_info(type_word: &str) -> (r: Option<Hover>)
    ensures
        match spec_type_doc(type_word@) {
            Some((kind, doc)) => r matches Some(h) && shows(h, (true, type_hover_texts(kind, doc))),
            None => r is None,
        },
{
    match type_doc(type_word) {
        Some((kind, doc)) => {
            let first = String::from_str("**Type: ").concat(kind).concat("**");
            Some(array_hover(two_texts(first, String::from_str(doc))))
        },
        None => None,
    }
}

/// The kinds of symbols a hover describes.
#[derive(Debug, Clone)]
pub enum SymbolType {
    Variable { is_mutable: bool, var_type: Option<String> },
    Function { parameters: Vec<String>, return_type: Option<String> },
    Struct { fields: Vec<String> },
    Enum { variants: Vec<String> },
    Method { parameters: Vec<String>, return_type: Option<String> },
    Parameter,
    Type,
}

/// A symbol kind, as values.
pub enum SymbolKindView {
    Variable { is_mutable: bool, var_type: Option<Seq<char>> },
    Function { parameters: Seq<Seq<char>>, return_type: Option<Seq<char>> },
    Struct { fields: Seq<Seq<char>> },
    Enum { variants: Seq<Seq<char>> },
    Method { parameters: Seq<Seq<char>>, return_type: Option<Seq<char>> },
    Parameter,
    Type,
}

/// The view of an optional string.
pub open spec fn opt_view(o: Option<String>) -> Option<Seq<char>> {
    match o {
        Some(s) => Some(s@),
        None => None,
    }
}

impl View for SymbolType {
    type V = SymbolKindView;

    open spec fn view(&self) -> SymbolKindView {
        match self {
            SymbolType::Variable { is_mutable, var_type } => SymbolKindView::Variable {
                is_mutable: *is_mutable,
                var_type: opt_view(*var_type),
            },
            SymbolType::Function { parameters, return_type } => SymbolKindView::Function {
                parameters: views(parameters@),
                return_type: opt_view(*return_type),
            },
            SymbolType::Struct { fields } => SymbolKindView::Struct { fields: views(fields@) },
            SymbolType::Enum { variants } => SymbolKindView::Enum { variants: views(variants@) },
            SymbolType::Method { parameters, return_type } => SymbolKindView::Method {
                parameters: views(parameters@),
                return_type: opt_view(*return_type),
            },
            SymbolType::Parameter => SymbolKindView::Parameter,
            SymbolType::Type => SymbolKindView::Type,
        }
    }
}

/// Symbol information taken from the syntax tree.
#[derive(Debug, Clone)]
pub struct SymbolInfo {
    pub name: String,
    pub symbol_type: SymbolType,
    pub description: String,
    pub documentation: Option<String>,
    pub span: Span,
}

/// Symbol information, as values.
pub struct SymbolInfoView {
    pub name: Seq<char>,
    pub kind: SymbolKindView,
    pub description: Seq<char>,
    pub documentation: Option<Seq<char>>,
    pub span: Span,
}

impl View for SymbolInfo {
    type V = SymbolInfoView;

    open spec fn view(&self) -> SymbolInfoView {
        SymbolInfoView {
            name: self.name@,
            kind: self.symbol_type@,
            description: self.description@,
            documentation: opt_view(self.documentation),
            span: self.span,
        }
    }
}

/// How a type annotation is shown, if there is one.
pub open spec fn opt_type_text(t: Option<TypeAnnotation>) -> Option<Seq<char>> {
    match t {
        Some(t) => Some(spec_type_text(t.node)),
        None => None,
    }
}

/// A parameter as `name: type`, with `_` for a missing type.
pub open spec fn param_text(p: Parameter) -> Seq<char> {
    p.name@ + ": "@ + match p.type_annotation {
        Some(t) => spec_type_text(t.node),
        None => "_"@,
    }
}

/// The parameters shown one by one.
pub open spec fn params_texts(ps: Seq<Parameter>) -> Seq<Seq<char>> {
    ps.map_values(|p: Parameter| param_text(p))
}

/// The symbol `sym` declared by a statement, or inside its blocks,
/// branches and loop bodies (a loop's own variable included).
pub open spec fn spec_resolve_in_statement(sym: Seq<char>, n: AstNode) -> Option<SymbolInfoView>
    decreases n, 0int,
{
    match n {
        AstNode::VariableDecl(v) => if v.name@ == sym {
            Some(
                SymbolInfoView {
                    name: v.name@,
                    kind: SymbolKindView::Variable {
                        is_mutable: v.is_mutable,
                        var_type: opt_type_text(v.type_annotation),
                    },
                    description: (if v.is_mutable {
                        "可变变量: "@
                    } else {
                        "不可变变量: "@
                    }) + v.name@,
                    documentation: Some("变量声明"@),
                    span: v.span,
                },
            )
        } else {
            None
        },
        AstNode::FunctionDecl(f) => if f.name@ == sym {
            Some(
                SymbolInfoView {
                    name: f.name@,
                    kind: SymbolKindView::Function {
                        parameters: params_texts(f.parameters@),
                        return_type: opt_type_text(f.return_type),
                    },
                    description: "函数: "@ + f.name@,
                    documentation: Some("函数声明"@),
                    span: f.span,
                },
            )
        } else {
            None
        },
        AstNode::StructDecl(sd) => if sd.name@ == sym {
            Some(
                SymbolInfoView {
                    name: sd.name@,
                    kind: SymbolKindView::Struct {
                        fields: sd.fields@.map_values(
                            |f: crate::ast::StructField| f.name@ + ": "@ + spec_type_text(f.type_annotation.node),
                        ),
                    },
                    description: "结构体: "@ + sd.name@,
                    documentation: Some("结构体声明"@),
                    span: sd.span,
                },
            )
        } else {
            None
        },
        AstNode::EnumDecl(e) => if e.name@ == sym {
            Some(
                SymbolInfoView {
                    name: e.name@,
                    kind: SymbolKindView::Enum {
                        variants: e.variants@.map_values(|v: crate::ast::EnumVariant| v.name@),
                    },
                    description: "枚举: "@ + e.name@,
                    documentation: Some("枚举声明"@),
                    span: e.span,
                },
            )
        } else {
            None
        },
        AstNode::MethodDecl(m) => if m.method_name@ == sym {
            Some(
                SymbolInfoView {
                    name: m.method_name@,
                    kind: SymbolKindView::Method {
                        parameters: params_texts(m.parameters@),
                        return_type: opt_type_text(m.return_type),
                    },
                    description: "方法: "@ + m.receiver_type@ + "."@ + m.method_name@,
                    documentation: Some("方法声明"@),
                    span: m.span,
                },
            )
        } else {
            None
        },
        AstNode::Block { statements } => spec_resolve_in_seq(sym, statements@, 0),
        AstNode::If { condition, then_branch, else_branch } => match spec_resolve_in_seq(
            sym,
            then_branch@,
            0,
        ) {
            Some(info) => Some(info),
            None => match else_branch {
                Some(b) => spec_resolve_in_statement(sym, *b),
                None => None,
            },
        },
        AstNode::While { condition, body } => spec_resolve_in_seq(sym, body@, 0),
        AstNode::For { variable, range, body, span } => if variable@ == sym {
            Some(
                SymbolInfoView {
                    name: variable@,
                    kind: SymbolKindView::Variable { is_mutable: false, var_type: None },
                    description: "循环变量: "@ + variable@,
                    documentation: Some("对于循环变量"@),
                    span: span,
                },
            )
        } else {
            spec_resolve_in_seq(sym, body@, 0)
        },
        AstNode::Loop { body } => spec_resolve_in_seq(sym, body@, 0),
        _ => None,
    }
}

/// The first of the statements `ns[i..]` that resolves `sym`.
pub open spec fn spec_resolve_in_seq(sym: Seq<char>, ns: Seq<AstNode>, i: int) -> Option<SymbolInfoView>
    decreases ns, ns.len() - i,
{
    if 0 <= i < ns.len() {
        match spec_resolve_in_statement(sym, ns[i]) {
            Some(info) => Some(info),
            None => spec_resolve_in_seq(sym, ns, i + 1),
        }
    } else {
        None
    }
}

fn opt_type(t: &Option<TypeAnnotation>) -> (r: Option<String>)
    ensures
        opt_view(r) == opt_type_text(*t),
{
    match t {
        Some(t) => Some(format_type_annotation(&t.node)),
        None => None,
    }
}

fn format_params(ps: &Vec<Parameter>) -> (r: Vec<String>)
    ensures
        views(r@) == params_texts(ps@),
{
    let mut out: Vec<String> = Vec::new();
    let mut i: usize = 0;
    while i < ps.len()
        invariant
            i <= ps@.len(),
            views(out@) == params_texts(ps@).take(i as int),
            out@.len() == i,
        decreases ps.len() - i,
    {
        let p = &ps[i];
        let t = match &p.type_annotation {
            Some(t) => format_type_annotation(&t.node),
            None => String::from_str("_"),
        };
        let s = p.name.clone().concat(": ").concat(t.as_str());
        let ghost old_out = out@;
        out.push(s);
        proof {
            assert(s@ == param_text(ps@[i as int]));
            assert(views(out@)[i as int] == s@);
            assert(views(out@).drop_last() =~= views(old_out));
            assert(views(out@) =~= params_texts(ps@).take(i + 1));
        }
        i = i + 1;
    }
    proof {
        assert(params_texts(ps@).take(ps@.len() as int) =~= params_texts(ps@));
    }
    out
}

fn format_fields(fs: &Vec<crate::ast::StructField>) -> (r: Vec<String>)
    ensures
        views(r@) == fs@.map_values(
            |f: crate::ast::StructField| f.name@ + ": "@ + spec_type_text(f.type_annotation.node),
        ),
{
    let ghost want = fs@.map_values(
        |f: crate::ast::StructField| f.name@ + ": "@ + spec_type_text(f.type_annotation.node),
    );
    let mut out: Vec<String> = Vec::new();
    let mut i: usize = 0;
    while i < fs.len()
        invariant
            i <= fs@.len(),
            want == fs@.map_values(
                |f: crate::ast::StructField| f.name@ + ": "@ + spec_type_text(f.type_annotation.node),
            ),
            views(out@) == want.take(i as int),
            out@.len() == i,
        decreases fs.len() - i,
    {
        let t = format_type_annotation(&fs[i].type_annotation.node);
        let s = fs[i].name.clone().concat(": ").concat(t.as_str());
        let ghost old_out = out@;
        out.push(s);
        proof {
            assert(views(out@)[i as int] == s@);
            assert(views(out@).drop_last() =~= views(old_out));
            assert(views(out@) =~= want.take(i + 1));
        }
        i = i + 1;
    }
    proof {
        assert(want.take(fs@.len() as int) =~= want);
    }
    out
}

fn variant_names(vs: &Vec<crate::ast::EnumVariant>) -> (r: Vec<String>)
    ensures
        views(r@) == vs@.map_values(|v: crate::ast::EnumVariant| v.name@),
{
    let ghost want = vs@.map_values(|v: crate::ast::EnumVariant| v.name@);
    let mut out: Vec<String> = Vec::new();
    let mut i: usize = 0;
    while i < vs.len()
        invariant
            i <= vs@.len(),
            want == vs@.map_values(|v: crate::ast::EnumVariant| v.name@),
            views(out@) == want.take(i as int),
            out@.len() == i,
        decreases vs.len() - i,
    {
        let ghost old_out = out@;
        out.push(vs[i].name.clone());
        proof {
            assert(views(out@)[i as int] == vs@[i as int].name@);
            assert(views(out@).drop_last() =~= views(old_out));
            assert(views(out@) =~= want.take(i + 1));
        }
        i = i + 1;
    }
    proof {
        assert(want.take(vs@.len() as int) =~= want);
    }
    out
}

fn resolve_in_statements(symbol_name: &str, nodes: &Vec<AstNode>) -> (r: Option<SymbolInfo>)
    ensures
        match spec_resolve_in_seq(symbol_name@, nodes@, 0) {
            Some(v) => r matches Some(info) && info@ == v,
            None => r is None,
        },
    decreases nodes, 1int,
{
    let mut i: usize = 0;
    while i < nodes.len()
        invariant
            i <= nodes@.len(),
            spec_resolve_in_seq(symbol_name@, nodes@, 0) == spec_resolve_in_seq(symbol_name@, nodes@, i as int),
        decreases nodes.len() - i,
    {
        assert(decreases_to!(nodes => nodes@[i as int]));
        match resolve_symbol_in_statement(symbol_name, &nodes[i]) {
            Some(info) => {
                return Some(info);
            },
            None => {},
        }
        i = i + 1;
    }
    None
}

/// Resolve a symbol in a statement.
pub fn resolve_symbol_in_statement(symbol_name: &str, statement: &AstNode) -> (r: Option<SymbolInfo>)
    ensures
        match spec_resolve_in_statement(symbol_name@, *statement) {
            Some(v) => r matches Some(info) && info@ == v,
            None => r is None,
        },
    decreases statement, 0int,
{
    match statement {
        AstNode::VariableDecl(v) => {
            if text_eq(v.name.as_str(), symbol_name) {
                let var_type = opt_type(&v.type_annotation);
                let description = if v.is_mutable {
                    String::from_str("可变变量: ").concat(v.name.as_str())
                } else {
                    String::from_str("不可变变量: ").concat(v.name.as_str())
                };
                return Some(
                    SymbolInfo {
                        name: v.name.clone(),
                        symbol_type: SymbolType::Variable { is_mutable: v.is_mutable, var_type },
                        description,
                        documentation: Some(String::from_str("变量声明")),
                        span: v.span,
                    },
                );
            }
            None
        },
        AstNode::FunctionDecl(f) => {
            if text_eq(f.name.as_str(), symbol_name) {
                let parameters = format_params(&f.parameters);
                let return_type = opt_type(&f.return_type);
                return Some(
                    SymbolInfo {
                        name: f.name.clone(),
                        symbol_type: SymbolType::Function { parameters, return_type },
                        description: String::from_str("函数: ").concat(f.name.as_str()),
                        documentation: Some(String::from_str("函数声明")),
                        span: f.span,
                    },
                );
            }
            None
        },
        AstNode::StructDecl(sd) => {
            if text_eq(sd.name.as_str(), symbol_name) {
                let fields = format_fields(&sd.fields);
                return Some(
                    SymbolInfo {
                        name: sd.name.clone(),
                        symbol_type: SymbolType::Struct { fields },
                        description: String::from_str("结构体: ").concat(sd.name.as_str()),
                        documentation: Some(String::from_str("结构体声明")),
                        span: sd.span,
                    },
                );
            }
            None
        },
        AstNode::EnumDecl(e) => {
            if text_eq(e.name.as_str(), symbol_name) {
                let variants = variant_names(&e.variants);
                return Some(
                    SymbolInfo {
                        name: e.name.clone(),
                        symbol_type: SymbolType::Enum { variants },
                        description: String::from_str("枚举: ").concat(e.name.as_str()),
                        documentation: Some(String::from_str("枚举声明")),
                        span: e.span,
                    },
                );
            }
            None
        },
        AstNode::MethodDecl(m) => {
            if text_eq(m.method_name.as_str(), symbol_name) {
                let parameters = format_params(&m.parameters);
                let return_type = opt_type(&m.return_type);
                let description = String::from_str("方法: ").concat(m.receiver_type.as_str()).concat(
                    ".",
                ).concat(m.method_name.as_str());
                return Some(
                    SymbolInfo {
                        name: m.method_name.clone(),
                        symbol_type: SymbolType::Method { parameters, return_type },
                        description,
                        documentation: Some(String::from_str("方法声明")),
                        span: m.span,
                    },
                );
            }
            None
        },
        AstNode::Block { statements } => resolve_in_statements(symbol_name, statements),
        AstNode::If { condition, then_branch, else_branch } => {
            match resolve_in_statements(symbol_name, then_branch) {
                Some(info) => {
                    return Some(info);
                },
                None => {},
            }
            match else_branch {
                Some(b) => resolve_symbol_in_statement(symbol_name, b),
                None => None,
            }
        },
        AstNode::While { condition, body } => resolve_in_statements(symbol_name, body),
        AstNode::For { variable, range, body, span } => {
            if text_eq(variable.as_str(), symbol_name) {
                return Some(
                    SymbolInfo {
                        name: variable.clone(),
                        symbol_type: SymbolType::Variable { is_mutable: false, var_type: None },
                        description: String::from_str("循环变量: ").concat(variable.as_str()),
                        documentation: Some(String::from_str("对于循环变量")),
                        span: *span,
                    },
                );
            }
            resolve_in_statements(symbol_name, body)
        },
        AstNode::Loop { body } => resolve_in_statements(symbol_name, body),
        _ => None,
    }
}

/// Resolve a symbol among a program's top-level statements.
pub fn resolve_symbol(symbol_name: &str, ast: &Program, position: Position) -> (r: Option<SymbolInfo>)
    ensures
        match spec_resolve_in_seq(symbol_name@, ast.statements@, 0) {
            Some(v) => r matches Some(info) && info@ == v,
            None => r is None,
        },
{
    resolve_in_statements(symbol_name, &ast.statements)
}

/// `(list)` for a non-empty list, nothing for an empty one.
pub open spec fn params_part(ps: Seq<Seq<char>>) -> Seq<char> {
    if ps.len() == 0 {
        Seq::empty()
    } else {
        "("@ + spec_join(ps, ", "@) + ")"@
    }
}

/// ` -> type` for a return type, nothing without one.
pub open spec fn return_part(t: Option<Seq<char>>) -> Seq<char> {
    match t {
        Some(t) => " -> "@ + t,
        None => Seq::empty(),
    }
}

/// The texts that detail a symbol of each kind.
pub open spec fn kind_texts(name: Seq<char>, kind: SymbolKindView) -> Seq<Seq<char>> {
    match kind {
        SymbolKindView::Variable { is_mutable, var_type } => seq![
            "类型: "@ + match var_type {
                Some(t) => t,
                None => "自动推断"@,
            },
            "可变性: "@ + if is_mutable {
                "可变"@
            } else {
                "不可变"@
            },
        ],
        SymbolKindView::Function { parameters, return_type } => seq![
            "```qi\n"@ + name + params_part(parameters) + return_part(return_type) + "\n```"@,
        ],
        SymbolKindView::Method { parameters, return_type } => seq![
            "```qi\n"@ + name + params_part(parameters) + return_part(return_type) + "\n```"@,
        ],
        SymbolKindView::Struct { fields } => if fields.len() > 0 {
            seq!["字段:\n  "@ + spec_join(fields, "\n  "@)]
        } else {
            seq!["空结构体"@]
        },
        SymbolKindView::Enum { variants } => if variants.len() > 0 {
            seq!["变体: "@ + spec_join(variants, ", "@)]
        } else {
            seq!["空枚举"@]
        },
        SymbolKindView::Parameter => seq!["函数参数"@],
        SymbolKindView::Type => seq!["类型定义"@],
    }
}

/// The texts of a symbol hover: the description in bold, the kind's
/// details, then the documentation on a line of its own.
pub open spec fn symbol_hover_texts(name: Seq<char>, info: SymbolInfoView) -> Seq<Seq<char>> {
    seq!["**"@ + info.description + "**"@] + kind_texts(name, info.kind) + match info.documentation {
        Some(d) => seq!["\n"@ + d],
        None => Seq::empty(),
    }
}

fn params_part_text(ps: &Vec<String>) -> (r: String)
    ensures
        r@ == params_part(views(ps@)),
{
    if ps.len() == 0 {
        String::new()
    } else {
        String::from_str("(").concat(join(ps, ", ").as_str()).concat(")")
    }
}

fn return_part_text(t: &Option<String>) -> (r: String)
    ensures
        r@ == return_part(opt_view(*t)),
{
    match t {
        Some(t) => String::from_str(" -> ").concat(t.as_str()),
        None => String::new(),
    }
}

/// Create the hover for a symbol.
pub fn create_symbol_hover(symbol_name: &str, symbol_info: SymbolInfo) -> (r: Hover)
    ensures
        shows(r, (true, symbol_hover_texts(symbol_name@, symbol_info@))),
{
    let ghost info = symbol_info@;
    let mut content: Vec<String> = Vec::new();
    content.push(String::from_str("**").concat(symbol_info.description.as_str()).concat("**"));
    match &symbol_info.symbol_type {
        SymbolType::Variable { is_mutable, var_type } => {
            let type_info = match var_type {
                Some(t) => t.clone(),
                None => String::from_str("自动推断"),
            };
            let mutability = if *is_mutable {
                "可变"
            } else {
                "不可变"
            };
            content.push(String::from_str("类型: ").concat(type_info.as_str()));
            content.push(String::from_str("可变性: ").concat(mutability));
        },
        SymbolType::Function { parameters, return_type } => {
            let text = String::from_str("```qi\n").concat(symbol_name).concat(
                params_part_text(parameters).as_str(),
            ).concat(return_part_text(return_type).as_str()).concat("\n```");
            content.push(text);
        },
        SymbolType::Method { parameters, return_type } => {
            let text = String::from_str("```qi\n").concat(symbol_name).concat(
                params_part_text(parameters).as_str(),
            ).concat(return_part_text(return_type).as_str()).concat("\n```");
            content.push(text);
        },
        SymbolType::Struct { fields } => {
            if fields.len() > 0 {
                content.push(String::from_str("字段:\n  ").concat(join(fields, "\n  ").as_str()));
            } else {
                content.push(String::from_str("空结构体"));
            }
        },
        SymbolType::Enum { variants } => {
            if variants.len() > 0 {
                content.push(String::from_str("变体: ").concat(join(variants, ", ").as_str()));
            } else {
                content.push(String::from_str("空枚举"));
            }
        },
        SymbolType::Parameter => {
            content.push(String::from_str("函数参数"));
        },
        SymbolType::Type => {
            content.push(String::from_str("类型定义"));
        },
    }
    match &symbol_info.documentation {
        Some(doc) => {
            content.push(String::from_str("\n").concat(doc.as_str()));
        },
        None => {},
    }
    assert(views(content@) =~= symbol_hover_texts(symbol_name@, info));
    array_hover(content)
}

/// The text shown for a symbol that is not declared.
pub open spec fn not_found_text(symbol: Seq<char>) -> Seq<char> {
    "**未找到符号**: `"@ + symbol
        + "`\n\n此符号在当前作用域中未定义。请检查:\n- 拼写是否正确\n- 符号是否已声明\n- 是否在正确的作用域内"@
}

/// What a symbol hover shows: the declaration's summary, or a note that
/// the symbol is not declared.
pub open spec fn spec_symbol_hover(symbol: Seq<char>, ast: Program) -> (bool, Seq<Seq<char>>) {
    match spec_resolve_in_seq(symbol, ast.statements@, 0) {
        Some(info) => (true, symbol_hover_texts(symbol, info)),
        None => (false, seq![not_found_text(symbol)]),
    }
}

/// Get hover information for a symbol from the syntax tree.
pub fn get_symbol_hover_info(symbol: &str, ast: &Program, position: Position) -> (r: Option<Hover>)
    ensures
        r matches Some(h) && shows(h, spec_symbol_hover(symbol@, *ast)),
{
    match resolve_symbol(symbol, ast, position) {
        Some(info) => Some(create_symbol_hover(symbol, info)),
        None => {
            let text = String::from_str("**未找到符号**: `").concat(symbol).concat(
                "`\n\n此符号在当前作用域中未定义。请检查:\n- 拼写是否正确\n- 符号是否已声明\n- 是否在正确的作用域内",
            );
            Some(scalar_hover(text))
        },
    }
}

/// What the hover at `position` shows: a built-in type's documentation,
/// else a keyword's, else the symbol summary from the document's syntax tree.
pub open spec fn spec_hover_info(dm: DocumentManager, uri: Seq<char>, position: Position) -> Option<
    (bool, Seq<Seq<char>>),
> {
    match spec_doc_word(dm, uri, position) {
        None => None,
        Some(w) => match spec_type_doc(w) {
            Some((kind, doc)) => Some((true, type_hover_texts(kind, doc))),
            None => match spec_keyword_doc(w) {
                Some((kind, doc)) => Some((true, keyword_hover_texts(kind, doc))),
                None => if dm.view().contains_key(uri) {
                    match dm.view()[uri].ast {
                        Some(a) => Some(spec_symbol_hover(w, *a)),
                        None => None,
                    }
                } else {
                    None
                },
            },
        },
    }
}

/// Get hover information for a position in a document.
pub fn get_hover_info(uri: &str, position: Position, document_manager: &DocumentManager) -> (r: Option<Hover>)
    requires
        document_manager.wf(),
    ensures
        match spec_hover_info(*document_manager, uri@, position) {
            Some(v) => r matches Some(h) && shows(h, v),
            None => r is None,
        },
{
    let word = match get_word_at_position(uri, position, document_manager) {
        Some(w) => w,
        None => {
            return None;
        },
    };
    match get_type_hover_info(word.as_str()) {
        Some(h) => {
            return Some(h);
        },
        None => {},
    }
    match get_keyword_hover_info(word.as_str()) {
        Some(h) => {
            return Some(h);
        },
        None => {},
    }
    match document_manager.get_document_ast(uri) {
        Some(ast) => get_symbol_hover_info(word.as_str(), &ast, position),
        None => None,
    }
}

/// The text of a function hover.
pub open spec fn function_hover_text(name: Seq<char>, params: Seq<Seq<char>>, return_type: Option<Seq<char>>) -> Seq<
    char,
> {
    (if params.len() == 0 {
        "函数 "@ + name + "()"@
    } else {
        "函数 "@ + name + "("@ + spec_join(params, ", "@) + ")"@
    }) + return_part(return_type) + "\n\n函数定义"@
}

/// Create hover information for a function.
pub fn create_function_hover(name: &str, params: &Vec<String>, return_type: Option<&str>) -> (r: Hover)
    ensures
        shows(
            r,
            (
                false,
                seq![
                    function_hover_text(
                        name@,
                        views(params@),
                        match return_type {
                            Some(t) => Some(t@),
                            None => None,
                        },
                    ),
                ],
            ),
        ),
{
    let mut doc = if params.len() == 0 {
        String::from_str("函数 ").concat(name).concat("()")
    } else {
        String::from_str("函数 ").concat(name).concat("(").concat(join(params, ", ").as_str()).concat(")")
    };
    let ghost head = doc@;
    match return_type {
        Some(t) => {
            doc.append(" -> ");
            doc.append(t);
            assert(doc@ =~= head + return_part(Some(t@)));
        },
        None => {
            assert(doc@ =~= head + return_part(None));
        },
    }
    let ghost before = doc@;
    doc.append("\n\n函数定义");
    proof {
        let rt = match return_type {
            Some(t) => Some(t@),
            None => None,
        };
        assert(doc@ =~= function_hover_text(name@, views(params@), rt));
    }
    scalar_hover(doc)
}

/// The text of a variable hover.
pub open spec fn variable_hover_text(name: Seq<char>, var_type: Seq<char>, is_mutable: bool) -> Seq<char> {
    "**"@ + (if is_mutable {
        "可变"@
    } else {
        "不可变"@
    }) + "** `"@ + name + "`: "@ + var_type
}

/// Create hover information for a variable.
pub fn create_variable_hover(name: &str, var_type: &str, is_mutable: bool) -> (r: Hover)
    ensures
        shows(r, (false, seq![variable_hover_text(name@, var_type@, is_mutable)])),
{
    let mutability = if is_mutable {
        "可变"
    } else {
        "不可变"
    };
    let doc = String::from_str("**").concat(mutability).concat("** `").concat(name).concat("`: ").concat(
        var_type,
    );
    scalar_hover(doc)
}

/// Hovering a declaration shows that declaration: for a function, struct,
/// enum, variable or method named `sym`, the symbol resolved for `sym`
/// bears that name and the declaration's span, and is of the
/// declaration's kind (a variable keeping its mutability).
pub proof fn law_hover_resolves_declaration(sym: Seq<char>, n: AstNode)
    requires
        declares_directly(n, sym),
    ensures
        spec_resolve_in_statement(sym, n) matches Some(info) && info.name == sym && info.span == decl_span(n)
            && match n {
            AstNode::VariableDecl(v) => info.kind matches SymbolKindView::Variable { is_mutable, .. }
                && is_mutable == v.is_mutable,
            AstNode::FunctionDecl(_) => info.kind is Function,
            AstNode::StructDecl(_) => info.kind is Struct,
            AstNode::EnumDecl(_) => info.kind is Enum,
            AstNode::MethodDecl(_) => info.kind is Method,
            _ => false,
        },
{
}

/// Hovering a loop's own variable shows it as an immutable loop variable
/// at the loop's span.
pub proof fn law_hover_loop_variable(sym: Seq<char>, n: AstNode)
    requires
        n matches AstNode::For { variable, .. } && variable@ == sym,
    ensures
        spec_resolve_in_statement(sym, n) matches Some(info) && info.name == sym && info.span == n->For_span
            && info.kind == (SymbolKindView::Variable { is_mutable: false, var_type: None }),
{
}

/// A variable's hover tells whether it can change: its description starts
/// with `不可变变量` and its mutability line reads `可变性: 不可变` exactly
/// when the declaration is not mutable.
pub proof fn law_hover_variable_mutability(sym: Seq<char>, v: crate::ast::VariableDeclaration)
    requires
        v.name@ == sym,
    ensures
        spec_resolve_in_statement(sym, AstNode::VariableDecl(v)) matches Some(info) && {
            let texts = symbol_hover_texts(sym, info);
            &&& (info.description.len() >= 5 && info.description.take(5) == "不可变变量"@) == !v.is_mutable
            &&& texts.len() == 4
            &&& (texts[2] == "可变性: 不可变"@) == !v.is_mutable
        },
{
    reveal_strlit("不可变变量");
    reveal_strlit("不可变变量: ");
    reveal_strlit("可变变量: ");
    reveal_strlit("可变性: ");
    reveal_strlit("可变性: 不可变");
    reveal_strlit("不可变");
    reveal_strlit("可变");
    let info = spec_resolve_in_statement(sym, AstNode::VariableDecl(v))->0;
    let texts = symbol_hover_texts(sym, info);
    if v.is_mutable {
        assert(info.description.take(5)[0] == '可');
        assert(texts[2].len() != ("可变性: 不可变"@).len());
    } else {
        assert(info.description.take(5) =~= "不可变变量"@);
        assert(texts[2] =~= "可变性: 不可变"@);
    }
}

/// Every scalar built-in type is documented by hover under the name the
/// type is written with, and (but for `空`) highlighted as a built-in type.
pub proof fn law_scalar_types_documented(t: BasicType)
    requires
        !(t is Array || t is Dictionary || t is List || t is SetCollection || t is Pointer || t is Reference
            || t is MutableReference),
    ensures
        spec_type_doc(basic_type_name(t)) is Some,
        t != BasicType::Void ==> crate::semantic_tokens::spec_is_builtin_type(basic_type_name(t)),
{
}

} // verus!
