//! Document symbols: the outline of a document, declarations with their
//! parameters, fields, variants, methods and local variables as children.

use vstd::prelude::*;
use crate::ast::{
    decl_span, declares_directly,
    AstNode, EnumDeclaration, FunctionDeclaration, MethodDeclaration, Parameter, Program, Span,
    StructDeclaration, TypeAnnotation,
};
use crate::definition::{span_to_location, spec_span_location};
use crate::document::{DocumentManager, uri_fits};
use crate::position::{Position, Range};
use crate::type_text::{join, spec_join, views};

verus! {

/// The kinds of symbols reported.
#[derive(Debug, Clone, Copy, PartialEq, Eq, Structural)]
pub enum SymbolKind {
    Function,
    Method,
    Struct,
    Enum,
    EnumMember,
    Field,
    Variable,
    Constant,
}

/// A symbol of the document outline.
#[derive(Debug)]
pub struct DocumentSymbol {
    pub name: String,
    pub kind: SymbolKind,
    pub detail: Option<String>,
    pub range: Range,
    pub selection_range: Range,
    pub children: Option<Vec<DocumentSymbol>>,
}

/// A document symbol, as values.
pub struct DocSymView {
    pub name: Seq<char>,
    pub kind: SymbolKind,
    pub detail: Option<Seq<char>>,
    pub range: Range,
    pub selection_range: Range,
    pub children: Option<Seq<DocSymView>>,
}

/// The view of a document symbol.
pub open spec fn dsym_view(d: DocumentSymbol) -> DocSymView
    decreases d,
{
    DocSymView {
        name: d.name@,
        kind: d.kind,
        detail: match d.detail {
            Some(s) => Some(s@),
            None => None,
        },
        range: d.range,
        selection_range: d.selection_range,
        children: match d.children {
            Some(v) => Some(dsym_list(v@)),
            None => None,
        },
    }
}

/// The views of document symbols, in order.
pub open spec fn dsym_list(s: Seq<DocumentSymbol>) -> Seq<DocSymView>
    decreases s,
{
    if s.len() == 0 {
        Seq::empty()
    } else {
        dsym_list(s.drop_last()) + seq![dsym_view(s.last())]
    }
}

proof fn lemma_dsym_list_push(s: Seq<DocumentSymbol>, x: DocumentSymbol)
    ensures
        dsym_list(s.push(x)) == dsym_list(s) + seq![dsym_view(x)],
{
    assert(s.push(x).drop_last() =~= s);
}

proof fn lemma_dsym_list_append(s: Seq<DocumentSymbol>, t: Seq<DocumentSymbol>)
    ensures
        dsym_list(s + t) == dsym_list(s) + dsym_list(t),
    decreases t.len(),
{
    if t.len() == 0 {
        assert(s + t =~= s);
        assert(dsym_list(s) + dsym_list(t) =~= dsym_list(s));
    } else {
        lemma_dsym_list_append(s, t.drop_last());
        assert((s + t).drop_last() =~= s + t.drop_last());
        assert(dsym_list(s + t) =~= dsym_list(s) + dsym_list(t));
    }
}

/// The range of a span in the outline: its location's range, or the start
/// of the document when it cannot be placed.
pub open spec fn outline_range(dm: DocumentManager, uri: Seq<char>, sp: Span) -> Range {
    match spec_span_location(dm, uri, sp) {
        Some(r) => r,
        None => Range { start: Position { line: 0, character: 0 }, end: Position { line: 0, character: 0 } },
    }
}

/// Convert a span to a range for the outline.
pub fn span_to_range(span: Span, uri: &str, document_manager: &DocumentManager) -> (r: Range)
    requires
        document_manager.wf(),
        uri_fits(uri@),
    ensures
        r == outline_range(*document_manager, uri@, span),
{
    match span_to_location(span, uri, document_manager) {
        Some(location) => location.range,
        None => Range { start: Position { line: 0, character: 0 }, end: Position { line: 0, character: 0 } },
    }
}

/// The debug rendering of an optional type annotation.
pub open spec fn opt_debug(t: Option<TypeAnnotation>) -> Seq<char> {
    match t {
        Some(a) => "Some("@ + a.debug@ + ")"@,
        None => "None"@,
    }
}

fn opt_debug_text(t: &Option<TypeAnnotation>) -> (r: String)
    ensures
        r@ == opt_debug(*t),
{
    match t {
        Some(a) => String::from_str("Some(").concat(a.debug.as_str()).concat(")"),
        None => String::from_str("None"),
    }
}

/// Parameters as `name: Some(type)` or `name: None`.
pub open spec fn param_debug_texts(ps: Seq<Parameter>) -> Seq<Seq<char>> {
    ps.map_values(|p: Parameter| p.name@ + ": "@ + opt_debug(p.type_annotation))
}

/// ` : type` after a signature, by the type's debug rendering.
pub open spec fn return_debug(t: Option<TypeAnnotation>) -> Seq<char> {
    match t {
        Some(a) => ": "@ + a.debug@,
        None => Seq::empty(),
    }
}

/// A function's signature: `函数 name(params)` and its return type.
pub open spec fn function_signature(f: FunctionDeclaration) -> Seq<char> {
    "函数 "@ + f.name@ + "("@ + spec_join(param_debug_texts(f.parameters@), ", "@) + ")"@ + return_debug(
        f.return_type,
    )
}

/// A method's signature: `方法 name(params)` and its return type.
pub open spec fn method_signature(m: MethodDeclaration) -> Seq<char> {
    "方法 "@ + m.method_name@ + "("@ + spec_join(param_debug_texts(m.parameters@), ", "@) + ")"@
        + return_debug(m.return_type)
}

/// A struct's signature: `结构体 name { field: type, ... }`.
pub open spec fn struct_signature(sd: StructDeclaration) -> Seq<char> {
    "结构体 "@ + sd.name@ + " { "@ + spec_join(
        sd.fields@.map_values(|f: crate::ast::StructField| f.name@ + ": "@ + f.type_annotation.debug@),
        ", "@,
    ) + " }"@
}

/// An enum's signature: `枚举 name { A | B }`.
pub open spec fn enum_signature(e: EnumDeclaration) -> Seq<char> {
    "枚举 "@ + e.name@ + " { "@ + spec_join(
        e.variants@.map_values(|v: crate::ast::EnumVariant| v.name@),
        " | "@,
    ) + " }"@
}

fn param_debug_list(ps: &Vec<Parameter>) -> (r: Vec<String>)
    ensures
        views(r@) == param_debug_texts(ps@),
{
    let mut out: Vec<String> = Vec::new();
    let mut i: usize = 0;
    while i < ps.len()
        invariant
            i <= ps@.len(),
            out@.len() == i,
            views(out@) == param_debug_texts(ps@).take(i as int),
        decreases ps.len() - i,
    {
        let s = ps[i].name.clone().concat(": ").concat(opt_debug_text(&ps[i].type_annotation).as_str());
        let ghost old_out = out@;
        out.push(s);
        proof {
            assert(views(out@)[i as int] == s@);
            assert(views(out@).drop_last() =~= views(old_out));
            assert(views(out@) =~= param_debug_texts(ps@).take(i + 1));
        }
        i = i + 1;
    }
    proof {
        assert(param_debug_texts(ps@).take(ps@.len() as int) =~= param_debug_texts(ps@));
    }
    out
}

fn return_debug_text(t: &Option<TypeAnnotation>) -> (r: String)
    ensures
        r@ == return_debug(*t),
{
    match t {
        Some(a) => String::from_str(": ").concat(a.debug.as_str()),
        None => String::new(),
    }
}

/// Format a function's signature.
pub fn format_function_signature(f: &FunctionDeclaration) -> (r: String)
    ensures
        r@ == function_signature(*f),
{
    let params = param_debug_list(&f.parameters);
    String::from_str("函数 ").concat(f.name.as_str()).concat("(").concat(join(&params, ", ").as_str()).concat(
        ")",
    ).concat(return_debug_text(&f.return_type).as_str())
}

/// Format a method's signature.
pub fn format_method_signature(m: &MethodDeclaration) -> (r: String)
    ensures
        r@ == method_signature(*m),
{
    let params = param_debug_list(&m.parameters);
    String::from_str("方法 ").concat(m.method_name.as_str()).concat("(").concat(join(&params, ", ").as_str()).concat(
        ")",
    ).concat(return_debug_text(&m.return_type).as_str())
}

/// Format a struct's signature.
pub fn format_struct_signature(sd: &StructDeclaration) -> (r: String)
    ensures
        r@ == struct_signature(*sd),
{
    let ghost want = sd.fields@.map_values(
        |f: crate::ast::StructField| f.name@ + ": "@ + f.type_annotation.debug@,
    );
    let mut fields: Vec<String> = Vec::new();
    let mut i: usize = 0;
    while i < sd.fields.len()
        invariant
            i <= sd.fields@.len(),
            fields@.len() == i,
            want == sd.fields@.map_values(
                |f: crate::ast::StructField| f.name@ + ": "@ + f.type_annotation.debug@,
            ),
            views(fields@) == want.take(i as int),
        decreases sd.fields.len() - i,
    {
        let s = sd.fields[i].name.clone().concat(": ").concat(sd.fields[i].type_annotation.debug.as_str());
        let ghost old_fields = fields@;
        fields.push(s);
        proof {
            assert(views(fields@)[i as int] == s@);
            assert(views(fields@).drop_last() =~= views(old_fields));
            assert(views(fields@) =~= want.take(i + 1));
        }
        i = i + 1;
    }
    proof {
        assert(want.take(sd.fields@.len() as int) =~= want);
    }
    String::from_str("结构体 ").concat(sd.name.as_str()).concat(" { ").concat(join(&fields, ", ").as_str()).concat(
        " }",
    )
}

/// Format an enum's signature.
pub fn format_enum_signature(e: &EnumDeclaration) -> (r: String)
    ensures
        r@ == enum_signature(*e),
{
    let ghost want = e.variants@.map_values(|v: crate::ast::EnumVariant| v.name@);
    let mut variants: Vec<String> = Vec::new();
    let mut i: usize = 0;
    while i < e.variants.len()
        invariant
            i <= e.variants@.len(),
            variants@.len() == i,
            want == e.variants@.map_values(|v: crate::ast::EnumVariant| v.name@),
            views(variants@) == want.take(i as int),
        decreases e.variants.len() - i,
    {
        let ghost old_variants = variants@;
        variants.push(e.variants[i].name.clone());
        proof {
            assert(views(variants@)[i as int] == e.variants@[i as int].name@);
            assert(views(variants@).drop_last() =~= views(old_variants));
            assert(views(variants@) =~= want.take(i + 1));
        }
        i = i + 1;
    }
    proof {
        assert(want.take(e.variants@.len() as int) =~= want);
    }
    String::from_str("枚举 ").concat(e.name.as_str()).concat(" { ").concat(join(&variants, " | ").as_str()).concat(
        " }",
    )
}

/// A leaf symbol of the outline.
pub open spec fn leaf(
    dm: DocumentManager,
    uri: Seq<char>,
    name: Seq<char>,
    kind: SymbolKind,
    detail: Option<Seq<char>>,
    sp: Span,
) -> DocSymView {
    DocSymView {
        name,
        kind,
        detail,
        range: outline_range(dm, uri, sp),
        selection_range: outline_range(dm, uri, sp),
        children: None,
    }
}

/// A variable's symbol: a variable if mutable, else a constant, with its
/// type's debug rendering as detail.
pub open spec fn variable_symbol(dm: DocumentManager, uri: Seq<char>, v: crate::ast::VariableDeclaration) -> DocSymView {
    leaf(
        dm,
        uri,
        v.name@,
        if v.is_mutable {
            SymbolKind::Variable
        } else {
            SymbolKind::Constant
        },
        match v.type_annotation {
            Some(a) => Some(a.debug@),
            None => None,
        },
        v.span,
    )
}

/// The local symbols of a statement: variables, and for loops' variables,
/// inside blocks, branches and loop bodies.
pub open spec fn spec_local_symbols(dm: DocumentManager, uri: Seq<char>, n: AstNode) -> Seq<DocSymView>
    decreases n, 0int,
{
    match n {
        AstNode::VariableDecl(v) => seq![variable_symbol(dm, uri, v)],
        AstNode::Block { statements } => spec_local_seq(dm, uri, statements@, 0),
        AstNode::If { condition, then_branch, else_branch } => spec_local_seq(dm, uri, then_branch@, 0)
            + match else_branch {
            Some(b) => spec_local_symbols(dm, uri, *b),
            None => Seq::empty(),
        },
        AstNode::While { condition, body } => spec_local_seq(dm, uri, body@, 0),
        AstNode::For { variable, range, body, span } => seq![
            leaf(dm, uri, variable@, SymbolKind::Variable, None, span),
        ] + spec_local_seq(dm, uri, body@, 0),
        AstNode::Loop { body } => spec_local_seq(dm, uri, body@, 0),
        _ => Seq::empty(),
    }
}

/// The local symbols of statements `ns[i..]`, in order.
pub open spec fn spec_local_seq(dm: DocumentManager, uri: Seq<char>, ns: Seq<AstNode>, i: int) -> Seq<DocSymView>
    decreases ns, ns.len() - i,
{
    if 0 <= i < ns.len() {
        spec_local_symbols(dm, uri, ns[i]) + spec_local_seq(dm, uri, ns, i + 1)
    } else {
        Seq::empty()
    }
}

/// Parameters as variable symbols, their types' debug renderings as
/// detail.
pub open spec fn param_symbols(dm: DocumentManager, uri: Seq<char>, ps: Seq<Parameter>) -> Seq<DocSymView> {
    ps.map_values(
        |p: Parameter| leaf(dm, uri, p.name@, SymbolKind::Variable, Some(opt_debug(p.type_annotation)), p.span),
    )
}

/// A method's symbol, with its parameters and local symbols as children.
pub open spec fn method_symbol(dm: DocumentManager, uri: Seq<char>, m: MethodDeclaration) -> DocSymView {
    DocSymView {
        name: m.method_name@,
        kind: SymbolKind::Method,
        detail: Some(method_signature(m)),
        range: outline_range(dm, uri, m.span),
        selection_range: outline_range(dm, uri, m.span),
        children: Some(param_symbols(dm, uri, m.parameters@) + spec_local_seq(dm, uri, m.body@, 0)),
    }
}

/// The symbols of a node of the outline: declarations with their children,
/// the statements of a program, and the local symbols of a block.
pub open spec fn spec_node_symbols(dm: DocumentManager, uri: Seq<char>, n: AstNode) -> Seq<DocSymView>
    decreases n, 0int,
{
    match n {
        AstNode::FunctionDecl(f) => seq![
            DocSymView {
                name: f.name@,
                kind: SymbolKind::Function,
                detail: Some(function_signature(f)),
                range: outline_range(dm, uri, f.span),
                selection_range: outline_range(dm, uri, f.span),
                children: Some(param_symbols(dm, uri, f.parameters@) + spec_local_seq(dm, uri, f.body@, 0)),
            },
        ],
        AstNode::MethodDecl(m) => seq![method_symbol(dm, uri, m)],
        AstNode::StructDecl(sd) => seq![
            DocSymView {
                name: sd.name@,
                kind: SymbolKind::Struct,
                detail: Some(struct_signature(sd)),
                range: outline_range(dm, uri, sd.span),
                selection_range: outline_range(dm, uri, sd.span),
                children: Some(
                    sd.fields@.map_values(
                        |f: crate::ast::StructField|
                            leaf(dm, uri, f.name@, SymbolKind::Field, Some(f.type_annotation.debug@), f.span),
                    ) + sd.methods@.map_values(|m: MethodDeclaration| method_symbol(dm, uri, m)),
                ),
            },
        ],
        AstNode::EnumDecl(e) => seq![
            DocSymView {
                name: e.name@,
                kind: SymbolKind::Enum,
                detail: Some(enum_signature(e)),
                range: outline_range(dm, uri, e.span),
                selection_range: outline_range(dm, uri, e.span),
                children: Some(
                    e.variants@.map_values(
                        |v: crate::ast::EnumVariant| leaf(dm, uri, v.name@, SymbolKind::EnumMember, None, v.span),
                    ),
                ),
            },
        ],
        AstNode::VariableDecl(v) => seq![variable_symbol(dm, uri, v)],
        AstNode::Program(p) => spec_node_seq(dm, uri, p.statements@, 0),
        AstNode::Block { statements } => spec_local_seq(dm, uri, statements@, 0),
        _ => Seq::empty(),
    }
}

/// The symbols of nodes `ns[i..]`, in order.
pub open spec fn spec_node_seq(dm: DocumentManager, uri: Seq<char>, ns: Seq<AstNode>, i: int) -> Seq<DocSymView>
    decreases ns, ns.len() - i,
{
    if 0 <= i < ns.len() {
        spec_node_symbols(dm, uri, ns[i]) + spec_node_seq(dm, uri, ns, i + 1)
    } else {
        Seq::empty()
    }
}

fn push_symbol(symbols: &mut Vec<DocumentSymbol>, s: DocumentSymbol)
    ensures
        dsym_list(final(symbols)@) == dsym_list(old(symbols)@) + seq![dsym_view(s)],
{
    let ghost before = symbols@;
    symbols.push(s);
    proof {
        lemma_dsym_list_push(before, s);
    }
}

fn local_symbols_seq(nodes: &Vec<AstNode>, uri: &str, symbols: &mut Vec<DocumentSymbol>, document_manager: &DocumentManager)
    requires
        document_manager.wf(),
        uri_fits(uri@),
    ensures
        dsym_list(final(symbols)@) == dsym_list(old(symbols)@) + spec_local_seq(*document_manager, uri@, nodes@, 0),
    decreases nodes, 1int,
{
    let ghost dm = *document_manager;
    let ghost start = dsym_list(symbols@);
    let mut i: usize = 0;
    while i < nodes.len()
        invariant
            i <= nodes@.len(),
            dm == *document_manager,
            document_manager.wf(),
            uri_fits(uri@),
            start + spec_local_seq(dm, uri@, nodes@, 0) == dsym_list(symbols@) + spec_local_seq(
                dm,
                uri@,
                nodes@,
                i as int,
            ),
        decreases nodes.len() - i,
    {
        assert(decreases_to!(nodes => nodes@[i as int]));
        let ghost mid = dsym_list(symbols@);
        find_local_symbols_in_statement(&nodes[i], uri, symbols, document_manager);
        proof {
            let here = spec_local_symbols(dm, uri@, nodes@[i as int]);
            let rest = spec_local_seq(dm, uri@, nodes@, i + 1);
            assert(mid + (here + rest) =~= (mid + here) + rest);
        }
        i = i + 1;
    }
    proof {
        assert(dsym_list(symbols@) + Seq::<DocSymView>::empty() =~= dsym_list(symbols@));
    }
}

/// Find the local symbols in a statement.
pub fn find_local_symbols_in_statement(
    stmt: &AstNode,
    uri: &str,
    symbols: &mut Vec<DocumentSymbol>,
    document_manager: &DocumentManager,
)
    requires
        document_manager.wf(),
        uri_fits(uri@),
    ensures
        dsym_list(final(symbols)@) == dsym_list(old(symbols)@) + spec_local_symbols(
            *document_manager,
            uri@,
            *stmt,
        ),
    decreases stmt, 0int,
{
    let ghost before = dsym_list(symbols@);
    match stmt {
        AstNode::VariableDecl(v) => {
            let s = variable_doc_symbol(v, uri, document_manager);
            push_symbol(symbols, s);
        },
        AstNode::Block { statements } => {
            local_symbols_seq(statements, uri, symbols, document_manager);
        },
        AstNode::If { condition, then_branch, else_branch } => {
            local_symbols_seq(then_branch, uri, symbols, document_manager);
            let ghost mid = dsym_list(symbols@);
            match else_branch {
                Some(b) => {
                    find_local_symbols_in_statement(b, uri, symbols, document_manager);
                },
                None => {},
            }
            proof {
                assert(before + (spec_local_seq(*document_manager, uri@, then_branch@, 0) + match *else_branch {
                    Some(b) => spec_local_symbols(*document_manager, uri@, *b),
                    None => Seq::empty(),
                }) =~= dsym_list(symbols@));
            }
        },
        AstNode::While { condition, body } => {
            local_symbols_seq(body, uri, symbols, document_manager);
        },
        AstNode::For { variable, range, body, span } => {
            let r = span_to_range(*span, uri, document_manager);
            let s = DocumentSymbol {
                name: variable.clone(),
                kind: SymbolKind::Variable,
                detail: None,
                range: r,
                selection_range: r,
                children: None,
            };
            push_symbol(symbols, s);
            local_symbols_seq(body, uri, symbols, document_manager);
            proof {
                assert(before + (seq![dsym_view(s)] + spec_local_seq(*document_manager, uri@, body@, 0))
                    =~= dsym_list(symbols@));
            }
        },
        AstNode::Loop { body } => {
            local_symbols_seq(body, uri, symbols, document_manager);
        },
        _ => {
            assert(before + Seq::<DocSymView>::empty() =~= before);
        },
    }
}

fn variable_doc_symbol(v: &crate::ast::VariableDeclaration, uri: &str, document_manager: &DocumentManager) -> (r:
    DocumentSymbol)
    requires
        document_manager.wf(),
        uri_fits(uri@),
    ensures
        dsym_view(r) == variable_symbol(*document_manager, uri@, *v),
{
    let r = span_to_range(v.span, uri, document_manager);
    let detail = match &v.type_annotation {
        Some(a) => Some(a.debug.clone()),
        None => None,
    };
    DocumentSymbol {
        name: v.name.clone(),
        kind: if v.is_mutable {
            SymbolKind::Variable
        } else {
            SymbolKind::Constant
        },
        detail,
        range: r,
        selection_range: r,
        children: None,
    }
}

fn param_doc_symbols(ps: &Vec<Parameter>, uri: &str, document_manager: &DocumentManager) -> (r: Vec<DocumentSymbol>)
    requires
        document_manager.wf(),
        uri_fits(uri@),
    ensures
        dsym_list(r@) == param_symbols(*document_manager, uri@, ps@),
{
    let mut out: Vec<DocumentSymbol> = Vec::new();
    let mut i: usize = 0;
    while i < ps.len()
        invariant
            i <= ps@.len(),
            document_manager.wf(),
            uri_fits(uri@),
            dsym_list(out@) == param_symbols(*document_manager, uri@, ps@).take(i as int),
        decreases ps.len() - i,
    {
        let p = &ps[i];
        let r = span_to_range(p.span, uri, document_manager);
        let s = DocumentSymbol {
            name: p.name.clone(),
            kind: SymbolKind::Variable,
            detail: Some(opt_debug_text(&p.type_annotation)),
            range: r,
            selection_range: r,
            children: None,
        };
        push_symbol(&mut out, s);
        proof {
            assert(param_symbols(*document_manager, uri@, ps@).take(i + 1) =~= param_symbols(
                *document_manager,
                uri@,
                ps@,
            ).take(i as int) + seq![dsym_view(s)]);
        }
        i = i + 1;
    }
    proof {
        assert(param_symbols(*document_manager, uri@, ps@).take(ps@.len() as int) =~= param_symbols(
            *document_manager,
            uri@,
            ps@,
        ));
    }
    out
}

/// Find the symbols in a function: its parameters, then the local symbols
/// of its body.
pub fn find_function_symbols(f: &FunctionDeclaration, uri: &str, document_manager: &DocumentManager) -> (r: Vec<
    DocumentSymbol,
>)
    requires
        document_manager.wf(),
        uri_fits(uri@),
    ensures
        dsym_list(r@) == param_symbols(*document_manager, uri@, f.parameters@) + spec_local_seq(
            *document_manager,
            uri@,
            f.body@,
            0,
        ),
{
    let mut symbols = param_doc_symbols(&f.parameters, uri, document_manager);
    local_symbols_seq(&f.body, uri, &mut symbols, document_manager);
    symbols
}

/// Find the symbols in a method: its parameters, then the local symbols of
/// its body.
pub fn find_method_symbols(m: &MethodDeclaration, uri: &str, document_manager: &DocumentManager) -> (r: Vec<
    DocumentSymbol,
>)
    requires
        document_manager.wf(),
        uri_fits(uri@),
    ensures
        dsym_list(r@) == param_symbols(*document_manager, uri@, m.parameters@) + spec_local_seq(
            *document_manager,
            uri@,
            m.body@,
            0,
        ),
{
    let mut symbols = param_doc_symbols(&m.parameters, uri, document_manager);
    local_symbols_seq(&m.body, uri, &mut symbols, document_manager);
    symbols
}

fn method_doc_symbol(m: &MethodDeclaration, uri: &str, document_manager: &DocumentManager) -> (r: DocumentSymbol)
    requires
        document_manager.wf(),
        uri_fits(uri@),
    ensures
        dsym_view(r) == method_symbol(*document_manager, uri@, *m),
{
    let r = span_to_range(m.span, uri, document_manager);
    DocumentSymbol {
        name: m.method_name.clone(),
        kind: SymbolKind::Method,
        detail: Some(format_method_signature(m)),
        range: r,
        selection_range: r,
        children: Some(find_method_symbols(m, uri, document_manager)),
    }
}

/// Find the symbols in a struct: its fields, then its methods.
pub fn find_struct_symbols(sd: &StructDeclaration, uri: &str, document_manager: &DocumentManager) -> (r: Vec<
    DocumentSymbol,
>)
    requires
        document_manager.wf(),
        uri_fits(uri@),
    ensures
        dsym_list(r@) == sd.fields@.map_values(
            |f: crate::ast::StructField|
                leaf(*document_manager, uri@, f.name@, SymbolKind::Field, Some(f.type_annotation.debug@), f.span),
        ) + sd.methods@.map_values(|m: MethodDeclaration| method_symbol(*document_manager, uri@, m)),
{
    let ghost dm = *document_manager;
    let ghost fields_want = sd.fields@.map_values(
        |f: crate::ast::StructField|
            leaf(dm, uri@, f.name@, SymbolKind::Field, Some(f.type_annotation.debug@), f.span),
    );
    let ghost methods_want = sd.methods@.map_values(|m: MethodDeclaration| method_symbol(dm, uri@, m));
    let mut symbols: Vec<DocumentSymbol> = Vec::new();
    let mut i: usize = 0;
    while i < sd.fields.len()
        invariant
            i <= sd.fields@.len(),
            dm == *document_manager,
            document_manager.wf(),
            uri_fits(uri@),
            fields_want == sd.fields@.map_values(
                |f: crate::ast::StructField|
                    leaf(dm, uri@, f.name@, SymbolKind::Field, Some(f.type_annotation.debug@), f.span),
            ),
            dsym_list(symbols@) == fields_want.take(i as int),
        decreases sd.fields.len() - i,
    {
        let f = &sd.fields[i];
        let r = span_to_range(f.span, uri, document_manager);
        let s = DocumentSymbol {
            name: f.name.clone(),
            kind: SymbolKind::Field,
            detail: Some(f.type_annotation.debug.clone()),
            range: r,
            selection_range: r,
            children: None,
        };
        push_symbol(&mut symbols, s);
        proof {
            assert(fields_want.take(i + 1) =~= fields_want.take(i as int) + seq![dsym_view(s)]);
        }
        i = i + 1;
    }
    let mut j: usize = 0;
    proof {
        assert(fields_want.take(sd.fields@.len() as int) =~= fields_want);
        assert(fields_want + methods_want.take(0) =~= fields_want);
    }
    while j < sd.methods.len()
        invariant
            j <= sd.methods@.len(),
            dm == *document_manager,
            document_manager.wf(),
            uri_fits(uri@),
            methods_want == sd.methods@.map_values(|m: MethodDeclaration| method_symbol(dm, uri@, m)),
            dsym_list(symbols@) == fields_want + methods_want.take(j as int),
        decreases sd.methods.len() - j,
    {
        let s = method_doc_symbol(&sd.methods[j], uri, document_manager);
        push_symbol(&mut symbols, s);
        proof {
            assert(methods_want.take(j + 1) =~= methods_want.take(j as int) + seq![dsym_view(s)]);
            assert(fields_want + methods_want.take(j + 1) =~= (fields_want + methods_want.take(j as int)) + seq![
                dsym_view(s),
            ]);
        }
        j = j + 1;
    }
    proof {
        assert(methods_want.take(sd.methods@.len() as int) =~= methods_want);
    }
    symbols
}

/// Find the symbols in an enum: its variants.
pub fn find_enum_symbols(e: &EnumDeclaration, uri: &str, document_manager: &DocumentManager) -> (r: Vec<DocumentSymbol>)
    requires
        document_manager.wf(),
        uri_fits(uri@),
    ensures
        dsym_list(r@) == e.variants@.map_values(
            |v: crate::ast::EnumVariant| leaf(*document_manager, uri@, v.name@, SymbolKind::EnumMember, None, v.span),
        ),
{
    let ghost want = e.variants@.map_values(
        |v: crate::ast::EnumVariant| leaf(*document_manager, uri@, v.name@, SymbolKind::EnumMember, None, v.span),
    );
    let mut symbols: Vec<DocumentSymbol> = Vec::new();
    let mut i: usize = 0;
    while i < e.variants.len()
        invariant
            i <= e.variants@.len(),
            document_manager.wf(),
            uri_fits(uri@),
            want == e.variants@.map_values(
                |v: crate::ast::EnumVariant|
                    leaf(*document_manager, uri@, v.name@, SymbolKind::EnumMember, None, v.span),
            ),
            dsym_list(symbols@) == want.take(i as int),
        decreases e.variants.len() - i,
    {
        let v = &e.variants[i];
        let r = span_to_range(v.span, uri, document_manager);
        let s = DocumentSymbol {
            name: v.name.clone(),
            kind: SymbolKind::EnumMember,
            detail: None,
            range: r,
            selection_range: r,
            children: None,
        };
        push_symbol(&mut symbols, s);
        proof {
            assert(want.take(i + 1) =~= want.take(i as int) + seq![dsym_view(s)]);
        }
        i = i + 1;
    }
    proof {
        assert(want.take(e.variants@.len() as int) =~= want);
    }
    symbols
}

/// Find the local symbols of a block's statements.
pub fn find_block_symbols(statements: &Vec<AstNode>, uri: &str, document_manager: &DocumentManager) -> (r: Vec<
    DocumentSymbol,
>)
    requires
        document_manager.wf(),
        uri_fits(uri@),
    ensures
        dsym_list(r@) == spec_local_seq(*document_manager, uri@, statements@, 0),
{
    let mut symbols: Vec<DocumentSymbol> = Vec::new();
    local_symbols_seq(statements, uri, &mut symbols, document_manager);
    proof {
        assert(Seq::<DocSymView>::empty() + spec_local_seq(*document_manager, uri@, statements@, 0) =~= spec_local_seq(
            *document_manager,
            uri@,
            statements@,
            0,
        ));
    }
    symbols
}

fn node_symbols_seq(nodes: &Vec<AstNode>, uri: &str, symbols: &mut Vec<DocumentSymbol>, document_manager: &DocumentManager)
    requires
        document_manager.wf(),
        uri_fits(uri@),
    ensures
        dsym_list(final(symbols)@) == dsym_list(old(symbols)@) + spec_node_seq(*document_manager, uri@, nodes@, 0),
    decreases nodes, 1int,
{
    let ghost dm = *document_manager;
    let ghost start = dsym_list(symbols@);
    let mut i: usize = 0;
    while i < nodes.len()
        invariant
            i <= nodes@.len(),
            dm == *document_manager,
            document_manager.wf(),
            uri_fits(uri@),
            start + spec_node_seq(dm, uri@, nodes@, 0) == dsym_list(symbols@) + spec_node_seq(
                dm,
                uri@,
                nodes@,
                i as int,
            ),
        decreases nodes.len() - i,
    {
        assert(decreases_to!(nodes => nodes@[i as int]));
        let ghost mid = dsym_list(symbols@);
        find_symbols_in_ast(&nodes[i], uri, symbols, document_manager);
        proof {
            let here = spec_node_symbols(dm, uri@, nodes@[i as int]);
            let rest = spec_node_seq(dm, uri@, nodes@, i + 1);
            assert(mid + (here + rest) =~= (mid + here) + rest);
        }
        i = i + 1;
    }
    proof {
        assert(dsym_list(symbols@) + Seq::<DocSymView>::empty() =~= dsym_list(symbols@));
    }
}

/// Collect the outline symbols of a node.
pub fn find_symbols_in_ast(node: &AstNode, uri: &str, symbols: &mut Vec<DocumentSymbol>, document_manager: &DocumentManager)
    requires
        document_manager.wf(),
        uri_fits(uri@),
    ensures
        dsym_list(final(symbols)@) == dsym_list(old(symbols)@) + spec_node_symbols(*document_manager, uri@, *node),
    decreases node, 0int,
{
    let ghost before = dsym_list(symbols@);
    match node {
        AstNode::FunctionDecl(f) => {
            let r = span_to_range(f.span, uri, document_manager);
            let s = DocumentSymbol {
                name: f.name.clone(),
                kind: SymbolKind::Function,
                detail: Some(format_function_signature(f)),
                range: r,
                selection_range: r,
                children: Some(find_function_symbols(f, uri, document_manager)),
            };
            push_symbol(symbols, s);
        },
        AstNode::MethodDecl(m) => {
            let s = method_doc_symbol(m, uri, document_manager);
            push_symbol(symbols, s);
        },
        AstNode::StructDecl(sd) => {
            let r = span_to_range(sd.span, uri, document_manager);
            let s = DocumentSymbol {
                name: sd.name.clone(),
                kind: SymbolKind::Struct,
                detail: Some(format_struct_signature(sd)),
                range: r,
                selection_range: r,
                children: Some(find_struct_symbols(sd, uri, document_manager)),
            };
            push_symbol(symbols, s);
        },
        AstNode::EnumDecl(e) => {
            let r = span_to_range(e.span, uri, document_manager);
            let s = DocumentSymbol {
                name: e.name.clone(),
                kind: SymbolKind::Enum,
                detail: Some(format_enum_signature(e)),
                range: r,
                selection_range: r,
                children: Some(find_enum_symbols(e, uri, document_manager)),
            };
            push_symbol(symbols, s);
        },
        AstNode::VariableDecl(v) => {
            let s = variable_doc_symbol(v, uri, document_manager);
            push_symbol(symbols, s);
        },
        AstNode::Program(p) => {
            node_symbols_seq(&p.statements, uri, symbols, document_manager);
        },
        AstNode::Block { statements } => {
            let mut found = find_block_symbols(statements, uri, document_manager);
            let ghost prev = symbols@;
            let ghost more = found@;
            symbols.append(&mut found);
            proof {
                lemma_dsym_list_append(prev, more);
            }
        },
        _ => {
            assert(before + Seq::<DocSymView>::empty() =~= before);
        },
    }
}

/// The outline of the open document at `uri`: the symbols of its syntax
/// tree's statements; none without a tree.
pub open spec fn spec_document_symbols(dm: DocumentManager, uri: Seq<char>) -> Seq<DocSymView> {
    if dm.view().contains_key(uri) {
        match dm.view()[uri].ast {
            Some(a) => spec_node_seq(dm, uri, a.statements@, 0),
            None => Seq::empty(),
        }
    } else {
        Seq::empty()
    }
}

/// Find all symbols in a document.
pub fn find_document_symbols(uri: &str, document_manager: &DocumentManager) -> (r: Vec<DocumentSymbol>)
    requires
        document_manager.wf(),
        uri_fits(uri@),
    ensures
        dsym_list(r@) == spec_document_symbols(*document_manager, uri@),
{
    let mut symbols: Vec<DocumentSymbol> = Vec::new();
    match document_manager.get_document_ast(uri) {
        Some(ast) => {
            node_symbols_seq(&ast.statements, uri, &mut symbols, document_manager);
            assert(Seq::<DocSymView>::empty() + spec_node_seq(*document_manager, uri@, ast.statements@, 0)
                =~= spec_node_seq(*document_manager, uri@, ast.statements@, 0));
        },
        None => {},
    }
    symbols
}

proof fn lemma_node_seq_contains(dm: DocumentManager, uri: Seq<char>, ns: Seq<AstNode>, j: int, i: int, x: DocSymView)
    requires
        0 <= j <= i < ns.len(),
        spec_node_symbols(dm, uri, ns[i]).contains(x),
    ensures
        spec_node_seq(dm, uri, ns, j).contains(x),
    decreases i - j,
{
    let here = spec_node_symbols(dm, uri, ns[j]);
    let rest = spec_node_seq(dm, uri, ns, j + 1);
    assert(spec_node_seq(dm, uri, ns, j) == here + rest);
    if j < i {
        lemma_node_seq_contains(dm, uri, ns, j + 1, i, x);
        let k = choose|k: int| 0 <= k < rest.len() && rest[k] == x;
        assert((here + rest)[here.len() + k] == x);
    } else {
        let k = choose|k: int| 0 <= k < here.len() && here[k] == x;
        assert((here + rest)[k] == x);
    }
}

/// Every top-level variable declaration of an open document shows in its
/// outline, under the variable's name and at its place, as a constant
/// exactly when the variable is not mutable (and as a variable otherwise).
pub proof fn law_outline_shows_variables(dm: DocumentManager, uri: Seq<char>, i: int)
    requires
        dm.view().contains_key(uri),
        dm.view()[uri].ast matches Some(a) && 0 <= i < a.statements@.len() && a.statements@[i] is VariableDecl,
    ensures
        ({
            let v = dm.view()[uri].ast->0.statements@[i]->VariableDecl_0;
            exists|j: int|
                0 <= j < spec_document_symbols(dm, uri).len() && {
                    let d = #[trigger] spec_document_symbols(dm, uri)[j];
                    &&& d.name == v.name@
                    &&& d.range == outline_range(dm, uri, v.span)
                    &&& (d.kind == SymbolKind::Variable || d.kind == SymbolKind::Constant)
                    &&& (d.kind == SymbolKind::Constant) == !v.is_mutable
                }
        }),
{
    let a = *dm.view()[uri].ast->0;
    let v = a.statements@[i]->VariableDecl_0;
    let x = variable_symbol(dm, uri, v);
    assert(spec_node_symbols(dm, uri, a.statements@[i]) == seq![x]);
    assert(seq![x][0] == x);
    lemma_node_seq_contains(dm, uri, a.statements@, 0, i, x);
    let all = spec_document_symbols(dm, uri);
    let j = choose|j: int| 0 <= j < all.len() && all[j] == x;
    assert(all[j] == x);
}

/// Every top-level function, struct, enum or method declaration of an
/// open document shows in its outline under its name, at its place, with
/// the kind of the declaration.
pub proof fn law_outline_shows_declarations(dm: DocumentManager, uri: Seq<char>, i: int, name: Seq<char>)
    requires
        dm.view().contains_key(uri),
        dm.view()[uri].ast matches Some(a) && 0 <= i < a.statements@.len() && declares_directly(
            a.statements@[i],
            name,
        ) && !(a.statements@[i] is VariableDecl),
    ensures
        ({
            let n = dm.view()[uri].ast->0.statements@[i];
            exists|j: int|
                0 <= j < spec_document_symbols(dm, uri).len() && {
                    let d = #[trigger] spec_document_symbols(dm, uri)[j];
                    &&& d.name == name
                    &&& d.range == outline_range(dm, uri, decl_span(n))
                    &&& d.kind == match n {
                        AstNode::FunctionDecl(_) => SymbolKind::Function,
                        AstNode::StructDecl(_) => SymbolKind::Struct,
                        AstNode::EnumDecl(_) => SymbolKind::Enum,
                        _ => SymbolKind::Method,
                    }
                }
        }),
{
    let a = *dm.view()[uri].ast->0;
    let n = a.statements@[i];
    let here = spec_node_symbols(dm, uri, n);
    assert(here.len() == 1);
    let x = here[0];
    assert(here.contains(x));
    lemma_node_seq_contains(dm, uri, a.statements@, 0, i, x);
    let all = spec_document_symbols(dm, uri);
    let j = choose|j: int| 0 <= j < all.len() && all[j] == x;
    assert(all[j] == x);
}

} // verus!
