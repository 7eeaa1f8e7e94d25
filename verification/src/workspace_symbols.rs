//! Workspace symbols: the declarations of every open document whose names
//! contain the query (ignoring case), best matches first, at most a
//! hundred.

use vstd::prelude::*;
use crate::ast::{decl_span, declares_directly, AstNode, EnumVariant, MethodDeclaration, Program, Span, StructField};
use crate::definition::uri_parses;
use crate::definition::{spec_span_range, spec_uri_parses};
use crate::document::{DocumentManager, uri_fits};
use crate::document_symbols::SymbolKind;
use crate::hover::{opt_view, params_texts};
use crate::position::{Position, Range};
use crate::strings::{chars_have_prefix_at, chars_vec, text_eq};
use crate::type_text::{
    decimal, format_type_annotation, join, spec_join, spec_type_text, usize_to_decimal, views,
};

verus! {

/// A symbol found in the workspace.
#[derive(Debug, Clone)]
pub struct WorkspaceSymbol {
    /// Name shown (a member's name is prefixed with its owner's).
    pub name: String,
    /// Kind of symbol.
    pub kind: SymbolKind,
    /// URI of the document that declares it.
    pub uri: String,
    /// Where it stands.
    pub range: Range,
    /// What it is, in words.
    pub container_name: Option<String>,
}

/// A workspace symbol, as values.
pub struct WsSymView {
    pub name: Seq<char>,
    pub kind: SymbolKind,
    pub uri: Seq<char>,
    pub range: Range,
    pub container_name: Option<Seq<char>>,
}

impl View for WorkspaceSymbol {
    type V = WsSymView;

    open spec fn view(&self) -> WsSymView {
        WsSymView {
            name: self.name@,
            kind: self.kind,
            uri: self.uri@,
            range: self.range,
            container_name: opt_view(self.container_name),
        }
    }
}

/// The views of workspace symbols.
pub open spec fn ws_views(s: Seq<WorkspaceSymbol>) -> Seq<WsSymView> {
    s.map_values(|w: WorkspaceSymbol| w@)
}

/// Name for what `str::to_lowercase` gives.
pub uninterp spec fn spec_to_lowercase(s: Seq<char>) -> Seq<char>;

/// Calls `str::to_lowercase`. Claims: the result is the named lowercase
/// form of the text.
#[verifier::external_body]
fn to_lowercase(s: &str) -> (r: String)
    ensures
        r@ == spec_to_lowercase(s@),
{
    s.to_lowercase()
}

/// `needle` occurs somewhere in `hay`.
pub open spec fn contains_text(hay: Seq<char>, needle: Seq<char>) -> bool {
    exists|i: int| 0 <= i && i + needle.len() <= hay.len() && #[trigger] hay.subrange(i, i + needle.len()) == needle
}

/// A name matches a query when the query is `*`, or when the name,
/// lowercased, contains the query, lowercased.
pub open spec fn spec_matches_query(name: Seq<char>, query: Seq<char>) -> bool {
    query == "*"@ || contains_text(spec_to_lowercase(name), spec_to_lowercase(query))
}

fn text_contains(hay: &str, needle: &str) -> (r: bool)
    ensures
        r == contains_text(hay@, needle@),
{
    let h = chars_vec(hay);
    let n = chars_vec(needle);
    if n.len() > h.len() {
        return false;
    }
    if n.len() == 0 {
        assert(h@.subrange(0int, 0int + n@.len()) =~= n@);
        return true;
    }
    let mut i: usize = 0;
    while i <= h.len() - n.len()
        invariant
            0 < n@.len() <= h@.len(),
            i <= h@.len() - n@.len() + 1,
            h@ == hay@,
            n@ == needle@,
            forall|j: int| 0 <= j < i ==> #[trigger] h@.subrange(j, j + n@.len()) != n@,
        decreases h.len() - i,
    {
        if chars_have_prefix_at(h.as_slice(), i, n.as_slice()) {
            assert(h@.subrange(i as int, i + n@.len()) == n@);
            return true;
        }
        i = i + 1;
    }
    false
}

/// Check if a symbol name matches the query: exactly, as a prefix, or
/// anywhere, ignoring case; `*` matches everything.
pub fn matches_query(symbol_name: &str, query: &str) -> (r: bool)
    ensures
        r == spec_matches_query(symbol_name@, query@),
{
    if text_eq(query, "*") {
        return true;
    }
    let symbol_lower = to_lowercase(symbol_name);
    let query_lower = to_lowercase(query);
    if text_eq(symbol_lower.as_str(), query_lower.as_str()) {
        assert(symbol_lower@.subrange(0int, 0int + query_lower@.len()) =~= query_lower@);
        return true;
    }
    let sv = chars_vec(symbol_lower.as_str());
    let qv = chars_vec(query_lower.as_str());
    if chars_have_prefix_at(sv.as_slice(), 0, qv.as_slice()) {
        assert(symbol_lower@.subrange(0int, 0int + query_lower@.len()) == query_lower@);
        return true;
    }
    text_contains(symbol_lower.as_str(), query_lower.as_str())
}

/// The range of a span in the document at `uri`, when the document is
/// open and its text has a line.
pub open spec fn spec_doc_span_range(dm: DocumentManager, uri: Seq<char>, sp: Span) -> Option<Range> {
    if dm.view().contains_key(uri) {
        spec_span_range(dm.view()[uri].text, sp)
    } else {
        None
    }
}

/// Where a workspace symbol is placed: the span's range in the document
/// at `uri`, or the first character of the document when the span cannot
/// be placed there.
pub open spec fn ws_range(dm: DocumentManager, uri: Seq<char>, sp: Span) -> Range {
    match spec_doc_span_range(dm, uri, sp) {
        Some(r) => r,
        None => Range { start: Position { line: 0, character: 0 }, end: Position { line: 0, character: 1 } },
    }
}

/// The URI recorded for a symbol: the document's, or `file://unknown`
/// when the document's does not parse.
pub open spec fn ws_uri(uri: Seq<char>) -> Seq<char> {
    if spec_uri_parses(uri) {
        uri
    } else {
        "file://unknown"@
    }
}

/// A workspace symbol's value.
pub open spec fn ws_sym(dm: DocumentManager, name: Seq<char>, kind: SymbolKind, uri: Seq<char>, sp: Span, detail: Seq<char>) -> WsSymView {
    WsSymView { name, kind, uri: ws_uri(uri), range: ws_range(dm, uri, sp), container_name: Some(detail) }
}

/// Convert a span to a range in the document at `uri`.
pub fn span_to_range(span: Span, uri: &str, document_manager: &DocumentManager) -> (r: Option<Range>)
    requires
        document_manager.wf(),
    ensures
        r == spec_doc_span_range(*document_manager, uri@, span),
{
    crate::definition::span_to_range(span, uri, document_manager)
}

/// Create a workspace symbol.
pub fn create_workspace_symbol(
    name: String,
    kind: SymbolKind,
    uri: &str,
    span: Span,
    detail: String,
    document_manager: &DocumentManager,
) -> (r: WorkspaceSymbol)
    requires
        uri_fits(uri@),
        document_manager.wf(),
    ensures
        r@ == ws_sym(*document_manager, name@, kind, uri@, span, detail@),
{
    let location_uri = if uri_parses(uri) {
        String::from_str(uri)
    } else {
        String::from_str("file://unknown")
    };
    let range = match span_to_range(span, uri, document_manager) {
        Some(r) => r,
        None => Range { start: Position { line: 0, character: 0 }, end: Position { line: 0, character: 1 } },
    };
    WorkspaceSymbol { name, kind, uri: location_uri, range, container_name: Some(detail) }
}

/// Format parameters for display: `name: type`, `_` for a missing type,
/// separated by `, `.
pub open spec fn params_display(ps: Seq<crate::ast::Parameter>) -> Seq<char> {
    spec_join(params_texts(ps), ", "@)
}

fn param_texts(ps: &Vec<crate::ast::Parameter>) -> (r: Vec<String>)
    ensures
        views(r@) == params_texts(ps@),
{
    let mut out: Vec<String> = Vec::new();
    let mut i: usize = 0;
    while i < ps.len()
        invariant
            i <= ps@.len(),
            out@.len() == i,
            views(out@) == params_texts(ps@).take(i as int),
        decreases ps.len() - i,
    {
        let p = &ps[i];
        let t = match &p.type_annotation {
            Some(t) => format_type_annotation(&t.node),
            None => String::from_str("_"),
        };
        let s = p.name.clone().concat(": ").concat(t.as_str());
        let ghost old_out = out@;
        out.push(s);
        proof {
            assert(views(out@)[i as int] == s@);
            assert(views(out@).drop_last() =~= views(old_out));
            assert(views(out@) =~= params_texts(ps@).take(i + 1));
        }
        i = i + 1;
    }
    proof {
        assert(params_texts(ps@).take(ps@.len() as int) =~= params_texts(ps@));
    }
    out
}

/// Format parameters for display.
pub fn format_parameters(parameters: &Vec<crate::ast::Parameter>) -> (r: String)
    ensures
        r@ == params_display(parameters@),
{
    if parameters.len() == 0 {
        return String::new();
    }
    join(&param_texts(parameters), ", ")
}

/// The detail of a function symbol.
pub open spec fn function_detail(prefix: Seq<char>, name: Seq<char>, ps: Seq<crate::ast::Parameter>) -> Seq<char> {
    prefix + name + "("@ + params_display(ps) + ")"@
}

/// The detail of a method symbol.
pub open spec fn method_detail(m: MethodDeclaration) -> Seq<char> {
    "方法: "@ + m.method_name@ + "("@ + params_display(m.parameters@) + ")"@
}

/// The matching fields of a struct, as member symbols.
pub open spec fn field_syms(dm: DocumentManager, uri: Seq<char>, owner: Seq<char>, fs: Seq<StructField>, q: Seq<char>) -> Seq<WsSymView>
    decreases fs.len(),
{
    if fs.len() == 0 {
        Seq::empty()
    } else {
        let f = fs.last();
        field_syms(dm, uri, owner, fs.drop_last(), q) + if spec_matches_query(f.name@, q) {
            seq![
                ws_sym(
                    dm,
                    owner + "."@ + f.name@,
                    SymbolKind::Field,
                    uri,
                    f.span,
                    "字段: "@ + f.name@ + " ("@ + spec_type_text(f.type_annotation.node) + ")"@,
                ),
            ]
        } else {
            Seq::empty()
        }
    }
}

/// The matching methods of a struct, as member symbols.
pub open spec fn method_syms(dm: DocumentManager, uri: Seq<char>, owner: Seq<char>, ms: Seq<MethodDeclaration>, q: Seq<char>) -> Seq<
    WsSymView,
>
    decreases ms.len(),
{
    if ms.len() == 0 {
        Seq::empty()
    } else {
        let m = ms.last();
        method_syms(dm, uri, owner, ms.drop_last(), q) + if spec_matches_query(m.method_name@, q) {
            seq![ws_sym(dm, owner + "."@ + m.method_name@, SymbolKind::Method, uri, m.span, method_detail(m))]
        } else {
            Seq::empty()
        }
    }
}

/// The matching variants of an enum, as member symbols.
pub open spec fn variant_syms(dm: DocumentManager, uri: Seq<char>, owner: Seq<char>, vs: Seq<EnumVariant>, q: Seq<char>) -> Seq<WsSymView>
    decreases vs.len(),
{
    if vs.len() == 0 {
        Seq::empty()
    } else {
        let v = vs.last();
        variant_syms(dm, uri, owner, vs.drop_last(), q) + if spec_matches_query(v.name@, q) {
            seq![
                ws_sym(dm, owner + "."@ + v.name@, SymbolKind::EnumMember, uri, v.span, "枚举变体: "@ + v.name@),
            ]
        } else {
            Seq::empty()
        }
    }
}

/// The symbols a statement contributes: matching declarations, and for a
/// matching struct or enum its matching members, inside blocks too.
pub open spec fn spec_statement_symbols(dm: DocumentManager, uri: Seq<char>, n: AstNode, q: Seq<char>) -> Seq<WsSymView>
    decreases n, 0int,
{
    match n {
        AstNode::FunctionDecl(f) => if spec_matches_query(f.name@, q) {
            seq![
                ws_sym(dm, f.name@, SymbolKind::Function, uri, f.span, function_detail("函数 "@, f.name@, f.parameters@)),
            ]
        } else {
            Seq::empty()
        },
        AstNode::AsyncFunctionDecl(f) => if spec_matches_query(f.name@, q) {
            seq![
                ws_sym(
                    dm,
                    f.name@,
                    SymbolKind::Function,
                    uri,
                    f.span,
                    function_detail("异步函数 "@, f.name@, f.parameters@),
                ),
            ]
        } else {
            Seq::empty()
        },
        AstNode::VariableDecl(v) => if spec_matches_query(v.name@, q) {
            seq![
                ws_sym(
                    dm,
                    v.name@,
                    if v.is_mutable {
                        SymbolKind::Variable
                    } else {
                        SymbolKind::Constant
                    },
                    uri,
                    v.span,
                    "变量: "@ + v.name@ + " ("@ + match v.type_annotation {
                        Some(t) => spec_type_text(t.node),
                        None => "自动推断"@,
                    } + ")"@,
                ),
            ]
        } else {
            Seq::empty()
        },
        AstNode::StructDecl(sd) => if spec_matches_query(sd.name@, q) {
            seq![
                ws_sym(
                    dm,
                    sd.name@,
                    SymbolKind::Struct,
                    uri,
                    sd.span,
                    if sd.fields@.len() == 0 {
                        "空结构体"@
                    } else {
                        "结构体 ("@ + decimal(sd.fields@.len()) + " 个字段)"@
                    },
                ),
            ] + field_syms(dm, uri, sd.name@, sd.fields@, q) + method_syms(dm, uri, sd.name@, sd.methods@, q)
        } else {
            Seq::empty()
        },
        AstNode::EnumDecl(e) => if spec_matches_query(e.name@, q) {
            seq![
                ws_sym(
                    dm,
                    e.name@,
                    SymbolKind::Enum,
                    uri,
                    e.span,
                    if e.variants@.len() == 0 {
                        "空枚举"@
                    } else {
                        "枚举 ("@ + decimal(e.variants@.len()) + " 个变体)"@
                    },
                ),
            ] + variant_syms(dm, uri, e.name@, e.variants@, q)
        } else {
            Seq::empty()
        },
        AstNode::MethodDecl(m) => if spec_matches_query(m.method_name@, q) {
            seq![
                ws_sym(
                    dm,
                    m.receiver_type@ + "."@ + m.method_name@,
                    SymbolKind::Method,
                    uri,
                    m.span,
                    method_detail(m),
                ),
            ]
        } else {
            Seq::empty()
        },
        AstNode::Block { statements } => spec_statements_symbols(dm, uri, statements@, 0, q),
        _ => Seq::empty(),
    }
}

/// The symbols of statements `ns[i..]`, in order.
pub open spec fn spec_statements_symbols(dm: DocumentManager, uri: Seq<char>, ns: Seq<AstNode>, i: int, q: Seq<char>) -> Seq<WsSymView>
    decreases ns, ns.len() - i,
{
    if 0 <= i < ns.len() {
        spec_statement_symbols(dm, uri, ns[i], q) + spec_statements_symbols(dm, uri, ns, i + 1, q)
    } else {
        Seq::empty()
    }
}

fn push_ws(symbols: &mut Vec<WorkspaceSymbol>, s: WorkspaceSymbol)
    ensures
        ws_views(final(symbols)@) == ws_views(old(symbols)@).push(s@),
{
    symbols.push(s);
    assert(ws_views(symbols@) =~= ws_views(old(symbols)@).push(s@));
}

fn member_name(owner: &str, member: &str) -> (r: String)
    ensures
        r@ == owner@ + "."@ + member@,
{
    String::from_str(owner).concat(".").concat(member)
}

fn statements_symbols(
    uri: &str,
    nodes: &Vec<AstNode>,
    query: &str,
    symbols: &mut Vec<WorkspaceSymbol>,
    document_manager: &DocumentManager,
)
    requires
        uri_fits(uri@),
        document_manager.wf(),
    ensures
        ws_views(final(symbols)@) == ws_views(old(symbols)@) + spec_statements_symbols(*document_manager, uri@, nodes@, 0, query@),
    decreases nodes, 1int,
{
    let ghost start = ws_views(symbols@);
    let mut i: usize = 0;
    while i < nodes.len()
        invariant
            i <= nodes@.len(),
            uri_fits(uri@),
            document_manager.wf(),
            start + spec_statements_symbols(*document_manager, uri@, nodes@, 0, query@) == ws_views(symbols@)
                + spec_statements_symbols(*document_manager, uri@, nodes@, i as int, query@),
        decreases nodes.len() - i,
    {
        assert(decreases_to!(nodes => nodes@[i as int]));
        let ghost mid = ws_views(symbols@);
        extract_symbols_from_statement(uri, &nodes[i], query, symbols, document_manager);
        proof {
            let here = spec_statement_symbols(*document_manager, uri@, nodes@[i as int], query@);
            let rest = spec_statements_symbols(*document_manager, uri@, nodes@, i + 1, query@);
            assert(mid + (here + rest) =~= (mid + here) + rest);
        }
        i = i + 1;
    }
    assert(ws_views(symbols@) + Seq::<WsSymView>::empty() =~= ws_views(symbols@));
}

/// Extract the symbols of a statement that match the query.
pub fn extract_symbols_from_statement(
    uri: &str,
    statement: &AstNode,
    query: &str,
    symbols: &mut Vec<WorkspaceSymbol>,
    document_manager: &DocumentManager,
)
    requires
        uri_fits(uri@),
        document_manager.wf(),
    ensures
        ws_views(final(symbols)@) == ws_views(old(symbols)@) + spec_statement_symbols(*document_manager, uri@, *statement, query@),
    decreases statement, 0int,
{
    let ghost before = ws_views(symbols@);
    match statement {
        AstNode::FunctionDecl(f) => {
            if matches_query(f.name.as_str(), query) {
                let detail = String::from_str("函数 ").concat(f.name.as_str()).concat("(").concat(
                    format_parameters(&f.parameters).as_str(),
                ).concat(")");
                let s = create_workspace_symbol(f.name.clone(), SymbolKind::Function, uri, f.span, detail, document_manager);
                push_ws(symbols, s);
            } else {
                assert(before + Seq::<WsSymView>::empty() =~= before);
            }
        },
        AstNode::AsyncFunctionDecl(f) => {
            if matches_query(f.name.as_str(), query) {
                let detail = String::from_str("异步函数 ").concat(f.name.as_str()).concat("(").concat(
                    format_parameters(&f.parameters).as_str(),
                ).concat(")");
                let s = create_workspace_symbol(f.name.clone(), SymbolKind::Function, uri, f.span, detail, document_manager);
                push_ws(symbols, s);
            } else {
                assert(before + Seq::<WsSymView>::empty() =~= before);
            }
        },
        AstNode::VariableDecl(v) => {
            if matches_query(v.name.as_str(), query) {
                let kind = if v.is_mutable {
                    SymbolKind::Variable
                } else {
                    SymbolKind::Constant
                };
                let type_info = match &v.type_annotation {
                    Some(t) => format_type_annotation(&t.node),
                    None => String::from_str("自动推断"),
                };
                let detail = String::from_str("变量: ").concat(v.name.as_str()).concat(" (").concat(
                    type_info.as_str(),
                ).concat(")");
                let s = create_workspace_symbol(v.name.clone(), kind, uri, v.span, detail, document_manager);
                push_ws(symbols, s);
            } else {
                assert(before + Seq::<WsSymView>::empty() =~= before);
            }
        },
        AstNode::StructDecl(sd) => {
            if matches_query(sd.name.as_str(), query) {
                let fields_info = if sd.fields.len() == 0 {
                    String::from_str("空结构体")
                } else {
                    String::from_str("结构体 (").concat(usize_to_decimal(sd.fields.len()).as_str()).concat(
                        " 个字段)",
                    )
                };
                let s = create_workspace_symbol(sd.name.clone(), SymbolKind::Struct, uri, sd.span, fields_info, document_manager);
                push_ws(symbols, s);
                let ghost head = ws_views(symbols@);
                let mut i: usize = 0;
                while i < sd.fields.len()
                    invariant
                        i <= sd.fields@.len(),
                        uri_fits(uri@),
                        document_manager.wf(),
                        ws_views(symbols@) == head + field_syms(*document_manager, uri@, sd.name@, sd.fields@.take(i as int), query@),
                    decreases sd.fields.len() - i,
                {
                    let f = &sd.fields[i];
                    proof {
                        assert(sd.fields@.take(i + 1).drop_last() =~= sd.fields@.take(i as int));
                    }
                    if matches_query(f.name.as_str(), query) {
                        let detail = String::from_str("字段: ").concat(f.name.as_str()).concat(" (").concat(
                            format_type_annotation(&f.type_annotation.node).as_str(),
                        ).concat(")");
                        let s = create_workspace_symbol(
                            member_name(sd.name.as_str(), f.name.as_str()),
                            SymbolKind::Field,
                            uri,
                            f.span,
                            detail,
                            document_manager,
                        );
                        push_ws(symbols, s);
                    }
                    i = i + 1;
                }
                assert(sd.fields@.take(sd.fields@.len() as int) =~= sd.fields@);
                let ghost head2 = ws_views(symbols@);
                let mut j: usize = 0;
                while j < sd.methods.len()
                    invariant
                        j <= sd.methods@.len(),
                        uri_fits(uri@),
                        document_manager.wf(),
                        ws_views(symbols@) == head2 + method_syms(*document_manager, uri@, sd.name@, sd.methods@.take(j as int), query@),
                    decreases sd.methods.len() - j,
                {
                    let m = &sd.methods[j];
                    proof {
                        assert(sd.methods@.take(j + 1).drop_last() =~= sd.methods@.take(j as int));
                    }
                    if matches_query(m.method_name.as_str(), query) {
                        let detail = String::from_str("方法: ").concat(m.method_name.as_str()).concat("(").concat(
                            format_parameters(&m.parameters).as_str(),
                        ).concat(")");
                        let s = create_workspace_symbol(
                            member_name(sd.name.as_str(), m.method_name.as_str()),
                            SymbolKind::Method,
                            uri,
                            m.span,
                            detail,
                            document_manager,
                        );
                        push_ws(symbols, s);
                    }
                    j = j + 1;
                }
                assert(sd.methods@.take(sd.methods@.len() as int) =~= sd.methods@);
                assert(ws_views(symbols@) =~= before + spec_statement_symbols(*document_manager, uri@, *statement, query@));
            } else {
                assert(before + Seq::<WsSymView>::empty() =~= before);
            }
        },
        AstNode::EnumDecl(e) => {
            if matches_query(e.name.as_str(), query) {
                let variants_info = if e.variants.len() == 0 {
                    String::from_str("空枚举")
                } else {
                    String::from_str("枚举 (").concat(usize_to_decimal(e.variants.len()).as_str()).concat(
                        " 个变体)",
                    )
                };
                let s = create_workspace_symbol(e.name.clone(), SymbolKind::Enum, uri, e.span, variants_info, document_manager);
                push_ws(symbols, s);
                let ghost head = ws_views(symbols@);
                let mut i: usize = 0;
                while i < e.variants.len()
                    invariant
                        i <= e.variants@.len(),
                        uri_fits(uri@),
                        document_manager.wf(),
                        ws_views(symbols@) == head + variant_syms(*document_manager, uri@, e.name@, e.variants@.take(i as int), query@),
                    decreases e.variants.len() - i,
                {
                    let v = &e.variants[i];
                    proof {
                        assert(e.variants@.take(i + 1).drop_last() =~= e.variants@.take(i as int));
                    }
                    if matches_query(v.name.as_str(), query) {
                        let detail = String::from_str("枚举变体: ").concat(v.name.as_str());
                        let s = create_workspace_symbol(
                            member_name(e.name.as_str(), v.name.as_str()),
                            SymbolKind::EnumMember,
                            uri,
                            v.span,
                            detail,
                            document_manager,
                        );
                        push_ws(symbols, s);
                    }
                    i = i + 1;
                }
                assert(e.variants@.take(e.variants@.len() as int) =~= e.variants@);
                assert(ws_views(symbols@) =~= before + spec_statement_symbols(*document_manager, uri@, *statement, query@));
            } else {
                assert(before + Seq::<WsSymView>::empty() =~= before);
            }
        },
        AstNode::MethodDecl(m) => {
            if matches_query(m.method_name.as_str(), query) {
                let detail = String::from_str("方法: ").concat(m.method_name.as_str()).concat("(").concat(
                    format_parameters(&m.parameters).as_str(),
                ).concat(")");
                let s = create_workspace_symbol(
                    member_name(m.receiver_type.as_str(), m.method_name.as_str()),
                    SymbolKind::Method,
                    uri,
                    m.span,
                    detail,
                    document_manager,
                );
                push_ws(symbols, s);
            } else {
                assert(before + Seq::<WsSymView>::empty() =~= before);
            }
        },
        AstNode::Block { statements } => {
            statements_symbols(uri, statements, query, symbols, document_manager);
        },
        _ => {
            assert(before + Seq::<WsSymView>::empty() =~= before);
        },
    }
}

/// The symbols of a document's syntax tree that match the query.
pub open spec fn spec_document_ws_symbols(dm: DocumentManager, uri: Seq<char>, ast: Program, q: Seq<char>) -> Seq<WsSymView> {
    spec_statements_symbols(dm, uri, ast.statements@, 0, q)
}

/// Find the symbols in a document that match the query.
pub fn find_symbols_in_document(
    uri: &str,
    ast: &Program,
    query: &str,
    document_manager: &DocumentManager,
) -> (r: Vec<WorkspaceSymbol>)
    requires
        uri_fits(uri@),
        document_manager.wf(),
    ensures
        ws_views(r@) == spec_document_ws_symbols(*document_manager, uri@, *ast, query@),
{
    let mut symbols: Vec<WorkspaceSymbol> = Vec::new();
    statements_symbols(uri, &ast.statements, query, &mut symbols, document_manager);
    assert(ws_views(symbols@) =~= Seq::<WsSymView>::empty() + spec_document_ws_symbols(*document_manager, uri@, *ast, query@));
    symbols
}

/// Lexicographic order of texts by character code.
pub open spec fn text_lt(a: Seq<char>, b: Seq<char>) -> bool
    decreases a.len(),
{
    if a.len() == 0 {
        b.len() > 0
    } else if b.len() == 0 {
        false
    } else if (a[0] as u32) < (b[0] as u32) {
        true
    } else if (a[0] as u32) > (b[0] as u32) {
        false
    } else {
        text_lt(a.skip(1), b.skip(1))
    }
}

/// How well a lowercased name matches a lowercased query: exactly (0), as
/// a prefix (1), or otherwise (2).
pub open spec fn match_rank(name: Seq<char>, q: Seq<char>) -> int {
    if name == q {
        0
    } else if q.len() <= name.len() && name.subrange(0, q.len() as int) == q {
        1
    } else {
        2
    }
}

/// Symbol `a` sorts before symbol `b`: a better match, or as good a match
/// with a smaller lowercased name.
pub open spec fn ranks_before(a: WsSymView, b: WsSymView, q: Seq<char>) -> bool {
    let la = spec_to_lowercase(a.name);
    let lb = spec_to_lowercase(b.name);
    let lq = spec_to_lowercase(q);
    match_rank(la, lq) < match_rank(lb, lq) || (match_rank(la, lq) == match_rank(lb, lq) && text_lt(la, lb))
}

/// The index before which `x` goes in `s`: the first element from `i` on
/// that sorts after it.
pub open spec fn insertion_point(s: Seq<WsSymView>, x: WsSymView, q: Seq<char>, i: int) -> int
    decreases s.len() - i,
{
    if i < 0 || i >= s.len() {
        s.len() as int
    } else if ranks_before(x, s[i], q) {
        i
    } else {
        insertion_point(s, x, q, i + 1)
    }
}

/// The symbols sorted by relevance, stably: each placed after every
/// earlier one that does not sort after it.
pub open spec fn sort_by_relevance(s: Seq<WsSymView>, q: Seq<char>) -> Seq<WsSymView>
    decreases s.len(),
{
    if s.len() == 0 {
        Seq::empty()
    } else {
        let sorted = sort_by_relevance(s.drop_last(), q);
        sorted.insert(insertion_point(sorted, s.last(), q, 0), s.last())
    }
}

fn text_less(a: &Vec<char>, b: &Vec<char>) -> (r: bool)
    ensures
        r == text_lt(a@, b@),
{
    let mut i: usize = 0;
    assert(a@.skip(0) =~= a@);
    assert(b@.skip(0) =~= b@);
    while i < a.len() && i < b.len()
        invariant
            i <= a@.len(),
            i <= b@.len(),
            text_lt(a@, b@) == text_lt(a@.skip(i as int), b@.skip(i as int)),
        decreases a.len() - i,
    {
        let x = a[i] as u32;
        let y = b[i] as u32;
        proof {
            assert(a@.skip(i as int)[0] == a@[i as int]);
            assert(b@.skip(i as int)[0] == b@[i as int]);
            assert(a@.skip(i as int).skip(1) =~= a@.skip(i + 1));
            assert(b@.skip(i as int).skip(1) =~= b@.skip(i + 1));
        }
        if x < y {
            return true;
        }
        if x > y {
            return false;
        }
        i = i + 1;
    }
    i >= a.len() && i < b.len()
}

fn relevance_rank(name: &Vec<char>, q: &Vec<char>) -> (r: u8)
    ensures
        r == match_rank(name@, q@),
{
    if name.len() == q.len() && chars_have_prefix_at(name.as_slice(), 0, q.as_slice()) {
        assert(name@.subrange(0, q@.len() as int) =~= name@);
        return 0;
    }
    if chars_have_prefix_at(name.as_slice(), 0, q.as_slice()) {
        proof {
            if name@ == q@ {
                assert(name@.subrange(0, q@.len() as int) =~= name@);
            }
        }
        return 1;
    }
    proof {
        if name@ == q@ {
            assert(name@.subrange(0, q@.len() as int) =~= name@);
        }
    }
    2
}

fn sorts_before(a: &WorkspaceSymbol, b: &WorkspaceSymbol, lq: &Vec<char>, query: &str) -> (r: bool)
    requires
        lq@ == spec_to_lowercase(query@),
    ensures
        r == ranks_before(a@, b@, query@),
{
    let la = chars_vec(to_lowercase(a.name.as_str()).as_str());
    let lb = chars_vec(to_lowercase(b.name.as_str()).as_str());
    let ra = relevance_rank(&la, lq);
    let rb = relevance_rank(&lb, lq);
    ra < rb || (ra == rb && text_less(&la, &lb))
}

/// Sort symbols by relevance to the query, stably.
pub fn sort_symbols(symbols: Vec<WorkspaceSymbol>, query: &str) -> (r: Vec<WorkspaceSymbol>)
    ensures
        ws_views(r@) == sort_by_relevance(ws_views(symbols@), query@),
{
    let lq = chars_vec(to_lowercase(query).as_str());
    let ghost input = ws_views(symbols@);
    let mut sorted: Vec<WorkspaceSymbol> = Vec::new();
    let mut rest = symbols;
    let ghost mut k: int = 0;
    proof {
        assert(input.take(0) =~= Seq::<WsSymView>::empty());
        assert(input.skip(0) =~= input);
    }
    while rest.len() > 0
        invariant
            0 <= k <= input.len(),
            lq@ == spec_to_lowercase(query@),
            ws_views(sorted@) == sort_by_relevance(input.take(k), query@),
            ws_views(rest@) == input.skip(k),
        decreases rest.len(),
    {
        let ghost old_rest = rest@;
        let x = rest.remove(0);
        proof {
            assert(ws_views(old_rest)[0] == x@);
            assert(ws_views(old_rest) == input.skip(k));
            assert(input.skip(k).len() > 0);
            assert(input.skip(k)[0] == input[k]);
            assert(rest@ =~= old_rest.skip(1));
            assert(ws_views(rest@) =~= ws_views(old_rest).skip(1));
            assert(x@ == input[k]);
            assert(ws_views(rest@) =~= input.skip(k + 1));
        }
        let ghost sv = ws_views(sorted@);
        let mut p: usize = 0;
        while p < sorted.len()
            invariant
                p <= sorted@.len(),
                sv == ws_views(sorted@),
                lq@ == spec_to_lowercase(query@),
                insertion_point(sv, x@, query@, 0) == insertion_point(sv, x@, query@, p as int),
            ensures
                p <= sorted@.len(),
                sv == ws_views(sorted@),
                insertion_point(sv, x@, query@, 0) == p,
            decreases sorted.len() - p,
        {
            if sorts_before(&x, &sorted[p], &lq, query) {
                break;
            }
            p = p + 1;
        }
        proof {
            assert(insertion_point(sv, x@, query@, 0) == p);
            assert(input.take(k + 1).drop_last() =~= input.take(k));
            assert(input.take(k + 1).last() == x@);
        }
        let ghost xv = x@;
        sorted.insert(p, x);
        proof {
            assert(ws_views(sorted@) =~= sv.insert(p as int, xv));
            k = k + 1;
        }
    }
    proof {
        assert(input.skip(k).len() == 0);
        assert(input.take(k) =~= input);
    }
    sorted
}

/// The matching symbols of the open document at `u`; none without a
/// syntax tree.
pub open spec fn doc_ws_symbols(dm: DocumentManager, u: Seq<char>, q: Seq<char>) -> Seq<WsSymView> {
    if dm.view().contains_key(u) {
        match dm.view()[u].ast {
            Some(a) => spec_document_ws_symbols(dm, u, *a, q),
            None => Seq::empty(),
        }
    } else {
        Seq::empty()
    }
}

/// The matching symbols of the documents of `order`, one after another.
pub open spec fn ws_over(dm: DocumentManager, order: Seq<Seq<char>>, q: Seq<char>) -> Seq<WsSymView>
    decreases order.len(),
{
    if order.len() == 0 {
        Seq::empty()
    } else {
        ws_over(dm, order.drop_last(), q) + doc_ws_symbols(dm, order.last(), q)
    }
}

/// `order` lists every open document, each once.
pub open spec fn lists_all(dm: DocumentManager, order: Seq<Seq<char>>) -> bool {
    &&& order.no_duplicates()
    &&& forall|k: Seq<char>| #[trigger] order.contains(k) <==> dm.view().contains_key(k)
}

/// The query searched for: `*` when the query is empty.
pub open spec fn effective_query(query: Seq<char>) -> Seq<char> {
    if query.len() == 0 {
        "*"@
    } else {
        query
    }
}

/// The most symbols a search reports.
pub open spec fn max_results() -> int {
    100
}

/// Find the workspace symbols matching a query: the matching declarations
/// of every open document, sorted by relevance, at most a hundred.
pub fn find_workspace_symbols(query: &str, document_manager: &DocumentManager) -> (r: Vec<WorkspaceSymbol>)
    requires
        document_manager.wf(),
    ensures
        exists|order: Seq<Seq<char>>|
            lists_all(*document_manager, order) && {
                let q = effective_query(query@);
                let sorted = sort_by_relevance(ws_over(*document_manager, order, q), q);
                ws_views(r@) == if sorted.len() <= max_results() {
                    sorted
                } else {
                    sorted.take(max_results())
                }
            },
{
    let ghost dm = *document_manager;
    let q = if chars_vec(query).len() == 0 {
        "*"
    } else {
        query
    };
    assert(q@ == effective_query(query@));
    let all_uris = document_manager.get_all_uris();
    let mut symbols: Vec<WorkspaceSymbol> = Vec::new();
    let ghost mut order: Seq<Seq<char>> = Seq::empty();
    let mut i: usize = 0;
    while i < all_uris.len()
        invariant
            i <= all_uris@.len(),
            dm == *document_manager,
            document_manager.wf(),
            forall|j: int| 0 <= j < all_uris@.len() ==> dm.view().contains_key(#[trigger] all_uris@[j]@),
            forall|a: int, b: int|
                0 <= a < b < all_uris@.len() ==> #[trigger] all_uris@[a]@ != #[trigger] all_uris@[b]@,
            order.no_duplicates(),
            order.len() == i,
            forall|j: int| 0 <= j < i ==> #[trigger] order[j] == all_uris@[j]@,
            ws_views(symbols@) == ws_over(dm, order, q@),
        decreases all_uris.len() - i,
    {
        let uri = all_uris[i].as_str();
        let ghost before = ws_views(symbols@);
        match document_manager.get_document_ast(uri) {
            Some(ast) => {
                let mut found = find_symbols_in_document(uri, &ast, q, document_manager);
                let ghost fv = ws_views(found@);
                symbols.append(&mut found);
                assert(ws_views(symbols@) =~= before + fv);
            },
            None => {
                assert(ws_views(symbols@) =~= before + Seq::<WsSymView>::empty());
            },
        }
        proof {
            let o2 = order.push(all_uris@[i as int]@);
            assert(o2.drop_last() =~= order);
            assert forall|a: int, b: int| 0 <= a < b < o2.len() implies o2[a] != o2[b] by {
                assert(o2[a] == all_uris@[a]@);
                assert(o2[b] == all_uris@[b]@);
            }
            order = o2;
        }
        i = i + 1;
    }
    proof {
        assert forall|k: Seq<char>| #[trigger] order.contains(k) <==> dm.view().contains_key(k) by {
            if dm.view().contains_key(k) {
                let j = choose|j: int| 0 <= j < all_uris@.len() && #[trigger] all_uris@[j]@ == k;
                assert(order[j] == k);
            }
            if order.contains(k) {
                let j = choose|j: int| 0 <= j < order.len() && order[j] == k;
                assert(all_uris@[j]@ == k);
            }
        }
    }
    let mut sorted = sort_symbols(symbols, q);
    sorted.truncate(100);
    proof {
        let full = sort_by_relevance(ws_over(dm, order, q@), q@);
        if full.len() > max_results() {
            assert(ws_views(sorted@) =~= full.take(max_results()));
        } else {
            assert(ws_views(sorted@) =~= full);
        }
        assert(lists_all(dm, order));
        assert(ws_views(sorted@) == if full.len() <= max_results() {
            full
        } else {
            full.take(max_results())
        });
    }
    sorted
}

proof fn lemma_text_lt_irreflexive(a: Seq<char>)
    ensures
        !text_lt(a, a),
    decreases a.len(),
{
    if a.len() > 0 {
        lemma_text_lt_irreflexive(a.skip(1));
    }
}

proof fn lemma_text_lt_transitive(a: Seq<char>, b: Seq<char>, c: Seq<char>)
    requires
        text_lt(a, b),
        text_lt(b, c),
    ensures
        text_lt(a, c),
    decreases a.len(),
{
    if a.len() > 0 && b.len() > 0 && c.len() > 0 {
        if (a[0] as u32) == (b[0] as u32) && (b[0] as u32) == (c[0] as u32) {
            lemma_text_lt_transitive(a.skip(1), b.skip(1), c.skip(1));
        }
    }
}

proof fn lemma_ranks_before_order(a: WsSymView, b: WsSymView, c: WsSymView, q: Seq<char>)
    ensures
        !ranks_before(a, a, q),
        ranks_before(a, b, q) && ranks_before(b, c, q) ==> ranks_before(a, c, q),
{
    lemma_text_lt_irreflexive(spec_to_lowercase(a.name));
    if ranks_before(a, b, q) && ranks_before(b, c, q) {
        let la = spec_to_lowercase(a.name);
        let lb = spec_to_lowercase(b.name);
        let lc = spec_to_lowercase(c.name);
        if text_lt(la, lb) && text_lt(lb, lc) {
            lemma_text_lt_transitive(la, lb, lc);
        }
    }
}

/// The symbols are in relevance order: none sorts before one ahead of it.
pub open spec fn in_relevance_order(s: Seq<WsSymView>, q: Seq<char>) -> bool {
    forall|i: int, j: int| 0 <= i < j < s.len() ==> !ranks_before(#[trigger] s[j], #[trigger] s[i], q)
}

proof fn lemma_insertion_point(s: Seq<WsSymView>, x: WsSymView, q: Seq<char>, i: int)
    requires
        0 <= i <= s.len(),
    ensures
        i <= insertion_point(s, x, q, i) <= s.len(),
        forall|j: int| i <= j < insertion_point(s, x, q, i) ==> !ranks_before(x, #[trigger] s[j], q),
        insertion_point(s, x, q, i) < s.len() ==> ranks_before(x, s[insertion_point(s, x, q, i)], q),
    decreases s.len() - i,
{
    if i < s.len() && !ranks_before(x, s[i], q) {
        lemma_insertion_point(s, x, q, i + 1);
    }
}

proof fn lemma_sort_by_relevance(s: Seq<WsSymView>, q: Seq<char>)
    ensures
        sort_by_relevance(s, q).to_multiset() == s.to_multiset(),
        in_relevance_order(sort_by_relevance(s, q), q),
    decreases s.len(),
{
    broadcast use vstd::seq_lib::group_to_multiset_ensures;

    if s.len() > 0 {
        let prev = sort_by_relevance(s.drop_last(), q);
        let x = s.last();
        lemma_sort_by_relevance(s.drop_last(), q);
        lemma_insertion_point(prev, x, q, 0);
        let p = insertion_point(prev, x, q, 0);
        let out = prev.insert(p, x);
        vstd::seq_lib::to_multiset_insert(prev, p, x);
        assert(s.drop_last().push(x) =~= s);
        assert forall|i: int, j: int| 0 <= i < j < out.len() implies !ranks_before(
            #[trigger] out[j],
            #[trigger] out[i],
            q,
        ) by {
            if j < p {
                assert(out[i] == prev[i] && out[j] == prev[j]);
            } else if j == p {
                assert(out[i] == prev[i] && out[j] == x);
                lemma_ranks_before_order(x, prev[i], x, q);
            } else if i < p {
                assert(out[i] == prev[i] && out[j] == prev[j - 1]);
            } else if i == p {
                assert(out[i] == x && out[j] == prev[j - 1]);
                if ranks_before(prev[j - 1], x, q) {
                    lemma_ranks_before_order(prev[j - 1], x, prev[p], q);
                    if j - 1 > p {
                        assert(!ranks_before(prev[j - 1], prev[p], q));
                    } else {
                        lemma_ranks_before_order(prev[p], prev[p], prev[p], q);
                    }
                }
            } else {
                assert(out[i] == prev[i - 1] && out[j] == prev[j - 1]);
            }
        }
    }
}

/// Sorting by relevance keeps exactly the symbols it was given and puts
/// them in relevance order, so that exact matches come before prefix
/// matches, which come before the rest.
pub proof fn law_relevance_sort(s: Seq<WsSymView>, q: Seq<char>)
    ensures
        sort_by_relevance(s, q).to_multiset() == s.to_multiset(),
        in_relevance_order(sort_by_relevance(s, q), q),
        forall|i: int, j: int|
            0 <= i < j < sort_by_relevance(s, q).len() ==> match_rank(
                spec_to_lowercase(#[trigger] sort_by_relevance(s, q)[i].name),
                spec_to_lowercase(q),
            ) <= match_rank(spec_to_lowercase(#[trigger] sort_by_relevance(s, q)[j].name), spec_to_lowercase(q)),
{
    lemma_sort_by_relevance(s, q);
}

/// A function, struct, enum or variable declaration whose name matches
/// the query gives a workspace symbol first, under its name, placed at
/// the declaration, of the declaration's kind: a variable is a constant
/// exactly when it is not mutable.
pub proof fn law_declaration_gives_symbol(dm: DocumentManager, uri: Seq<char>, n: AstNode, name: Seq<char>, q: Seq<char>)
    requires
        declares_directly(n, name),
        !(n is MethodDecl),
        spec_matches_query(name, q),
    ensures
        ({
            let syms = spec_statement_symbols(dm, uri, n, q);
            &&& syms.len() >= 1
            &&& syms[0].name == name
            &&& syms[0].range == ws_range(dm, uri, decl_span(n))
            &&& match n {
                AstNode::VariableDecl(v) => (syms[0].kind == SymbolKind::Variable || syms[0].kind
                    == SymbolKind::Constant) && (syms[0].kind == SymbolKind::Constant) == !v.is_mutable,
                AstNode::FunctionDecl(_) => syms[0].kind == SymbolKind::Function,
                AstNode::StructDecl(_) => syms[0].kind == SymbolKind::Struct,
                AstNode::EnumDecl(_) => syms[0].kind == SymbolKind::Enum,
                _ => false,
            }
        }),
{
}

} // verus!
