//! Semantic analysis for diagnostics: declarations of a name made twice,
//! variables of a built-in type initialized with a literal of another
//! type, names and functions used before any declaration, empty import
//! paths, and variables never used.
//!
//! The analyzer keeps one flat table of declared names (every declaration,
//! whatever its scope, stays in it), the names whose uses could be placed
//! in the document, and the variable declarations in order.

use vstd::prelude::*;
use crate::ast::{
    AstNode, BasicType, ImportStatement, LiteralKind, MethodDeclaration, Parameter, Program, Span, TypeNode,
    VariableDeclaration,
};
use crate::definition::{spec_span_location, span_to_location, strings_contain};
use crate::diagnostics::{diag, diags_view, DiagView, Diagnostic, DiagnosticSeverity};
use crate::document::{DocumentManager, uri_fits};
use crate::document_symbols::{outline_range, span_to_range};
use crate::packages::string_views;
use crate::position::{Position, Range};
use crate::strings::text_eq;
use crate::type_text::{basic_type_name, format_basic_type, join, spec_join, views};

verus! {

/// What the analysis has found so far.
pub struct AnalysisState {
    /// Names declared (functions, parameters, types, variables, loop
    /// variables, the package, imports as `import::path`).
    pub defined: Set<Seq<char>>,
    /// Names whose uses could be placed in the document.
    pub used: Set<Seq<char>>,
    /// Variable declarations, in order.
    pub declared: Seq<(Seq<char>, Span)>,
    /// Diagnostics, in order.
    pub diags: Seq<DiagView>,
}

/// The state with a diagnostic from `qi-semantic-analyzer` added.
pub open spec fn add_diag(
    dm: DocumentManager,
    uri: Seq<char>,
    st: AnalysisState,
    message: Seq<char>,
    sp: Span,
    severity: DiagnosticSeverity,
    code: Seq<char>,
) -> AnalysisState {
    AnalysisState {
        diags: st.diags.push(diag(outline_range(dm, uri, sp), severity, code, "qi-semantic-analyzer"@, message)),
        ..st
    }
}

/// The built-in type a literal of this kind has.
pub open spec fn literal_type(k: LiteralKind) -> BasicType {
    match k {
        LiteralKind::Integer => BasicType::Integer,
        LiteralKind::Float => BasicType::Float,
        LiteralKind::Text => BasicType::Text,
        LiteralKind::Character => BasicType::Character,
        LiteralKind::Boolean => BasicType::Boolean,
    }
}

/// A literal of this kind can initialize a variable of type `t`: an
/// integer literal any integer type or a byte, every other literal only
/// its own type.
pub open spec fn literal_fits(k: LiteralKind, t: BasicType) -> bool {
    match k {
        LiteralKind::Integer => t == BasicType::Integer || t == BasicType::LongInteger || t
            == BasicType::ShortInteger || t == BasicType::Byte,
        _ => t == literal_type(k),
    }
}

/// The declared built-in type and the kind of the literal that initializes
/// a variable, when it has both.
pub open spec fn declared_and_literal(v: VariableDeclaration) -> Option<(BasicType, LiteralKind)> {
    match v.type_annotation {
        Some(ta) => match ta.node {
            TypeNode::Basic(t) => match v.initializer {
                Some(x) => match *x {
                    AstNode::Literal { kind, .. } => Some((t, kind)),
                    _ => None,
                },
                None => None,
            },
            _ => None,
        },
        None => None,
    }
}

/// The state with an error added when a variable of a built-in type is
/// initialized with a literal that does not fit it.
pub open spec fn check_literal_type(
    dm: DocumentManager,
    uri: Seq<char>,
    st: AnalysisState,
    v: VariableDeclaration,
) -> AnalysisState {
    match declared_and_literal(v) {
        Some((t, k)) => if literal_fits(k, t) {
            st
        } else {
            add_diag(
                dm,
                uri,
                st,
                "类型不匹配: 期望 "@ + basic_type_name(t) + ", 实际 "@ + basic_type_name(literal_type(k)),
                v.span,
                DiagnosticSeverity::Error,
                "type-mismatch"@,
            )
        },
        None => st,
    }
}

/// The state with an error added when `name` is already declared.
pub open spec fn check_duplicate(
    dm: DocumentManager,
    uri: Seq<char>,
    st: AnalysisState,
    name: Seq<char>,
    message: Seq<char>,
    sp: Span,
    code: Seq<char>,
) -> AnalysisState {
    if st.defined.contains(name) {
        add_diag(dm, uri, st, message, sp, DiagnosticSeverity::Error, code)
    } else {
        st
    }
}

/// The state with `name` declared.
pub open spec fn define(st: AnalysisState, name: Seq<char>) -> AnalysisState {
    AnalysisState { defined: st.defined.insert(name), ..st }
}

/// The state with every parameter name declared.
pub open spec fn define_params(st: AnalysisState, ps: Seq<Parameter>) -> AnalysisState
    decreases ps.len(),
{
    if ps.len() == 0 {
        st
    } else {
        define(define_params(st, ps.drop_last()), ps.last().name@)
    }
}

/// Analyze a statement.
pub open spec fn an_stmt(dm: DocumentManager, uri: Seq<char>, st: AnalysisState, n: AstNode) -> AnalysisState
    decreases n, 0int,
{
    match n {
        AstNode::FunctionDecl(f) => {
            let st1 = check_duplicate(dm, uri, st, f.name@, "函数 '"@ + f.name@ + "' 已定义"@, f.span, "duplicate-function"@);
            an_seq(dm, uri, define_params(define(st1, f.name@), f.parameters@), f.body@, 0)
        },
        AstNode::AsyncFunctionDecl(f) => {
            let st1 = check_duplicate(dm, uri, st, f.name@, "异步函数 '"@ + f.name@ + "' 已定义"@, f.span, "duplicate-function"@);
            an_seq(dm, uri, define_params(define(st1, f.name@), f.parameters@), f.body@, 0)
        },
        AstNode::StructDecl(sd) => {
            let st1 = check_duplicate(dm, uri, st, sd.name@, "结构体 '"@ + sd.name@ + "' 已定义"@, sd.span, "duplicate-struct"@);
            an_methods(dm, uri, define(st1, sd.name@), sd.methods@, 0)
        },
        AstNode::EnumDecl(e) => {
            let st1 = check_duplicate(dm, uri, st, e.name@, "枚举 '"@ + e.name@ + "' 已定义"@, e.span, "duplicate-enum"@);
            define(st1, e.name@)
        },
        AstNode::VariableDecl(v) => {
            let st1 = check_duplicate(
                dm,
                uri,
                st,
                v.name@,
                "变量 '"@ + v.name@ + "' 已在当前作用域中定义"@,
                v.span,
                "duplicate-variable"@,
            );
            let st1 = check_literal_type(dm, uri, st1, v);
            let st2 = AnalysisState { declared: st1.declared.push((v.name@, v.span)), ..define(st1, v.name@) };
            match v.initializer {
                Some(x) => an_expr(dm, uri, st2, *x),
                None => st2,
            }
        },
        AstNode::MethodDecl(m) => an_seq(dm, uri, define_params(st, m.parameters@), m.body@, 0),
        AstNode::Block { statements } => an_seq(dm, uri, st, statements@, 0),
        AstNode::If { condition, then_branch, else_branch } => {
            let st1 = an_seq(dm, uri, an_expr(dm, uri, st, *condition), then_branch@, 0);
            match else_branch {
                Some(b) => an_stmt(dm, uri, st1, *b),
                None => st1,
            }
        },
        AstNode::While { condition, body } => an_seq(dm, uri, an_expr(dm, uri, st, *condition), body@, 0),
        AstNode::For { variable, range, body, span } => an_seq(
            dm,
            uri,
            an_expr(dm, uri, define(st, variable@), *range),
            body@,
            0,
        ),
        AstNode::Loop { body } => an_seq(dm, uri, st, body@, 0),
        AstNode::Return { value } => match value {
            Some(x) => an_expr(dm, uri, st, *x),
            None => st,
        },
        AstNode::ExpressionStmt { expression } => an_expr(dm, uri, st, *expression),
        _ => st,
    }
}

/// Analyze statements `ns[i..]` in order.
pub open spec fn an_seq(dm: DocumentManager, uri: Seq<char>, st: AnalysisState, ns: Seq<AstNode>, i: int) -> AnalysisState
    decreases ns, ns.len() - i,
{
    if 0 <= i < ns.len() {
        an_seq(dm, uri, an_stmt(dm, uri, st, ns[i]), ns, i + 1)
    } else {
        st
    }
}

/// Analyze the methods `ms[i..]` of a struct in order.
pub open spec fn an_methods(dm: DocumentManager, uri: Seq<char>, st: AnalysisState, ms: Seq<MethodDeclaration>, i: int) -> AnalysisState
    decreases ms, ms.len() - i,
{
    if 0 <= i < ms.len() {
        an_methods(dm, uri, an_seq(dm, uri, define_params(st, ms[i].parameters@), ms[i].body@, 0), ms, i + 1)
    } else {
        st
    }
}

/// Analyze an expression.
pub open spec fn an_expr(dm: DocumentManager, uri: Seq<char>, st: AnalysisState, n: AstNode) -> AnalysisState
    decreases n, 0int,
{
    match n {
        AstNode::Identifier { name, span } => if !st.defined.contains(name@) {
            add_diag(dm, uri, st, "未定义的符号: '"@ + name@ + "'"@, span, DiagnosticSeverity::Error, "undefined-symbol"@)
        } else if spec_span_location(dm, uri, span) is Some {
            AnalysisState { used: st.used.insert(name@), ..st }
        } else {
            st
        },
        AstNode::FunctionCall { callee, arguments, span } => {
            let st1 = if !st.defined.contains(callee@) {
                add_diag(dm, uri, st, "未定义的函数: '"@ + callee@ + "'"@, span, DiagnosticSeverity::Error, "undefined-function"@)
            } else {
                st
            };
            an_expr_seq(dm, uri, st1, arguments@, 0)
        },
        AstNode::MethodCall { object, method_name, arguments, span } => an_expr_seq(
            dm,
            uri,
            an_expr(dm, uri, st, *object),
            arguments@,
            0,
        ),
        AstNode::Binary { left, right } => an_expr(dm, uri, an_expr(dm, uri, st, *left), *right),
        AstNode::Assignment { target, value } => an_expr(dm, uri, an_expr(dm, uri, st, *target), *value),
        AstNode::ArrayAccess { array, index } => an_expr(dm, uri, an_expr(dm, uri, st, *array), *index),
        AstNode::Await { expression } => an_expr(dm, uri, st, *expression),
        _ => st,
    }
}

/// Analyze the expressions `ns[i..]` in order.
pub open spec fn an_expr_seq(dm: DocumentManager, uri: Seq<char>, st: AnalysisState, ns: Seq<AstNode>, i: int) -> AnalysisState
    decreases ns, ns.len() - i,
{
    if 0 <= i < ns.len() {
        an_expr_seq(dm, uri, an_expr(dm, uri, st, ns[i]), ns, i + 1)
    } else {
        st
    }
}

/// Analyze the import statements: an empty path is an error; each import
/// is declared as `import::` and its path joined by `::`.
pub open spec fn an_imports(dm: DocumentManager, uri: Seq<char>, st: AnalysisState, imps: Seq<ImportStatement>) -> AnalysisState
    decreases imps.len(),
{
    if imps.len() == 0 {
        st
    } else {
        let st0 = an_imports(dm, uri, st, imps.drop_last());
        let imp = imps.last();
        let st1 = if imp.module_segments@.len() == 0 {
            add_diag(dm, uri, st0, "导入路径不能为空"@, imp.span, DiagnosticSeverity::Error, "empty-import-path"@)
        } else {
            st0
        };
        define(st1, "import::"@ + spec_join(views(imp.module_segments@), "::"@))
    }
}

/// The distinct names of the declarations, in order of first declaration.
pub open spec fn first_names(d: Seq<(Seq<char>, Span)>) -> Seq<Seq<char>>
    decreases d.len(),
{
    if d.len() == 0 {
        Seq::empty()
    } else {
        let p = first_names(d.drop_last());
        if p.contains(d.last().0) {
            p
        } else {
            p.push(d.last().0)
        }
    }
}

/// The spans of the declarations of `name`, in order.
pub open spec fn spans_named(d: Seq<(Seq<char>, Span)>, name: Seq<char>) -> Seq<Span>
    decreases d.len(),
{
    if d.len() == 0 {
        Seq::empty()
    } else {
        spans_named(d.drop_last(), name) + if d.last().0 == name {
            seq![d.last().1]
        } else {
            Seq::empty()
        }
    }
}

/// The warnings for the variables of `names` that are never used (a name
/// starting with `_` excepted): one per declaration.
pub open spec fn unused_warnings(
    dm: DocumentManager,
    uri: Seq<char>,
    names: Seq<Seq<char>>,
    d: Seq<(Seq<char>, Span)>,
    used: Set<Seq<char>>,
) -> Seq<DiagView>
    decreases names.len(),
{
    if names.len() == 0 {
        Seq::empty()
    } else {
        let nm = names.last();
        unused_warnings(dm, uri, names.drop_last(), d, used) + if !used.contains(nm) && !(nm.len() > 0
            && nm[0] == '_') {
            spans_named(d, nm).map_values(
                |sp: Span|
                    diag(
                        outline_range(dm, uri, sp),
                        DiagnosticSeverity::Warning,
                        "unused-variable"@,
                        "qi-semantic-analyzer"@,
                        "未使用的变量: '"@ + nm + "'"@,
                    ),
            )
        } else {
            Seq::empty()
        }
    }
}

/// The analysis of a whole program: its package, imports, statements, and
/// the unused-variable check, starting from what the analysis found before.
pub open spec fn spec_analyze_program_from(dm: DocumentManager, uri: Seq<char>, st: AnalysisState, p: Program) -> AnalysisState {
    let st0 = match p.package_name {
        Some(n) => define(st, n@),
        None => st,
    };
    let st2 = an_seq(dm, uri, an_imports(dm, uri, st0, p.imports@), p.statements@, 0);
    AnalysisState {
        diags: st2.diags + unused_warnings(dm, uri, first_names(st2.declared), st2.declared, st2.used),
        ..st2
    }
}

/// The analysis of a whole program by an analyzer that has found nothing
/// yet.
pub open spec fn spec_analyze_program(dm: DocumentManager, uri: Seq<char>, p: Program) -> AnalysisState {
    spec_analyze_program_from(
        dm,
        uri,
        AnalysisState { defined: Set::empty(), used: Set::empty(), declared: Seq::empty(), diags: Seq::empty() },
        p,
    )
}

/// The diagnostics semantic analysis finds in a program.
pub open spec fn spec_semantic_diagnostics(dm: DocumentManager, uri: Seq<char>, p: Program) -> Seq<DiagView> {
    spec_analyze_program(dm, uri, p).diags
}

/// Walks a syntax tree and records what it finds.
pub struct SemanticAnalyzer {
    diagnostics: Vec<Diagnostic>,
    symbol_table: Vec<String>,
    used_variables: Vec<String>,
    declared_variables: Vec<(String, Span)>,
}

/// The names a vector of strings holds.
pub open spec fn name_set(v: Seq<String>) -> Set<Seq<char>> {
    Set::new(|s: Seq<char>| exists|i: int| 0 <= i < v.len() && #[trigger] v[i]@ == s)
}

/// The views of declarations.
pub open spec fn decls_view(v: Seq<(String, Span)>) -> Seq<(Seq<char>, Span)> {
    v.map_values(|d: (String, Span)| (d.0@, d.1))
}

impl SemanticAnalyzer {
    /// What the analyzer has found.
    pub closed spec fn state(&self) -> AnalysisState {
        AnalysisState {
            defined: name_set(self.symbol_table@),
            used: name_set(self.used_variables@),
            declared: decls_view(self.declared_variables@),
            diags: diags_view(self.diagnostics@),
        }
    }

    /// Create an analyzer that has found nothing.
    pub fn new() -> (r: Self)
        ensures
            r.state() == (AnalysisState {
                defined: Set::empty(),
                used: Set::empty(),
                declared: Seq::empty(),
                diags: Seq::empty(),
            }),
    {
        let r = SemanticAnalyzer {
            diagnostics: Vec::new(),
            symbol_table: Vec::new(),
            used_variables: Vec::new(),
            declared_variables: Vec::new(),
        };
        assert(r.state().defined =~= Set::<Seq<char>>::empty());
        assert(r.state().used =~= Set::<Seq<char>>::empty());
        assert(r.state().declared =~= Seq::<(Seq<char>, Span)>::empty());
        assert(r.state().diags =~= Seq::<DiagView>::empty());
        r
    }

    fn is_defined(&self, name: &str) -> (r: bool)
        ensures
            r == self.state().defined.contains(name@),
    {
        let r = strings_contain(&self.symbol_table, name);
        proof {
            if r {
                let i = choose|i: int| 0 <= i < string_views(self.symbol_table@).len() && string_views(self.symbol_table@)[i] == name@;
                assert(self.symbol_table@[i]@ == name@);
            }
            if self.state().defined.contains(name@) {
                let i = choose|i: int| 0 <= i < self.symbol_table@.len() && #[trigger] self.symbol_table@[i]@ == name@;
                assert(string_views(self.symbol_table@)[i] == name@);
            }
        }
        r
    }

    fn define_name(&mut self, name: String)
        ensures
            final(self).state() == define(old(self).state(), name@),
    {
        let ghost n = name@;
        self.symbol_table.push(name);
        proof {
            assert forall|s: Seq<char>| #[trigger] name_set(self.symbol_table@).contains(s) == old(self).state().defined.insert(n).contains(s) by {
                if name_set(self.symbol_table@).contains(s) {
                    let i = choose|i: int| 0 <= i < self.symbol_table@.len() && #[trigger] self.symbol_table@[i]@ == s;
                    if i < old(self).symbol_table@.len() {
                        assert(old(self).symbol_table@[i]@ == s);
                    }
                }
                if old(self).state().defined.contains(s) {
                    let i = choose|i: int| 0 <= i < old(self).symbol_table@.len() && #[trigger] old(self).symbol_table@[i]@ == s;
                    assert(self.symbol_table@[i]@ == s);
                }
                if s == n {
                    assert(self.symbol_table@[self.symbol_table@.len() - 1]@ == s);
                }
            }
            assert(name_set(self.symbol_table@) =~= old(self).state().defined.insert(n));
            assert(self.state() == define(old(self).state(), n));
        }
    }

    fn define_parameters(&mut self, ps: &Vec<Parameter>)
        ensures
            final(self).state() == define_params(old(self).state(), ps@),
    {
        let mut i: usize = 0;
        assert(ps@.take(0) =~= Seq::<Parameter>::empty());
        while i < ps.len()
            invariant
                i <= ps@.len(),
                self.state() == define_params(old(self).state(), ps@.take(i as int)),
            decreases ps.len() - i,
        {
            self.define_name(ps[i].name.clone());
            assert(ps@.take(i + 1).drop_last() =~= ps@.take(i as int));
            i = i + 1;
        }
        assert(ps@.take(ps@.len() as int) =~= ps@);
    }

    fn add_diagnostic(
        &mut self,
        message: String,
        span: Span,
        severity: DiagnosticSeverity,
        code: &str,
        uri: &str,
        document_manager: &DocumentManager,
    )
        requires
            document_manager.wf(),
            uri_fits(uri@),
        ensures
            final(self).state() == add_diag(*document_manager, uri@, old(self).state(), message@, span, severity, code@),
            final(self).declared_variables == old(self).declared_variables,
            final(self).used_variables == old(self).used_variables,
            final(self).symbol_table == old(self).symbol_table,
    {
        let range = span_to_range(span, uri, document_manager);
        let d = Diagnostic {
            range,
            severity: Some(severity),
            code: Some(String::from_str(code)),
            source: Some(String::from_str("qi-semantic-analyzer")),
            message,
        };
        let ghost dv = d@;
        self.diagnostics.push(d);
        assert(diags_view(self.diagnostics@) =~= old(self).state().diags.push(dv));
    }

    fn duplicate_check(
        &mut self,
        name: &str,
        message: String,
        span: Span,
        code: &str,
        uri: &str,
        document_manager: &DocumentManager,
    )
        requires
            document_manager.wf(),
            uri_fits(uri@),
        ensures
            final(self).state() == check_duplicate(*document_manager, uri@, old(self).state(), name@, message@, span, code@),
    {
        if self.is_defined(name) {
            self.add_diagnostic(message, span, DiagnosticSeverity::Error, code, uri, document_manager);
        }
    }

    fn literal_type_check(&mut self, v: &VariableDeclaration, uri: &str, document_manager: &DocumentManager)
        requires
            document_manager.wf(),
            uri_fits(uri@),
        ensures
            final(self).state() == check_literal_type(*document_manager, uri@, old(self).state(), *v),
    {
        let t = match &v.type_annotation {
            Some(ta) => match &ta.node {
                TypeNode::Basic(t) => *t,
                _ => {
                    return;
                },
            },
            None => {
                return;
            },
        };
        let k = match &v.initializer {
            Some(x) => match &**x {
                AstNode::Literal { kind, .. } => *kind,
                _ => {
                    return;
                },
            },
            None => {
                return;
            },
        };
        let fits = match k {
            LiteralKind::Integer => t == BasicType::Integer || t == BasicType::LongInteger || t
                == BasicType::ShortInteger || t == BasicType::Byte,
            LiteralKind::Float => t == BasicType::Float,
            LiteralKind::Text => t == BasicType::Text,
            LiteralKind::Character => t == BasicType::Character,
            LiteralKind::Boolean => t == BasicType::Boolean,
        };
        if fits {
            return;
        }
        let actual = match k {
            LiteralKind::Integer => BasicType::Integer,
            LiteralKind::Float => BasicType::Float,
            LiteralKind::Text => BasicType::Text,
            LiteralKind::Character => BasicType::Character,
            LiteralKind::Boolean => BasicType::Boolean,
        };
        let message = String::from_str("类型不匹配: 期望 ").concat(format_basic_type(t).as_str()).concat(
            ", 实际 ",
        ).concat(format_basic_type(actual).as_str());
        self.add_diagnostic(message, v.span, DiagnosticSeverity::Error, "type-mismatch", uri, document_manager);
    }

    fn analyze_statements(&mut self, nodes: &Vec<AstNode>, uri: &str, document_manager: &DocumentManager)
        requires
            document_manager.wf(),
            uri_fits(uri@),
        ensures
            final(self).state() == an_seq(*document_manager, uri@, old(self).state(), nodes@, 0),
        decreases nodes, 1int,
    {
        let ghost dm = *document_manager;
        let mut i: usize = 0;
        while i < nodes.len()
            invariant
                i <= nodes@.len(),
                dm == *document_manager,
                document_manager.wf(),
                uri_fits(uri@),
                an_seq(dm, uri@, old(self).state(), nodes@, 0) == an_seq(dm, uri@, self.state(), nodes@, i as int),
            decreases nodes.len() - i,
        {
            assert(decreases_to!(nodes => nodes@[i as int]));
            self.analyze_statement(&nodes[i], uri, document_manager);
            i = i + 1;
        }
    }

    fn analyze_expressions(&mut self, nodes: &Vec<AstNode>, uri: &str, document_manager: &DocumentManager)
        requires
            document_manager.wf(),
            uri_fits(uri@),
        ensures
            final(self).state() == an_expr_seq(*document_manager, uri@, old(self).state(), nodes@, 0),
        decreases nodes, 1int,
    {
        let ghost dm = *document_manager;
        let mut i: usize = 0;
        while i < nodes.len()
            invariant
                i <= nodes@.len(),
                dm == *document_manager,
                document_manager.wf(),
                uri_fits(uri@),
                an_expr_seq(dm, uri@, old(self).state(), nodes@, 0) == an_expr_seq(dm, uri@, self.state(), nodes@, i as int),
            decreases nodes.len() - i,
        {
            assert(decreases_to!(nodes => nodes@[i as int]));
            self.analyze_expression(&nodes[i], uri, document_manager);
            i = i + 1;
        }
    }

    fn analyze_methods(&mut self, methods: &Vec<MethodDeclaration>, uri: &str, document_manager: &DocumentManager)
        requires
            document_manager.wf(),
            uri_fits(uri@),
        ensures
            final(self).state() == an_methods(*document_manager, uri@, old(self).state(), methods@, 0),
        decreases methods, 1int,
    {
        let ghost dm = *document_manager;
        let mut i: usize = 0;
        while i < methods.len()
            invariant
                i <= methods@.len(),
                dm == *document_manager,
                document_manager.wf(),
                uri_fits(uri@),
                an_methods(dm, uri@, old(self).state(), methods@, 0) == an_methods(dm, uri@, self.state(), methods@, i as int),
            decreases methods.len() - i,
        {
            assert(decreases_to!(methods => methods@[i as int]));
            self.define_parameters(&methods[i].parameters);
            self.analyze_statements(&methods[i].body, uri, document_manager);
            i = i + 1;
        }
    }

    /// Analyze a statement.
    pub fn analyze_statement(&mut self, statement: &AstNode, uri: &str, document_manager: &DocumentManager)
        requires
            document_manager.wf(),
            uri_fits(uri@),
        ensures
            final(self).state() == an_stmt(*document_manager, uri@, old(self).state(), *statement),
        decreases statement, 0int,
    {
        match statement {
            AstNode::FunctionDecl(f) => {
                let message = String::from_str("函数 '").concat(f.name.as_str()).concat("' 已定义");
                self.duplicate_check(f.name.as_str(), message, f.span, "duplicate-function", uri, document_manager);
                self.define_name(f.name.clone());
                self.define_parameters(&f.parameters);
                self.analyze_statements(&f.body, uri, document_manager);
            },
            AstNode::AsyncFunctionDecl(f) => {
                let message = String::from_str("异步函数 '").concat(f.name.as_str()).concat("' 已定义");
                self.duplicate_check(f.name.as_str(), message, f.span, "duplicate-function", uri, document_manager);
                self.define_name(f.name.clone());
                self.define_parameters(&f.parameters);
                self.analyze_statements(&f.body, uri, document_manager);
            },
            AstNode::StructDecl(sd) => {
                let message = String::from_str("结构体 '").concat(sd.name.as_str()).concat("' 已定义");
                self.duplicate_check(sd.name.as_str(), message, sd.span, "duplicate-struct", uri, document_manager);
                self.define_name(sd.name.clone());
                self.analyze_methods(&sd.methods, uri, document_manager);
            },
            AstNode::EnumDecl(e) => {
                let message = String::from_str("枚举 '").concat(e.name.as_str()).concat("' 已定义");
                self.duplicate_check(e.name.as_str(), message, e.span, "duplicate-enum", uri, document_manager);
                self.define_name(e.name.clone());
            },
            AstNode::VariableDecl(v) => {
                let message = String::from_str("变量 '").concat(v.name.as_str()).concat("' 已在当前作用域中定义");
                self.duplicate_check(v.name.as_str(), message, v.span, "duplicate-variable", uri, document_manager);
                self.literal_type_check(v, uri, document_manager);
                self.define_name(v.name.clone());
                let ghost before = self.state();
                self.declared_variables.push((v.name.clone(), v.span));
                assert(decls_view(self.declared_variables@) =~= before.declared.push((v.name@, v.span)));
                match &v.initializer {
                    Some(x) => {
                        self.analyze_expression(x, uri, document_manager);
                    },
                    None => {},
                }
            },
            AstNode::MethodDecl(m) => {
                self.define_parameters(&m.parameters);
                self.analyze_statements(&m.body, uri, document_manager);
            },
            AstNode::Block { statements } => {
                self.analyze_statements(statements, uri, document_manager);
            },
            AstNode::If { condition, then_branch, else_branch } => {
                self.analyze_expression(condition, uri, document_manager);
                self.analyze_statements(then_branch, uri, document_manager);
                match else_branch {
                    Some(b) => {
                        self.analyze_statement(b, uri, document_manager);
                    },
                    None => {},
                }
            },
            AstNode::While { condition, body } => {
                self.analyze_expression(condition, uri, document_manager);
                self.analyze_statements(body, uri, document_manager);
            },
            AstNode::For { variable, range, body, span } => {
                self.define_name(variable.clone());
                self.analyze_expression(range, uri, document_manager);
                self.analyze_statements(body, uri, document_manager);
            },
            AstNode::Loop { body } => {
                self.analyze_statements(body, uri, document_manager);
            },
            AstNode::Return { value } => {
                match value {
                    Some(x) => {
                        self.analyze_expression(x, uri, document_manager);
                    },
                    None => {},
                }
            },
            AstNode::ExpressionStmt { expression } => {
                self.analyze_expression(expression, uri, document_manager);
            },
            _ => {},
        }
    }

    fn record_use(&mut self, name: &String, span: Span, uri: &str, document_manager: &DocumentManager)
        requires
            document_manager.wf(),
            uri_fits(uri@),
        ensures
            final(self).state() == (if spec_span_location(*document_manager, uri@, span) is Some {
                AnalysisState { used: old(self).state().used.insert(name@), ..old(self).state() }
            } else {
                old(self).state()
            }),
    {
        match span_to_location(span, uri, document_manager) {
            Some(_location) => {
                let ghost n = name@;
                self.used_variables.push(name.clone());
                proof {
                    assert forall|s: Seq<char>| #[trigger] name_set(self.used_variables@).contains(s) == old(self).state().used.insert(n).contains(s) by {
                        if name_set(self.used_variables@).contains(s) {
                            let i = choose|i: int| 0 <= i < self.used_variables@.len() && #[trigger] self.used_variables@[i]@ == s;
                            if i < old(self).used_variables@.len() {
                                assert(old(self).used_variables@[i]@ == s);
                            }
                        }
                        if old(self).state().used.contains(s) {
                            let i = choose|i: int| 0 <= i < old(self).used_variables@.len() && #[trigger] old(self).used_variables@[i]@ == s;
                            assert(self.used_variables@[i]@ == s);
                        }
                        if s == n {
                            assert(self.used_variables@[self.used_variables@.len() - 1]@ == s);
                        }
                    }
                    assert(name_set(self.used_variables@) =~= old(self).state().used.insert(n));
                }
            },
            None => {},
        }
    }

    /// Analyze an expression.
    pub fn analyze_expression(&mut self, expr: &AstNode, uri: &str, document_manager: &DocumentManager)
        requires
            document_manager.wf(),
            uri_fits(uri@),
        ensures
            final(self).state() == an_expr(*document_manager, uri@, old(self).state(), *expr),
        decreases expr, 0int,
    {
        match expr {
            AstNode::Identifier { name, span } => {
                if !self.is_defined(name.as_str()) {
                    let message = String::from_str("未定义的符号: '").concat(name.as_str()).concat("'");
                    self.add_diagnostic(message, *span, DiagnosticSeverity::Error, "undefined-symbol", uri, document_manager);
                } else {
                    self.record_use(name, *span, uri, document_manager);
                }
            },
            AstNode::FunctionCall { callee, arguments, span } => {
                if !self.is_defined(callee.as_str()) {
                    let message = String::from_str("未定义的函数: '").concat(callee.as_str()).concat("'");
                    self.add_diagnostic(message, *span, DiagnosticSeverity::Error, "undefined-function", uri, document_manager);
                }
                self.analyze_expressions(arguments, uri, document_manager);
            },
            AstNode::MethodCall { object, method_name, arguments, span } => {
                self.analyze_expression(object, uri, document_manager);
                self.analyze_expressions(arguments, uri, document_manager);
            },
            AstNode::Binary { left, right } => {
                self.analyze_expression(left, uri, document_manager);
                self.analyze_expression(right, uri, document_manager);
            },
            AstNode::Assignment { target, value } => {
                self.analyze_expression(target, uri, document_manager);
                self.analyze_expression(value, uri, document_manager);
            },
            AstNode::ArrayAccess { array, index } => {
                self.analyze_expression(array, uri, document_manager);
                self.analyze_expression(index, uri, document_manager);
            },
            AstNode::Await { expression } => {
                self.analyze_expression(expression, uri, document_manager);
            },
            _ => {},
        }
    }

    /// Analyze an import statement.
    pub fn analyze_import(&mut self, import: &ImportStatement, uri: &str, document_manager: &DocumentManager)
        requires
            document_manager.wf(),
            uri_fits(uri@),
        ensures
            final(self).state() == define(
                if import.module_segments@.len() == 0 {
                    add_diag(
                        *document_manager,
                        uri@,
                        old(self).state(),
                        "导入路径不能为空"@,
                        import.span,
                        DiagnosticSeverity::Error,
                        "empty-import-path"@,
                    )
                } else {
                    old(self).state()
                },
                "import::"@ + spec_join(views(import.module_segments@), "::"@),
            ),
    {
        if import.module_segments.len() == 0 {
            self.add_diagnostic(
                String::from_str("导入路径不能为空"),
                import.span,
                DiagnosticSeverity::Error,
                "empty-import-path",
                uri,
                document_manager,
            );
        }
        let path = join(&import.module_segments, "::");
        self.define_name(String::from_str("import::").concat(path.as_str()));
    }

    fn declared_names(&self) -> (r: Vec<String>)
        ensures
            string_views(r@) == first_names(self.state().declared),
    {
        let ghost d = self.state().declared;
        let mut names: Vec<String> = Vec::new();
        let mut i: usize = 0;
        assert(d.take(0) =~= Seq::<(Seq<char>, Span)>::empty());
        assert(string_views(names@) =~= Seq::<Seq<char>>::empty());
        while i < self.declared_variables.len()
            invariant
                i <= self.declared_variables@.len(),
                d == decls_view(self.declared_variables@),
                string_views(names@) == first_names(d.take(i as int)),
            decreases self.declared_variables.len() - i,
        {
            assert(d.take(i + 1).drop_last() =~= d.take(i as int));
            assert(d.take(i + 1).last() == (self.declared_variables@[i as int].0@, self.declared_variables@[i as int].1));
            let name = &self.declared_variables[i].0;
            if !strings_contain(&names, name.as_str()) {
                let ghost before = string_views(names@);
                names.push(name.clone());
                assert(string_views(names@) =~= before.push(name@));
            }
            i = i + 1;
        }
        assert(d.take(d.len() as int) =~= d);
        names
    }

    /// Warn about each declaration of a variable that is never used.
    pub fn check_unused_variables(&mut self, uri: &str, document_manager: &DocumentManager)
        requires
            document_manager.wf(),
            uri_fits(uri@),
        ensures
            final(self).state() == (AnalysisState {
                diags: old(self).state().diags + unused_warnings(
                    *document_manager,
                    uri@,
                    first_names(old(self).state().declared),
                    old(self).state().declared,
                    old(self).state().used,
                ),
                ..old(self).state()
            }),
    {
        let ghost st0 = self.state();
        let ghost dm = *document_manager;
        let names = self.declared_names();
        let ghost nv = string_views(names@);
        let mut j: usize = 0;
        assert(nv.take(0) =~= Seq::<Seq<char>>::empty());
        assert(st0.diags + Seq::<DiagView>::empty() =~= st0.diags);
        while j < names.len()
            invariant
                j <= names@.len(),
                nv == string_views(names@),
                nv == first_names(st0.declared),
                dm == *document_manager,
                document_manager.wf(),
                uri_fits(uri@),
                self.state() == (AnalysisState {
                    diags: st0.diags + unused_warnings(dm, uri@, nv.take(j as int), st0.declared, st0.used),
                    ..st0
                }),
            decreases names.len() - j,
        {
            let name = &names[j];
            assert(nv.take(j + 1).drop_last() =~= nv.take(j as int));
            assert(nv.take(j + 1).last() == name@);
            let used = strings_contain(&self.used_variables, name.as_str());
            proof {
                if used {
                    let k = choose|k: int| 0 <= k < string_views(self.used_variables@).len() && string_views(self.used_variables@)[k] == name@;
                    assert(self.used_variables@[k]@ == name@);
                }
                if st0.used.contains(name@) {
                    let k = choose|k: int| 0 <= k < self.used_variables@.len() && #[trigger] self.used_variables@[k]@ == name@;
                    assert(string_views(self.used_variables@)[k] == name@);
                }
            }
            let cs = crate::strings::chars_vec(name.as_str());
            let underscore = cs.len() > 0 && cs[0] == '_';
            if !used && !underscore {
                let ghost base = self.state().diags;
                let ghost nm = name@;
                let ghost want = spans_named(st0.declared, nm).map_values(
                    |sp: Span|
                        diag(
                            outline_range(dm, uri@, sp),
                            DiagnosticSeverity::Warning,
                            "unused-variable"@,
                            "qi-semantic-analyzer"@,
                            "未使用的变量: '"@ + nm + "'"@,
                        ),
                );
                let mut k: usize = 0;
                assert(st0.declared.take(0) =~= Seq::<(Seq<char>, Span)>::empty());
                assert(base + Seq::<DiagView>::empty() =~= base);
                while k < self.declared_variables.len()
                    invariant
                        k <= self.declared_variables@.len(),
                        st0.declared == decls_view(self.declared_variables@),
                        dm == *document_manager,
                        document_manager.wf(),
                        uri_fits(uri@),
                        nm == name@,
                        self.state() == (AnalysisState { diags: base + spans_named(st0.declared.take(k as int), nm).map_values(
                            |sp: Span|
                                diag(
                                    outline_range(dm, uri@, sp),
                                    DiagnosticSeverity::Warning,
                                    "unused-variable"@,
                                    "qi-semantic-analyzer"@,
                                    "未使用的变量: '"@ + nm + "'"@,
                                ),
                        ), ..st0 }),
                    decreases self.declared_variables.len() - k,
                {
                    let ghost dk = st0.declared.take(k as int);
                    assert(st0.declared.take(k + 1).drop_last() =~= dk);
                    assert(st0.declared.take(k + 1).last() == (self.declared_variables@[k as int].0@, self.declared_variables@[k as int].1));
                    if text_eq(self.declared_variables[k].0.as_str(), name.as_str()) {
                        let sp = self.declared_variables[k].1;
                        let message = String::from_str("未使用的变量: '").concat(name.as_str()).concat("'");
                        self.add_diagnostic(message, sp, DiagnosticSeverity::Warning, "unused-variable", uri, document_manager);
                        proof {
                            let f = |sp: Span|
                                diag(
                                    outline_range(dm, uri@, sp),
                                    DiagnosticSeverity::Warning,
                                    "unused-variable"@,
                                    "qi-semantic-analyzer"@,
                                    "未使用的变量: '"@ + nm + "'"@,
                                );
                            assert(spans_named(st0.declared.take(k + 1), nm) =~= spans_named(dk, nm).push(sp));
                            assert(spans_named(dk, nm).push(sp).map_values(f) =~= spans_named(dk, nm).map_values(f).push(f(sp)));
                            assert(self.state().diags =~= base + spans_named(st0.declared.take(k + 1), nm).map_values(f));
                        }
                    } else {
                        assert(spans_named(st0.declared.take(k + 1), nm) =~= spans_named(dk, nm));
                    }
                    k = k + 1;
                }
                assert(st0.declared.take(self.declared_variables@.len() as int) =~= st0.declared);
                assert(self.state().diags =~= st0.diags + unused_warnings(dm, uri@, nv.take(j + 1), st0.declared, st0.used));
            } else {
                assert(st0.diags + unused_warnings(dm, uri@, nv.take(j + 1), st0.declared, st0.used) =~= st0.diags
                    + unused_warnings(dm, uri@, nv.take(j as int), st0.declared, st0.used));
            }
            j = j + 1;
        }
        assert(nv.take(names@.len() as int) =~= nv);
    }

    /// Analyze a whole program.
    pub fn analyze_program(&mut self, program: &Program, uri: &str, document_manager: &DocumentManager)
        requires
            document_manager.wf(),
            uri_fits(uri@),
        ensures
            final(self).state() == spec_analyze_program_from(*document_manager, uri@, old(self).state(), *program),
    {
        let ghost dm = *document_manager;
        match &program.package_name {
            Some(name) => {
                self.define_name(name.clone());
            },
            None => {},
        }
        let ghost st0 = self.state();
        let mut i: usize = 0;
        assert(program.imports@.take(0) =~= Seq::<ImportStatement>::empty());
        while i < program.imports.len()
            invariant
                i <= program.imports@.len(),
                dm == *document_manager,
                document_manager.wf(),
                uri_fits(uri@),
                self.state() == an_imports(dm, uri@, st0, program.imports@.take(i as int)),
            decreases program.imports.len() - i,
        {
            assert(program.imports@.take(i + 1).drop_last() =~= program.imports@.take(i as int));
            self.analyze_import(&program.imports[i], uri, document_manager);
            i = i + 1;
        }
        assert(program.imports@.take(program.imports@.len() as int) =~= program.imports@);
        self.analyze_statements(&program.statements, uri, document_manager);
        self.check_unused_variables(uri, document_manager);
    }
}

/// Perform semantic analysis of a syntax tree, adding what it finds to the
/// diagnostics.
pub fn analyze_semantics(uri: &str, ast: &Program, diagnostics: &mut Vec<Diagnostic>, document_manager: &DocumentManager)
    requires
        document_manager.wf(),
        uri_fits(uri@),
    ensures
        diags_view(final(diagnostics)@) == diags_view(old(diagnostics)@) + spec_semantic_diagnostics(
            *document_manager,
            uri@,
            *ast,
        ),
{
    let mut analyzer = SemanticAnalyzer::new();
    analyzer.analyze_program(ast, uri, document_manager);
    let ghost found = analyzer.diagnostics@;
    let ghost before = diagnostics@;
    diagnostics.append(&mut analyzer.diagnostics);
    assert(diags_view(diagnostics@) =~= diags_view(before) + diags_view(found));
}

/// The analysis only adds: every name declared stays declared, and the
/// diagnostics found so far stay, in order, at the front.
pub open spec fn grows(a: AnalysisState, b: AnalysisState) -> bool {
    &&& a.defined.subset_of(b.defined)
    &&& a.diags.len() <= b.diags.len()
    &&& b.diags.subrange(0, a.diags.len() as int) == a.diags
}

proof fn lemma_grows_trans(a: AnalysisState, b: AnalysisState, c: AnalysisState)
    requires
        grows(a, b),
        grows(b, c),
    ensures
        grows(a, c),
{
    assert(c.diags.subrange(0, a.diags.len() as int) =~= b.diags.subrange(0, a.diags.len() as int));
}

proof fn lemma_grows_refl(a: AnalysisState)
    ensures
        grows(a, a),
{
    assert(a.diags.subrange(0, a.diags.len() as int) =~= a.diags);
}

proof fn lemma_add_diag_grows(
    dm: DocumentManager,
    uri: Seq<char>,
    st: AnalysisState,
    message: Seq<char>,
    sp: Span,
    severity: DiagnosticSeverity,
    code: Seq<char>,
)
    ensures
        grows(st, add_diag(dm, uri, st, message, sp, severity, code)),
{
    let r = add_diag(dm, uri, st, message, sp, severity, code);
    assert(r.diags.subrange(0, st.diags.len() as int) =~= st.diags);
}

proof fn lemma_define_params_grows(st: AnalysisState, ps: Seq<Parameter>)
    ensures
        grows(st, define_params(st, ps)),
    decreases ps.len(),
{
    if ps.len() == 0 {
        lemma_grows_refl(st);
    } else {
        lemma_define_params_grows(st, ps.drop_last());
        let m = define_params(st, ps.drop_last());
        lemma_grows_refl(m);
        lemma_grows_trans(st, m, define(m, ps.last().name@));
    }
}

proof fn lemma_stmt_grows(dm: DocumentManager, uri: Seq<char>, st: AnalysisState, n: AstNode)
    ensures
        grows(st, an_stmt(dm, uri, st, n)),
    decreases n, 0int,
{
    match n {
        AstNode::FunctionDecl(f) => {
            let st1 = check_duplicate(dm, uri, st, f.name@, "函数 '"@ + f.name@ + "' 已定义"@, f.span, "duplicate-function"@);
            lemma_check_duplicate_grows(dm, uri, st, f.name@, "函数 '"@ + f.name@ + "' 已定义"@, f.span, "duplicate-function"@);
            let st2 = define_params(define(st1, f.name@), f.parameters@);
            lemma_grows_refl(st1);
            lemma_define_params_grows(define(st1, f.name@), f.parameters@);
            lemma_grows_trans(st1, define(st1, f.name@), st2);
            lemma_seq_grows(dm, uri, st2, f.body@, 0);
            lemma_grows_trans(st, st1, st2);
            lemma_grows_trans(st, st2, an_seq(dm, uri, st2, f.body@, 0));
        },
        AstNode::AsyncFunctionDecl(f) => {
            let st1 = check_duplicate(dm, uri, st, f.name@, "异步函数 '"@ + f.name@ + "' 已定义"@, f.span, "duplicate-function"@);
            lemma_check_duplicate_grows(dm, uri, st, f.name@, "异步函数 '"@ + f.name@ + "' 已定义"@, f.span, "duplicate-function"@);
            let st2 = define_params(define(st1, f.name@), f.parameters@);
            lemma_grows_refl(st1);
            lemma_define_params_grows(define(st1, f.name@), f.parameters@);
            lemma_grows_trans(st1, define(st1, f.name@), st2);
            lemma_seq_grows(dm, uri, st2, f.body@, 0);
            lemma_grows_trans(st, st1, st2);
            lemma_grows_trans(st, st2, an_seq(dm, uri, st2, f.body@, 0));
        },
        AstNode::StructDecl(sd) => {
            let st1 = check_duplicate(dm, uri, st, sd.name@, "结构体 '"@ + sd.name@ + "' 已定义"@, sd.span, "duplicate-struct"@);
            lemma_check_duplicate_grows(dm, uri, st, sd.name@, "结构体 '"@ + sd.name@ + "' 已定义"@, sd.span, "duplicate-struct"@);
            let st2 = define(st1, sd.name@);
            lemma_grows_refl(st1);
            lemma_grows_trans(st, st1, st2);
            lemma_methods_grows(dm, uri, st2, sd.methods@, 0);
            lemma_grows_trans(st, st2, an_methods(dm, uri, st2, sd.methods@, 0));
        },
        AstNode::EnumDecl(e) => {
            let st1 = check_duplicate(dm, uri, st, e.name@, "枚举 '"@ + e.name@ + "' 已定义"@, e.span, "duplicate-enum"@);
            lemma_check_duplicate_grows(dm, uri, st, e.name@, "枚举 '"@ + e.name@ + "' 已定义"@, e.span, "duplicate-enum"@);
            lemma_grows_refl(st1);
            lemma_grows_trans(st, st1, define(st1, e.name@));
        },
        AstNode::VariableDecl(v) => {
            let m = "变量 '"@ + v.name@ + "' 已在当前作用域中定义"@;
            let st1 = check_duplicate(dm, uri, st, v.name@, m, v.span, "duplicate-variable"@);
            lemma_check_duplicate_grows(dm, uri, st, v.name@, m, v.span, "duplicate-variable"@);
            let st1b = check_literal_type(dm, uri, st1, v);
            lemma_check_literal_grows(dm, uri, st1, v);
            lemma_grows_trans(st, st1, st1b);
            let st2 = AnalysisState { declared: st1b.declared.push((v.name@, v.span)), ..define(st1b, v.name@) };
            lemma_grows_refl(st1b);
            assert(grows(st1b, st2));
            lemma_grows_trans(st, st1b, st2);
            match v.initializer {
                Some(x) => {
                    lemma_expr_grows(dm, uri, st2, *x);
                    lemma_grows_trans(st, st2, an_expr(dm, uri, st2, *x));
                },
                None => {},
            }
        },
        AstNode::MethodDecl(m) => {
            lemma_define_params_grows(st, m.parameters@);
            let st1 = define_params(st, m.parameters@);
            lemma_seq_grows(dm, uri, st1, m.body@, 0);
            lemma_grows_trans(st, st1, an_seq(dm, uri, st1, m.body@, 0));
        },
        AstNode::Block { statements } => {
            lemma_seq_grows(dm, uri, st, statements@, 0);
        },
        AstNode::If { condition, then_branch, else_branch } => {
            lemma_expr_grows(dm, uri, st, *condition);
            let st0 = an_expr(dm, uri, st, *condition);
            lemma_seq_grows(dm, uri, st0, then_branch@, 0);
            let st1 = an_seq(dm, uri, st0, then_branch@, 0);
            lemma_grows_trans(st, st0, st1);
            match else_branch {
                Some(b) => {
                    lemma_stmt_grows(dm, uri, st1, *b);
                    lemma_grows_trans(st, st1, an_stmt(dm, uri, st1, *b));
                },
                None => {},
            }
        },
        AstNode::While { condition, body } => {
            lemma_expr_grows(dm, uri, st, *condition);
            let st0 = an_expr(dm, uri, st, *condition);
            lemma_seq_grows(dm, uri, st0, body@, 0);
            lemma_grows_trans(st, st0, an_seq(dm, uri, st0, body@, 0));
        },
        AstNode::For { variable, range, body, span } => {
            let sd = define(st, variable@);
            lemma_grows_refl(st);
            lemma_expr_grows(dm, uri, sd, *range);
            let st0 = an_expr(dm, uri, sd, *range);
            lemma_grows_trans(st, sd, st0);
            lemma_seq_grows(dm, uri, st0, body@, 0);
            lemma_grows_trans(st, st0, an_seq(dm, uri, st0, body@, 0));
        },
        AstNode::Loop { body } => {
            lemma_seq_grows(dm, uri, st, body@, 0);
        },
        AstNode::Return { value } => {
            match value {
                Some(x) => {
                    lemma_expr_grows(dm, uri, st, *x);
                },
                None => {
                    lemma_grows_refl(st);
                },
            }
        },
        AstNode::ExpressionStmt { expression } => {
            lemma_expr_grows(dm, uri, st, *expression);
        },
        _ => {
            lemma_grows_refl(st);
        },
    }
}

proof fn lemma_seq_grows(dm: DocumentManager, uri: Seq<char>, st: AnalysisState, ns: Seq<AstNode>, i: int)
    ensures
        grows(st, an_seq(dm, uri, st, ns, i)),
    decreases ns, ns.len() - i,
{
    if 0 <= i < ns.len() {
        lemma_stmt_grows(dm, uri, st, ns[i]);
        let st1 = an_stmt(dm, uri, st, ns[i]);
        lemma_seq_grows(dm, uri, st1, ns, i + 1);
        lemma_grows_trans(st, st1, an_seq(dm, uri, st1, ns, i + 1));
    } else {
        lemma_grows_refl(st);
    }
}

proof fn lemma_methods_grows(dm: DocumentManager, uri: Seq<char>, st: AnalysisState, ms: Seq<MethodDeclaration>, i: int)
    ensures
        grows(st, an_methods(dm, uri, st, ms, i)),
    decreases ms, ms.len() - i,
{
    if 0 <= i < ms.len() {
        lemma_define_params_grows(st, ms[i].parameters@);
        let st0 = define_params(st, ms[i].parameters@);
        lemma_seq_grows(dm, uri, st0, ms[i].body@, 0);
        let st1 = an_seq(dm, uri, st0, ms[i].body@, 0);
        lemma_grows_trans(st, st0, st1);
        lemma_methods_grows(dm, uri, st1, ms, i + 1);
        lemma_grows_trans(st, st1, an_methods(dm, uri, st1, ms, i + 1));
    } else {
        lemma_grows_refl(st);
    }
}

proof fn lemma_expr_grows(dm: DocumentManager, uri: Seq<char>, st: AnalysisState, n: AstNode)
    ensures
        grows(st, an_expr(dm, uri, st, n)),
    decreases n, 0int,
{
    match n {
        AstNode::Identifier { name, span } => {
            if !st.defined.contains(name@) {
                lemma_add_diag_grows(dm, uri, st, "未定义的符号: '"@ + name@ + "'"@, span, DiagnosticSeverity::Error, "undefined-symbol"@);
            } else {
                lemma_grows_refl(st);
            }
        },
        AstNode::FunctionCall { callee, arguments, span } => {
            let st1 = if !st.defined.contains(callee@) {
                add_diag(dm, uri, st, "未定义的函数: '"@ + callee@ + "'"@, span, DiagnosticSeverity::Error, "undefined-function"@)
            } else {
                st
            };
            lemma_add_diag_grows(dm, uri, st, "未定义的函数: '"@ + callee@ + "'"@, span, DiagnosticSeverity::Error, "undefined-function"@);
            lemma_grows_refl(st);
            lemma_expr_seq_grows(dm, uri, st1, arguments@, 0);
            lemma_grows_trans(st, st1, an_expr_seq(dm, uri, st1, arguments@, 0));
        },
        AstNode::MethodCall { object, method_name, arguments, span } => {
            lemma_expr_grows(dm, uri, st, *object);
            let st1 = an_expr(dm, uri, st, *object);
            lemma_expr_seq_grows(dm, uri, st1, arguments@, 0);
            lemma_grows_trans(st, st1, an_expr_seq(dm, uri, st1, arguments@, 0));
        },
        AstNode::Binary { left, right } => {
            lemma_expr_grows(dm, uri, st, *left);
            let st1 = an_expr(dm, uri, st, *left);
            lemma_expr_grows(dm, uri, st1, *right);
            lemma_grows_trans(st, st1, an_expr(dm, uri, st1, *right));
        },
        AstNode::Assignment { target, value } => {
            lemma_expr_grows(dm, uri, st, *target);
            let st1 = an_expr(dm, uri, st, *target);
            lemma_expr_grows(dm, uri, st1, *value);
            lemma_grows_trans(st, st1, an_expr(dm, uri, st1, *value));
        },
        AstNode::ArrayAccess { array, index } => {
            lemma_expr_grows(dm, uri, st, *array);
            let st1 = an_expr(dm, uri, st, *array);
            lemma_expr_grows(dm, uri, st1, *index);
            lemma_grows_trans(st, st1, an_expr(dm, uri, st1, *index));
        },
        AstNode::Await { expression } => {
            lemma_expr_grows(dm, uri, st, *expression);
        },
        _ => {
            lemma_grows_refl(st);
        },
    }
}

proof fn lemma_expr_seq_grows(dm: DocumentManager, uri: Seq<char>, st: AnalysisState, ns: Seq<AstNode>, i: int)
    ensures
        grows(st, an_expr_seq(dm, uri, st, ns, i)),
    decreases ns, ns.len() - i,
{
    if 0 <= i < ns.len() {
        lemma_expr_grows(dm, uri, st, ns[i]);
        let st1 = an_expr(dm, uri, st, ns[i]);
        lemma_expr_seq_grows(dm, uri, st1, ns, i + 1);
        lemma_grows_trans(st, st1, an_expr_seq(dm, uri, st1, ns, i + 1));
    } else {
        lemma_grows_refl(st);
    }
}

proof fn lemma_check_duplicate_grows(
    dm: DocumentManager,
    uri: Seq<char>,
    st: AnalysisState,
    name: Seq<char>,
    message: Seq<char>,
    sp: Span,
    code: Seq<char>,
)
    ensures
        grows(st, check_duplicate(dm, uri, st, name, message, sp, code)),
{
    lemma_add_diag_grows(dm, uri, st, message, sp, DiagnosticSeverity::Error, code);
    lemma_grows_refl(st);
}

proof fn lemma_check_literal_grows(dm: DocumentManager, uri: Seq<char>, st: AnalysisState, v: VariableDeclaration)
    ensures
        grows(st, check_literal_type(dm, uri, st, v)),
{
    lemma_grows_refl(st);
    match declared_and_literal(v) {
        Some((t, k)) => {
            lemma_add_diag_grows(
                dm,
                uri,
                st,
                "类型不匹配: 期望 "@ + basic_type_name(t) + ", 实际 "@ + basic_type_name(literal_type(k)),
                v.span,
                DiagnosticSeverity::Error,
                "type-mismatch"@,
            );
        },
        None => {},
    }
}

/// The state after the first `j` statements of `ns`.
pub open spec fn an_prefix(dm: DocumentManager, uri: Seq<char>, st: AnalysisState, ns: Seq<AstNode>, j: int) -> AnalysisState
    decreases j,
{
    if j <= 0 {
        st
    } else {
        an_stmt(dm, uri, an_prefix(dm, uri, st, ns, j - 1), ns[j - 1])
    }
}

proof fn lemma_an_prefix(dm: DocumentManager, uri: Seq<char>, st: AnalysisState, ns: Seq<AstNode>, j: int)
    requires
        0 <= j <= ns.len(),
    ensures
        an_seq(dm, uri, st, ns, 0) == an_seq(dm, uri, an_prefix(dm, uri, st, ns, j), ns, j),
    decreases j,
{
    if j > 0 {
        lemma_an_prefix(dm, uri, st, ns, j - 1);
    }
}

proof fn lemma_prefix_grows(dm: DocumentManager, uri: Seq<char>, st: AnalysisState, ns: Seq<AstNode>, a: int, b: int)
    requires
        0 <= a <= b <= ns.len(),
    ensures
        grows(an_prefix(dm, uri, st, ns, a), an_prefix(dm, uri, st, ns, b)),
    decreases b - a,
{
    if a == b {
        lemma_grows_refl(an_prefix(dm, uri, st, ns, a));
    } else {
        lemma_prefix_grows(dm, uri, st, ns, a, b - 1);
        lemma_stmt_grows(dm, uri, an_prefix(dm, uri, st, ns, b - 1), ns[b - 1]);
        lemma_grows_trans(
            an_prefix(dm, uri, st, ns, a),
            an_prefix(dm, uri, st, ns, b - 1),
            an_prefix(dm, uri, st, ns, b),
        );
    }
}

/// A function, asynchronous function, struct, enum or variable named
/// `name`: the statements whose analysis declares that name.
pub open spec fn declares_name(n: AstNode, name: Seq<char>) -> bool {
    ||| n matches AstNode::FunctionDecl(f) && f.name@ == name
    ||| n matches AstNode::AsyncFunctionDecl(f) && f.name@ == name
    ||| n matches AstNode::StructDecl(sd) && sd.name@ == name
    ||| n matches AstNode::EnumDecl(e) && e.name@ == name
    ||| n matches AstNode::VariableDecl(v) && v.name@ == name
}

/// The code of the error that declaring a name again gives.
pub open spec fn duplicate_code(n: AstNode) -> Seq<char> {
    match n {
        AstNode::StructDecl(_) => "duplicate-struct"@,
        AstNode::EnumDecl(_) => "duplicate-enum"@,
        AstNode::VariableDecl(_) => "duplicate-variable"@,
        _ => "duplicate-function"@,
    }
}

/// The span of a declaring statement.
pub open spec fn declaration_span(n: AstNode) -> Span {
    match n {
        AstNode::FunctionDecl(f) => f.span,
        AstNode::AsyncFunctionDecl(f) => f.span,
        AstNode::StructDecl(sd) => sd.span,
        AstNode::EnumDecl(e) => e.span,
        AstNode::VariableDecl(v) => v.span,
        _ => Span { start: 0, end: 0 },
    }
}

proof fn lemma_declares(dm: DocumentManager, uri: Seq<char>, st: AnalysisState, n: AstNode, name: Seq<char>)
    requires
        declares_name(n, name),
    ensures
        an_stmt(dm, uri, st, n).defined.contains(name),
{
    lemma_stmt_grows(dm, uri, st, n);
    match n {
        AstNode::FunctionDecl(f) => {
            let st1 = check_duplicate(dm, uri, st, f.name@, "函数 '"@ + f.name@ + "' 已定义"@, f.span, "duplicate-function"@);
            let st2 = define_params(define(st1, f.name@), f.parameters@);
            lemma_define_params_grows(define(st1, f.name@), f.parameters@);
            lemma_seq_grows(dm, uri, st2, f.body@, 0);
        },
        AstNode::AsyncFunctionDecl(f) => {
            let st1 = check_duplicate(dm, uri, st, f.name@, "异步函数 '"@ + f.name@ + "' 已定义"@, f.span, "duplicate-function"@);
            let st2 = define_params(define(st1, f.name@), f.parameters@);
            lemma_define_params_grows(define(st1, f.name@), f.parameters@);
            lemma_seq_grows(dm, uri, st2, f.body@, 0);
        },
        AstNode::StructDecl(sd) => {
            let st1 = check_duplicate(dm, uri, st, sd.name@, "结构体 '"@ + sd.name@ + "' 已定义"@, sd.span, "duplicate-struct"@);
            lemma_methods_grows(dm, uri, define(st1, sd.name@), sd.methods@, 0);
        },
        AstNode::EnumDecl(e) => {},
        AstNode::VariableDecl(v) => {
            let m = "变量 '"@ + v.name@ + "' 已在当前作用域中定义"@;
            let st1 = check_duplicate(dm, uri, st, v.name@, m, v.span, "duplicate-variable"@);
            let st1b = check_literal_type(dm, uri, st1, v);
            let st2 = AnalysisState { declared: st1b.declared.push((v.name@, v.span)), ..define(st1b, v.name@) };
            match v.initializer {
                Some(x) => {
                    lemma_expr_grows(dm, uri, st2, *x);
                },
                None => {},
            }
        },
        _ => {},
    }
}

proof fn lemma_redeclared(dm: DocumentManager, uri: Seq<char>, st: AnalysisState, n: AstNode, name: Seq<char>)
    requires
        declares_name(n, name),
        st.defined.contains(name),
    ensures
        ({
            let r = an_stmt(dm, uri, st, n);
            &&& st.diags.len() < r.diags.len()
            &&& r.diags[st.diags.len() as int].code == Some(duplicate_code(n))
            &&& r.diags[st.diags.len() as int].severity == Some(DiagnosticSeverity::Error)
            &&& r.diags[st.diags.len() as int].range == outline_range(dm, uri, declaration_span(n))
        }),
{
    lemma_stmt_grows(dm, uri, st, n);
    let r = an_stmt(dm, uri, st, n);
    match n {
        AstNode::FunctionDecl(f) => {
            let st1 = check_duplicate(dm, uri, st, f.name@, "函数 '"@ + f.name@ + "' 已定义"@, f.span, "duplicate-function"@);
            let st2 = define_params(define(st1, f.name@), f.parameters@);
            lemma_define_params_grows(define(st1, f.name@), f.parameters@);
            lemma_seq_grows(dm, uri, st2, f.body@, 0);
            lemma_grows_trans(define(st1, f.name@), st2, r);
            assert(r.diags.subrange(0, st1.diags.len() as int)[st.diags.len() as int] == st1.diags[st.diags.len() as int]);
        },
        AstNode::AsyncFunctionDecl(f) => {
            let st1 = check_duplicate(dm, uri, st, f.name@, "异步函数 '"@ + f.name@ + "' 已定义"@, f.span, "duplicate-function"@);
            let st2 = define_params(define(st1, f.name@), f.parameters@);
            lemma_define_params_grows(define(st1, f.name@), f.parameters@);
            lemma_seq_grows(dm, uri, st2, f.body@, 0);
            lemma_grows_trans(define(st1, f.name@), st2, r);
            assert(r.diags.subrange(0, st1.diags.len() as int)[st.diags.len() as int] == st1.diags[st.diags.len() as int]);
        },
        AstNode::StructDecl(sd) => {
            let st1 = check_duplicate(dm, uri, st, sd.name@, "结构体 '"@ + sd.name@ + "' 已定义"@, sd.span, "duplicate-struct"@);
            lemma_methods_grows(dm, uri, define(st1, sd.name@), sd.methods@, 0);
            assert(r.diags.subrange(0, st1.diags.len() as int)[st.diags.len() as int] == st1.diags[st.diags.len() as int]);
        },
        AstNode::EnumDecl(e) => {},
        AstNode::VariableDecl(v) => {
            let m = "变量 '"@ + v.name@ + "' 已在当前作用域中定义"@;
            let st1 = check_duplicate(dm, uri, st, v.name@, m, v.span, "duplicate-variable"@);
            lemma_check_literal_grows(dm, uri, st1, v);
            let st1b = check_literal_type(dm, uri, st1, v);
            let st2 = AnalysisState { declared: st1b.declared.push((v.name@, v.span)), ..define(st1b, v.name@) };
            lemma_grows_refl(st2);
            match v.initializer {
                Some(x) => {
                    lemma_expr_grows(dm, uri, st2, *x);
                },
                None => {},
            }
            lemma_grows_trans(st1, st1b, st2);
            lemma_grows_trans(st1, st2, r);
            assert(r.diags.subrange(0, st1.diags.len() as int)[st.diags.len() as int] == st1.diags[st.diags.len() as int]);
        },
        _ => {},
    }
}

/// Declaring a name twice among a program's top-level statements (as a
/// function, asynchronous function, struct, enum or variable) is always
/// reported: an error at the later declaration, with the code of its kind.
pub proof fn law_second_declaration_reported(dm: DocumentManager, uri: Seq<char>, p: Program, i: int, k: int, name: Seq<char>)
    requires
        0 <= i < k < p.statements@.len(),
        declares_name(p.statements@[i], name),
        declares_name(p.statements@[k], name),
    ensures
        exists|j: int|
            0 <= j < spec_semantic_diagnostics(dm, uri, p).len() && {
                let d = #[trigger] spec_semantic_diagnostics(dm, uri, p)[j];
                &&& d.code == Some(duplicate_code(p.statements@[k]))
                &&& d.severity == Some(DiagnosticSeverity::Error)
                &&& d.range == outline_range(dm, uri, declaration_span(p.statements@[k]))
            },
{
    let init = AnalysisState { defined: Set::empty(), used: Set::empty(), declared: Seq::empty(), diags: Seq::empty() };
    let st0 = match p.package_name {
        Some(n) => define(init, n@),
        None => init,
    };
    let ns = p.statements@;
    let base = an_imports(dm, uri, st0, p.imports@);
    let pi = an_prefix(dm, uri, base, ns, i);
    lemma_declares(dm, uri, pi, ns[i], name);
    lemma_prefix_grows(dm, uri, base, ns, i + 1, k);
    let pk = an_prefix(dm, uri, base, ns, k);
    lemma_redeclared(dm, uri, pk, ns[k], name);
    let pk1 = an_prefix(dm, uri, base, ns, k + 1);
    lemma_an_prefix(dm, uri, base, ns, k + 1);
    lemma_seq_grows(dm, uri, pk1, ns, k + 1);
    let st2 = an_seq(dm, uri, base, ns, 0);
    let idx = pk.diags.len() as int;
    assert(st2.diags.subrange(0, pk1.diags.len() as int)[idx] == pk1.diags[idx]);
    let all = spec_semantic_diagnostics(dm, uri, p);
    assert(all[idx] == st2.diags[idx]);
}

} // verus!
