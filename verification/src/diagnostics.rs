//! Diagnostics: parse errors turned into diagnostics, the diagnostics of
//! semantic analysis, and the cache that holds them by document.

use vstd::prelude::*;
use crate::ast::{ParseError, Span};
use crate::definition::{spec_span_range, span_to_range_in};
use crate::document::{DocumentManager, text_fits, uri_fits};
use crate::hover::opt_view;
use crate::position::{Position, Range};
use crate::semantic::{analyze_semantics, spec_semantic_diagnostics};
use crate::strings::text_eq;

verus! {

/// How serious a diagnostic is.
#[derive(Debug, Clone, Copy, PartialEq, Eq, Structural)]
pub enum DiagnosticSeverity {
    Error,
    Warning,
    Information,
    Hint,
}

/// A diagnostic: a message about a range of a document.
#[derive(Debug, Clone)]
pub struct Diagnostic {
    pub range: Range,
    pub severity: Option<DiagnosticSeverity>,
    pub code: Option<String>,
    pub source: Option<String>,
    pub message: String,
}

/// A diagnostic, as values.
pub struct DiagView {
    pub range: Range,
    pub severity: Option<DiagnosticSeverity>,
    pub code: Option<Seq<char>>,
    pub source: Option<Seq<char>>,
    pub message: Seq<char>,
}

impl View for Diagnostic {
    type V = DiagView;

    open spec fn view(&self) -> DiagView {
        DiagView {
            range: self.range,
            severity: self.severity,
            code: opt_view(self.code),
            source: opt_view(self.source),
            message: self.message@,
        }
    }
}

/// The views of diagnostics.
pub open spec fn diags_view(s: Seq<Diagnostic>) -> Seq<DiagView> {
    s.map_values(|d: Diagnostic| d@)
}

/// A diagnostic with the given parts.
pub open spec fn diag(range: Range, severity: DiagnosticSeverity, code: Seq<char>, source: Seq<char>, message: Seq<char>) -> DiagView {
    DiagView { range, severity: Some(severity), code: Some(code), source: Some(source), message }
}

/// The cached diagnostics of documents, by URI (each URI once).
pub struct DiagnosticsManager {
    diagnostics_cache: Vec<(String, Vec<Diagnostic>)>,
}

impl DiagnosticsManager {
    /// The URIs whose diagnostics are cached.
    pub closed spec fn cached_uris(&self) -> Set<Seq<char>> {
        Set::new(|u: Seq<char>| exists|i: int| 0 <= i < self.diagnostics_cache@.len() && #[trigger] self.diagnostics_cache@[i].0@ == u)
    }

    /// Each URI is cached once.
    pub closed spec fn wf(&self) -> bool {
        forall|i: int, j: int|
            0 <= i < j < self.diagnostics_cache@.len() ==> #[trigger] self.diagnostics_cache@[i].0@
                != #[trigger] self.diagnostics_cache@[j].0@
    }

    /// Create a new diagnostics manager.
    pub fn new() -> (r: Self)
        ensures
            r.wf(),
            r.cached_uris() == Set::<Seq<char>>::empty(),
    {
        let r = DiagnosticsManager { diagnostics_cache: Vec::new() };
        assert(r.cached_uris() =~= Set::<Seq<char>>::empty());
        r
    }

    /// Clear the diagnostics cache.
    pub fn clear_cache(&mut self)
        ensures
            final(self).wf(),
            final(self).cached_uris() == Set::<Seq<char>>::empty(),
    {
        self.diagnostics_cache.clear();
        assert(self.cached_uris() =~= Set::<Seq<char>>::empty());
    }

    /// Clear the diagnostics of one document.
    pub fn clear_document_diagnostics(&mut self, uri: &str)
        requires
            old(self).wf(),
        ensures
            final(self).wf(),
            final(self).cached_uris() == old(self).cached_uris().remove(uri@),
    {
        let ghost before = self.diagnostics_cache@;
        let mut i: usize = 0;
        while i < self.diagnostics_cache.len()
            invariant
                i <= self.diagnostics_cache@.len(),
                self.diagnostics_cache@ == before,
                before == old(self).diagnostics_cache@,
                forall|a: int, b: int| 0 <= a < b < before.len() ==> #[trigger] before[a].0@ != #[trigger] before[b].0@,
                forall|j: int| 0 <= j < i ==> #[trigger] before[j].0@ != uri@,
            decreases self.diagnostics_cache.len() - i,
        {
            if text_eq(self.diagnostics_cache[i].0.as_str(), uri) {
                let _removed = self.diagnostics_cache.remove(i);
                proof {
                    let after = self.diagnostics_cache@;
                    assert forall|a: int, b: int| 0 <= a < b < after.len() implies #[trigger] after[a].0@
                        != #[trigger] after[b].0@ by {
                        let a0 = if a < i { a } else { a + 1 };
                        let b0 = if b < i { b } else { b + 1 };
                        assert(after[a] == before[a0]);
                        assert(after[b] == before[b0]);
                    }
                    assert forall|u: Seq<char>| #[trigger] self.cached_uris().contains(u) == old(self).cached_uris().remove(uri@).contains(u) by {
                        if self.cached_uris().contains(u) {
                            let k = choose|k: int| 0 <= k < after.len() && #[trigger] after[k].0@ == u;
                            let k0 = if k < i { k } else { k + 1 };
                            assert(after[k] == before[k0]);
                            assert(u != uri@) by {
                                if k0 != i as int {
                                    assert(before[k0].0@ != before[i as int].0@);
                                }
                            }
                            assert(old(self).cached_uris().contains(u));
                        }
                        if old(self).cached_uris().remove(uri@).contains(u) {
                            let k0 = choose|k: int| 0 <= k < before.len() && #[trigger] before[k].0@ == u;
                            assert(k0 != i as int);
                            let k = if k0 < i { k0 } else { k0 - 1 };
                            assert(after[k] == before[k0]);
                        }
                    }
                    assert(self.cached_uris() =~= old(self).cached_uris().remove(uri@));
                }
                return;
            }
            i = i + 1;
        }
        proof {
            assert forall|u: Seq<char>| #[trigger] self.cached_uris().contains(u) == old(self).cached_uris().remove(uri@).contains(u) by {
                if self.cached_uris().contains(u) {
                    let k = choose|k: int| 0 <= k < before.len() && #[trigger] before[k].0@ == u;
                    assert(u != uri@);
                }
            }
            assert(self.cached_uris() =~= old(self).cached_uris().remove(uri@));
        }
    }
}

impl Default for DiagnosticsManager {
    fn default() -> (r: Self)
        ensures
            r.wf(),
            r.cached_uris() == Set::<Seq<char>>::empty(),
    {
        Self::new()
    }
}

/// A count truncated to 32 bits, less one but not below zero.
pub open spec fn zero_based(n: usize) -> u32 {
    if (n as u32) == 0 {
        0
    } else {
        ((n as u32) - 1) as u32
    }
}

/// Where a parse error is placed (1-based line and column, truncated to 32
/// bits), and its message.
pub open spec fn parse_error_parts(e: ParseError) -> (usize, usize, Seq<char>) {
    match e {
        ParseError::UnexpectedToken { token, line, column } => (line, column, "意外的标记: "@ + token@),
        ParseError::ExpectedToken { expected, found, line, column } => (
            line,
            column,
            "期望 "@ + expected@ + " 但找到 "@ + found@,
        ),
        ParseError::InvalidSyntax { message, line, column } => (line, column, "语法错误: "@ + message@),
        ParseError::UnterminatedExpression { line, column } => (line, column, "未终止的表达式"@),
        ParseError::InvalidFunctionDeclaration { line, column } => (line, column, "无效的函数声明"@),
        ParseError::InvalidVariableDeclaration { line, column } => (line, column, "无效的变量声明"@),
        ParseError::UnexpectedEof => (0, 0, "意外的文件结束"@),
        ParseError::General(message) => (0, 0, "解析错误: "@ + message@),
        ParseError::ParseFailed => (0, 0, "解析失败：语法错误"@),
    }
}

/// The diagnostic of a parse error: an error of code `parse-error` from
/// `qi-compiler`, one character wide at the error's 0-based position.
pub open spec fn spec_parse_error_diagnostic(e: ParseError) -> DiagView {
    let (line, column, message) = parse_error_parts(e);
    let l = zero_based(line);
    let c = zero_based(column);
    diag(
        Range {
            start: Position { line: l, character: c },
            end: Position { line: l, character: (c + 1) as u32 },
        },
        DiagnosticSeverity::Error,
        "parse-error"@,
        "qi-compiler"@,
        message,
    )
}

fn saturating_zero_based(n: usize) -> (r: u32)
    ensures
        r == zero_based(n),
        r < u32::MAX,
{
    let v = n as u32;
    if v == 0 {
        0
    } else {
        v - 1
    }
}

/// Convert a parse error to a diagnostic.
pub fn convert_parse_error_to_diagnostic(parse_error: &ParseError, content: &str) -> (r: Option<Diagnostic>)
    ensures
        r matches Some(d) && d@ == spec_parse_error_diagnostic(*parse_error),
{
    let (line, column, message) = match parse_error {
        ParseError::UnexpectedToken { token, line, column } => (
            *line,
            *column,
            String::from_str("意外的标记: ").concat(token.as_str()),
        ),
        ParseError::ExpectedToken { expected, found, line, column } => (
            *line,
            *column,
            String::from_str("期望 ").concat(expected.as_str()).concat(" 但找到 ").concat(found.as_str()),
        ),
        ParseError::InvalidSyntax { message, line, column } => (
            *line,
            *column,
            String::from_str("语法错误: ").concat(message.as_str()),
        ),
        ParseError::UnterminatedExpression { line, column } => (*line, *column, String::from_str("未终止的表达式")),
        ParseError::InvalidFunctionDeclaration { line, column } => (
            *line,
            *column,
            String::from_str("无效的函数声明"),
        ),
        ParseError::InvalidVariableDeclaration { line, column } => (
            *line,
            *column,
            String::from_str("无效的变量声明"),
        ),
        ParseError::UnexpectedEof => (0, 0, String::from_str("意外的文件结束")),
        ParseError::General(message) => (0, 0, String::from_str("解析错误: ").concat(message.as_str())),
        ParseError::ParseFailed => (0, 0, String::from_str("解析失败：语法错误")),
    };
    let line_0 = saturating_zero_based(line);
    let col_0 = saturating_zero_based(column);
    Some(
        Diagnostic {
            range: Range {
                start: Position { line: line_0, character: col_0 },
                end: Position { line: line_0, character: col_0 + 1 },
            },
            severity: Some(DiagnosticSeverity::Error),
            code: Some(String::from_str("parse-error")),
            source: Some(String::from_str("qi-compiler")),
            message,
        },
    )
}

/// Convert a span to a range within a text.
pub fn span_to_range(span: Span, content: &str) -> (r: Option<Range>)
    requires
        text_fits(content@),
    ensures
        r == spec_span_range(content@, span),
{
    span_to_range_in(span, content)
}

/// A diagnostic from `qi-lsp`.
pub open spec fn semantic_diag(message: Seq<char>, range: Range, severity: DiagnosticSeverity, code: Seq<char>) -> DiagView {
    diag(range, severity, code, "qi-lsp"@, message)
}

/// Create a diagnostic for a semantic issue.
pub fn create_semantic_diagnostic(message: &str, range: Range, severity: DiagnosticSeverity, code: &str) -> (r: Diagnostic)
    ensures
        r@ == semantic_diag(message@, range, severity, code@),
{
    Diagnostic {
        range,
        severity: Some(severity),
        code: Some(String::from_str(code)),
        source: Some(String::from_str("qi-lsp")),
        message: String::from_str(message),
    }
}

/// Create a warning diagnostic.
pub fn create_warning_diagnostic(message: &str, range: Range, code: &str) -> (r: Diagnostic)
    ensures
        r@ == semantic_diag(message@, range, DiagnosticSeverity::Warning, code@),
{
    create_semantic_diagnostic(message, range, DiagnosticSeverity::Warning, code)
}

/// Create an error diagnostic.
pub fn create_error_diagnostic(message: &str, range: Range, code: &str) -> (r: Diagnostic)
    ensures
        r@ == semantic_diag(message@, range, DiagnosticSeverity::Error, code@),
{
    create_semantic_diagnostic(message, range, DiagnosticSeverity::Error, code)
}

/// Create an information diagnostic.
pub fn create_info_diagnostic(message: &str, range: Range, code: &str) -> (r: Diagnostic)
    ensures
        r@ == semantic_diag(message@, range, DiagnosticSeverity::Information, code@),
{
    create_semantic_diagnostic(message, range, DiagnosticSeverity::Information, code)
}

/// Create a hint diagnostic.
pub fn create_hint_diagnostic(message: &str, range: Range, code: &str) -> (r: Diagnostic)
    ensures
        r@ == semantic_diag(message@, range, DiagnosticSeverity::Hint, code@),
{
    create_semantic_diagnostic(message, range, DiagnosticSeverity::Hint, code)
}

/// The diagnostics of a document: its parse errors, then what semantic
/// analysis of its syntax tree finds.
pub open spec fn spec_document_diagnostics(dm: DocumentManager, uri: Seq<char>) -> Seq<DiagView> {
    (if dm.view().contains_key(uri) {
        match dm.view()[uri].parse_errors {
            Some(errs) => errs@.map_values(|e: ParseError| spec_parse_error_diagnostic(e)),
            None => Seq::empty(),
        }
    } else {
        Seq::empty()
    }) + if dm.view().contains_key(uri) {
        match dm.view()[uri].ast {
            Some(a) => spec_semantic_diagnostics(dm, uri, *a),
            None => Seq::empty(),
        }
    } else {
        Seq::empty()
    }
}

/// Compute the diagnostics to publish for a document.
pub fn compute_diagnostics(uri: &str, content: &str, document_manager: &DocumentManager) -> (r: Vec<Diagnostic>)
    requires
        document_manager.wf(),
        uri_fits(uri@),
    ensures
        diags_view(r@) == spec_document_diagnostics(*document_manager, uri@),
{
    let mut diagnostics: Vec<Diagnostic> = Vec::new();
    match document_manager.get_document_errors(uri) {
        Some(parse_errors) => {
            let ghost want = parse_errors@.map_values(|e: ParseError| spec_parse_error_diagnostic(e));
            let mut i: usize = 0;
            while i < parse_errors.len()
                invariant
                    i <= parse_errors@.len(),
                    want == parse_errors@.map_values(|e: ParseError| spec_parse_error_diagnostic(e)),
                    diags_view(diagnostics@) == want.take(i as int),
                decreases parse_errors.len() - i,
            {
                let ghost old_d = diagnostics@;
                match convert_parse_error_to_diagnostic(&parse_errors[i], content) {
                    Some(d) => {
                        let ghost dv = d@;
                        diagnostics.push(d);
                        assert(diags_view(diagnostics@) =~= diags_view(old_d).push(dv));
                        assert(want.take(i + 1) =~= want.take(i as int).push(want[i as int]));
                    },
                    None => {},
                }
                assert(diags_view(diagnostics@) =~= want.take(i + 1));
                i = i + 1;
            }
            assert(want.take(parse_errors@.len() as int) =~= want);
        },
        None => {
            assert(diags_view(diagnostics@) =~= Seq::<DiagView>::empty());
        },
    }
    match document_manager.get_document_ast(uri) {
        Some(ast) => {
            let ghost before = diags_view(diagnostics@);
            analyze_semantics(uri, &ast, &mut diagnostics, document_manager);
        },
        None => {
            assert(diags_view(diagnostics@) =~= diags_view(diagnostics@) + Seq::<DiagView>::empty());
        },
    }
    diagnostics
}

/// A parse error placed at 1-based line `line` and column `column` is shown
/// as an error of code `parse-error`, one character wide, at the 0-based
/// line `line - 1` and character `column - 1`.
pub proof fn law_parse_error_placed(e: ParseError, line: usize, column: usize)
    requires
        ({
            ||| e matches ParseError::UnexpectedToken { line: l, column: c, .. } && l == line && c == column
            ||| e matches ParseError::ExpectedToken { line: l, column: c, .. } && l == line && c == column
            ||| e matches ParseError::InvalidSyntax { line: l, column: c, .. } && l == line && c == column
            ||| e matches ParseError::UnterminatedExpression { line: l, column: c } && l == line && c == column
            ||| e matches ParseError::InvalidFunctionDeclaration { line: l, column: c } && l == line && c == column
            ||| e matches ParseError::InvalidVariableDeclaration { line: l, column: c } && l == line && c == column
        }),
        1 <= line <= u32::MAX,
        1 <= column <= u32::MAX,
    ensures
        spec_parse_error_diagnostic(e).range == (Range {
            start: Position { line: (line - 1) as u32, character: (column - 1) as u32 },
            end: Position { line: (line - 1) as u32, character: column as u32 },
        }),
        spec_parse_error_diagnostic(e).severity == Some(DiagnosticSeverity::Error),
        spec_parse_error_diagnostic(e).code == Some("parse-error"@),
{
    assert((line as u32) as int == line as int) by (bit_vector)
        requires
            1 <= line <= u32::MAX,
    ;
    assert((column as u32) as int == column as int) by (bit_vector)
        requires
            1 <= column <= u32::MAX,
    ;
}

} // verus!
