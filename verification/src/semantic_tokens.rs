//! Semantic tokens for Qi source: a scan of the raw text that classifies
//! each token as keyword, type, function, variable, string, number or
//! comment, followed by the protocol's delta encoding.

use vstd::prelude::*;
use crate::unicode::{
    char_is_alphabetic, char_is_alphanumeric, char_is_ascii_digit, char_is_cjk, char_len_utf16,
    is_ascii_digit, is_cjk, spec_char_is_alphabetic, spec_char_is_alphanumeric, spec_len_utf16,
};
use crate::strings::{chars_vec, string_from_range, text_eq};
use crate::hover::{spec_keyword_doc, spec_type_doc};
use crate::rename::spec_is_qi_keyword;

verus! {

/// Token type index of keywords.
pub const TOKEN_KEYWORD: u32 = 0;
/// Token type index of built-in types.
pub const TOKEN_TYPE: u32 = 1;
/// Token type index of function names.
pub const TOKEN_FUNCTION: u32 = 2;
/// Token type index of other identifiers.
pub const TOKEN_VARIABLE: u32 = 3;
/// Token type index of string literals.
pub const TOKEN_STRING: u32 = 4;
/// Token type index of number literals.
pub const TOKEN_NUMBER: u32 = 5;
/// Token type index of line comments.
pub const TOKEN_COMMENT: u32 = 6;

/// Raw token before delta-encoding.
#[derive(Debug, Clone, Copy)]
pub struct RawToken {
    /// Line of the token's first character.
    pub line: u32,
    /// UTF-16 column of the token's first character.
    pub start_char: u32,
    /// Length in UTF-16 code units.
    pub length: u32,
    /// Token type index.
    pub token_type: u32,
}

/// A delta-encoded token as the protocol sends it.
#[derive(Debug, Clone, Copy, PartialEq, Eq, Structural)]
pub struct SemanticToken {
    /// Lines since the previous token.
    pub delta_line: u32,
    /// Column, relative to the previous token's when on the same line.
    pub delta_start: u32,
    /// Length in UTF-16 code units.
    pub length: u32,
    /// Token type index.
    pub token_type: u32,
    /// Token modifiers (always none).
    pub token_modifiers_bitset: u32,
}

/// A token's numbers, as mathematical integers.
pub struct TokenSpec {
    pub line: int,
    pub start: int,
    pub length: int,
    pub kind: int,
}

/// The numbers of a raw token.
pub open spec fn raw_view(t: RawToken) -> TokenSpec {
    TokenSpec {
        line: t.line as int,
        start: t.start_char as int,
        length: t.length as int,
        kind: t.token_type as int,
    }
}

/// A token from its numbers.
pub open spec fn tok(line: int, start: int, length: int, kind: int) -> TokenSpec {
    TokenSpec { line, start, length, kind }
}

/// An identifier starts with an alphabetic character, `_` or a CJK ideograph.
pub open spec fn spec_is_ident_start(c: char) -> bool {
    spec_char_is_alphabetic(c) || c == '_' || is_cjk(c)
}

/// An identifier continues with an alphanumeric character, `_` or a CJK ideograph.
pub open spec fn spec_is_ident_continue(c: char) -> bool {
    spec_char_is_alphanumeric(c) || c == '_' || is_cjk(c)
}

/// The words highlighted as keywords.
pub open spec fn spec_is_keyword(w: Seq<char>) -> bool {
    ||| w == "包"@
    ||| w == "导入"@
    ||| w == "公开"@
    ||| w == "私有"@
    ||| w == "作为"@
    ||| w == "函数"@
    ||| w == "异步函数"@
    ||| w == "返回"@
    ||| w == "等待"@
    ||| w == "变量"@
    ||| w == "常量"@
    ||| w == "如果"@
    ||| w == "否则"@
    ||| w == "当"@
    ||| w == "对于"@
    ||| w == "循环"@
    ||| w == "匹配"@
    ||| w == "结构体"@
    ||| w == "枚举"@
    ||| w == "类型"@
    ||| w == "真"@
    ||| w == "假"@
    ||| w == "空"@
}

/// The words highlighted as built-in types.
pub open spec fn spec_is_builtin_type(w: Seq<char>) -> bool {
    ||| w == "整数"@
    ||| w == "长整数"@
    ||| w == "短整数"@
    ||| w == "字节"@
    ||| w == "浮点数"@
    ||| w == "布尔"@
    ||| w == "字符"@
    ||| w == "字符串"@
    ||| w == "数组"@
    ||| w == "字典"@
    ||| w == "列表"@
    ||| w == "集合"@
    ||| w == "指针"@
    ||| w == "引用"@
    ||| w == "可变引用"@
    ||| w == "未来"@
}

/// Keywords that make the next plain identifier a function name.
pub open spec fn spec_is_function_keyword(w: Seq<char>) -> bool {
    w == "函数"@ || w == "异步函数"@
}

/// Token type of an identifier word, and whether the next plain identifier
/// is a function name, given whether it was so before.
pub open spec fn spec_classify(w: Seq<char>, prev_func: bool) -> (int, bool) {
    if spec_is_keyword(w) {
        (TOKEN_KEYWORD as int, if spec_is_function_keyword(w) { true } else { prev_func })
    } else if spec_is_builtin_type(w) {
        (TOKEN_TYPE as int, prev_func)
    } else if prev_func {
        (TOKEN_FUNCTION as int, false)
    } else {
        (TOKEN_VARIABLE as int, false)
    }
}

/// From `j`, the end of a line comment and its UTF-16 length (starting at `len`).
pub open spec fn comment_scan(s: Seq<char>, j: int, len: int) -> (int, int)
    decreases s.len() - j,
{
    if 0 <= j < s.len() && s[j] != '\n' {
        comment_scan(s, j + 1, len + spec_len_utf16(s[j]))
    } else {
        (j, len)
    }
}

/// A character that continues a number literal.
pub open spec fn is_number_continue(c: char) -> bool {
    is_ascii_digit(c) || c == '.' || c == '_'
}

/// From `j`, the end of a number literal and its UTF-16 length (starting at `len`).
pub open spec fn number_scan(s: Seq<char>, j: int, len: int) -> (int, int)
    decreases s.len() - j,
{
    if 0 <= j < s.len() && is_number_continue(s[j]) {
        number_scan(s, j + 1, len + spec_len_utf16(s[j]))
    } else {
        (j, len)
    }
}

/// From `j`, the end of an identifier and its UTF-16 length (starting at `len`).
pub open spec fn ident_scan(s: Seq<char>, j: int, len: int) -> (int, int)
    decreases s.len() - j,
{
    if 0 <= j < s.len() && spec_is_ident_continue(s[j]) {
        ident_scan(s, j + 1, len + spec_len_utf16(s[j]))
    } else {
        (j, len)
    }
}

/// From `j` inside a string literal: where the literal ends, the line and
/// column there, and the literal's length so far (starting at `len`).
/// A backslash escapes the next character; a line break inside the
/// literal moves to the next line.
pub open spec fn string_scan(s: Seq<char>, j: int, line: int, col: int, len: int) -> (
    int,
    int,
    int,
    int,
)
    decreases s.len() - j,
{
    if j < 0 || j >= s.len() {
        (j, line, col, len)
    } else if s[j] == '\\' && j + 1 < s.len() {
        let w = 1 + spec_len_utf16(s[j + 1]);
        if s[j + 1] == '\n' {
            string_scan(s, j + 2, line + 1, 0, len + w)
        } else {
            string_scan(s, j + 2, line, col + w, len + w)
        }
    } else if s[j] == '\n' {
        string_scan(s, j + 1, line + 1, 0, len + 1)
    } else if s[j] == '"' {
        (j + 1, line, col + spec_len_utf16(s[j]), len + spec_len_utf16(s[j]))
    } else {
        string_scan(s, j + 1, line, col + spec_len_utf16(s[j]), len + spec_len_utf16(s[j]))
    }
}

pub proof fn lemma_comment_scan(s: Seq<char>, j: int, len: int)
    requires
        0 <= j <= s.len(),
    ensures
        j <= comment_scan(s, j, len).0 <= s.len(),
    decreases s.len() - j,
{
    if j < s.len() && s[j] != '\n' {
        lemma_comment_scan(s, j + 1, len + spec_len_utf16(s[j]));
    }
}

pub proof fn lemma_number_scan(s: Seq<char>, j: int, len: int)
    requires
        0 <= j <= s.len(),
    ensures
        j <= number_scan(s, j, len).0 <= s.len(),
    decreases s.len() - j,
{
    if j < s.len() && is_number_continue(s[j]) {
        lemma_number_scan(s, j + 1, len + spec_len_utf16(s[j]));
    }
}

pub proof fn lemma_ident_scan(s: Seq<char>, j: int, len: int)
    requires
        0 <= j <= s.len(),
    ensures
        j <= ident_scan(s, j, len).0 <= s.len(),
    decreases s.len() - j,
{
    if j < s.len() && spec_is_ident_continue(s[j]) {
        lemma_ident_scan(s, j + 1, len + spec_len_utf16(s[j]));
    }
}

pub proof fn lemma_string_scan(s: Seq<char>, j: int, line: int, col: int, len: int)
    requires
        0 <= j <= s.len(),
    ensures
        j <= string_scan(s, j, line, col, len).0 <= s.len(),
    decreases s.len() - j,
{
    if j < s.len() {
        if s[j] == '\\' && j + 1 < s.len() {
            let w = 1 + spec_len_utf16(s[j + 1]);
            if s[j + 1] == '\n' {
                lemma_string_scan(s, j + 2, line + 1, 0, len + w);
            } else {
                lemma_string_scan(s, j + 2, line, col + w, len + w);
            }
        } else if s[j] == '\n' {
            lemma_string_scan(s, j + 1, line + 1, 0, len + 1);
        } else if s[j] != '"' {
            lemma_string_scan(
                s,
                j + 1,
                line,
                col + spec_len_utf16(s[j]),
                len + spec_len_utf16(s[j]),
            );
        }
    }
}

/// The tokens of `s` from index `i`, scanning at `line`/`col` with
/// `prev_func` telling whether the next plain identifier names a function.
pub open spec fn scan_from(s: Seq<char>, i: int, line: int, col: int, prev_func: bool) -> Seq<
    TokenSpec,
>
    decreases s.len() - i,
{
    if i < 0 || i >= s.len() {
        Seq::empty()
    } else {
        let c = s[i];
        if c == '\n' {
            scan_from(s, i + 1, line + 1, 0, prev_func)
        } else if c == ' ' || c == '\t' || c == '\r' {
            scan_from(s, i + 1, line, col + 1, prev_func)
        } else if c == '/' && i + 1 < s.len() && s[i + 1] == '/' {
            let (e, len) = comment_scan(s, i + 2, 2);
            proof {
                lemma_comment_scan(s, i + 2, 2);
            }
            seq![tok(line, col, len, TOKEN_COMMENT as int)] + scan_from(
                s,
                e,
                line,
                col + len,
                prev_func,
            )
        } else if c == '"' {
            let (e, l2, c2, len) = string_scan(s, i + 1, line, col + 1, 1);
            proof {
                lemma_string_scan(s, i + 1, line, col + 1, 1);
            }
            seq![tok(line, col, len, TOKEN_STRING as int)] + scan_from(s, e, l2, c2, prev_func)
        } else if is_ascii_digit(c) {
            let (e, len) = number_scan(s, i + 1, spec_len_utf16(c) as int);
            proof {
                lemma_number_scan(s, i + 1, spec_len_utf16(c) as int);
            }
            seq![tok(line, col, len, TOKEN_NUMBER as int)] + scan_from(
                s,
                e,
                line,
                col + len,
                prev_func,
            )
        } else if spec_is_ident_start(c) {
            let (e, len) = ident_scan(s, i + 1, spec_len_utf16(c) as int);
            proof {
                lemma_ident_scan(s, i + 1, spec_len_utf16(c) as int);
            }
            let (kind, next_prev) = spec_classify(s.subrange(i, e), prev_func);
            seq![tok(line, col, len, kind)] + scan_from(s, e, line, col + len, next_prev)
        } else {
            scan_from(s, i + 1, line, col + spec_len_utf16(c), prev_func)
        }
    }
}

/// The raw tokens of a source text.
pub open spec fn spec_scan(s: Seq<char>) -> Seq<TokenSpec> {
    scan_from(s, 0, 0, 0, false)
}

/// `a` comes no later than `b` in (line, column) order.
pub open spec fn token_le(a: TokenSpec, b: TokenSpec) -> bool {
    a.line < b.line || (a.line == b.line && a.start <= b.start)
}

/// Tokens appear in (line, column) order.
pub open spec fn tokens_ordered(ts: Seq<TokenSpec>) -> bool {
    forall|i: int, j: int| 0 <= i < j < ts.len() ==> token_le(#[trigger] ts[i], #[trigger] ts[j])
}

/// Whether `c` can start an identifier.
pub fn is_ident_start(c: char) -> (r: bool)
    ensures
        r == spec_is_ident_start(c),
{
    char_is_alphabetic(c) || c == '_' || char_is_cjk(c)
}

/// Whether `c` can continue an identifier.
pub fn is_ident_continue(c: char) -> (r: bool)
    ensures
        r == spec_is_ident_continue(c),
{
    char_is_alphanumeric(c) || c == '_' || char_is_cjk(c)
}

/// Whether `word` is highlighted as a keyword.
pub fn is_keyword(word: &str) -> (r: bool)
    ensures
        r == spec_is_keyword(word@),
{
    text_eq(word, "包") || text_eq(word, "导入") || text_eq(word, "公开") || text_eq(word, "私有")
        || text_eq(word, "作为") || text_eq(word, "函数") || text_eq(word, "异步函数") || text_eq(
        word,
        "返回",
    ) || text_eq(word, "等待") || text_eq(word, "变量") || text_eq(word, "常量") || text_eq(
        word,
        "如果",
    ) || text_eq(word, "否则") || text_eq(word, "当") || text_eq(word, "对于") || text_eq(
        word,
        "循环",
    ) || text_eq(word, "匹配") || text_eq(word, "结构体") || text_eq(word, "枚举") || text_eq(
        word,
        "类型",
    ) || text_eq(word, "真") || text_eq(word, "假") || text_eq(word, "空")
}

/// Whether `word` is highlighted as a built-in type.
pub fn is_builtin_type(word: &str) -> (r: bool)
    ensures
        r == spec_is_builtin_type(word@),
{
    text_eq(word, "整数") || text_eq(word, "长整数") || text_eq(word, "短整数") || text_eq(
        word,
        "字节",
    ) || text_eq(word, "浮点数") || text_eq(word, "布尔") || text_eq(word, "字符") || text_eq(
        word,
        "字符串",
    ) || text_eq(word, "数组") || text_eq(word, "字典") || text_eq(word, "列表") || text_eq(
        word,
        "集合",
    ) || text_eq(word, "指针") || text_eq(word, "引用") || text_eq(word, "可变引用") || text_eq(
        word,
        "未来",
    )
}


/// Every token of `ts` lies at or before (`line`, `col`).
pub open spec fn all_before(ts: Seq<TokenSpec>, line: int, col: int) -> bool {
    forall|k: int|
        0 <= k < ts.len() ==> (#[trigger] ts[k]).line < line || (ts[k].line == line && ts[k].start
            <= col)
}

proof fn lemma_push_token(ts: Seq<TokenSpec>, t: TokenSpec)
    requires
        tokens_ordered(ts),
        all_before(ts, t.line, t.start),
    ensures
        tokens_ordered(ts.push(t)),
        all_before(ts.push(t), t.line, t.start),
{
    let ts2 = ts.push(t);
    assert forall|i: int, j: int| 0 <= i < j < ts2.len() implies token_le(
        #[trigger] ts2[i],
        #[trigger] ts2[j],
    ) by {
        if j < ts.len() {
            assert(ts2[i] == ts[i] && ts2[j] == ts[j]);
        } else {
            assert(ts2[i] == ts[i]);
        }
    }
    assert forall|k: int| 0 <= k < ts2.len() implies (#[trigger] ts2[k]).line < t.line || (
    ts2[k].line == t.line && ts2[k].start <= t.start) by {
        if k < ts.len() {
            assert(ts2[k] == ts[k]);
        }
    }
}

proof fn lemma_advance(ts: Seq<TokenSpec>, l1: int, c1: int, l2: int, c2: int)
    requires
        all_before(ts, l1, c1),
        l1 < l2 || (l1 == l2 && c1 <= c2),
    ensures
        all_before(ts, l2, c2),
{
    assert forall|k: int| 0 <= k < ts.len() implies (#[trigger] ts[k]).line < l2 || (ts[k].line
        == l2 && ts[k].start <= c2) by {}
}

/// Every token's line, column and length fit in 32 bits.
pub open spec fn tokens_fit(ts: Seq<TokenSpec>) -> bool {
    forall|k: int|
        0 <= k < ts.len() ==> (#[trigger] ts[k]).line <= u32::MAX && ts[k].start <= u32::MAX && ts[k].length
            <= u32::MAX
}

/// UTF-16 code units in `s[0..i]`.
pub open spec fn utf16_prefix(s: Seq<char>, i: int) -> int
    decreases i,
{
    if i <= 0 {
        0
    } else {
        utf16_prefix(s, i - 1) + spec_len_utf16(s[i - 1])
    }
}

/// UTF-16 code units in the whole of `s`.
pub open spec fn utf16_total(s: Seq<char>) -> int {
    utf16_prefix(s, s.len() as int)
}

proof fn lemma_utf16_prefix_monotone(s: Seq<char>, a: int, b: int)
    requires
        0 <= a <= b <= s.len(),
    ensures
        0 <= utf16_prefix(s, a) <= utf16_prefix(s, b),
    decreases b,
{
    if a < b {
        lemma_utf16_prefix_monotone(s, a, b - 1);
    } else if a > 0 {
        lemma_utf16_prefix_monotone(s, a - 1, a - 1);
    }
}

proof fn lemma_comment_units(s: Seq<char>, j: int, len: int)
    requires
        0 <= j <= s.len(),
    ensures
        comment_scan(s, j, len).1 - len == utf16_prefix(s, comment_scan(s, j, len).0) - utf16_prefix(s, j),
    decreases s.len() - j,
{
    if j < s.len() && s[j] != '\n' {
        lemma_comment_units(s, j + 1, len + spec_len_utf16(s[j]));
    }
}

proof fn lemma_number_units(s: Seq<char>, j: int, len: int)
    requires
        0 <= j <= s.len(),
    ensures
        number_scan(s, j, len).1 - len == utf16_prefix(s, number_scan(s, j, len).0) - utf16_prefix(s, j),
    decreases s.len() - j,
{
    if j < s.len() && is_number_continue(s[j]) {
        lemma_number_units(s, j + 1, len + spec_len_utf16(s[j]));
    }
}

proof fn lemma_ident_units(s: Seq<char>, j: int, len: int)
    requires
        0 <= j <= s.len(),
    ensures
        ident_scan(s, j, len).1 - len == utf16_prefix(s, ident_scan(s, j, len).0) - utf16_prefix(s, j),
    decreases s.len() - j,
{
    if j < s.len() && spec_is_ident_continue(s[j]) {
        lemma_ident_units(s, j + 1, len + spec_len_utf16(s[j]));
    }
}

proof fn lemma_string_units(s: Seq<char>, j: int, line: int, col: int, len: int)
    requires
        0 <= j <= s.len(),
        0 <= line,
        0 <= col,
    ensures
        ({
            let (e, l2, c2, len2) = string_scan(s, j, line, col, len);
            &&& len2 - len == utf16_prefix(s, e) - utf16_prefix(s, j)
            &&& 0 <= l2
            &&& 0 <= c2
            &&& l2 + c2 <= line + col + (len2 - len)
        }),
    decreases s.len() - j,
{
    if j < s.len() {
        assert(utf16_prefix(s, j + 1) == utf16_prefix(s, j) + spec_len_utf16(s[j]));
        if s[j] == '\\' && j + 1 < s.len() {
            let w = 1 + spec_len_utf16(s[j + 1]);
            assert(utf16_prefix(s, j + 2) == utf16_prefix(s, j + 1) + spec_len_utf16(s[j + 1]));
            if s[j + 1] == '\n' {
                lemma_string_units(s, j + 2, line + 1, 0, len + w);
            } else {
                lemma_string_units(s, j + 2, line, col + w, len + w);
            }
        } else if s[j] == '\n' {
            lemma_string_units(s, j + 1, line + 1, 0, len + 1);
        } else if s[j] != '"' {
            lemma_string_units(s, j + 1, line, col + spec_len_utf16(s[j]), len + spec_len_utf16(s[j]));
        }
    }
}

/// A token's line, column and length are at least zero and add up to at
/// most `total`.
pub open spec fn units_within(t: TokenSpec, total: int) -> bool {
    &&& 0 <= t.line
    &&& 0 <= t.start
    &&& 0 <= t.length
    &&& t.line + t.start + t.length <= total
}

proof fn lemma_scan_units(s: Seq<char>, i: int, line: int, col: int, prev_func: bool)
    requires
        0 <= i <= s.len(),
        0 <= line,
        0 <= col,
        line + col <= utf16_prefix(s, i),
    ensures
        forall|k: int|
            0 <= k < scan_from(s, i, line, col, prev_func).len() ==> units_within(
                #[trigger] scan_from(s, i, line, col, prev_func)[k],
                utf16_total(s),
            ),
    decreases s.len() - i,
{
    if i < s.len() {
        let c = s[i];
        let r = scan_from(s, i, line, col, prev_func);
        assert(utf16_prefix(s, i + 1) == utf16_prefix(s, i) + spec_len_utf16(c));
        if i + 1 < s.len() {
            assert(utf16_prefix(s, i + 2) == utf16_prefix(s, i + 1) + spec_len_utf16(s[i + 1]));
        }
        if c == '\n' {
            lemma_scan_units(s, i + 1, line + 1, 0, prev_func);
            assert(r == scan_from(s, i + 1, line + 1, 0, prev_func));
        } else if c == ' ' || c == '\t' || c == '\r' {
            lemma_scan_units(s, i + 1, line, col + 1, prev_func);
            assert(r == scan_from(s, i + 1, line, col + 1, prev_func));
        } else if c == '/' && i + 1 < s.len() && s[i + 1] == '/' {
            let (e, len) = comment_scan(s, i + 2, 2);
            lemma_comment_scan(s, i + 2, 2);
            lemma_comment_units(s, i + 2, 2);
            lemma_utf16_prefix_monotone(s, e, s.len() as int);
            lemma_utf16_prefix_monotone(s, i, i + 2);
            lemma_utf16_prefix_monotone(s, i + 2, e);
            lemma_scan_units(s, e, line, col + len, prev_func);
            let rest = scan_from(s, e, line, col + len, prev_func);
            assert(r == seq![tok(line, col, len, TOKEN_COMMENT as int)] + rest);
            assert forall|k: int| 0 <= k < r.len() implies units_within(r[k], utf16_total(s)) by {
                if k > 0 {
                    assert(r[k] == rest[k - 1]);
                }
            }
        } else if c == '"' {
            let (e, l2, c2, len) = string_scan(s, i + 1, line, col + 1, 1);
            lemma_string_scan(s, i + 1, line, col + 1, 1);
            lemma_string_units(s, i + 1, line, col + 1, 1);
            lemma_utf16_prefix_monotone(s, e, s.len() as int);
            lemma_utf16_prefix_monotone(s, i + 1, e);
            lemma_scan_units(s, e, l2, c2, prev_func);
            let rest = scan_from(s, e, l2, c2, prev_func);
            assert(r == seq![tok(line, col, len, TOKEN_STRING as int)] + rest);
            assert forall|k: int| 0 <= k < r.len() implies units_within(r[k], utf16_total(s)) by {
                if k > 0 {
                    assert(r[k] == rest[k - 1]);
                }
            }
        } else if is_ascii_digit(c) {
            let (e, len) = number_scan(s, i + 1, spec_len_utf16(c) as int);
            lemma_number_scan(s, i + 1, spec_len_utf16(c) as int);
            lemma_number_units(s, i + 1, spec_len_utf16(c) as int);
            lemma_utf16_prefix_monotone(s, e, s.len() as int);
            lemma_utf16_prefix_monotone(s, i + 1, e);
            lemma_scan_units(s, e, line, col + len, prev_func);
            let rest = scan_from(s, e, line, col + len, prev_func);
            assert(r == seq![tok(line, col, len, TOKEN_NUMBER as int)] + rest);
            assert forall|k: int| 0 <= k < r.len() implies units_within(r[k], utf16_total(s)) by {
                if k > 0 {
                    assert(r[k] == rest[k - 1]);
                }
            }
        } else if spec_is_ident_start(c) {
            let (e, len) = ident_scan(s, i + 1, spec_len_utf16(c) as int);
            lemma_ident_scan(s, i + 1, spec_len_utf16(c) as int);
            lemma_ident_units(s, i + 1, spec_len_utf16(c) as int);
            lemma_utf16_prefix_monotone(s, e, s.len() as int);
            lemma_utf16_prefix_monotone(s, i + 1, e);
            let (kind, next_prev) = spec_classify(s.subrange(i, e), prev_func);
            lemma_scan_units(s, e, line, col + len, next_prev);
            let rest = scan_from(s, e, line, col + len, next_prev);
            assert(r == seq![tok(line, col, len, kind)] + rest);
            assert forall|k: int| 0 <= k < r.len() implies units_within(r[k], utf16_total(s)) by {
                if k > 0 {
                    assert(r[k] == rest[k - 1]);
                }
            }
        } else {
            lemma_scan_units(s, i + 1, line, col + spec_len_utf16(c), prev_func);
            assert(r == scan_from(s, i + 1, line, col + spec_len_utf16(c), prev_func));
        }
    }
}

/// A text of at most `u32::MAX` UTF-16 code units gives tokens whose line,
/// column and length all fit in 32 bits.
pub proof fn lemma_short_text_tokens_fit(s: Seq<char>)
    requires
        utf16_total(s) <= u32::MAX,
    ensures
        tokens_fit(spec_scan(s)),
{
    lemma_scan_units(s, 0, 0, 0, false);
}

/// The token that comes next in a scan fits when every token does.
proof fn lemma_next_token_fits(done: Seq<TokenSpec>, t: TokenSpec, rest: Seq<TokenSpec>, all: Seq<TokenSpec>)
    requires
        done + (seq![t] + rest) == all,
        tokens_fit(all),
    ensures
        t.line <= u32::MAX && t.start <= u32::MAX && t.length <= u32::MAX,
{
    assert(all[done.len() as int] == t);
}

/// Scan the raw source into tokens, in source order. Columns and lengths
/// count UTF-16 code units.
pub fn scan(source: &str) -> (tokens: Vec<RawToken>)
    requires
        5 * source@.len() + 2 <= usize::MAX,
        tokens_fit(spec_scan(source@)),
    ensures
        tokens@.len() == spec_scan(source@).len(),
        forall|k: int| 0 <= k < tokens@.len() ==> raw_view(#[trigger] tokens@[k]) == spec_scan(
            source@,
        )[k],
        tokens_ordered(spec_scan(source@)),
{
    let cs = chars_vec(source);
    let n = cs.len();
    let mut tokens: Vec<RawToken> = Vec::new();
    let ghost mut outv: Seq<TokenSpec> = Seq::empty();
    let mut line: usize = 0;
    let mut col: usize = 0;
    let mut i: usize = 0;
    let mut prev: bool = false;
    while i < n
        invariant
            cs@ == source@,
            n == cs@.len(),
            5 * n + 2 <= usize::MAX,
            tokens_fit(spec_scan(cs@)),
            i <= n,
            line <= i,
            col <= 2 * i,
            outv.len() == tokens@.len(),
            forall|k: int| 0 <= k < tokens@.len() ==> raw_view(#[trigger] tokens@[k]) == outv[k],
            outv + scan_from(cs@, i as int, line as int, col as int, prev) == spec_scan(cs@),
            tokens_ordered(outv),
            all_before(outv, line as int, col as int),
        decreases n - i,
    {
        let ghost s = cs@;
        let ghost old_outv = outv;
        let ghost old_line = line as int;
        let ghost old_col = col as int;
        let ghost old_i = i as int;
        let c = cs[i];
        if c == '\n' {
            line = line + 1;
            col = 0;
            i = i + 1;
            proof {
                lemma_advance(outv, old_line, old_col, line as int, col as int);
            }
        } else if c == ' ' || c == '\t' || c == '\r' {
            col = col + 1;
            i = i + 1;
            proof {
                lemma_advance(outv, old_line, old_col, line as int, col as int);
            }
        } else if c == '/' && i + 1 < n && cs[i + 1] == '/' {
            let start = col;
            let mut len: usize = 2;
            let mut j: usize = i + 2;
            while j < n && cs[j] != '\n'
                invariant
                    i + 2 <= j <= n,
                    n == s.len(),
                    s == cs@,
                    5 * n + 2 <= usize::MAX,
                    len <= 2 * (j - i),
                    comment_scan(s, j as int, len as int) == comment_scan(s, old_i + 2, 2),
                decreases n - j,
            {
                len = len + char_len_utf16(cs[j]) as usize;
                j = j + 1;
            }
            proof {
                lemma_next_token_fits(outv, tok(line as int, start as int, len as int, TOKEN_COMMENT as int), scan_from(s, j as int, old_line, old_col + len, prev), spec_scan(s));
            }
            let t = RawToken { line: line as u32, start_char: start as u32, length: len as u32, token_type: TOKEN_COMMENT };
            tokens.push(t);
            proof {
                lemma_push_token(outv, raw_view(t));
                outv = outv.push(raw_view(t));
                assert(old_outv.push(raw_view(t)) + scan_from(s, j as int, old_line, old_col + len, prev)
                    =~= old_outv + (seq![raw_view(t)] + scan_from(s, j as int, old_line, old_col + len, prev)));
            }
            col = col + len;
            i = j;
            proof {
                lemma_advance(outv, old_line, old_col, line as int, col as int);
            }
        } else if c == '"' {
            let start = col;
            let start_line = line;
            let mut len: usize = 1;
            col = col + 1;
            let mut j: usize = i + 1;
            let mut done = false;
            while j < n && !done
                invariant
                    i + 1 <= j <= n,
                    n == s.len(),
                    s == cs@,
                    5 * n + 2 <= usize::MAX,
                    len <= 2 * (j - i),
                    line <= j,
                    col <= 2 * j,
                    start_line < line || (start_line == line && start <= col),
                    !done ==> string_scan(s, j as int, line as int, col as int, len as int)
                        == string_scan(s, old_i + 1, start_line as int, start + 1, 1),
                    done ==> (j as int, line as int, col as int, len as int) == string_scan(
                        s,
                        old_i + 1,
                        start_line as int,
                        start + 1,
                        1,
                    ),
                decreases n - j,
            {
                let d = cs[j];
                if d == '\\' && j + 1 < n {
                    let nx = cs[j + 1];
                    let w = 1 + char_len_utf16(nx) as usize;
                    len = len + w;
                    col = col + w;
                    if nx == '\n' {
                        line = line + 1;
                        col = 0;
                    }
                    j = j + 2;
                } else if d == '\n' {
                    line = line + 1;
                    col = 0;
                    len = len + 1;
                    j = j + 1;
                } else {
                    let w = char_len_utf16(d) as usize;
                    len = len + w;
                    col = col + w;
                    j = j + 1;
                    if d == '"' {
                        done = true;
                    }
                }
            }
            proof {
                lemma_next_token_fits(outv, tok(start_line as int, start as int, len as int, TOKEN_STRING as int), scan_from(s, j as int, line as int, col as int, prev), spec_scan(s));
            }
            let t = RawToken {
                line: start_line as u32,
                start_char: start as u32,
                length: len as u32,
                token_type: TOKEN_STRING,
            };
            tokens.push(t);
            proof {
                lemma_push_token(outv, raw_view(t));
                outv = outv.push(raw_view(t));
                assert(old_outv.push(raw_view(t)) + scan_from(s, j as int, line as int, col as int, prev)
                    =~= old_outv + (seq![raw_view(t)] + scan_from(s, j as int, line as int, col as int, prev)));
                lemma_advance(outv, old_line, old_col, line as int, col as int);
            }
            i = j;
        } else if char_is_ascii_digit(c) {
            let start = col;
            let mut len: usize = char_len_utf16(c) as usize;
            let mut j: usize = i + 1;
            while j < n && (char_is_ascii_digit(cs[j]) || cs[j] == '.' || cs[j] == '_')
                invariant
                    i + 1 <= j <= n,
                    n == s.len(),
                    s == cs@,
                    5 * n + 2 <= usize::MAX,
                    len <= 2 * (j - i),
                    number_scan(s, j as int, len as int) == number_scan(
                        s,
                        old_i + 1,
                        spec_len_utf16(s[old_i]) as int,
                    ),
                decreases n - j,
            {
                len = len + char_len_utf16(cs[j]) as usize;
                j = j + 1;
            }
            proof {
                lemma_next_token_fits(outv, tok(line as int, start as int, len as int, TOKEN_NUMBER as int), scan_from(s, j as int, old_line, old_col + len, prev), spec_scan(s));
            }
            let t = RawToken { line: line as u32, start_char: start as u32, length: len as u32, token_type: TOKEN_NUMBER };
            tokens.push(t);
            proof {
                lemma_push_token(outv, raw_view(t));
                outv = outv.push(raw_view(t));
                assert(old_outv.push(raw_view(t)) + scan_from(s, j as int, old_line, old_col + len, prev)
                    =~= old_outv + (seq![raw_view(t)] + scan_from(s, j as int, old_line, old_col + len, prev)));
            }
            col = col + len;
            i = j;
            proof {
                lemma_advance(outv, old_line, old_col, line as int, col as int);
            }
        } else if is_ident_start(c) {
            let start = col;
            let mut len: usize = char_len_utf16(c) as usize;
            let mut j: usize = i + 1;
            while j < n && is_ident_continue(cs[j])
                invariant
                    i + 1 <= j <= n,
                    n == s.len(),
                    s == cs@,
                    5 * n + 2 <= usize::MAX,
                    len <= 2 * (j - i),
                    ident_scan(s, j as int, len as int) == ident_scan(
                        s,
                        old_i + 1,
                        spec_len_utf16(s[old_i]) as int,
                    ),
                decreases n - j,
            {
                len = len + char_len_utf16(cs[j]) as usize;
                j = j + 1;
            }
            let word = string_from_range(cs.as_slice(), i, j);
            let ghost old_prev = prev;
            let kind = if is_keyword(word.as_str()) {
                if text_eq(word.as_str(), "函数") || text_eq(word.as_str(), "异步函数") {
                    prev = true;
                }
                TOKEN_KEYWORD
            } else if is_builtin_type(word.as_str()) {
                TOKEN_TYPE
            } else if prev {
                prev = false;
                TOKEN_FUNCTION
            } else {
                TOKEN_VARIABLE
            };
            assert(spec_classify(s.subrange(old_i, j as int), old_prev) == (kind as int, prev));
            proof {
                lemma_next_token_fits(outv, tok(line as int, start as int, len as int, kind as int), scan_from(s, j as int, old_line, old_col + len, prev), spec_scan(s));
            }
            let t = RawToken { line: line as u32, start_char: start as u32, length: len as u32, token_type: kind };
            tokens.push(t);
            proof {
                lemma_push_token(outv, raw_view(t));
                outv = outv.push(raw_view(t));
                assert(old_outv.push(raw_view(t)) + scan_from(s, j as int, old_line, old_col + len, prev)
                    =~= old_outv + (seq![raw_view(t)] + scan_from(s, j as int, old_line, old_col + len, prev)));
            }
            col = col + len;
            i = j;
            proof {
                lemma_advance(outv, old_line, old_col, line as int, col as int);
            }
        } else {
            col = col + char_len_utf16(c) as usize;
            i = i + 1;
            proof {
                lemma_advance(outv, old_line, old_col, line as int, col as int);
            }
        }
    }
    proof {
        assert(outv + scan_from(cs@, i as int, line as int, col as int, prev) =~= outv);
    }
    tokens
}


/// The numbers of a delta-encoded token: (delta line, delta start, length, type).
pub open spec fn delta_view(t: SemanticToken) -> (int, int, int, int) {
    (t.delta_line as int, t.delta_start as int, t.length as int, t.token_type as int)
}

/// The delta encoding of the `k`-th raw token: lines since the previous
/// token; the column relative to the previous token's when on the same
/// line, absolute otherwise. The first token is taken relative to (0, 0).
pub open spec fn encode_at(raw: Seq<TokenSpec>, k: int) -> (int, int, int, int) {
    let prev_line = if k == 0 { 0 } else { raw[k - 1].line };
    let prev_start = if k == 0 { 0 } else { raw[k - 1].start };
    let dl = raw[k].line - prev_line;
    (dl, if dl == 0 { raw[k].start - prev_start } else { raw[k].start }, raw[k].length, raw[k].kind)
}

/// The delta encoding of a token sequence.
pub open spec fn spec_encode(raw: Seq<TokenSpec>) -> Seq<(int, int, int, int)> {
    Seq::new(raw.len(), |k: int| encode_at(raw, k))
}

/// Decoding from index `k`, the previous token being at (`pl`, `ps`).
pub open spec fn decode_from(enc: Seq<(int, int, int, int)>, k: int, pl: int, ps: int) -> Seq<
    TokenSpec,
>
    decreases enc.len() - k,
{
    if k < 0 || k >= enc.len() {
        Seq::empty()
    } else {
        let l = pl + enc[k].0;
        let st = if enc[k].0 == 0 { ps + enc[k].1 } else { enc[k].1 };
        seq![tok(l, st, enc[k].2, enc[k].3)] + decode_from(enc, k + 1, l, st)
    }
}

/// Absolute tokens from their delta encoding.
pub open spec fn spec_decode(enc: Seq<(int, int, int, int)>) -> Seq<TokenSpec> {
    decode_from(enc, 0, 0, 0)
}

proof fn lemma_decode_suffix(raw: Seq<TokenSpec>, k: int)
    requires
        0 <= k <= raw.len(),
    ensures
        decode_from(
            spec_encode(raw),
            k,
            if k == 0 { 0 } else { raw[k - 1].line },
            if k == 0 { 0 } else { raw[k - 1].start },
        ) =~= raw.subrange(k, raw.len() as int),
    decreases raw.len() - k,
{
    if k < raw.len() {
        lemma_decode_suffix(raw, k + 1);
        let e = spec_encode(raw);
        assert(e[k] == encode_at(raw, k));
        assert(raw.subrange(k, raw.len() as int) =~= seq![raw[k]] + raw.subrange(
            k + 1,
            raw.len() as int,
        ));
    }
}

/// Decoding the delta encoding of any token sequence gives it back: the
/// encoding loses nothing.
pub proof fn lemma_decode_encode(raw: Seq<TokenSpec>)
    ensures
        spec_decode(spec_encode(raw)) == raw,
{
    lemma_decode_suffix(raw, 0);
    assert(raw.subrange(0, raw.len() as int) =~= raw);
}

/// Compute delta-encoded semantic tokens for the document.
pub fn compute_tokens(source: &str) -> (out: Vec<SemanticToken>)
    requires
        5 * source@.len() + 2 <= usize::MAX,
        tokens_fit(spec_scan(source@)),
    ensures
        out@.len() == spec_scan(source@).len(),
        forall|k: int|
            0 <= k < out@.len() ==> delta_view(#[trigger] out@[k]) == encode_at(
                spec_scan(source@),
                k,
            ) && out@[k].token_modifiers_bitset == 0,
{
    let raw = scan(source);
    let ghost rs = spec_scan(source@);
    let mut out: Vec<SemanticToken> = Vec::with_capacity(raw.len());
    let mut prev_line: u32 = 0;
    let mut prev_start: u32 = 0;
    let mut k: usize = 0;
    while k < raw.len()
        invariant
            raw@.len() == rs.len(),
            forall|m: int| 0 <= m < raw@.len() ==> raw_view(#[trigger] raw@[m]) == rs[m],
            tokens_ordered(rs),
            k <= raw@.len(),
            out@.len() == k,
            forall|m: int|
                0 <= m < k ==> delta_view(#[trigger] out@[m]) == encode_at(rs, m)
                    && out@[m].token_modifiers_bitset == 0,
            k == 0 ==> prev_line == 0 && prev_start == 0,
            k > 0 ==> prev_line == rs[k - 1].line && prev_start == rs[k - 1].start,
        decreases raw.len() - k,
    {
        let t = raw[k];
        proof {
            assert(raw_view(raw@[k as int]) == rs[k as int]);
            if k > 0 {
                assert(raw_view(raw@[k - 1]) == rs[k - 1]);
                assert(token_le(rs[k - 1], rs[k as int]));
            }
        }
        let delta_line = t.line - prev_line;
        let delta_start = if delta_line == 0 {
            t.start_char - prev_start
        } else {
            t.start_char
        };
        out.push(
            SemanticToken {
                delta_line,
                delta_start,
                length: t.length,
                token_type: t.token_type,
                token_modifiers_bitset: 0,
            },
        );
        prev_line = t.line;
        prev_start = t.start_char;
        k = k + 1;
    }
    out
}

/// Decoding what `compute_tokens` returns gives back exactly the scanned tokens.
pub proof fn lemma_compute_tokens_decode(source: &str, out: Seq<SemanticToken>)
    requires
        out.len() == spec_scan(source@).len(),
        forall|k: int|
            0 <= k < out.len() ==> delta_view(#[trigger] out[k]) == encode_at(
                spec_scan(source@),
                k,
            ),
    ensures
        spec_decode(out.map_values(|t: SemanticToken| delta_view(t))) == spec_scan(source@),
{
    let enc = out.map_values(|t: SemanticToken| delta_view(t));
    assert(enc =~= spec_encode(spec_scan(source@)));
    lemma_decode_encode(spec_scan(source@));
}
/// Every documented language keyword is highlighted as a keyword: a word
/// that hover documents as a keyword (not as a built-in type, and not the
/// built-in `打印`) is classified `TOKEN_KEYWORD`, whatever came before.
pub proof fn law_documented_keywords_highlighted(w: Seq<char>, prev_func: bool)
    requires
        spec_keyword_doc(w) is Some,
        spec_type_doc(w) is None,
        w != "打印"@,
    ensures
        spec_classify(w, prev_func).0 == TOKEN_KEYWORD,
{
}

/// Every reserved word of the language (the words a rename refuses to
/// touch) is highlighted as a keyword or a built-in type, except the
/// reserved words the highlighter does not know.
pub proof fn law_reserved_words_highlighted(w: Seq<char>, prev_func: bool)
    requires
        spec_is_qi_keyword(w),
        !seq![
            "导出"@,
            "可变"@,
            "不可变"@,
            "方法"@,
            "跳出"@,
            "继续"@,
            "接口"@,
            "实现"@,
            "使用"@,
            "无"@,
        ].contains(w),
    ensures
        spec_classify(w, prev_func).0 == TOKEN_KEYWORD || spec_classify(w, prev_func).0 == TOKEN_TYPE,
{
    let ex = seq![
        "导出"@,
        "可变"@,
        "不可变"@,
        "方法"@,
        "跳出"@,
        "继续"@,
        "接口"@,
        "实现"@,
        "使用"@,
        "无"@,
    ];
    assert(ex[0] == "导出"@ && ex[1] == "可变"@ && ex[2] == "不可变"@ && ex[3] == "方法"@ && ex[4] == "跳出"@);
    assert(ex[5] == "继续"@ && ex[6] == "接口"@ && ex[7] == "实现"@ && ex[8] == "使用"@ && ex[9] == "无"@);
}

/// Every type that hover documents is highlighted as a built-in type or a
/// keyword, never as a plain name.
pub proof fn law_documented_types_highlighted(w: Seq<char>, prev_func: bool)
    requires
        spec_type_doc(w) is Some,
    ensures
        spec_classify(w, prev_func).0 == TOKEN_TYPE || spec_classify(w, prev_func).0 == TOKEN_KEYWORD,
{
}

/// The name after `函数` or `异步函数` is highlighted as a function: those
/// keywords mark the next plain word, which is then a function and clears
/// the mark; without the mark a plain word is a variable.
pub proof fn law_function_keyword_marks_next_name(kw: Seq<char>, w: Seq<char>, prev_func: bool)
    requires
        kw == "函数"@ || kw == "异步函数"@,
        !spec_is_keyword(w),
        !spec_is_builtin_type(w),
    ensures
        spec_classify(kw, prev_func) == (TOKEN_KEYWORD as int, true),
        spec_classify(w, spec_classify(kw, prev_func).1) == (TOKEN_FUNCTION as int, false),
        spec_classify(w, false) == (TOKEN_VARIABLE as int, false),
{
}

/// Every word highlighted as a keyword, other than the declaration words
/// `变量`, `常量` and `类型`, is a reserved word that a rename refuses.
pub proof fn law_highlighted_keywords_reserved(w: Seq<char>)
    requires
        spec_is_keyword(w),
        w != "变量"@,
        w != "常量"@,
        w != "类型"@,
    ensures
        spec_is_qi_keyword(w),
{
}

proof fn lemma_ident_scan_end(s: Seq<char>, j: int, e: int, len: int)
    requires
        0 <= j <= e <= s.len(),
        forall|k: int| j <= k < e ==> spec_is_ident_continue(#[trigger] s[k]),
        e == s.len() || !spec_is_ident_continue(s[e]),
    ensures
        ident_scan(s, j, len).0 == e,
    decreases e - j,
{
    if j < e {
        lemma_ident_scan_end(s, j + 1, e, len + spec_len_utf16(s[j]));
    }
}

/// A text that starts with a word is highlighted from that word: the
/// first token stands on line 0 at column 0, is as long as the word in
/// UTF-16 units, and has the kind the word's classification gives (a
/// keyword such as `如果` as a keyword).
pub proof fn law_first_word_token(w: Seq<char>, rest: Seq<char>)
    requires
        w.len() > 0,
        spec_is_ident_start(w[0]),
        !is_ascii_digit(w[0]),
        w[0] != '\n' && w[0] != ' ' && w[0] != '\t' && w[0] != '\r' && w[0] != '/' && w[0] != '"',
        forall|k: int| 0 <= k < w.len() ==> spec_is_ident_continue(#[trigger] w[k]),
        rest.len() == 0 || !spec_is_ident_continue(rest[0]),
    ensures
        spec_scan(w + rest).len() > 0,
        spec_scan(w + rest)[0] == tok(0, 0, utf16_total(w), spec_classify(w, false).0),
{
    let s = w + rest;
    let e = w.len() as int;
    assert forall|k: int| 1 <= k < e implies spec_is_ident_continue(#[trigger] s[k]) by {
        assert(s[k] == w[k]);
    }
    if rest.len() > 0 {
        assert(s[e] == rest[0]);
    }
    lemma_ident_scan_end(s, 1, e, spec_len_utf16(s[0]) as int);
    lemma_ident_units(s, 1, spec_len_utf16(s[0]) as int);
    assert(utf16_prefix(s, 0) == 0);
    assert(utf16_prefix(s, 1) == spec_len_utf16(s[0]));
    assert forall|i: int| 0 <= i < e implies s[i] == w[i] by {}
    assert(s.subrange(0, e) =~= w);
    lemma_utf16_prefix_same(s, w, e);
    let (kind, next) = spec_classify(w, false);
    let r = scan_from(s, 0, 0, 0, false);
    assert(r == seq![tok(0, 0, utf16_total(w), kind)] + scan_from(s, e, 0, utf16_total(w), next));
}

proof fn lemma_utf16_prefix_same(s: Seq<char>, w: Seq<char>, k: int)
    requires
        0 <= k <= w.len(),
        k <= s.len(),
        forall|i: int| 0 <= i < k ==> s[i] == w[i],
    ensures
        utf16_prefix(s, k) == utf16_prefix(w, k),
    decreases k,
{
    if k > 0 {
        lemma_utf16_prefix_same(s, w, k - 1);
    }
}

} // verus!
