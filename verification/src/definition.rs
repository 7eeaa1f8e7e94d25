//! Go to definition and find references over the syntax tree, and the
//! conversion of byte spans to line/character ranges.

use vstd::prelude::*;
use crate::ast::{decl_span, declares_directly, AstNode, EnumVariant, ImportStatement, MethodDeclaration, Program, Span, StructField};
use crate::document::{DocumentManager, text_fits, uri_fits};
use crate::packages::{
    normalize_uri_to_path, normalize_windows_uri_to_path, path_parent, path_to_uri,
    resolve_module_path, spec_module_candidates, spec_normalize_uri_to_path,
    spec_normalize_windows_uri, spec_path_parent, spec_path_to_uri, spec_windows_path_to_uri,
    string_views, windows_path_to_uri, PackageSearch,
};
use crate::position::{Position, Range};
use crate::strings::{chars_vec, text_eq};
use crate::word::{
    get_method_call_info, get_word_at_position,
    spec_doc_method_call, spec_doc_word,
};
use crate::unicode::{char_len_utf16, char_len_utf8, spec_len_utf16, spec_len_utf8};
use crate::word::{lemma_utf8_offset_bounds, utf8_len, utf8_offset};

verus! {

/// A place in a document: its URI and a range.
#[derive(Debug, Clone, PartialEq, Eq)]
pub struct Location {
    /// Document URI (one that parses as a URI).
    pub uri: String,
    /// Range within the document.
    pub range: Range,
}

/// Name for whether a string parses as a URI (`lsp_types::Uri`).
pub uninterp spec fn spec_uri_parses(s: Seq<char>) -> bool;

/// Calls `str::parse::<lsp_types::Uri>`. Claims: whether it succeeds,
/// which depends on the string alone. The parser panics on more than
/// `i32::MAX` bytes, which the length bound rules out.
#[verifier::external_body]
pub(crate) fn uri_parses(s: &str) -> (r: bool)
    requires
        uri_fits(s@),
    ensures
        r == spec_uri_parses(s@),
{
    s.parse::<lsp_types::Uri>().is_ok()
}

/// UTF-8 byte lengths of the lines of `s[i..]` as `str::lines` yields them
/// (pieces ended by `\n`, a `\r` right before that `\n` dropped, no empty
/// piece after a final `\n`), given the current piece so far: `cur` bytes,
/// whether its last character is `\r`, whether it has any character.
pub open spec fn line_byte_lens_from(s: Seq<char>, i: int, cur: int, prev_cr: bool, nonempty: bool) -> Seq<
    int,
>
    decreases s.len() - i,
{
    if i < 0 || i >= s.len() {
        if nonempty {
            seq![cur]
        } else {
            Seq::empty()
        }
    } else if s[i] == '\n' {
        seq![cur - (if prev_cr { 1int } else { 0int })] + line_byte_lens_from(s, i + 1, 0, false, false)
    } else {
        line_byte_lens_from(s, i + 1, cur + spec_len_utf8(s[i]), s[i] == '\r', true)
    }
}

/// UTF-8 byte lengths of the lines of `s` as `str::lines` yields them.
pub open spec fn line_byte_lens(s: Seq<char>) -> Seq<int> {
    line_byte_lens_from(s, 0, 0, false, false)
}

/// A line's text without the `\r` that ends it, if one does.
pub open spec fn strip_cr(line: Seq<char>) -> Seq<char> {
    if line.len() > 0 && line.last() == '\r' {
        line.drop_last()
    } else {
        line
    }
}

/// The lines of `s[i..]` as `str::lines` yields them, given the characters
/// of the current line so far.
pub open spec fn lines_from(s: Seq<char>, i: int, cur: Seq<char>) -> Seq<Seq<char>>
    decreases s.len() - i,
{
    if i < 0 || i >= s.len() {
        if cur.len() > 0 {
            seq![cur]
        } else {
            Seq::empty()
        }
    } else if s[i] == '\n' {
        seq![strip_cr(cur)] + lines_from(s, i + 1, Seq::empty())
    } else {
        lines_from(s, i + 1, cur.push(s[i]))
    }
}

/// The lines of `s` as `str::lines` yields them.
pub open spec fn spec_lines(s: Seq<char>) -> Seq<Seq<char>> {
    lines_from(s, 0, Seq::empty())
}

/// The UTF-16 column of byte column `b` on a line: the UTF-16 units of the
/// characters that start before byte `b`, from character `j` on, and one
/// unit for each byte past the line's text.
pub open spec fn utf16_col_from(line: Seq<char>, j: int, b: int) -> int
    decreases line.len() - j,
{
    if b <= 0 {
        0
    } else if j < 0 || j >= line.len() {
        b
    } else {
        spec_len_utf16(line[j]) + utf16_col_from(line, j + 1, b - spec_len_utf8(line[j]))
    }
}

/// The UTF-16 column of byte column `b` on a line.
pub open spec fn utf16_col(line: Seq<char>, b: int) -> int {
    utf16_col_from(line, 0, b)
}

proof fn lemma_utf8_offset_push(cs: Seq<char>, c: char, k: int)
    requires
        0 <= k <= cs.len(),
    ensures
        utf8_offset(cs.push(c), k) == utf8_offset(cs, k),
    decreases k,
{
    if k > 0 {
        lemma_utf8_offset_push(cs, c, k - 1);
    }
}

proof fn lemma_utf8_len_push(cs: Seq<char>, c: char)
    ensures
        utf8_len(cs.push(c)) == utf8_len(cs) + spec_len_utf8(c),
{
    lemma_utf8_offset_push(cs, c, cs.len() as int);
}

/// Each line's byte length is the one `line_byte_lens` gives, and no line
/// is longer than the text.
proof fn lemma_lines_lens(s: Seq<char>, i: int, cur: Seq<char>)
    requires
        0 <= i <= s.len(),
        cur.len() <= i,
    ensures
        lines_from(s, i, cur).len() == line_byte_lens_from(
            s,
            i,
            utf8_len(cur),
            cur.len() > 0 && cur.last() == '\r',
            cur.len() > 0,
        ).len(),
        forall|k: int|
            0 <= k < lines_from(s, i, cur).len() ==> utf8_len(#[trigger] lines_from(s, i, cur)[k])
                == line_byte_lens_from(
                s,
                i,
                utf8_len(cur),
                cur.len() > 0 && cur.last() == '\r',
                cur.len() > 0,
            )[k] && lines_from(s, i, cur)[k].len() <= s.len(),
    decreases s.len() - i,
{
    let cr = cur.len() > 0 && cur.last() == '\r';
    let l = lines_from(s, i, cur);
    let b = line_byte_lens_from(s, i, utf8_len(cur), cr, cur.len() > 0);
    if i < s.len() {
        if s[i] == '\n' {
            lemma_lines_lens(s, i + 1, Seq::empty());
            let head = strip_cr(cur);
            if cr {
                assert(cur =~= cur.drop_last().push(cur.last()));
                lemma_utf8_len_push(cur.drop_last(), cur.last());
            }
            assert(utf8_len(Seq::<char>::empty()) == 0);
            assert(utf8_len(head) == utf8_len(cur) - (if cr { 1int } else { 0int }));
            let lt = lines_from(s, i + 1, Seq::empty());
            let bt = line_byte_lens_from(s, i + 1, 0, false, false);
            assert(l == seq![head] + lt);
            assert(b == seq![utf8_len(cur) - (if cr { 1int } else { 0int })] + bt);
            assert forall|k: int| 0 <= k < l.len() implies utf8_len(#[trigger] l[k]) == b[k] && l[k].len()
                <= s.len() by {
                if k > 0 {
                    assert(l[k] == lt[k - 1]);
                    assert(b[k] == bt[k - 1]);
                }
            }
        } else {
            lemma_lines_lens(s, i + 1, cur.push(s[i]));
            lemma_utf8_len_push(cur, s[i]);
        }
    } else {
        if cur.len() > 0 {
            assert(l == seq![cur]);
        }
    }
}

/// The line scan of a span: walking the lines with `offset` the byte where
/// line `k` starts and each line taken to end one byte past its text, the
/// span's start is placed on the line whose `[start, end)` holds it, and the
/// walk stops at the first line whose `[start, end]` holds the span's end.
/// The result is (start line, start column, end line, end column) in bytes.
pub open spec fn span_scan(lens: Seq<int>, k: int, offset: int, sp: Span, acc: (int, int, int, int)) -> (
    int,
    int,
    int,
    int,
)
    decreases lens.len() - k,
{
    if k < 0 || k >= lens.len() {
        acc
    } else {
        let line_start = offset;
        let line_end = offset + lens[k] + 1;
        let acc1 = if sp.start >= line_start && sp.start < line_end {
            (k, sp.start - line_start, acc.2, acc.3)
        } else {
            acc
        };
        if sp.end >= line_start && sp.end <= line_end {
            (acc1.0, acc1.1, k, sp.end - line_start)
        } else {
            span_scan(lens, k + 1, line_end, sp, acc1)
        }
    }
}

/// The range of a span in a text, reading the span's offsets as bytes and
/// giving columns in UTF-16 units; `None` when the text has no lines.
pub open spec fn spec_span_range(s: Seq<char>, sp: Span) -> Option<Range> {
    let lens = line_byte_lens(s);
    if lens.len() == 0 {
        None
    } else {
        let r = span_scan(lens, 0, 0, sp, (0, 0, 0, 0));
        let lines = spec_lines(s);
        Some(
            Range {
                start: Position { line: r.0 as u32, character: utf16_col(lines[r.0], r.1) as u32 },
                end: Position { line: r.2 as u32, character: utf16_col(lines[r.2], r.3) as u32 },
            },
        )
    }
}

proof fn lemma_line_byte_lens_from(s: Seq<char>, i: int, cur: int, prev_cr: bool, nonempty: bool)
    requires
        0 <= i <= s.len(),
        0 <= cur <= 4 * i,
        prev_cr ==> cur >= 1,
    ensures
        forall|k: int|
            0 <= k < line_byte_lens_from(s, i, cur, prev_cr, nonempty).len() ==> 0
                <= #[trigger] line_byte_lens_from(s, i, cur, prev_cr, nonempty)[k] <= 4 * s.len(),
        line_byte_lens_from(s, i, cur, prev_cr, nonempty).len() <= s.len() - i + 1,
    decreases s.len() - i,
{
    if i < s.len() {
        if s[i] == '\n' {
            lemma_line_byte_lens_from(s, i + 1, 0, false, false);
        } else {
            lemma_line_byte_lens_from(s, i + 1, cur + spec_len_utf8(s[i]), s[i] == '\r', true);
        }
    }
}

/// Sum of a sequence of integers.
pub open spec fn seq_sum(s: Seq<int>) -> int
    decreases s.len(),
{
    if s.len() == 0 {
        0
    } else {
        s[0] + seq_sum(s.drop_first())
    }
}

proof fn lemma_seq_sum_push(s: Seq<int>, x: int)
    ensures
        seq_sum(s.push(x)) == seq_sum(s) + x,
    decreases s.len(),
{
    let t = s.push(x);
    if s.len() > 0 {
        lemma_seq_sum_push(s.drop_first(), x);
        assert(t.drop_first() =~= s.drop_first().push(x));
        assert(t[0] == s[0]);
        assert(seq_sum(t) == t[0] + seq_sum(t.drop_first()));
        assert(seq_sum(s) == s[0] + seq_sum(s.drop_first()));
    } else {
        assert(t.drop_first() =~= Seq::<int>::empty());
        assert(seq_sum(Seq::<int>::empty()) == 0);
        assert(seq_sum(t) == t[0] + seq_sum(t.drop_first()));
    }
}

proof fn lemma_seq_sum_prefix(s: Seq<int>, k: int)
    requires
        0 <= k < s.len(),
        forall|m: int| 0 <= m < s.len() ==> 0 <= #[trigger] s[m],
    ensures
        seq_sum(s.take(k + 1)) == seq_sum(s.take(k)) + s[k],
        seq_sum(s.take(k + 1)) <= seq_sum(s),
    decreases s.len() - k,
{
    assert(s.take(k + 1) =~= s.take(k).push(s[k]));
    lemma_seq_sum_push(s.take(k), s[k]);
    if k + 1 < s.len() {
        lemma_seq_sum_prefix(s, k + 1);
    } else {
        assert(s.take(k + 1) =~= s);
    }
}

proof fn lemma_line_lens_sum(s: Seq<char>, i: int, cur: int, prev_cr: bool, nonempty: bool)
    requires
        0 <= i <= s.len(),
        0 <= cur,
        prev_cr ==> cur >= 1,
    ensures
        seq_sum(line_byte_lens_from(s, i, cur, prev_cr, nonempty)) <= cur + 4 * (s.len() - i),
    decreases s.len() - i,
{
    let r = line_byte_lens_from(s, i, cur, prev_cr, nonempty);
    if i < s.len() {
        if s[i] == '\n' {
            lemma_line_lens_sum(s, i + 1, 0, false, false);
            let x = cur - (if prev_cr { 1int } else { 0int });
            let rest = line_byte_lens_from(s, i + 1, 0, false, false);
            assert(r == seq![x] + rest);
            assert((seq![x] + rest).drop_first() =~= rest);
            assert((seq![x] + rest)[0] == x);
            assert(seq_sum(seq![x] + rest) == (seq![x] + rest)[0] + seq_sum((seq![x] + rest).drop_first()));
        } else {
            lemma_line_lens_sum(s, i + 1, cur + spec_len_utf8(s[i]), s[i] == '\r', true);
        }
    } else if nonempty {
        assert(r == seq![cur]);
        assert(r.drop_first() =~= Seq::<int>::empty());
        assert(seq_sum(Seq::<int>::empty()) == 0);
        assert(seq_sum(r) == r[0] + seq_sum(r.drop_first()));
    }
}

/// Byte length of each line of `cs`, as `str::lines` yields them.
fn line_byte_lengths(cs: &[char]) -> (r: Vec<usize>)
    requires
        5 * cs@.len() + 2 <= usize::MAX,
    ensures
        r@.len() == line_byte_lens(cs@).len(),
        forall|k: int| 0 <= k < r@.len() ==> r@[k] as int == #[trigger] line_byte_lens(cs@)[k],
{
    let mut out: Vec<usize> = Vec::new();
    let ghost mut outv: Seq<int> = Seq::empty();
    let mut cur: usize = 0;
    let mut prev_cr = false;
    let mut nonempty = false;
    let mut i: usize = 0;
    proof {
        lemma_line_byte_lens_from(cs@, 0, 0, false, false);
    }
    while i < cs.len()
        invariant
            5 * cs@.len() + 2 <= usize::MAX,
            i <= cs@.len(),
            cur <= 4 * i,
            prev_cr ==> cur >= 1,
            out@.len() == outv.len(),
            forall|k: int| 0 <= k < out@.len() ==> out@[k] as int == #[trigger] outv[k],
            outv + line_byte_lens_from(cs@, i as int, cur as int, prev_cr, nonempty) == line_byte_lens(
                cs@,
            ),
        decreases cs.len() - i,
    {
        let c = cs[i];
        if c == '\n' {
            let len = if prev_cr {
                cur - 1
            } else {
                cur
            };
            out.push(len);
            proof {
                assert(outv.push(len as int) + line_byte_lens_from(cs@, i + 1, 0, false, false) =~= outv
                    + (seq![len as int] + line_byte_lens_from(cs@, i + 1, 0, false, false)));
                outv = outv.push(len as int);
            }
            cur = 0;
            prev_cr = false;
            nonempty = false;
        } else {
            cur = cur + char_len_utf8(c) as usize;
            prev_cr = c == '\r';
            nonempty = true;
        }
        i = i + 1;
    }
    if nonempty {
        out.push(cur);
        proof {
            assert(outv.push(cur as int) =~= outv + seq![cur as int]);
            outv = outv.push(cur as int);
        }
    } else {
        assert(outv + Seq::<int>::empty() =~= outv);
    }
    out
}

/// The lines of `cs`, as `str::lines` yields them.
fn line_texts(cs: &[char]) -> (r: Vec<Vec<char>>)
    ensures
        r@.len() == spec_lines(cs@).len(),
        forall|k: int| 0 <= k < r@.len() ==> (#[trigger] r@[k])@ == spec_lines(cs@)[k],
{
    let mut out: Vec<Vec<char>> = Vec::new();
    let ghost mut outv: Seq<Seq<char>> = Seq::empty();
    let mut cur: Vec<char> = Vec::new();
    let mut i: usize = 0;
    while i < cs.len()
        invariant
            i <= cs@.len(),
            out@.len() == outv.len(),
            forall|k: int| 0 <= k < out@.len() ==> (#[trigger] out@[k])@ == outv[k],
            outv + lines_from(cs@, i as int, cur@) == spec_lines(cs@),
        decreases cs.len() - i,
    {
        let c = cs[i];
        if c == '\n' {
            let ghost before = cur@;
            if cur.len() > 0 && cur[cur.len() - 1] == '\r' {
                cur.pop();
            }
            assert(cur@ == strip_cr(before));
            let line = cur;
            out.push(line);
            cur = Vec::new();
            proof {
                assert(outv.push(strip_cr(before)) + lines_from(cs@, i + 1, Seq::empty()) =~= outv + (
                seq![strip_cr(before)] + lines_from(cs@, i + 1, Seq::empty())));
                outv = outv.push(strip_cr(before));
            }
            assert(cur@ =~= Seq::<char>::empty());
        } else {
            cur.push(c);
        }
        i = i + 1;
    }
    if cur.len() > 0 {
        proof {
            assert(outv.push(cur@) =~= outv + seq![cur@]);
            outv = outv.push(cur@);
        }
        out.push(cur);
    } else {
        assert(outv + Seq::<Seq<char>>::empty() =~= outv);
    }
    out
}

/// The UTF-16 column of byte column `b` on a line.
fn utf16_column(line: &Vec<char>, b: usize) -> (r: usize)
    requires
        4 * line@.len() <= usize::MAX,
    ensures
        r == utf16_col(line@, b as int),
{
    let mut j: usize = 0;
    let mut bytes: usize = 0;
    let mut units: usize = 0;
    while j < line.len() && bytes < b
        invariant
            j <= line@.len(),
            4 * line@.len() <= usize::MAX,
            bytes == utf8_offset(line@, j as int),
            units <= bytes,
            utf16_col(line@, b as int) == units + utf16_col_from(line@, j as int, b - bytes),
        decreases line.len() - j,
    {
        proof {
            lemma_utf8_offset_bounds(line@, j + 1);
        }
        let c = line[j];
        units = units + char_len_utf16(c) as usize;
        bytes = bytes + char_len_utf8(c) as usize;
        j = j + 1;
    }
    if bytes < b {
        units + (b - bytes)
    } else {
        units
    }
}

/// The range of a span within `text`, reading the span's offsets as bytes
/// and giving columns in UTF-16 units; `None` when the text has no lines.
pub fn span_to_range_in(span: Span, text: &str) -> (r: Option<Range>)
    requires
        text_fits(text@),
    ensures
        r == spec_span_range(text@, span),
{
    let cs = chars_vec(text);
    let lens = line_byte_lengths(cs.as_slice());
    if lens.len() == 0 {
        return None;
    }
    proof {
        lemma_line_byte_lens_from(cs@, 0, 0, false, false);
        lemma_line_lens_sum(cs@, 0, 0, false, false);
    }
    let mut byte_offset: usize = 0;
    let mut start_line: usize = 0;
    let mut start_char: usize = 0;
    let mut end_line: usize = 0;
    let mut end_char: usize = 0;
    let mut k: usize = 0;
    let ghost full = line_byte_lens(cs@);
    let mut stopped = false;
    while k < lens.len() && !stopped
        invariant
            text_fits(cs@),
            full == line_byte_lens(cs@),
            lens@.len() == full.len(),
            full.len() <= cs@.len() + 1,
            forall|m: int| 0 <= m < lens@.len() ==> lens@[m] as int == #[trigger] full[m],
            forall|m: int| 0 <= m < full.len() ==> 0 <= #[trigger] full[m] <= 4 * cs@.len(),
            k <= lens@.len(),
            seq_sum(full) <= 4 * cs@.len(),
            !stopped ==> byte_offset == seq_sum(full.take(k as int)) + k,
            k <= cs@.len() + 1,
            start_line < lens@.len(),
            end_line < lens@.len(),
            start_char <= 4 * cs@.len() + 1,
            end_char <= 4 * cs@.len() + 1,
            !stopped ==> span_scan(
                full,
                k as int,
                byte_offset as int,
                span,
                (start_line as int, start_char as int, end_line as int, end_char as int),
            ) == span_scan(full, 0, 0, span, (0, 0, 0, 0)),
            stopped ==> (start_line as int, start_char as int, end_line as int, end_char as int)
                == span_scan(full, 0, 0, span, (0, 0, 0, 0)),
        decreases lens.len() - k,
    {
        let line_start = byte_offset;
        assert(lens@[k as int] as int == full[k as int]);
        proof {
            lemma_seq_sum_prefix(full, k as int);
        }
        let line_end = byte_offset + lens[k] + 1;
        if span.start >= line_start && span.start < line_end {
            start_line = k;
            start_char = span.start - line_start;
        }
        if span.end >= line_start && span.end <= line_end {
            end_line = k;
            end_char = span.end - line_start;
            stopped = true;
        } else {
            byte_offset = line_end;
        }
        k = k + 1;
    }
    proof {
        if !stopped {
            assert(span_scan(full, k as int, byte_offset as int, span, (start_line as int, start_char as int, end_line as int, end_char as int))
                == (start_line as int, start_char as int, end_line as int, end_char as int));
        }
    }
    let lines = line_texts(cs.as_slice());
    proof {
        lemma_lines_lens(cs@, 0, Seq::empty());
        assert(utf8_len(Seq::<char>::empty()) == 0);
        assert(lines@[start_line as int]@ == spec_lines(cs@)[start_line as int]);
        assert(lines@[end_line as int]@ == spec_lines(cs@)[end_line as int]);
    }
    let start_col = utf16_column(&lines[start_line], start_char);
    let end_col = utf16_column(&lines[end_line], end_char);
    Some(
        Range {
            start: Position { line: start_line as u32, character: start_col as u32 },
            end: Position { line: end_line as u32, character: end_col as u32 },
        },
    )
}


/// Whether spans of the document at `uri` can be placed: the URI parses,
/// the document is open, and its text has at least one line.
pub open spec fn spec_locatable(dm: DocumentManager, uri: Seq<char>) -> bool {
    &&& spec_uri_parses(uri)
    &&& dm.view().contains_key(uri)
    &&& line_byte_lens(dm.view()[uri].text).len() > 0
}

/// The location of a span in the document at `uri`, when it can be placed.
pub open spec fn spec_span_location(dm: DocumentManager, uri: Seq<char>, sp: Span) -> Option<Range> {
    if spec_uri_parses(uri) && dm.view().contains_key(uri) {
        spec_span_range(dm.view()[uri].text, sp)
    } else {
        None
    }
}

/// Convert a span to a range within the document at `uri`.
pub fn span_to_range(span: Span, uri: &str, document_manager: &DocumentManager) -> (r: Option<Range>)
    requires
        document_manager.wf(),
    ensures
        r == (if document_manager.view().contains_key(uri@) {
            spec_span_range(document_manager.view()[uri@].text, span)
        } else {
            None
        }),
{
    let content = match document_manager.get_document_content(uri) {
        Some(c) => c,
        None => {
            return None;
        },
    };
    span_to_range_in(span, content.as_str())
}

/// Convert a span to a location in the document at `uri`.
pub fn span_to_location(span: Span, uri: &str, document_manager: &DocumentManager) -> (r: Option<Location>)
    requires
        document_manager.wf(),
        uri_fits(uri@),
    ensures
        match spec_span_location(*document_manager, uri@, span) {
            Some(range) => r matches Some(loc) && loc.uri@ == uri@ && loc.range == range,
            None => r is None,
        },
        r is Some <==> spec_locatable(*document_manager, uri@),
{
    if !uri_parses(uri) {
        return None;
    }
    let range = match span_to_range(span, uri, document_manager) {
        Some(r) => r,
        None => {
            return None;
        },
    };
    Some(Location { uri: String::from_str(uri), range })
}

/// Span of the first field named `sym` from index `i` on.
pub open spec fn def_in_fields(sym: Seq<char>, fs: Seq<StructField>, i: int) -> Option<Span>
    decreases fs.len() - i,
{
    if 0 <= i < fs.len() {
        if fs[i].name@ == sym {
            Some(fs[i].span)
        } else {
            def_in_fields(sym, fs, i + 1)
        }
    } else {
        None
    }
}

/// Span of the first variant named `sym` from index `i` on.
pub open spec fn def_in_variants(sym: Seq<char>, vs: Seq<EnumVariant>, i: int) -> Option<Span>
    decreases vs.len() - i,
{
    if 0 <= i < vs.len() {
        if vs[i].name@ == sym {
            Some(vs[i].span)
        } else {
            def_in_variants(sym, vs, i + 1)
        }
    } else {
        None
    }
}

/// The span of the definition of `sym` found in a statement: a declaration
/// of that name (or a struct field / enum variant of that name), looking
/// into blocks, branches, loop bodies and address-of / dereference
/// expressions, first match first.
pub open spec fn def_in_node(sym: Seq<char>, n: AstNode) -> Option<Span>
    decreases n, 0int,
{
    match n {
        AstNode::FunctionDecl(f) => if f.name@ == sym {
            Some(f.span)
        } else {
            None
        },
        AstNode::VariableDecl(v) => if v.name@ == sym {
            Some(v.span)
        } else {
            None
        },
        AstNode::StructDecl(sd) => if sd.name@ == sym {
            Some(sd.span)
        } else {
            def_in_fields(sym, sd.fields@, 0)
        },
        AstNode::EnumDecl(e) => if e.name@ == sym {
            Some(e.span)
        } else {
            def_in_variants(sym, e.variants@, 0)
        },
        AstNode::MethodDecl(m) => if m.method_name@ == sym {
            Some(m.span)
        } else {
            None
        },
        AstNode::Block { statements } => def_in_seq(sym, statements@, 0),
        AstNode::If { condition, then_branch, else_branch } => match def_in_seq(
            sym,
            then_branch@,
            0,
        ) {
            Some(x) => Some(x),
            None => match else_branch {
                Some(b) => def_in_node(sym, *b),
                None => None,
            },
        },
        AstNode::While { condition, body } => def_in_seq(sym, body@, 0),
        AstNode::For { variable, range, body, span } => def_in_seq(sym, body@, 0),
        AstNode::Loop { body } => def_in_seq(sym, body@, 0),
        AstNode::AddressOf { expression } => def_in_node(sym, *expression),
        AstNode::Dereference { expression } => def_in_node(sym, *expression),
        _ => None,
    }
}

/// The first definition of `sym` among statements `ns[i..]`.
pub open spec fn def_in_seq(sym: Seq<char>, ns: Seq<AstNode>, i: int) -> Option<Span>
    decreases ns, ns.len() - i,
{
    if 0 <= i < ns.len() {
        match def_in_node(sym, ns[i]) {
            Some(x) => Some(x),
            None => def_in_seq(sym, ns, i + 1),
        }
    } else {
        None
    }
}

/// `r` is the location found for an optional definition span: the span's
/// location when there is a span and spans can be placed, none otherwise.
pub open spec fn loc_result(dm: DocumentManager, uri: Seq<char>, found: Option<Span>, r: Option<Location>) -> bool {
    match found {
        Some(sp) => if spec_locatable(dm, uri) {
            r matches Some(loc) && loc.uri@ == uri && Some(loc.range) == spec_span_range(
                dm.view()[uri].text,
                sp,
            )
        } else {
            r is None
        },
        None => r is None,
    }
}

fn search_fields(symbol: &str, uri: &str, fields: &Vec<StructField>, document_manager: &DocumentManager) -> (r: Option<Location>)
    requires
        document_manager.wf(),
        uri_fits(uri@),
    ensures
        loc_result(*document_manager, uri@, def_in_fields(symbol@, fields@, 0), r),
{
    let mut i: usize = 0;
    while i < fields.len()
        invariant
            document_manager.wf(),
            uri_fits(uri@),
            i <= fields@.len(),
            def_in_fields(symbol@, fields@, i as int) == def_in_fields(symbol@, fields@, 0),
        decreases fields.len() - i,
    {
        if text_eq(fields[i].name.as_str(), symbol) {
            return span_to_location(fields[i].span, uri, document_manager);
        }
        i = i + 1;
    }
    None
}

fn search_variants(symbol: &str, uri: &str, variants: &Vec<EnumVariant>, document_manager: &DocumentManager) -> (r: Option<Location>)
    requires
        document_manager.wf(),
        uri_fits(uri@),
    ensures
        loc_result(*document_manager, uri@, def_in_variants(symbol@, variants@, 0), r),
{
    let mut i: usize = 0;
    while i < variants.len()
        invariant
            document_manager.wf(),
            uri_fits(uri@),
            i <= variants@.len(),
            def_in_variants(symbol@, variants@, i as int) == def_in_variants(symbol@, variants@, 0),
        decreases variants.len() - i,
    {
        if text_eq(variants[i].name.as_str(), symbol) {
            return span_to_location(variants[i].span, uri, document_manager);
        }
        i = i + 1;
    }
    None
}

fn search_statements(symbol: &str, uri: &str, statements: &Vec<AstNode>, document_manager: &DocumentManager) -> (r: Option<Location>)
    requires
        document_manager.wf(),
        uri_fits(uri@),
    ensures
        loc_result(*document_manager, uri@, def_in_seq(symbol@, statements@, 0), r),
    decreases statements, 1int,
{
    let mut i: usize = 0;
    while i < statements.len()
        invariant
            document_manager.wf(),
            uri_fits(uri@),
            i <= statements@.len(),
            spec_locatable(*document_manager, uri@) ==> def_in_seq(symbol@, statements@, i as int)
                == def_in_seq(symbol@, statements@, 0),
        decreases statements.len() - i,
    {
        assert(decreases_to!(statements => statements@[i as int]));
        match search_statement_for_definition(symbol, uri, &statements[i], document_manager) {
            Some(location) => {
                return Some(location);
            },
            None => {},
        }
        i = i + 1;
    }
    None
}

/// Search a statement for a symbol definition.
pub fn search_statement_for_definition(symbol: &str, uri: &str, statement: &AstNode, document_manager: &DocumentManager) -> (r: Option<Location>)
    requires
        document_manager.wf(),
        uri_fits(uri@),
    ensures
        loc_result(*document_manager, uri@, def_in_node(symbol@, *statement), r),
    decreases statement, 0int,
{
    match statement {
        AstNode::FunctionDecl(f) => {
            if text_eq(f.name.as_str(), symbol) {
                return span_to_location(f.span, uri, document_manager);
            }
        },
        AstNode::VariableDecl(v) => {
            if text_eq(v.name.as_str(), symbol) {
                return span_to_location(v.span, uri, document_manager);
            }
        },
        AstNode::StructDecl(sd) => {
            if text_eq(sd.name.as_str(), symbol) {
                return span_to_location(sd.span, uri, document_manager);
            }
            return search_fields(symbol, uri, &sd.fields, document_manager);
        },
        AstNode::EnumDecl(e) => {
            if text_eq(e.name.as_str(), symbol) {
                return span_to_location(e.span, uri, document_manager);
            }
            return search_variants(symbol, uri, &e.variants, document_manager);
        },
        AstNode::MethodDecl(m) => {
            if text_eq(m.method_name.as_str(), symbol) {
                return span_to_location(m.span, uri, document_manager);
            }
        },
        AstNode::Block { statements } => {
            return search_statements(symbol, uri, statements, document_manager);
        },
        AstNode::If { condition, then_branch, else_branch } => {
            match search_statements(symbol, uri, then_branch, document_manager) {
                Some(location) => {
                    return Some(location);
                },
                None => {},
            }
            match else_branch {
                Some(b) => {
                    match search_statement_for_definition(symbol, uri, b, document_manager) {
                        Some(location) => {
                            return Some(location);
                        },
                        None => {},
                    }
                },
                None => {},
            }
        },
        AstNode::While { condition, body } => {
            return search_statements(symbol, uri, body, document_manager);
        },
        AstNode::For { variable, range, body, span } => {
            return search_statements(symbol, uri, body, document_manager);
        },
        AstNode::Loop { body } => {
            return search_statements(symbol, uri, body, document_manager);
        },
        AstNode::AddressOf { expression } => {
            return search_statement_for_definition(symbol, uri, expression, document_manager);
        },
        AstNode::Dereference { expression } => {
            return search_statement_for_definition(symbol, uri, expression, document_manager);
        },
        _ => {},
    }
    None
}

/// Which constructs a reference search looks into besides the common ones.
#[derive(Debug, Clone, Copy, PartialEq, Eq, Structural)]
pub struct ReferenceWalk {
    /// Field accesses: the field name counts, and the object is searched.
    pub field_access: bool,
    /// Array indexing: the array and the index are searched.
    pub array_access: bool,
    /// Address-of and dereference: the operand is searched.
    pub address_ops: bool,
}

/// Spans of the uses of `sym` in a node, in the order the search meets
/// them: identifiers, called function names, called method names (and
/// field names when `w.field_access`), looking through expressions,
/// statements, function and method bodies and a struct's methods.
pub open spec fn refs_in_node(sym: Seq<char>, w: ReferenceWalk, n: AstNode) -> Seq<Span>
    decreases n, 0int,
{
    match n {
        AstNode::Program(p) => refs_in_seq(sym, w, p.statements@, 0),
        AstNode::Identifier { name, span } => if name@ == sym {
            seq![span]
        } else {
            Seq::empty()
        },
        AstNode::FunctionCall { callee, arguments, span } => (if callee@ == sym {
            seq![span]
        } else {
            Seq::empty()
        }) + refs_in_seq(sym, w, arguments@, 0),
        AstNode::MethodCall { object, method_name, arguments, span } => (if method_name@ == sym {
            seq![span]
        } else {
            Seq::empty()
        }) + refs_in_node(sym, w, *object) + refs_in_seq(sym, w, arguments@, 0),
        AstNode::FieldAccess { object, field, span } => if w.field_access {
            (if field@ == sym {
                seq![span]
            } else {
                Seq::empty()
            }) + refs_in_node(sym, w, *object)
        } else {
            Seq::empty()
        },
        AstNode::Assignment { target, value } => refs_in_node(sym, w, *target) + refs_in_node(
            sym,
            w,
            *value,
        ),
        AstNode::Binary { left, right } => refs_in_node(sym, w, *left) + refs_in_node(
            sym,
            w,
            *right,
        ),
        AstNode::ArrayAccess { array, index } => if w.array_access {
            refs_in_node(sym, w, *array) + refs_in_node(sym, w, *index)
        } else {
            Seq::empty()
        },
        AstNode::ExpressionStmt { expression } => refs_in_node(sym, w, *expression),
        AstNode::Return { value } => match value {
            Some(v) => refs_in_node(sym, w, *v),
            None => Seq::empty(),
        },
        AstNode::Block { statements } => refs_in_seq(sym, w, statements@, 0),
        AstNode::If { condition, then_branch, else_branch } => refs_in_node(sym, w, *condition)
            + refs_in_seq(sym, w, then_branch@, 0) + match else_branch {
            Some(b) => refs_in_node(sym, w, *b),
            None => Seq::empty(),
        },
        AstNode::While { condition, body } => refs_in_node(sym, w, *condition) + refs_in_seq(
            sym,
            w,
            body@,
            0,
        ),
        AstNode::For { variable, range, body, span } => refs_in_node(sym, w, *range) + refs_in_seq(
            sym,
            w,
            body@,
            0,
        ),
        AstNode::Loop { body } => refs_in_seq(sym, w, body@, 0),
        AstNode::FunctionDecl(f) => refs_in_seq(sym, w, f.body@, 0),
        AstNode::MethodDecl(m) => refs_in_seq(sym, w, m.body@, 0),
        AstNode::StructDecl(sd) => refs_in_methods(sym, w, sd.methods@, 0),
        AstNode::Await { expression } => refs_in_node(sym, w, *expression),
        AstNode::StringConcat { left, right } => refs_in_node(sym, w, *left) + refs_in_node(
            sym,
            w,
            *right,
        ),
        AstNode::StructLiteral { field_values } => refs_in_seq(sym, w, field_values@, 0),
        AstNode::ArrayLiteral { elements } => refs_in_seq(sym, w, elements@, 0),
        AstNode::AddressOf { expression } => if w.address_ops {
            refs_in_node(sym, w, *expression)
        } else {
            Seq::empty()
        },
        AstNode::Dereference { expression } => if w.address_ops {
            refs_in_node(sym, w, *expression)
        } else {
            Seq::empty()
        },
        _ => Seq::empty(),
    }
}

/// Spans of the uses of `sym` in nodes `ns[i..]`, in order.
pub open spec fn refs_in_seq(sym: Seq<char>, w: ReferenceWalk, ns: Seq<AstNode>, i: int) -> Seq<Span>
    decreases ns, ns.len() - i,
{
    if 0 <= i < ns.len() {
        refs_in_node(sym, w, ns[i]) + refs_in_seq(sym, w, ns, i + 1)
    } else {
        Seq::empty()
    }
}

/// Spans of the uses of `sym` in the bodies of methods `ms[i..]`, in order.
pub open spec fn refs_in_methods(sym: Seq<char>, w: ReferenceWalk, ms: Seq<MethodDeclaration>, i: int) -> Seq<Span>
    decreases ms, ms.len() - i,
{
    if 0 <= i < ms.len() {
        refs_in_seq(sym, w, ms[i].body@, 0) + refs_in_methods(sym, w, ms, i + 1)
    } else {
        Seq::empty()
    }
}

/// `locs` are the locations of `spans` in the document at `uri`: one per
/// span, in order, when spans can be placed there; none otherwise.
pub open spec fn locs_match(dm: DocumentManager, uri: Seq<char>, spans: Seq<Span>, locs: Seq<Location>) -> bool {
    if spec_locatable(dm, uri) {
        &&& locs.len() == spans.len()
        &&& forall|k: int|
            0 <= k < locs.len() ==> (#[trigger] locs[k]).uri@ == uri && Some(locs[k].range)
                == spec_span_range(dm.view()[uri].text, spans[k])
    } else {
        locs.len() == 0
    }
}

/// `new` extends `old` with the locations of `spans`.
pub open spec fn appended_locs(dm: DocumentManager, uri: Seq<char>, spans: Seq<Span>, old: Seq<Location>, new: Seq<Location>) -> bool {
    &&& new.len() >= old.len()
    &&& new.subrange(0, old.len() as int) == old
    &&& locs_match(dm, uri, spans, new.subrange(old.len() as int, new.len() as int))
}

proof fn lemma_appended_empty(dm: DocumentManager, uri: Seq<char>, old: Seq<Location>)
    ensures
        appended_locs(dm, uri, Seq::empty(), old, old),
{
    assert(old.subrange(0, old.len() as int) =~= old);
    assert(old.subrange(old.len() as int, old.len() as int) =~= Seq::<Location>::empty());
}

proof fn lemma_appended_chain(
    dm: DocumentManager,
    uri: Seq<char>,
    s1: Seq<Span>,
    s2: Seq<Span>,
    a: Seq<Location>,
    b: Seq<Location>,
    c: Seq<Location>,
)
    requires
        appended_locs(dm, uri, s1, a, b),
        appended_locs(dm, uri, s2, b, c),
    ensures
        appended_locs(dm, uri, s1 + s2, a, c),
{
    assert(c.subrange(0, a.len() as int) =~= b.subrange(0, a.len() as int));
    let l1 = b.subrange(a.len() as int, b.len() as int);
    let l2 = c.subrange(b.len() as int, c.len() as int);
    assert(c.subrange(a.len() as int, c.len() as int) =~= l1 + l2);
    if spec_locatable(dm, uri) {
        let l = l1 + l2;
        let sp = s1 + s2;
        assert forall|k: int| 0 <= k < l.len() implies (#[trigger] l[k]).uri@ == uri && Some(l[k].range)
            == spec_span_range(dm.view()[uri].text, sp[k]) by {
            if k < l1.len() {
                assert(l[k] == l1[k] && sp[k] == s1[k]);
            } else {
                assert(l[k] == l2[k - l1.len()] && sp[k] == s2[k - s1.len()]);
            }
        }
    }
}

fn push_reference(refs: &mut Vec<Location>, span: Span, uri: &str, document_manager: &DocumentManager)
    requires
        document_manager.wf(),
        uri_fits(uri@),
    ensures
        appended_locs(*document_manager, uri@, seq![span], old(refs)@, final(refs)@),
{
    let ghost before = refs@;
    match span_to_location(span, uri, document_manager) {
        Some(location) => {
            refs.push(location);
            assert(refs@.subrange(0, before.len() as int) =~= before);
            assert(refs@.subrange(before.len() as int, refs@.len() as int) =~= seq![location]);
        },
        None => {
            proof {
                lemma_appended_empty(*document_manager, uri@, before);
            }
        },
    }
}

fn refs_statements(
    symbol: &str,
    uri: &str,
    walk: ReferenceWalk,
    nodes: &Vec<AstNode>,
    refs: &mut Vec<Location>,
    document_manager: &DocumentManager,
)
    requires
        document_manager.wf(),
        uri_fits(uri@),
    ensures
        appended_locs(*document_manager, uri@, refs_in_seq(symbol@, walk, nodes@, 0), old(refs)@, final(refs)@),
    decreases nodes, 1int,
{
    let ghost before = refs@;
    let mut i: usize = 0;
    proof {
        lemma_appended_empty(*document_manager, uri@, before);
    }
    while i < nodes.len()
        invariant
            document_manager.wf(),
            uri_fits(uri@),
            i <= nodes@.len(),
            appended_locs(
                *document_manager,
                uri@,
                refs_in_seq(symbol@, walk, nodes@, 0).subrange(
                    0,
                    refs_in_seq(symbol@, walk, nodes@, 0).len() - refs_in_seq(symbol@, walk, nodes@, i as int).len(),
                ),
                before,
                refs@,
            ),
            refs_in_seq(symbol@, walk, nodes@, 0) == refs_in_seq(symbol@, walk, nodes@, 0).subrange(
                0,
                refs_in_seq(symbol@, walk, nodes@, 0).len() - refs_in_seq(symbol@, walk, nodes@, i as int).len(),
            ) + refs_in_seq(symbol@, walk, nodes@, i as int),
        decreases nodes.len() - i,
    {
        assert(decreases_to!(nodes => nodes@[i as int]));
        let ghost mid = refs@;
        let ghost full = refs_in_seq(symbol@, walk, nodes@, 0);
        let ghost done_part = full.subrange(0, full.len() - refs_in_seq(symbol@, walk, nodes@, i as int).len());
        find_references_in_ast_with(symbol, uri, walk, &nodes[i], refs, document_manager);
        proof {
            let here = refs_in_node(symbol@, walk, nodes@[i as int]);
            let rest = refs_in_seq(symbol@, walk, nodes@, i + 1);
            assert(refs_in_seq(symbol@, walk, nodes@, i as int) == here + rest);
            lemma_appended_chain(*document_manager, uri@, done_part, here, before, mid, refs@);
            assert(full.subrange(0, full.len() - rest.len()) =~= done_part + here);
            assert(full =~= (done_part + here) + rest);
        }
        i = i + 1;
    }
    proof {
        let full = refs_in_seq(symbol@, walk, nodes@, 0);
        assert(full.subrange(0, full.len() - 0) =~= full);
    }
}

fn refs_methods(
    symbol: &str,
    uri: &str,
    walk: ReferenceWalk,
    methods: &Vec<MethodDeclaration>,
    refs: &mut Vec<Location>,
    document_manager: &DocumentManager,
)
    requires
        document_manager.wf(),
        uri_fits(uri@),
    ensures
        appended_locs(*document_manager, uri@, refs_in_methods(symbol@, walk, methods@, 0), old(refs)@, final(refs)@),
    decreases methods, 1int,
{
    let ghost before = refs@;
    let mut i: usize = 0;
    proof {
        lemma_appended_empty(*document_manager, uri@, before);
    }
    while i < methods.len()
        invariant
            document_manager.wf(),
            uri_fits(uri@),
            i <= methods@.len(),
            appended_locs(
                *document_manager,
                uri@,
                refs_in_methods(symbol@, walk, methods@, 0).subrange(
                    0,
                    refs_in_methods(symbol@, walk, methods@, 0).len() - refs_in_methods(symbol@, walk, methods@, i as int).len(),
                ),
                before,
                refs@,
            ),
            refs_in_methods(symbol@, walk, methods@, 0) == refs_in_methods(symbol@, walk, methods@, 0).subrange(
                0,
                refs_in_methods(symbol@, walk, methods@, 0).len() - refs_in_methods(symbol@, walk, methods@, i as int).len(),
            ) + refs_in_methods(symbol@, walk, methods@, i as int),
        decreases methods.len() - i,
    {
        assert(decreases_to!(methods => methods@[i as int]));
        let ghost mid = refs@;
        let ghost full = refs_in_methods(symbol@, walk, methods@, 0);
        let ghost done_part = full.subrange(0, full.len() - refs_in_methods(symbol@, walk, methods@, i as int).len());
        refs_statements(symbol, uri, walk, &methods[i].body, refs, document_manager);
        proof {
            let here = refs_in_seq(symbol@, walk, methods@[i as int].body@, 0);
            let rest = refs_in_methods(symbol@, walk, methods@, i + 1);
            lemma_appended_chain(*document_manager, uri@, done_part, here, before, mid, refs@);
            assert(full.subrange(0, full.len() - rest.len()) =~= done_part + here);
            assert(full =~= (done_part + here) + rest);
        }
        i = i + 1;
    }
    proof {
        let full = refs_in_methods(symbol@, walk, methods@, 0);
        assert(full.subrange(0, full.len() - 0) =~= full);
    }
}

fn refs_optional(
    symbol: &str,
    uri: &str,
    walk: ReferenceWalk,
    node: &Option<Box<AstNode>>,
    refs: &mut Vec<Location>,
    document_manager: &DocumentManager,
)
    requires
        document_manager.wf(),
        uri_fits(uri@),
    ensures
        appended_locs(
            *document_manager,
            uri@,
            match *node {
                Some(b) => refs_in_node(symbol@, walk, *b),
                None => Seq::empty(),
            },
            old(refs)@,
            final(refs)@,
        ),
    decreases node, 1int,
{
    match node {
        Some(b) => {
            assert(decreases_to!(node => **b));
            find_references_in_ast_with(symbol, uri, walk, b, refs, document_manager);
        },
        None => {
            proof {
                lemma_appended_empty(*document_manager, uri@, refs@);
            }
        },
    }
}

fn refs_name(symbol: &str, uri: &str, name: &String, span: Span, refs: &mut Vec<Location>, document_manager: &DocumentManager)
    requires
        document_manager.wf(),
        uri_fits(uri@),
    ensures
        appended_locs(
            *document_manager,
            uri@,
            if name@ == symbol@ { seq![span] } else { Seq::empty() },
            old(refs)@,
            final(refs)@,
        ),
{
    if text_eq(name.as_str(), symbol) {
        push_reference(refs, span, uri, document_manager);
    } else {
        proof {
            lemma_appended_empty(*document_manager, uri@, refs@);
        }
    }
}

/// Collect, in search order, the locations of the uses of `symbol` in a
/// node of the document at `uri`.
pub fn find_references_in_ast_with(
    symbol: &str,
    uri: &str,
    walk: ReferenceWalk,
    node: &AstNode,
    references: &mut Vec<Location>,
    document_manager: &DocumentManager,
)
    requires
        document_manager.wf(),
        uri_fits(uri@),
    ensures
        appended_locs(*document_manager, uri@, refs_in_node(symbol@, walk, *node), old(references)@, final(references)@),
    decreases node, 0int,
{
    let ghost dm = *document_manager;
    let ghost sym = symbol@;
    let ghost a = references@;
    match node {
        AstNode::Program(p) => {
            refs_statements(symbol, uri, walk, &p.statements, references, document_manager);
        },
        AstNode::Identifier { name, span } => {
            refs_name(symbol, uri, name, *span, references, document_manager);
        },
        AstNode::FunctionCall { callee, arguments, span } => {
            refs_name(symbol, uri, callee, *span, references, document_manager);
            let ghost b = references@;
            refs_statements(symbol, uri, walk, arguments, references, document_manager);
            proof {
                lemma_appended_chain(dm, uri@, if callee@ == sym { seq![*span] } else { Seq::empty() },
                    refs_in_seq(sym, walk, arguments@, 0), a, b, references@);
            }
        },
        AstNode::MethodCall { object, method_name, arguments, span } => {
            refs_name(symbol, uri, method_name, *span, references, document_manager);
            let ghost b = references@;
            find_references_in_ast_with(symbol, uri, walk, object, references, document_manager);
            let ghost c = references@;
            refs_statements(symbol, uri, walk, arguments, references, document_manager);
            proof {
                let s1 = if method_name@ == sym { seq![*span] } else { Seq::empty() };
                let s2 = refs_in_node(sym, walk, **object);
                lemma_appended_chain(dm, uri@, s1, s2, a, b, c);
                lemma_appended_chain(dm, uri@, s1 + s2, refs_in_seq(sym, walk, arguments@, 0), a, c, references@);
            }
        },
        AstNode::FieldAccess { object, field, span } => {
            if walk.field_access {
                refs_name(symbol, uri, field, *span, references, document_manager);
                let ghost b = references@;
                find_references_in_ast_with(symbol, uri, walk, object, references, document_manager);
                proof {
                    lemma_appended_chain(dm, uri@, if field@ == sym { seq![*span] } else { Seq::empty() },
                        refs_in_node(sym, walk, **object), a, b, references@);
                }
            } else {
                proof {
                    lemma_appended_empty(dm, uri@, a);
                }
            }
        },
        AstNode::Assignment { target, value } => {
            find_references_in_ast_with(symbol, uri, walk, target, references, document_manager);
            let ghost b = references@;
            find_references_in_ast_with(symbol, uri, walk, value, references, document_manager);
            proof {
                lemma_appended_chain(dm, uri@, refs_in_node(sym, walk, **target), refs_in_node(sym, walk, **value), a, b, references@);
            }
        },
        AstNode::Binary { left, right } => {
            find_references_in_ast_with(symbol, uri, walk, left, references, document_manager);
            let ghost b = references@;
            find_references_in_ast_with(symbol, uri, walk, right, references, document_manager);
            proof {
                lemma_appended_chain(dm, uri@, refs_in_node(sym, walk, **left), refs_in_node(sym, walk, **right), a, b, references@);
            }
        },
        AstNode::ArrayAccess { array, index } => {
            if walk.array_access {
                find_references_in_ast_with(symbol, uri, walk, array, references, document_manager);
                let ghost b = references@;
                find_references_in_ast_with(symbol, uri, walk, index, references, document_manager);
                proof {
                    lemma_appended_chain(dm, uri@, refs_in_node(sym, walk, **array), refs_in_node(sym, walk, **index), a, b, references@);
                }
            } else {
                proof {
                    lemma_appended_empty(dm, uri@, a);
                }
            }
        },
        AstNode::ExpressionStmt { expression } => {
            find_references_in_ast_with(symbol, uri, walk, expression, references, document_manager);
        },
        AstNode::Return { value } => {
            refs_optional(symbol, uri, walk, value, references, document_manager);
        },
        AstNode::Block { statements } => {
            refs_statements(symbol, uri, walk, statements, references, document_manager);
        },
        AstNode::If { condition, then_branch, else_branch } => {
            find_references_in_ast_with(symbol, uri, walk, condition, references, document_manager);
            let ghost b = references@;
            refs_statements(symbol, uri, walk, then_branch, references, document_manager);
            let ghost c = references@;
            refs_optional(symbol, uri, walk, else_branch, references, document_manager);
            proof {
                let s1 = refs_in_node(sym, walk, **condition);
                let s2 = refs_in_seq(sym, walk, then_branch@, 0);
                let s3 = match else_branch {
                    Some(e) => refs_in_node(sym, walk, **e),
                    None => Seq::empty(),
                };
                lemma_appended_chain(dm, uri@, s1, s2, a, b, c);
                lemma_appended_chain(dm, uri@, s1 + s2, s3, a, c, references@);
            }
        },
        AstNode::While { condition, body } => {
            find_references_in_ast_with(symbol, uri, walk, condition, references, document_manager);
            let ghost b = references@;
            refs_statements(symbol, uri, walk, body, references, document_manager);
            proof {
                lemma_appended_chain(dm, uri@, refs_in_node(sym, walk, **condition), refs_in_seq(sym, walk, body@, 0), a, b, references@);
            }
        },
        AstNode::For { variable, range, body, span } => {
            find_references_in_ast_with(symbol, uri, walk, range, references, document_manager);
            let ghost b = references@;
            refs_statements(symbol, uri, walk, body, references, document_manager);
            proof {
                lemma_appended_chain(dm, uri@, refs_in_node(sym, walk, **range), refs_in_seq(sym, walk, body@, 0), a, b, references@);
            }
        },
        AstNode::Loop { body } => {
            refs_statements(symbol, uri, walk, body, references, document_manager);
        },
        AstNode::FunctionDecl(f) => {
            refs_statements(symbol, uri, walk, &f.body, references, document_manager);
        },
        AstNode::MethodDecl(m) => {
            refs_statements(symbol, uri, walk, &m.body, references, document_manager);
        },
        AstNode::StructDecl(sd) => {
            refs_methods(symbol, uri, walk, &sd.methods, references, document_manager);
        },
        AstNode::Await { expression } => {
            find_references_in_ast_with(symbol, uri, walk, expression, references, document_manager);
        },
        AstNode::StringConcat { left, right } => {
            find_references_in_ast_with(symbol, uri, walk, left, references, document_manager);
            let ghost b = references@;
            find_references_in_ast_with(symbol, uri, walk, right, references, document_manager);
            proof {
                lemma_appended_chain(dm, uri@, refs_in_node(sym, walk, **left), refs_in_node(sym, walk, **right), a, b, references@);
            }
        },
        AstNode::StructLiteral { field_values } => {
            refs_statements(symbol, uri, walk, field_values, references, document_manager);
        },
        AstNode::ArrayLiteral { elements } => {
            refs_statements(symbol, uri, walk, elements, references, document_manager);
        },
        AstNode::AddressOf { expression } => {
            if walk.address_ops {
                find_references_in_ast_with(symbol, uri, walk, expression, references, document_manager);
            } else {
                proof {
                    lemma_appended_empty(dm, uri@, a);
                }
            }
        },
        AstNode::Dereference { expression } => {
            if walk.address_ops {
                find_references_in_ast_with(symbol, uri, walk, expression, references, document_manager);
            } else {
                proof {
                    lemma_appended_empty(dm, uri@, a);
                }
            }
        },
        _ => {
            proof {
                lemma_appended_empty(dm, uri@, a);
            }
        },
    }
}


impl View for Location {
    type V = (Seq<char>, Range);

    /// The URI's text and the range.
    open spec fn view(&self) -> (Seq<char>, Range) {
        (self.uri@, self.range)
    }
}

/// The view of an optional location.
pub open spec fn opt_loc(r: Option<Location>) -> Option<(Seq<char>, Range)> {
    match r {
        Some(l) => Some(l@),
        None => None,
    }
}

/// The views of a sequence of locations.
pub open spec fn locs_view(s: Seq<Location>) -> Seq<(Seq<char>, Range)> {
    s.map_values(|l: Location| l@)
}

/// The empty range at the start of a file.
pub open spec fn file_start() -> Range {
    Range { start: Position { line: 0, character: 0 }, end: Position { line: 0, character: 0 } }
}

/// The location of an optional definition span in the document at `uri`.
pub open spec fn def_loc(dm: DocumentManager, uri: Seq<char>, found: Option<Span>) -> Option<(Seq<char>, Range)> {
    match found {
        Some(sp) => if spec_locatable(dm, uri) {
            Some((uri, spec_span_range(dm.view()[uri].text, sp)->0))
        } else {
            None
        },
        None => None,
    }
}

proof fn lemma_loc_result(dm: DocumentManager, uri: Seq<char>, found: Option<Span>, r: Option<Location>)
    requires
        loc_result(dm, uri, found, r),
    ensures
        opt_loc(r) == def_loc(dm, uri, found),
{
}

/// Every candidate file is short enough that its URI can be parsed.
pub open spec fn search_fits(search: PackageSearch) -> bool {
    forall|i: int|
        0 <= i < search.existing_files@.len() ==> #[trigger] search.existing_files@[i]@.len() + 8
            <= 0x1fff_ffff
}

/// The URI of a file path, in the search's form.
pub open spec fn spec_file_uri(search: PackageSearch, path: Seq<char>) -> Seq<char> {
    if search.windows {
        spec_windows_path_to_uri(path)
    } else {
        spec_path_to_uri(path)
    }
}

/// The URI of the first candidate, from index `i` on, that exists and
/// whose URI parses.
pub open spec fn spec_first_package(search: PackageSearch, cands: Seq<Seq<char>>, i: int) -> Option<Seq<char>>
    decreases cands.len() - i,
{
    if 0 <= i < cands.len() {
        if string_views(search.existing_files@).contains(cands[i]) && spec_uri_parses(
            spec_file_uri(search, cands[i]),
        ) {
            Some(spec_file_uri(search, cands[i]))
        } else {
            spec_first_package(search, cands, i + 1)
        }
    } else {
        None
    }
}

/// The directory of the document at `current_uri`.
pub open spec fn spec_uri_dir(search: PackageSearch, current_uri: Seq<char>) -> Option<Seq<char>> {
    let path = if search.windows {
        spec_normalize_windows_uri(current_uri)
    } else {
        spec_normalize_uri_to_path(current_uri)
    };
    match path {
        Some(p) => spec_path_parent(p),
        None => None,
    }
}

/// The location of an imported package's file: the start of the first
/// candidate file, seen from the importing document, that exists.
pub open spec fn spec_package_location(search: PackageSearch, current_uri: Seq<char>, mp: Seq<String>) -> Option<
    (Seq<char>, Range),
> {
    match spec_uri_dir(search, current_uri) {
        Some(dir) => match spec_first_package(search, spec_module_candidates(mp, dir, search), 0) {
            Some(u) => Some((u, file_start())),
            None => None,
        },
        None => None,
    }
}

pub fn strings_contain(v: &Vec<String>, s: &str) -> (r: bool)
    ensures
        r == string_views(v@).contains(s@),
{
    let mut i: usize = 0;
    while i < v.len()
        invariant
            i <= v@.len(),
            forall|j: int| 0 <= j < i ==> v@[j]@ != s@,
        decreases v.len() - i,
    {
        if text_eq(v[i].as_str(), s) {
            assert(string_views(v@)[i as int] == s@);
            return true;
        }
        i = i + 1;
    }
    proof {
        if string_views(v@).contains(s@) {
            let j = choose|j: int| 0 <= j < string_views(v@).len() && string_views(v@)[j] == s@;
            assert(v@[j]@ == s@);
        }
    }
    false
}

/// Find the location of an imported package's file, given which candidate
/// files exist.
pub fn find_imported_package_location(segments: &Vec<String>, current_uri: &str, search: &PackageSearch) -> (r:
    Option<Location>)
    requires
        search_fits(*search),
    ensures
        opt_loc(r) == spec_package_location(*search, current_uri@, segments@),
        r matches Some(l) ==> uri_fits(l.uri@),
{
    let current_path = if search.windows {
        normalize_windows_uri_to_path(current_uri)
    } else {
        normalize_uri_to_path(current_uri)
    };
    let current_path = match current_path {
        Some(p) => p,
        None => {
            return None;
        },
    };
    let current_dir = match path_parent(current_path.as_str()) {
        Some(d) => d,
        None => {
            return None;
        },
    };
    let possible_paths = resolve_module_path(segments, current_dir.as_str(), search);
    let ghost cands = string_views(possible_paths@);
    assert(spec_uri_dir(*search, current_uri@) == Some(current_dir@));
    let mut i: usize = 0;
    while i < possible_paths.len()
        invariant
            i <= possible_paths@.len(),
            cands == string_views(possible_paths@),
            spec_uri_dir(*search, current_uri@) == Some(current_dir@),
            cands == spec_module_candidates(segments@, current_dir@, *search),
            search_fits(*search),
            spec_first_package(*search, cands, 0) == spec_first_package(*search, cands, i as int),
        decreases possible_paths.len() - i,
    {
        assert(cands[i as int] == possible_paths@[i as int]@);
        if strings_contain(&search.existing_files, possible_paths[i].as_str()) {
            let uri_str = if search.windows {
                windows_path_to_uri(possible_paths[i].as_str())
            } else {
                path_to_uri(possible_paths[i].as_str())
            };
            proof {
                let j = choose|j: int|
                    0 <= j < string_views(search.existing_files@).len() && string_views(
                        search.existing_files@,
                    )[j] == cands[i as int];
                assert(search.existing_files@[j]@ == cands[i as int]);
                reveal_strlit("file://");
                reveal_strlit("file:///");
            }
            if uri_parses(uri_str.as_str()) {
                assert(spec_first_package(*search, cands, i as int) == Some(uri_str@));
                return Some(
                    Location {
                        uri: uri_str,
                        range: Range {
                            start: Position { line: 0, character: 0 },
                            end: Position { line: 0, character: 0 },
                        },
                    },
                );
            }
        }
        i = i + 1;
    }
    None
}

/// The definition of `sym` in a program at `uri`: through its imports (a
/// module named `sym`, or an item `sym` imported from a package, searched
/// in that package's open document), then its statements. An import with
/// an empty module path is passed over. At most `fuel`
/// packages are entered one inside another.
pub open spec fn spec_definition_in_ast(
    dm: DocumentManager,
    search: PackageSearch,
    uri: Seq<char>,
    prog: Program,
    sym: Seq<char>,
    fuel: nat,
) -> Option<(Seq<char>, Range)>
    decreases fuel, 1int, 0int,
{
    match spec_import_scan(dm, search, uri, prog.imports@, 0, sym, fuel) {
        Some(res) => res,
        None => def_loc(dm, uri, def_in_seq(sym, prog.statements@, 0)),
    }
}

/// The imports from index `i` on: `Some(found)` when the search ends there,
/// `None` when it goes on to the statements.
pub open spec fn spec_import_scan(
    dm: DocumentManager,
    search: PackageSearch,
    uri: Seq<char>,
    imps: Seq<ImportStatement>,
    i: int,
    sym: Seq<char>,
    fuel: nat,
) -> Option<Option<(Seq<char>, Range)>>
    decreases fuel, 0int, imps.len() - i,
{
    if 0 <= i < imps.len() {
        let imp = imps[i];
        if imp.module_segments@.len() == 0 {
            spec_import_scan(dm, search, uri, imps, i + 1, sym, fuel)
        } else {
            let by_name = if imp.module_segments@.last()@ == sym {
                spec_package_location(search, uri, imp.module_segments@)
            } else {
                None
            };
            if by_name is Some {
                Some(by_name)
            } else {
                let by_item = match imp.items {
                    Some(items) => if string_views(items@).contains(sym) {
                        spec_symbol_in_package(dm, search, sym, imp.module_segments@, uri, fuel)
                    } else {
                        None
                    },
                    None => None,
                };
                if by_item is Some {
                    Some(by_item)
                } else {
                    spec_import_scan(dm, search, uri, imps, i + 1, sym, fuel)
                }
            }
        }
    } else {
        None
    }
}

/// The definition of `sym` in an imported package's open document.
pub open spec fn spec_symbol_in_package(
    dm: DocumentManager,
    search: PackageSearch,
    sym: Seq<char>,
    mp: Seq<String>,
    uri: Seq<char>,
    fuel: nat,
) -> Option<(Seq<char>, Range)>
    decreases fuel, 0int, 0int,
{
    if fuel == 0 {
        None
    } else {
        match spec_package_location(search, uri, mp) {
            Some((package_uri, _)) => if dm.view().contains_key(package_uri) {
                match dm.view()[package_uri].ast {
                    Some(a) => spec_definition_in_ast(
                        dm,
                        search,
                        package_uri,
                        *a,
                        sym,
                        (fuel - 1) as nat,
                    ),
                    None => None,
                }
            } else {
                None
            },
            None => None,
        }
    }
}

/// How many packages a search may enter one inside another: as many as
/// there are open documents, so that a chain of imports is followed as
/// long as it does not come back to a document it has left.
pub open spec fn import_budget(dm: DocumentManager) -> nat {
    dm.view().dom().len()
}

fn find_symbol_in_package_within(
    symbol: &str,
    segments: &Vec<String>,
    current_uri: &str,
    document_manager: &DocumentManager,
    search: &PackageSearch,
    fuel: usize,
) -> (r: Option<Location>)
    requires
        document_manager.wf(),
        search_fits(*search),
        uri_fits(current_uri@),
    ensures
        opt_loc(r) == spec_symbol_in_package(
            *document_manager,
            *search,
            symbol@,
            segments@,
            current_uri@,
            fuel as nat,
        ),
    decreases fuel, 0int,
{
    if fuel == 0 {
        return None;
    }
    let package_location = match find_imported_package_location(segments, current_uri, search) {
        Some(l) => l,
        None => {
            return None;
        },
    };
    let package_uri = package_location.uri;
    let package_ast = match document_manager.get_document_ast(package_uri.as_str()) {
        Some(a) => a,
        None => {
            return None;
        },
    };
    definition_in_ast_within(symbol, package_uri.as_str(), &package_ast, document_manager, search, fuel - 1)
}

fn definition_in_ast_within(
    symbol: &str,
    uri: &str,
    ast: &Program,
    document_manager: &DocumentManager,
    search: &PackageSearch,
    fuel: usize,
) -> (r: Option<Location>)
    requires
        document_manager.wf(),
        search_fits(*search),
        uri_fits(uri@),
    ensures
        opt_loc(r) == spec_definition_in_ast(*document_manager, *search, uri@, *ast, symbol@, fuel as nat),
    decreases fuel, 1int,
{
    let ghost dm = *document_manager;
    let ghost imps = ast.imports@;
    let mut i: usize = 0;
    while i < ast.imports.len()
        invariant
            i <= imps.len(),
            imps == ast.imports@,
            dm == *document_manager,
            uri_fits(uri@),
            document_manager.wf(),
            search_fits(*search),
            spec_import_scan(dm, *search, uri@, imps, 0, symbol@, fuel as nat) == spec_import_scan(
                dm,
                *search,
                uri@,
                imps,
                i as int,
                symbol@,
                fuel as nat,
            ),
        decreases ast.imports.len() - i,
    {
        let import = &ast.imports[i];
        let n = import.module_segments.len();
        if n == 0 {
            i = i + 1;
            continue;
        }
        let module_name = &import.module_segments[n - 1];
        if text_eq(module_name.as_str(), symbol) {
            match find_imported_package_location(&import.module_segments, uri, search) {
                Some(location) => {
                    return Some(location);
                },
                None => {},
            }
        }
        match &import.items {
            Some(items) => {
                if strings_contain(items, symbol) {
                    match find_symbol_in_package_within(
                        symbol,
                        &import.module_segments,
                        uri,
                        document_manager,
                        search,
                        fuel,
                    ) {
                        Some(location) => {
                            return Some(location);
                        },
                        None => {},
                    }
                }
            },
            None => {},
        }
        i = i + 1;
    }
    let r = search_statements(symbol, uri, &ast.statements, document_manager);
    proof {
        lemma_loc_result(dm, uri@, def_in_seq(symbol@, ast.statements@, 0), r);
    }
    r
}

/// Find the definition of a symbol in a program's syntax tree: through its
/// imports, then its statements.
pub fn find_definition_in_ast(
    symbol: &str,
    uri: &str,
    ast: &Program,
    document_manager: &DocumentManager,
    search: &PackageSearch,
) -> (r: Option<Location>)
    requires
        document_manager.wf(),
        search_fits(*search),
        uri_fits(uri@),
    ensures
        opt_loc(r) == spec_definition_in_ast(
            *document_manager,
            *search,
            uri@,
            *ast,
            symbol@,
            import_budget(*document_manager),
        ),
{
    let uris = document_manager.get_all_uris();
    definition_in_ast_within(symbol, uri, ast, document_manager, search, uris.len())
}


/// The locations of spans in the document at `u`, one per span in order,
/// when spans can be placed there; none otherwise.
pub open spec fn span_locs(dm: DocumentManager, u: Seq<char>, spans: Seq<Span>) -> Seq<(Seq<char>, Range)> {
    if spec_locatable(dm, u) {
        spans.map_values(|sp: Span| (u, spec_span_range(dm.view()[u].text, sp)->0))
    } else {
        Seq::empty()
    }
}

proof fn lemma_locs_match_view(dm: DocumentManager, u: Seq<char>, spans: Seq<Span>, locs: Seq<Location>)
    requires
        locs_match(dm, u, spans, locs),
    ensures
        locs_view(locs) == span_locs(dm, u, spans),
{
    if spec_locatable(dm, u) {
        assert forall|k: int| 0 <= k < locs.len() implies #[trigger] locs_view(locs)[k] == span_locs(
            dm,
            u,
            spans,
        )[k] by {
            assert(locs[k].uri@ == u);
        }
        assert(locs_view(locs) =~= span_locs(dm, u, spans));
    } else {
        assert(locs_view(locs) =~= span_locs(dm, u, spans));
    }
}

/// The locations of the uses of `sym` in the open document at `u`, found
/// by walk `w` over its statements; none when it has no syntax tree.
pub open spec fn doc_refs(dm: DocumentManager, u: Seq<char>, sym: Seq<char>, w: ReferenceWalk) -> Seq<
    (Seq<char>, Range),
> {
    if dm.view().contains_key(u) {
        match dm.view()[u].ast {
            Some(a) => span_locs(dm, u, refs_in_seq(sym, w, a.statements@, 0)),
            None => Seq::empty(),
        }
    } else {
        Seq::empty()
    }
}

/// The uses of `sym` in the documents of `order`, one document after
/// another.
pub open spec fn refs_over(dm: DocumentManager, order: Seq<Seq<char>>, sym: Seq<char>, w: ReferenceWalk) -> Seq<
    (Seq<char>, Range),
>
    decreases order.len(),
{
    if order.len() == 0 {
        Seq::empty()
    } else {
        refs_over(dm, order.drop_last(), sym, w) + doc_refs(dm, order.last(), sym, w)
    }
}

/// `order` lists every open document other than `uri`, each once.
pub open spec fn lists_others(dm: DocumentManager, uri: Seq<char>, order: Seq<Seq<char>>) -> bool {
    &&& order.no_duplicates()
    &&& forall|k: Seq<char>| #[trigger] order.contains(k) <==> (dm.view().contains_key(k) && k != uri)
}

/// Collect the locations of the uses of `symbol` in one document.
pub fn references_in_document(symbol: &str, uri: &str, walk: ReferenceWalk, document_manager: &DocumentManager) -> (r:
    Vec<Location>)
    requires
        document_manager.wf(),
        uri_fits(uri@),
    ensures
        locs_view(r@) == doc_refs(*document_manager, uri@, symbol@, walk),
{
    let mut references: Vec<Location> = Vec::new();
    match document_manager.get_document_ast(uri) {
        Some(ast) => {
            refs_statements(symbol, uri, walk, &ast.statements, &mut references, document_manager);
            proof {
                assert(references@.subrange(0, references@.len() as int) =~= references@);
                lemma_locs_match_view(
                    *document_manager,
                    uri@,
                    refs_in_seq(symbol@, walk, ast.statements@, 0),
                    references@,
                );
            }
        },
        None => {
            assert(locs_view(references@) =~= Seq::<(Seq<char>, Range)>::empty());
        },
    }
    references
}

/// Collect the uses of `symbol` in the document at `uri`, then in every
/// other open document, in the order the document map lists them.
pub fn collect_references(symbol: &str, uri: &str, walk: ReferenceWalk, document_manager: &DocumentManager) -> (r:
    Vec<Location>)
    requires
        document_manager.wf(),
        uri_fits(uri@),
    ensures
        exists|order: Seq<Seq<char>>|
            lists_others(*document_manager, uri@, order) && locs_view(r@) == doc_refs(
                *document_manager,
                uri@,
                symbol@,
                walk,
            ) + refs_over(*document_manager, order, symbol@, walk),
{
    let ghost dm = *document_manager;
    let mut references = references_in_document(symbol, uri, walk, document_manager);
    let ghost head = locs_view(references@);
    let all_uris = document_manager.get_all_uris();
    let ghost mut order: Seq<Seq<char>> = Seq::empty();
    let mut i: usize = 0;
    while i < all_uris.len()
        invariant
            i <= all_uris@.len(),
            dm == *document_manager,
            document_manager.wf(),
            forall|j: int| 0 <= j < all_uris@.len() ==> dm.view().contains_key(#[trigger] all_uris@[j]@),
            forall|a: int, b: int|
                0 <= a < b < all_uris@.len() ==> #[trigger] all_uris@[a]@ != #[trigger] all_uris@[b]@,
            order.no_duplicates(),
            forall|k: Seq<char>|
                #[trigger] order.contains(k) <==> (exists|j: int|
                    0 <= j < i && #[trigger] all_uris@[j]@ == k && k != uri@),
            locs_view(references@) == head + refs_over(dm, order, symbol@, walk),
        decreases all_uris.len() - i,
    {
        let other = all_uris[i].as_str();
        if !text_eq(other, uri) {
            let mut more = references_in_document(symbol, other, walk, document_manager);
            let ghost before = references@;
            references.append(&mut more);
            proof {
                let o2 = order.push(all_uris@[i as int]@);
                assert(o2.drop_last() =~= order);
                assert(locs_view(references@) =~= locs_view(before) + doc_refs(dm, all_uris@[i as int]@, symbol@, walk));
                assert(!order.contains(all_uris@[i as int]@));
                assert forall|k: Seq<char>|
                    #[trigger] o2.contains(k) <==> (exists|j: int|
                        0 <= j < i + 1 && #[trigger] all_uris@[j]@ == k && k != uri@) by {
                    if o2.contains(k) {
                        if k == all_uris@[i as int]@ {
                        } else {
                            let m = choose|m: int| 0 <= m < o2.len() && o2[m] == k;
                            assert(order.contains(k)) by {
                                assert(order[m] == k);
                            }
                        }
                    }
                    if exists|j: int| 0 <= j < i + 1 && #[trigger] all_uris@[j]@ == k && k != uri@ {
                        let j = choose|j: int| 0 <= j < i + 1 && #[trigger] all_uris@[j]@ == k && k != uri@;
                        if j < i {
                            assert(order.contains(k));
                            let m = choose|m: int| 0 <= m < order.len() && order[m] == k;
                            assert(o2[m] == k);
                        } else {
                            assert(o2[order.len() as int] == k);
                        }
                    }
                }
                order = o2;
            }
        } else {
            proof {
                assert forall|k: Seq<char>|
                    #[trigger] order.contains(k) <==> (exists|j: int|
                        0 <= j < i + 1 && #[trigger] all_uris@[j]@ == k && k != uri@) by {
                    if exists|j: int| 0 <= j < i + 1 && #[trigger] all_uris@[j]@ == k && k != uri@ {
                        let j = choose|j: int| 0 <= j < i + 1 && #[trigger] all_uris@[j]@ == k && k != uri@;
                        assert(j < i);
                    }
                }
            }
        }
        i = i + 1;
    }
    proof {
        assert forall|k: Seq<char>| #[trigger] order.contains(k) <==> (dm.view().contains_key(k) && k != uri@) by {
            if dm.view().contains_key(k) && k != uri@ {
                let j = choose|j: int| 0 <= j < all_uris@.len() && #[trigger] all_uris@[j]@ == k;
                assert(all_uris@[j]@ == k);
            }
        }
        assert(lists_others(dm, uri@, order));
    }
    references
}

/// The walk that go-to-definition's reference search makes: field
/// accesses and address operations are looked into, array indexing is
/// not.
pub open spec fn definition_walk() -> ReferenceWalk {
    ReferenceWalk { field_access: true, array_access: false, address_ops: true }
}

/// Find all references to a symbol: its uses in the document at `uri`,
/// then in every other open document.
pub fn find_references(symbol: &str, uri: &str, position: Position, document_manager: &DocumentManager) -> (r: Vec<
    Location,
>)
    requires
        document_manager.wf(),
        uri_fits(uri@),
    ensures
        exists|order: Seq<Seq<char>>|
            lists_others(*document_manager, uri@, order) && locs_view(r@) == doc_refs(
                *document_manager,
                uri@,
                symbol@,
                definition_walk(),
            ) + refs_over(*document_manager, order, symbol@, definition_walk()),
{
    let walk = ReferenceWalk { field_access: true, array_access: false, address_ops: true };
    collect_references(symbol, uri, walk, document_manager)
}

/// The definition of `sym` found in the open document at `u`, if it has a
/// syntax tree.
pub open spec fn doc_definition(dm: DocumentManager, search: PackageSearch, u: Seq<char>, sym: Seq<char>) -> Option<
    (Seq<char>, Range),
> {
    if dm.view().contains_key(u) {
        match dm.view()[u].ast {
            Some(a) => spec_definition_in_ast(dm, search, u, *a, sym, import_budget(dm)),
            None => None,
        }
    } else {
        None
    }
}

/// For a method call `object.method`, the definition of the method in the
/// package that the document at `uri` imports under the name `object`:
/// the first such import, from index `i` on, whose package holds it.
pub open spec fn spec_method_in_imports(
    dm: DocumentManager,
    search: PackageSearch,
    uri: Seq<char>,
    imps: Seq<ImportStatement>,
    i: int,
    object: Seq<char>,
    method: Seq<char>,
) -> Option<(Seq<char>, Range)>
    decreases imps.len() - i,
{
    if 0 <= i < imps.len() {
        let segs = imps[i].module_segments@;
        let found = if segs.len() > 0 && segs.last()@ == object {
            spec_symbol_in_package(dm, search, method, segs, uri, import_budget(dm))
        } else {
            None
        };
        if found is Some {
            found
        } else {
            spec_method_in_imports(dm, search, uri, imps, i + 1, object, method)
        }
    } else {
        None
    }
}

/// The definition reached through a method call at `position`, if any.
pub open spec fn spec_method_definition(
    dm: DocumentManager,
    search: PackageSearch,
    uri: Seq<char>,
    position: Position,
) -> Option<(Seq<char>, Range)> {
    match spec_doc_method_call(dm, uri, position) {
        Some((object, method)) => if dm.view().contains_key(uri) {
            match dm.view()[uri].ast {
                Some(a) => spec_method_in_imports(dm, search, uri, a.imports@, 0, object, method),
                None => None,
            }
        } else {
            None
        },
        None => None,
    }
}

/// Find the definition of the symbol at `position` in the document at
/// `uri`: through a method call on an imported package, then in the
/// document itself, then in the first other open document that defines it.
pub fn find_definition(uri: &str, position: Position, document_manager: &DocumentManager, search: &PackageSearch) -> (r:
    Option<Location>)
    requires
        document_manager.wf(),
        uri_fits(uri@),
        search_fits(*search),
    ensures
        ({
            let dm = *document_manager;
            match spec_doc_word(dm, uri@, position) {
                None => r is None,
                Some(word) => {
                    let by_method = spec_method_definition(dm, *search, uri@, position);
                    let here = doc_definition(dm, *search, uri@, word);
                    if by_method is Some {
                        opt_loc(r) == by_method
                    } else if here is Some {
                        opt_loc(r) == here
                    } else {
                        &&& r is None <==> (forall|k: Seq<char>|
                            dm.view().contains_key(k) && k != uri@ ==> #[trigger] doc_definition(
                                dm,
                                *search,
                                k,
                                word,
                            ) is None)
                        &&& r matches Some(l) ==> exists|k: Seq<char>|
                            dm.view().contains_key(k) && k != uri@ && #[trigger] doc_definition(
                                dm,
                                *search,
                                k,
                                word,
                            ) == Some(l@)
                    }
                },
            }
        }),
{
    let ghost dm = *document_manager;
    let word = match get_word_at_position(uri, position, document_manager) {
        Some(w) => w,
        None => {
            return None;
        },
    };
    let all_uris = document_manager.get_all_uris();
    let budget = all_uris.len();
    match get_method_call_info(uri, position, document_manager) {
        Some((object_name, method_name)) => {
            match document_manager.get_document_ast(uri) {
                Some(ast) => {
                    let ghost imps = ast.imports@;
                    let mut i: usize = 0;
                    while i < ast.imports.len()
                        invariant
                            i <= imps.len(),
                            imps == ast.imports@,
                            dm == *document_manager,
                            budget == import_budget(dm),
                            uri_fits(uri@),
                            document_manager.wf(),
                            search_fits(*search),
                            spec_doc_word(dm, uri@, position) == Some(word@),
                            spec_method_definition(dm, *search, uri@, position) == spec_method_in_imports(
                                dm,
                                *search,
                                uri@,
                                imps,
                                0,
                                object_name@,
                                method_name@,
                            ),
                            spec_method_in_imports(dm, *search, uri@, imps, 0, object_name@, method_name@)
                                == spec_method_in_imports(
                                dm,
                                *search,
                                uri@,
                                imps,
                                i as int,
                                object_name@,
                                method_name@,
                            ),
                        decreases ast.imports.len() - i,
                    {
                        let import = &ast.imports[i];
                        let n = import.module_segments.len();
                        if n > 0 && text_eq(import.module_segments[n - 1].as_str(), object_name.as_str()) {
                            match find_symbol_in_package_within(
                                method_name.as_str(),
                                &import.module_segments,
                                uri,
                                document_manager,
                                search,
                                budget,
                            ) {
                                Some(location) => {
                                    return Some(location);
                                },
                                None => {},
                            }
                        }
                        i = i + 1;
                    }
                },
                None => {},
            }
        },
        None => {},
    }
    assert(spec_method_definition(dm, *search, uri@, position) is None);
    match document_manager.get_document_ast(uri) {
        Some(ast) => {
            match definition_in_ast_within(word.as_str(), uri, &ast, document_manager, search, budget) {
                Some(location) => {
                    return Some(location);
                },
                None => {},
            }
        },
        None => {},
    }
    let mut i: usize = 0;
    while i < all_uris.len()
        invariant
            i <= all_uris@.len(),
            dm == *document_manager,
            budget == import_budget(dm),
            document_manager.wf(),
            search_fits(*search),
            spec_doc_word(dm, uri@, position) == Some(word@),
            spec_method_definition(dm, *search, uri@, position) is None,
            doc_definition(dm, *search, uri@, word@) is None,
            forall|j: int| 0 <= j < all_uris@.len() ==> dm.view().contains_key(#[trigger] all_uris@[j]@),
            forall|j: int|
                0 <= j < i && #[trigger] all_uris@[j]@ != uri@ ==> doc_definition(
                    dm,
                    *search,
                    all_uris@[j]@,
                    word@,
                ) is None,
        decreases all_uris.len() - i,
    {
        let other = all_uris[i].as_str();
        if !text_eq(other, uri) {
            match document_manager.get_document_ast(other) {
                Some(ast) => {
                    match definition_in_ast_within(word.as_str(), other, &ast, document_manager, search, budget) {
                        Some(location) => {
                            assert(doc_definition(dm, *search, other@, word@) == Some(location@));
                            return Some(location);
                        },
                        None => {},
                    }
                },
                None => {},
            }
        }
        i = i + 1;
    }
    proof {
        assert forall|k: Seq<char>| dm.view().contains_key(k) && k != uri@ implies #[trigger] doc_definition(
            dm,
            *search,
            k,
            word@,
        ) is None by {
            let j = choose|j: int| 0 <= j < all_uris@.len() && #[trigger] all_uris@[j]@ == k;
            assert(all_uris@[j]@ == k);
        }
    }
    None
}

/// A declaration is its own definition: for a function, struct, enum,
/// variable or method named `sym`, the location that
/// `search_statement_for_definition` finds for `sym` in it (any `r`
/// meeting that function's postcondition) is the place of the declaration.
pub proof fn law_declaration_is_its_definition(
    dm: DocumentManager,
    uri: Seq<char>,
    sym: Seq<char>,
    n: AstNode,
    r: Option<Location>,
)
    requires
        loc_result(dm, uri, def_in_node(sym, n), r),
        spec_locatable(dm, uri),
        declares_directly(n, sym),
    ensures
        r matches Some(loc) && loc.uri@ == uri && Some(loc.range) == spec_span_range(
            dm.view()[uri].text,
            decl_span(n),
        ),
{
    assert(def_in_node(sym, n) == Some(decl_span(n))) by {
        match n {
            AstNode::FunctionDecl(f) => {},
            AstNode::StructDecl(sd) => {},
            AstNode::EnumDecl(e) => {},
            AstNode::VariableDecl(v) => {},
            AstNode::MethodDecl(m) => {},
            _ => {},
        }
    }
}

proof fn lemma_first_field(sym: Seq<char>, fs: Seq<StructField>, i: int, j: int)
    requires
        0 <= i <= j < fs.len(),
        fs[j].name@ == sym,
        forall|k: int| i <= k < j ==> fs[k].name@ != sym,
    ensures
        def_in_fields(sym, fs, i) == Some(fs[j].span),
    decreases j - i,
{
    if i < j {
        lemma_first_field(sym, fs, i + 1, j);
    }
}

proof fn lemma_first_variant(sym: Seq<char>, vs: Seq<EnumVariant>, i: int, j: int)
    requires
        0 <= i <= j < vs.len(),
        vs[j].name@ == sym,
        forall|k: int| i <= k < j ==> vs[k].name@ != sym,
    ensures
        def_in_variants(sym, vs, i) == Some(vs[j].span),
    decreases j - i,
{
    if i < j {
        lemma_first_variant(sym, vs, i + 1, j);
    }
}

/// A member is the definition of its name: in a struct (or enum) not
/// itself named `sym`, the location found for `sym` is that of the first
/// field (or variant) named `sym`.
pub proof fn law_member_is_its_definition(
    dm: DocumentManager,
    uri: Seq<char>,
    sym: Seq<char>,
    n: AstNode,
    j: int,
    r: Option<Location>,
)
    requires
        loc_result(dm, uri, def_in_node(sym, n), r),
        spec_locatable(dm, uri),
        ({
            ||| n matches AstNode::StructDecl(sd) && sd.name@ != sym && 0 <= j < sd.fields@.len()
                && sd.fields@[j].name@ == sym && forall|k: int| 0 <= k < j ==> sd.fields@[k].name@ != sym
            ||| n matches AstNode::EnumDecl(e) && e.name@ != sym && 0 <= j < e.variants@.len()
                && e.variants@[j].name@ == sym && forall|k: int| 0 <= k < j ==> e.variants@[k].name@ != sym
        }),
    ensures
        r matches Some(loc) && loc.uri@ == uri && Some(loc.range) == spec_span_range(
            dm.view()[uri].text,
            match n {
                AstNode::StructDecl(sd) => sd.fields@[j].span,
                AstNode::EnumDecl(e) => e.variants@[j].span,
                _ => Span { start: 0, end: 0 },
            },
        ),
{
    match n {
        AstNode::StructDecl(sd) => {
            lemma_first_field(sym, sd.fields@, 0, j);
        },
        AstNode::EnumDecl(e) => {
            lemma_first_variant(sym, e.variants@, 0, j);
        },
        _ => {},
    }
}

/// A use of `sym` as a name, as the function called, or as a returned
/// value is one of its references, whatever the walk.
pub proof fn law_use_is_a_reference(sym: Seq<char>, w: ReferenceWalk, n: AstNode, sp: Span)
    requires
        ({
            ||| n matches AstNode::ExpressionStmt { expression } && (*expression matches AstNode::Identifier {
                name,
                span,
            } && name@ == sym && span == sp)
            ||| n matches AstNode::ExpressionStmt { expression } && (*expression matches AstNode::FunctionCall {
                callee,
                span,
                ..
            } && callee@ == sym && span == sp)
            ||| n matches AstNode::Return { value } && (value matches Some(x) && (*x matches AstNode::Identifier {
                name,
                span,
            } && name@ == sym && span == sp))
        }),
    ensures
        refs_in_node(sym, w, n).contains(sp),
{
    match n {
        AstNode::ExpressionStmt { expression } => {
            match *expression {
                AstNode::FunctionCall { callee, arguments, span } => {
                    let r = refs_in_node(sym, w, *expression);
                    assert(r[0] == sp);
                },
                _ => {
                    assert(refs_in_node(sym, w, *expression)[0] == sp);
                },
            }
        },
        AstNode::Return { value } => {
            assert(refs_in_node(sym, w, *value->0)[0] == sp);
        },
        _ => {},
    }
}

/// A name or a call of another name is no reference of `sym`.
pub proof fn law_other_name_is_no_reference(sym: Seq<char>, w: ReferenceWalk, n: AstNode)
    requires
        ({
            ||| n matches AstNode::Identifier { name, .. } && name@ != sym
            ||| n matches AstNode::FunctionCall { callee, arguments, .. } && callee@ != sym && arguments@.len()
                == 0
        }),
    ensures
        refs_in_node(sym, w, n).len() == 0,
{
    match n {
        AstNode::FunctionCall { callee, arguments, span } => {
            assert(refs_in_seq(sym, w, arguments@, 0) == Seq::<Span>::empty());
        },
        _ => {},
    }
}

} // verus!
