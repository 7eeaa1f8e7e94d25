//! Text helpers shared by hover, definition and completion: identifier
//! characters, the word under the cursor, the text before the cursor.

use vstd::prelude::*;
use crate::unicode::{char_is_ascii_digit, char_is_cjk, is_ascii_digit, is_ascii_letter, is_cjk};
use crate::strings::{chars_vec, string_from_range, trim_end_char, trimmed_end_len};
use crate::position::{DocumentPosition, Position, Range, lsp_pos_of};
use crate::document::DocumentManager;
use crate::rope_text::{spec_len_lines, spec_line_start};

verus! {

/// A character that can appear inside a Qi identifier: an ASCII letter or
/// digit, `_`, or a CJK Unified Ideograph (U+4E00..=U+9FFF).
pub open spec fn spec_is_identifier_char(ch: char) -> bool {
    is_ascii_letter(ch) || is_ascii_digit(ch) || ch == '_' || is_cjk(ch)
}

/// Return true when `ch` can appear inside a Qi identifier — ASCII
/// alphanumeric, `_`, or CJK Unified Ideograph (BMP block U+4E00..U+9FFF).
pub fn is_identifier_char(ch: char) -> (r: bool)
    ensures
        r == spec_is_identifier_char(ch),
{
    let u = ch as u32;
    (0x61 <= u && u <= 0x7a) || (0x41 <= u && u <= 0x5a) || char_is_ascii_digit(ch) || ch == '_' || char_is_cjk(ch)
}

/// A line as the cursor helpers see it: trailing `\n`s removed, then
/// trailing `\r`s removed.
pub open spec fn spec_strip_line_end(line: Seq<char>) -> Seq<char> {
    trim_end_char(trim_end_char(line, '\n'), '\r')
}

/// Moving left from `p`, the first index whose left neighbour is not an
/// identifier character.
pub open spec fn spec_word_start(cs: Seq<char>, p: int) -> int
    decreases p,
{
    if p > 0 && p <= cs.len() && spec_is_identifier_char(cs[p - 1]) {
        spec_word_start(cs, p - 1)
    } else {
        p
    }
}

/// Moving right from `p`, the first index that is not an identifier character.
pub open spec fn spec_word_end(cs: Seq<char>, p: int) -> int
    decreases cs.len() - p,
{
    if 0 <= p < cs.len() && spec_is_identifier_char(cs[p]) {
        spec_word_end(cs, p + 1)
    } else {
        p
    }
}

/// The identifier around character index `p` of a stripped line, with its
/// character range; `None` when `p` is past the end or no identifier
/// character touches `p`.
pub open spec fn spec_word_in_line(cs: Seq<char>, p: int) -> Option<(Seq<char>, int, int)> {
    if p > cs.len() {
        None
    } else {
        let start = spec_word_start(cs, p);
        let end = spec_word_end(cs, p);
        if start >= end {
            None
        } else {
            Some((cs.subrange(start, end), start, end))
        }
    }
}

proof fn lemma_word_start_bounds(cs: Seq<char>, p: int)
    requires
        0 <= p <= cs.len(),
    ensures
        0 <= spec_word_start(cs, p) <= p,
    decreases p,
{
    if p > 0 && spec_is_identifier_char(cs[p - 1]) {
        lemma_word_start_bounds(cs, p - 1);
    }
}

proof fn lemma_word_end_bounds(cs: Seq<char>, p: int)
    requires
        0 <= p <= cs.len(),
    ensures
        p <= spec_word_end(cs, p) <= cs.len(),
    decreases cs.len() - p,
{
    if p < cs.len() && spec_is_identifier_char(cs[p]) {
        lemma_word_end_bounds(cs, p + 1);
    }
}

/// The identifier surrounding character index `char_pos` of `line` (line end
/// characters ignored), with its character range within the line.
pub fn word_in_line(line: &str, char_pos: usize) -> (r: Option<(String, std::ops::Range<usize>)>)
    ensures
        match spec_word_in_line(spec_strip_line_end(line@), char_pos as int) {
            None => r is None,
            Some((w, s, e)) => r matches Some((word, range)) && word@ == w && range.start == s
                && range.end == e,
        },
{
    let all = chars_vec(line);
    let n1 = trimmed_end_len(all.as_slice(), all.len(), '\n');
    let n = trimmed_end_len(all.as_slice(), n1, '\r');
    let ghost cs = all@.subrange(0, n as int);
    proof {
        assert(all@.subrange(0, all@.len() as int) == all@);
        assert(all@.subrange(0, n1 as int).subrange(0, n as int) == cs);
    }
    if char_pos > n {
        return None;
    }
    let mut start = char_pos;
    while start > 0 && is_identifier_char(all[start - 1])
        invariant
            start <= char_pos <= n <= all@.len(),
            cs == all@.subrange(0, n as int),
            spec_word_start(cs, start as int) == spec_word_start(cs, char_pos as int),
        decreases start,
    {
        start = start - 1;
    }
    let mut end = char_pos;
    while end < n && is_identifier_char(all[end])
        invariant
            char_pos <= end <= n <= all@.len(),
            cs == all@.subrange(0, n as int),
            spec_word_end(cs, end as int) == spec_word_end(cs, char_pos as int),
        decreases n - end,
    {
        end = end + 1;
    }
    if start >= end {
        return None;
    }
    let word = string_from_range(all.as_slice(), start, end);
    assert(word@ == cs.subrange(start as int, end as int));
    Some((word, start..end))
}

/// The first `k` characters of a stripped line (all of it when shorter).
pub open spec fn spec_prefix_chars(cs: Seq<char>, k: int) -> Seq<char> {
    if k < cs.len() {
        cs.take(k)
    } else {
        cs
    }
}

/// The characters of `line` (line end characters ignored) strictly before
/// character index `k`.
pub fn line_prefix(line: &str, k: usize) -> (r: String)
    ensures
        r@ == spec_prefix_chars(spec_strip_line_end(line@), k as int),
{
    let all = chars_vec(line);
    let n1 = trimmed_end_len(all.as_slice(), all.len(), '\n');
    let n = trimmed_end_len(all.as_slice(), n1, '\r');
    proof {
        assert(all@.subrange(0, all@.len() as int) == all@);
        assert(all@.subrange(0, n1 as int).subrange(0, n as int) == all@.subrange(0, n as int));
    }
    let stop = if k < n {
        k
    } else {
        n
    };
    string_from_range(all.as_slice(), 0, stop)
}

/// Build a protocol range covering characters `[char_start..char_end]` on `line`
/// (each index truncated to 32 bits).
pub fn char_range_on_line(line: u32, char_start: usize, char_end: usize) -> (r: Range)
    ensures
        r.start == (Position { line, character: char_start as u32 }),
        r.end == (Position { line, character: char_end as u32 }),
{
    Range {
        start: Position { line, character: char_start as u32 },
        end: Position { line, character: char_end as u32 },
    }
}

/// Convenience: turn a document position into a protocol position.
pub fn pos_to_lsp(p: DocumentPosition) -> (r: Position)
    ensures
        r == lsp_pos_of(p),
{
    Position { line: p.line as u32, character: p.character as u32 }
}

/// The text of line `line` of the document at `uri` (line break included),
/// if the document is open and has that line.
pub open spec fn spec_doc_line(dm: DocumentManager, uri: Seq<char>, line: int) -> Option<Seq<char>> {
    if dm.view().contains_key(uri) && 0 <= line < spec_len_lines(dm.view()[uri].text) {
        Some(
            dm.view()[uri].text.subrange(
                spec_line_start(dm.view()[uri].text, line),
                spec_line_start(dm.view()[uri].text, line + 1),
            ),
        )
    } else {
        None
    }
}

/// Extract the identifier surrounding `position` in the document at `uri`, if any.
///
/// `position.character` is interpreted as a **character index** within the line.
/// Returns the identifier text plus its character range within the line.
pub fn word_at_position(uri: &str, position: Position, document_manager: &DocumentManager) -> (r:
    Option<(String, std::ops::Range<usize>)>)
    ensures
        match spec_doc_line(*document_manager, uri@, position.line as int) {
            None => r is None,
            Some(line) => match spec_word_in_line(
                spec_strip_line_end(line),
                position.character as int,
            ) {
                None => r is None,
                Some((w, s, e)) => r matches Some((word, range)) && word@ == w && range.start == s
                    && range.end == e,
            },
        },
{
    let line = match document_manager.get_line_content(uri, position.line as usize) {
        Some(l) => l,
        None => {
            return None;
        },
    };
    word_in_line(line.as_str(), position.character as usize)
}

/// Compute the character prefix of `position`'s line — text strictly before
/// the cursor. Returns `""` if the line is missing.
pub fn line_before_cursor(uri: &str, position: Position, document_manager: &DocumentManager) -> (r:
    String)
    ensures
        match spec_doc_line(*document_manager, uri@, position.line as int) {
            None => r@ == Seq::<char>::empty(),
            Some(line) => r@ == spec_prefix_chars(
                spec_strip_line_end(line),
                position.character as int,
            ),
        },
{
    match document_manager.get_line_content(uri, position.line as usize) {
        Some(line) => line_prefix(line.as_str(), position.character as usize),
        None => String::new(),
    }
}

} // verus!
