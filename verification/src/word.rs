//! The word under the cursor as go-to-definition, find-references,
//! rename and hover take it. The cursor's character index is compared with
//! the line's length in bytes, and the word's character bounds are then
//! used as byte offsets into the line: on a line that is not all ASCII the
//! two disagree, and a bound that falls inside a character cannot be cut.

use vstd::prelude::*;
use crate::document::{DocumentManager, text_fits};
use crate::position::Position;
use crate::rope_text::{lemma_line_start_monotone, spec_len_lines, spec_line_start};
use crate::strings::{chars_vec, string_from_range};
use crate::text::spec_doc_line;
use crate::unicode::{
    char_is_alphanumeric, char_is_whitespace, char_len_utf8, spec_char_is_alphanumeric,
    spec_char_is_whitespace, spec_len_utf8,
};

verus! {

/// A character that belongs to a word: alphanumeric, `_`, or a CJK
/// ideograph.
pub open spec fn spec_is_word_char(c: char) -> bool {
    spec_char_is_alphanumeric(c) || c == '_' || (0x4E00 <= (c as u32) && (c as u32) <= 0x9FFF)
}

/// Whether a character belongs to a word (identifier or Chinese character).
pub fn is_word_char(ch: char) -> (r: bool)
    ensures
        r == spec_is_word_char(ch),
{
    char_is_alphanumeric(ch) || ch == '_' || (ch as u32 >= 0x4E00 && ch as u32 <= 0x9FFF)
}

/// Byte offset of character index `k` in the UTF-8 encoding of `cs`.
pub open spec fn utf8_offset(cs: Seq<char>, k: int) -> int
    decreases k,
{
    if k <= 0 {
        0
    } else {
        utf8_offset(cs, k - 1) + spec_len_utf8(cs[k - 1])
    }
}

/// Length in bytes of the UTF-8 encoding of `cs`.
pub open spec fn utf8_len(cs: Seq<char>) -> int {
    utf8_offset(cs, cs.len() as int)
}

/// The first character index from `k` on whose byte offset is `b`: the
/// character that starts at byte `b`, when `b` is a character boundary.
pub open spec fn boundary_from(cs: Seq<char>, b: int, k: int) -> Option<int>
    decreases cs.len() + 1 - k,
{
    if k < 0 || k > cs.len() {
        None
    } else if utf8_offset(cs, k) == b {
        Some(k)
    } else {
        boundary_from(cs, b, k + 1)
    }
}

/// The character index at byte offset `b`, if `b` is a character boundary.
pub open spec fn boundary_index(cs: Seq<char>, b: int) -> Option<int> {
    boundary_from(cs, b, 0)
}

/// Both byte offsets fall on character boundaries, so the bytes between
/// them can be cut out.
pub open spec fn byte_slice_ok(cs: Seq<char>, a: int, b: int) -> bool {
    boundary_index(cs, a) is Some && boundary_index(cs, b) is Some
}

/// The characters between byte offsets `a` and `b`.
pub open spec fn byte_slice(cs: Seq<char>, a: int, b: int) -> Seq<char> {
    cs.subrange(boundary_index(cs, a)->0, boundary_index(cs, b)->0)
}

/// Move left from index `i` while the character before is a word
/// character; `None` when that character does not exist.
pub open spec fn scan_word_left(cs: Seq<char>, i: int) -> Option<int>
    decreases i,
{
    if i <= 0 {
        Some(0)
    } else if i - 1 >= cs.len() {
        None
    } else if !spec_is_word_char(cs[i - 1]) {
        Some(i)
    } else {
        scan_word_left(cs, i - 1)
    }
}

/// Move right from index `i`, up to `limit`, while the character there
/// is a word character; `None` when that character does not exist.
pub open spec fn scan_word_right(cs: Seq<char>, i: int, limit: int) -> Option<int>
    decreases limit - i,
{
    if i >= limit {
        Some(i)
    } else if i >= cs.len() {
        None
    } else if !spec_is_word_char(cs[i]) {
        Some(i)
    } else {
        scan_word_right(cs, i + 1, limit)
    }
}

/// Bounds of the word around cursor `p` on a line, `p` a character index:
/// `None` when `p` is not below the line's length in characters, or when
/// the word is empty.
pub open spec fn word_bounds(cs: Seq<char>, p: int) -> Option<(int, int)> {
    if p < 0 || p >= cs.len() {
        None
    } else {
        match scan_word_left(cs, p) {
            None => None,
            Some(s) => match scan_word_right(cs, p, cs.len() as int) {
                None => None,
                Some(e) => if s < e {
                    Some((s, e))
                } else {
                    None
                },
            },
        }
    }
}

/// The word around cursor `p` on a line: the characters between its
/// bounds.
pub open spec fn spec_word_at(cs: Seq<char>, p: int) -> Option<Seq<char>> {
    match word_bounds(cs, p) {
        Some((s, e)) => Some(cs.subrange(s, e)),
        None => None,
    }
}

/// Move left from index `i` while the character at `i` is white space,
/// never looking at index 0; `None` when that character does not exist.
pub open spec fn skip_space_left(cs: Seq<char>, i: int) -> Option<int>
    decreases i,
{
    if i <= 0 {
        Some(i)
    } else if i >= cs.len() {
        None
    } else if !spec_char_is_whitespace(cs[i]) {
        Some(i)
    } else {
        skip_space_left(cs, i - 1)
    }
}

/// Bounds of the object name before a `.` that directly precedes a method
/// name starting at `ms`: the dot is stepped over, white space before it
/// skipped (the first character is never looked at), and the word ending
/// there taken. `None` when there is no dot, when the dot is the first
/// character, or when a character looked at does not exist.
pub open spec fn object_bounds(cs: Seq<char>, ms: int) -> Option<(int, int)> {
    if ms > 0 && ms - 1 < cs.len() && cs[ms - 1] == '.' && ms - 1 > 0 {
        match skip_space_left(cs, ms - 2) {
            None => None,
            Some(w) => match scan_word_left(cs, w) {
                None => None,
                Some(os) => Some((os, w + 1)),
            },
        }
    } else {
        None
    }
}

/// The `(object, method)` names of a method call around cursor `p`.
pub open spec fn spec_method_call(cs: Seq<char>, p: int) -> Option<(Seq<char>, Seq<char>)> {
    match word_bounds(cs, p) {
        None => None,
        Some((ms, me)) => match object_bounds(cs, ms) {
            None => None,
            Some((os, oe)) => Some((cs.subrange(os, oe), cs.subrange(ms, me))),
        },
    }
}

/// Offsets grow by one to four bytes per character.
pub proof fn lemma_utf8_offset_bounds(cs: Seq<char>, k: int)
    requires
        0 <= k <= cs.len(),
    ensures
        k <= utf8_offset(cs, k) <= 4 * k,
    decreases k,
{
    if k > 0 {
        lemma_utf8_offset_bounds(cs, k - 1);
    }
}

/// Byte offsets increase strictly with the character index.
pub proof fn lemma_utf8_offset_increasing(cs: Seq<char>, j: int, k: int)
    requires
        0 <= j < k <= cs.len(),
    ensures
        utf8_offset(cs, j) < utf8_offset(cs, k),
    decreases k - j,
{
    if j + 1 < k {
        lemma_utf8_offset_increasing(cs, j, k - 1);
    }
}

/// Byte offsets do not decrease with the character index.
pub proof fn lemma_utf8_offset_monotone(cs: Seq<char>, j: int, k: int)
    requires
        0 <= j <= k <= cs.len(),
    ensures
        utf8_offset(cs, j) <= utf8_offset(cs, k),
{
    if j < k {
        lemma_utf8_offset_increasing(cs, j, k);
    }
}

/// The byte length of a line.
pub fn line_byte_len(cs: &Vec<char>) -> (r: usize)
    requires
        text_fits(cs@),
    ensures
        r == utf8_len(cs@),
{
    let mut total: usize = 0;
    let mut k: usize = 0;
    while k < cs.len()
        invariant
            k <= cs@.len(),
            text_fits(cs@),
            total == utf8_offset(cs@, k as int),
            total <= 4 * k,
        decreases cs.len() - k,
    {
        let w = char_len_utf8(cs[k]) as usize;
        total = total + w;
        k = k + 1;
    }
    total
}

/// The byte offset of character index `k`.
pub fn utf8_prefix(cs: &Vec<char>, k: usize) -> (r: usize)
    requires
        text_fits(cs@),
        k <= cs@.len(),
    ensures
        r == utf8_offset(cs@, k as int),
{
    let mut total: usize = 0;
    let mut i: usize = 0;
    while i < k
        invariant
            i <= k <= cs@.len(),
            text_fits(cs@),
            total == utf8_offset(cs@, i as int),
            total <= 4 * i,
        decreases k - i,
    {
        let w = char_len_utf8(cs[i]) as usize;
        total = total + w;
        i = i + 1;
    }
    total
}

/// The index found for a character's own byte offset is that character's.
pub proof fn lemma_boundary_of_offset(cs: Seq<char>, k: int)
    requires
        0 <= k <= cs.len(),
    ensures
        boundary_index(cs, utf8_offset(cs, k)) == Some(k),
{
    lemma_boundary_from_offset(cs, k, 0);
}

proof fn lemma_boundary_from_offset(cs: Seq<char>, k: int, j: int)
    requires
        0 <= j <= k <= cs.len(),
    ensures
        boundary_from(cs, utf8_offset(cs, k), j) == Some(k),
    decreases k - j,
{
    if j < k {
        lemma_utf8_offset_increasing(cs, j, k);
        lemma_boundary_from_offset(cs, k, j + 1);
    }
}

/// A boundary found for a byte offset is a character index whose offset is
/// that byte offset.
pub proof fn lemma_boundary_index_facts(cs: Seq<char>, b: int)
    ensures
        boundary_index(cs, b) matches Some(k) ==> 0 <= k <= cs.len() && utf8_offset(cs, k) == b,
{
    lemma_boundary_from_facts(cs, b, 0);
}

proof fn lemma_boundary_from_facts(cs: Seq<char>, b: int, j: int)
    ensures
        boundary_from(cs, b, j) matches Some(k) ==> 0 <= k <= cs.len() && utf8_offset(cs, k) == b,
    decreases cs.len() + 1 - j,
{
    if 0 <= j <= cs.len() && utf8_offset(cs, j) != b {
        lemma_boundary_from_facts(cs, b, j + 1);
    }
}

/// The character index at byte offset `b`, if it is a boundary.
pub fn boundary_at(cs: &Vec<char>, b: usize) -> (r: Option<usize>)
    requires
        text_fits(cs@),
    ensures
        match r {
            Some(k) => boundary_index(cs@, b as int) == Some(k as int) && k <= cs@.len()
                && utf8_offset(cs@, k as int) == b,
            None => boundary_index(cs@, b as int) is None,
        },
{
    let mut total: usize = 0;
    let mut k: usize = 0;
    while k <= cs.len()
        invariant
            k <= cs@.len() + 1,
            text_fits(cs@),
            k <= cs@.len() ==> total == utf8_offset(cs@, k as int),
            total <= 4 * k,
            boundary_index(cs@, b as int) == boundary_from(cs@, b as int, k as int),
        decreases cs.len() + 1 - k,
    {
        if total == b {
            return Some(k);
        }
        if k == cs.len() {
            proof {
                assert(boundary_from(cs@, b as int, k + 1) is None);
            }
            return None;
        }
        let w = char_len_utf8(cs[k]) as usize;
        total = total + w;
        k = k + 1;
    }
    None
}

/// The word bounds around cursor `p`, computed as `word_bounds` says.
fn word_bounds_in(cs: &Vec<char>, p: usize) -> (r: Option<(usize, usize)>)
    ensures
        match r {
            Some((s, e)) => word_bounds(cs@, p as int) == Some((s as int, e as int)) && s <= e <= cs@.len(),
            None => word_bounds(cs@, p as int) is None,
        },
{
    let limit = cs.len();
    if p >= limit {
        return None;
    }
    let mut start = p;
    while start > 0
        invariant
            start <= p < cs@.len(),
            scan_word_left(cs@, p as int) == scan_word_left(cs@, start as int),
        ensures
            scan_word_left(cs@, p as int) == Some(start as int),
        decreases start,
    {
        if !is_word_char(cs[start - 1]) {
            break;
        }
        start = start - 1;
    }
    let mut end = p;
    while end < limit
        invariant
            p <= end <= limit,
            limit == cs@.len(),
            scan_word_right(cs@, p as int, limit as int) == scan_word_right(cs@, end as int, limit as int),
        ensures
            end <= limit,
            scan_word_right(cs@, p as int, limit as int) == Some(end as int),
        decreases limit - end,
    {
        if !is_word_char(cs[end]) {
            break;
        }
        end = end + 1;
    }
    if start < end {
        Some((start, end))
    } else {
        None
    }
}

/// The word around cursor `p` (a character index) on a line.
pub fn word_at(line: &str, p: usize) -> (r: Option<String>)
    ensures
        match spec_word_at(line@, p as int) {
            Some(w) => r matches Some(t) && t@ == w,
            None => r is None,
        },
{
    let cs = chars_vec(line);
    match word_bounds_in(&cs, p) {
        Some((s, e)) => Some(string_from_range(cs.as_slice(), s, e)),
        None => None,
    }
}

/// The `(object, method)` names of the method call around cursor `p` (a
/// character index) on a line, such as `工具包.加法`.
pub fn method_call_at(line: &str, p: usize) -> (r: Option<(String, String)>)
    ensures
        match spec_method_call(line@, p as int) {
            Some((o, m)) => r matches Some((object, method)) && object@ == o && method@ == m,
            None => r is None,
        },
{
    let cs = chars_vec(line);
    let (method_start, method_end) = match word_bounds_in(&cs, p) {
        Some(b) => b,
        None => {
            return None;
        },
    };
    match method_call_at_bounds(&cs, method_start) {
        Some((object_start, object_end)) => Some(
            (
                string_from_range(cs.as_slice(), object_start, object_end),
                string_from_range(cs.as_slice(), method_start, method_end),
            ),
        ),
        None => None,
    }
}

/// The word around `position` in the document at `uri`, taken as the
/// navigation features take it.
pub open spec fn spec_doc_word(dm: DocumentManager, uri: Seq<char>, position: Position) -> Option<Seq<char>> {
    match spec_doc_line(dm, uri, position.line as int) {
        Some(line) => spec_word_at(line, position.character as int),
        None => None,
    }
}

/// The method call around `position` in the document at `uri`.
pub open spec fn spec_doc_method_call(dm: DocumentManager, uri: Seq<char>, position: Position) -> Option<
    (Seq<char>, Seq<char>),
> {
    match spec_doc_line(dm, uri, position.line as int) {
        Some(line) => spec_method_call(line, position.character as int),
        None => None,
    }
}

/// A line of an open document fits the offset bound of its text.
proof fn lemma_doc_line_fits(dm: DocumentManager, uri: Seq<char>, line: int)
    requires
        dm.wf(),
        spec_doc_line(dm, uri, line) is Some,
    ensures
        text_fits(spec_doc_line(dm, uri, line)->0),
{
    let t = dm.view()[uri].text;
    lemma_line_start_monotone(t, line, line + 1);
}

/// Fetch a line of a document together with the proof that it fits.
pub fn doc_line(uri: &str, line: u32, document_manager: &DocumentManager) -> (r: Option<String>)
    requires
        document_manager.wf(),
    ensures
        match spec_doc_line(*document_manager, uri@, line as int) {
            Some(l) => r matches Some(t) && t@ == l && text_fits(l),
            None => r is None,
        },
{
    let r = document_manager.get_line_content(uri, line as usize);
    proof {
        if r is Some {
            lemma_doc_line_fits(*document_manager, uri@, line as int);
        }
    }
    r
}

/// The object bounds before a method name starting at `ms`.
fn method_call_at_bounds(cs: &Vec<char>, ms: usize) -> (r: Option<(usize, usize)>)
    ensures
        match r {
            Some((os, oe)) => object_bounds(cs@, ms as int) == Some((os as int, oe as int)) && os <= oe
                <= cs@.len(),
            None => object_bounds(cs@, ms as int) is None,
        },
{
    if !(ms > 0 && ms - 1 < cs.len() && cs[ms - 1] == '.' && ms - 1 > 0) {
        return None;
    }
    let mut object_start = ms - 2;
    let ghost w0 = object_start;
    while object_start > 0
        invariant
            object_start <= w0,
            w0 == ms - 2,
            ms > 1 && ms - 1 < cs@.len() && cs@[ms - 1] == '.',
            skip_space_left(cs@, w0 as int) == skip_space_left(cs@, object_start as int),
        ensures
            skip_space_left(cs@, w0 as int) == Some(object_start as int),
        decreases object_start,
    {
        if object_start >= cs.len() {
            return None;
        }
        if !char_is_whitespace(cs[object_start]) {
            break;
        }
        object_start = object_start - 1;
    }
    let object_end = object_start + 1;
    let ghost w = object_start;
    while object_start > 0
        invariant
            object_start <= w,
            ms > 1 && ms - 1 < cs@.len() && cs@[ms - 1] == '.',
            skip_space_left(cs@, ms - 2) == Some(w as int),
            scan_word_left(cs@, w as int) == scan_word_left(cs@, object_start as int),
        ensures
            scan_word_left(cs@, w as int) == Some(object_start as int),
        decreases object_start,
    {
        if object_start - 1 >= cs.len() {
            return None;
        }
        if !is_word_char(cs[object_start - 1]) {
            break;
        }
        object_start = object_start - 1;
    }
    Some((object_start, object_end))
}

/// Get the word at the current cursor position.
pub fn get_word_at_position(uri: &str, position: Position, document_manager: &DocumentManager) -> (r: Option<
    String,
>)
    requires
        document_manager.wf(),
    ensures
        match spec_doc_word(*document_manager, uri@, position) {
            Some(w) => r matches Some(t) && t@ == w,
            None => r is None,
        },
{
    match doc_line(uri, position.line, document_manager) {
        Some(line) => word_at(line.as_str(), position.character as usize),
        None => None,
    }
}

/// Get the `(object, method)` names if the cursor is on a method call such
/// as `工具包.加法`.
pub fn get_method_call_info(uri: &str, position: Position, document_manager: &DocumentManager) -> (r: Option<
    (String, String),
>)
    requires
        document_manager.wf(),
    ensures
        match spec_doc_method_call(*document_manager, uri@, position) {
            Some((o, m)) => r matches Some((object, method)) && object@ == o && method@ == m,
            None => r is None,
        },
{
    match doc_line(uri, position.line, document_manager) {
        Some(line) => method_call_at(line.as_str(), position.character as usize),
        None => None,
    }
}

proof fn lemma_scan_word_left(cs: Seq<char>, i: int)
    requires
        0 <= i <= cs.len(),
    ensures
        scan_word_left(cs, i) matches Some(s) && 0 <= s <= i && (s == 0 || !spec_is_word_char(cs[s - 1]))
            && forall|k: int| s <= k < i ==> spec_is_word_char(#[trigger] cs[k]),
    decreases i,
{
    if i > 0 && spec_is_word_char(cs[i - 1]) {
        lemma_scan_word_left(cs, i - 1);
    }
}

proof fn lemma_scan_word_right(cs: Seq<char>, i: int)
    requires
        0 <= i <= cs.len(),
    ensures
        scan_word_right(cs, i, cs.len() as int) matches Some(e) && i <= e <= cs.len() && (e == cs.len()
            || !spec_is_word_char(cs[e])) && forall|k: int| i <= k < e ==> spec_is_word_char(#[trigger] cs[k]),
    decreases cs.len() - i,
{
    if i < cs.len() && spec_is_word_char(cs[i]) {
        lemma_scan_word_right(cs, i + 1);
    }
}

/// The word at a cursor is the whole run of word characters that the
/// cursor stands in or just after: there is one exactly when the character
/// at the cursor or the one before it is a word character, and it is
/// non-empty, made of word characters, bounded on both sides by non-word
/// characters or the line's ends, and reaches the cursor.
pub proof fn law_word_at_is_maximal_run(cs: Seq<char>, p: int)
    ensures
        spec_word_at(cs, p) is Some <==> 0 <= p < cs.len() && (spec_is_word_char(cs[p]) || (p > 0
            && spec_is_word_char(cs[p - 1]))),
        spec_word_at(cs, p) matches Some(w) ==> exists|s: int, e: int|
            #![trigger cs.subrange(s, e)]
            0 <= s <= p <= e <= cs.len() && s < e && w == cs.subrange(s, e) && (s == 0 || !spec_is_word_char(
                cs[s - 1],
            )) && (e == cs.len() || !spec_is_word_char(cs[e])) && forall|k: int|
                s <= k < e ==> spec_is_word_char(#[trigger] cs[k]),
{
    if 0 <= p < cs.len() {
        lemma_scan_word_left(cs, p);
        lemma_scan_word_right(cs, p);
        let s = scan_word_left(cs, p)->0;
        let e = scan_word_right(cs, p, cs.len() as int)->0;
        if s < e {
            assert(forall|k: int| s <= k < e ==> spec_is_word_char(#[trigger] cs[k]));
        }
        if spec_is_word_char(cs[p]) {
            assert(e > p);
        }
        if p > 0 && spec_is_word_char(cs[p - 1]) {
            assert(s < p);
        }
        if s < e {
            if s == p {
                assert(spec_is_word_char(cs[p]));
            }
        }
    }
}

} // verus!
