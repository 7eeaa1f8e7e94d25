//! The text that range formatting works on: a position whose character is
//! a byte column becomes a byte offset, and a range becomes the text
//! between its two offsets.

use vstd::prelude::*;
use crate::document::text_fits;
use crate::position::{Position, Range};
use crate::strings::{chars_vec, string_from_range};
use crate::unicode::{char_len_utf8, spec_len_utf8};
use crate::word::utf8_len;

verus! {

/// Scan for the byte offset of `pos` from character `k`, which starts at
/// byte `byte` on line `line`, byte column `col`: the first character
/// start (or the end of the text) where the line and column are the
/// position's. The result also gives the character index there.
pub open spec fn offset_scan(s: Seq<char>, k: int, byte: int, line: int, col: int, pos: Position) -> Option<
    (int, int),
>
    decreases s.len() - k,
{
    if k < 0 || k >= s.len() {
        if line == pos.line && col == pos.character {
            Some((byte, s.len() as int))
        } else {
            None
        }
    } else if line == pos.line && col == pos.character {
        Some((byte, k))
    } else if s[k] == '\n' {
        if line + 1 == pos.line && pos.character == 0 {
            Some((byte + 1, k + 1))
        } else {
            offset_scan(s, k + 1, byte + 1, line + 1, 0, pos)
        }
    } else {
        offset_scan(s, k + 1, byte + spec_len_utf8(s[k]), line, col + spec_len_utf8(s[k]), pos)
    }
}

/// The byte offset of a position whose character is a byte column, and
/// the character index there; `None` when no character starts there.
pub open spec fn spec_byte_offset(s: Seq<char>, pos: Position) -> Option<(int, int)> {
    offset_scan(s, 0, 0, 0, 0, pos)
}

fn scan_offset(cs: &Vec<char>, pos: Position) -> (r: Option<(usize, usize)>)
    requires
        text_fits(cs@),
    ensures
        match spec_byte_offset(cs@, pos) {
            Some((b, k)) => r == Some((b as usize, k as usize)),
            None => r is None,
        },
{
    let mut line: usize = 0;
    let mut col_bytes: usize = 0;
    let mut byte: usize = 0;
    let mut k: usize = 0;
    let ghost mut newline_count: int = 0;
    proof {
        crate::word::lemma_utf8_offset_bounds(cs@, cs@.len() as int);
    }
    while k < cs.len()
        invariant
            k <= cs@.len(),
            text_fits(cs@),
            byte == crate::word::utf8_offset(cs@, k as int),
            line as int + col_bytes as int <= byte,
            spec_byte_offset(cs@, pos) == offset_scan(cs@, k as int, byte as int, line as int, col_bytes as int, pos),
        decreases cs.len() - k,
    {
        if line == pos.line as usize && col_bytes == pos.character as usize {
            return Some((byte, k));
        }
        proof {
            crate::word::lemma_utf8_offset_bounds(cs@, k + 1);
            crate::word::lemma_utf8_offset_monotone(cs@, k + 1, cs@.len() as int);
        }
        let c = cs[k];
        let w = char_len_utf8(c);
        if c == '\n' {
            line = line + 1;
            col_bytes = 0;
            if line == pos.line as usize && col_bytes == pos.character as usize {
                return Some((byte + 1, k + 1));
            }
        } else {
            col_bytes = col_bytes + w as usize;
        }
        byte = byte + w as usize;
        k = k + 1;
    }
    if line == pos.line as usize && col_bytes == pos.character as usize {
        Some((byte, cs.len()))
    } else {
        None
    }
}

/// Find the byte offset of a position whose character is a byte column.
pub fn position_to_byte_offset(content: &str, pos: Position) -> (r: Option<usize>)
    requires
        text_fits(content@),
    ensures
        match spec_byte_offset(content@, pos) {
            Some((b, _)) => r == Some(b as usize),
            None => r is None,
        },
{
    let cs = chars_vec(content);
    match scan_offset(&cs, pos) {
        Some((b, _)) => Some(b),
        None => None,
    }
}

/// The text between a range's two byte offsets, when both exist and come
/// in order.
pub open spec fn spec_slice_by_range(s: Seq<char>, range: Range) -> Option<Seq<char>> {
    match (spec_byte_offset(s, range.start), spec_byte_offset(s, range.end)) {
        (Some((a, i)), Some((b, j))) => if b < a || b > utf8_len(s) {
            None
        } else {
            Some(s.subrange(i, j))
        },
        _ => None,
    }
}

/// The text a range covers, where each position's character is a byte
/// column.
pub fn slice_by_range(content: &str, range: Range) -> (r: Option<String>)
    requires
        text_fits(content@),
    ensures
        match spec_slice_by_range(content@, range) {
            Some(t) => r matches Some(s) && s@ == t,
            None => r is None,
        },
{
    let cs = chars_vec(content);
    let (start, i) = match scan_offset(&cs, range.start) {
        Some(x) => x,
        None => {
            return None;
        },
    };
    let (end, j) = match scan_offset(&cs, range.end) {
        Some(x) => x,
        None => {
            return None;
        },
    };
    proof {
        lemma_offset_scan_facts(cs@, range.start);
        lemma_offset_scan_facts(cs@, range.end);
        let (a, ka) = spec_byte_offset(cs@, range.start)->0;
        let (b, kb) = spec_byte_offset(cs@, range.end)->0;
        crate::word::lemma_utf8_offset_bounds(cs@, ka);
        crate::word::lemma_utf8_offset_bounds(cs@, kb);
        assert(a == start && ka == i);
        assert(b == end && kb == j);
    }
    let total = crate::word::line_byte_len(&cs);
    if end < start || end > total {
        return None;
    }
    proof {
        if j < i {
            crate::word::lemma_utf8_offset_increasing(cs@, j as int, i as int);
        }
    }
    Some(string_from_range(cs.as_slice(), i, j))
}

/// A found offset is the byte offset of the character index found, which
/// lies within the text.
proof fn lemma_offset_scan_facts(s: Seq<char>, pos: Position)
    ensures
        spec_byte_offset(s, pos) matches Some((b, k)) ==> 0 <= k <= s.len() && b == crate::word::utf8_offset(
            s,
            k,
        ),
{
    lemma_offset_scan_from(s, 0, 0, 0, 0, pos);
}

proof fn lemma_offset_scan_from(s: Seq<char>, k: int, byte: int, line: int, col: int, pos: Position)
    requires
        0 <= k <= s.len(),
        byte == crate::word::utf8_offset(s, k),
    ensures
        offset_scan(s, k, byte, line, col, pos) matches Some((b, j)) ==> 0 <= j <= s.len() && b
            == crate::word::utf8_offset(s, j),
    decreases s.len() - k,
{
    if k < s.len() {
        if !(line == pos.line && col == pos.character) {
            if s[k] == '\n' {
                if !(line + 1 == pos.line && pos.character == 0) {
                    lemma_offset_scan_from(s, k + 1, byte + 1, line + 1, 0, pos);
                }
            } else {
                lemma_offset_scan_from(s, k + 1, byte + spec_len_utf8(s[k]), line, col + spec_len_utf8(s[k]), pos);
            }
        }
    }
}

} // verus!
