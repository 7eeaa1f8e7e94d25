//! The text an edit's range covers, as shown when edits are listed: the
//! lines of a text as `str::lines` yields them, and a range's columns read
//! as byte offsets into its line.

use vstd::prelude::*;
use crate::document::text_fits;
use crate::position::Range;
use crate::strings::{chars_vec, string_from_range};
use crate::word::{boundary_at, boundary_index, byte_slice, byte_slice_ok, line_byte_len, utf8_len};

verus! {

/// A line without the `\r` of a `\r\n` ending.
pub open spec fn strip_cr(l: Seq<char>) -> Seq<char> {
    if l.len() > 0 && l.last() == '\r' {
        l.drop_last()
    } else {
        l
    }
}

/// The lines from character `i` on, `cur` being the text of the line in
/// progress: a `\n` (with a `\r` before it) ends a line, and a last line
/// without an ending counts only when it is not empty.
pub open spec fn lines_from(s: Seq<char>, i: int, cur: Seq<char>) -> Seq<Seq<char>>
    decreases s.len() - i,
{
    if i < 0 || i >= s.len() {
        if cur.len() > 0 {
            seq![cur]
        } else {
            Seq::empty()
        }
    } else if s[i] == '\n' {
        seq![strip_cr(cur)] + lines_from(s, i + 1, Seq::empty())
    } else {
        lines_from(s, i + 1, cur.push(s[i]))
    }
}

/// The lines of a text, as `str::lines` yields them.
pub open spec fn text_lines(s: Seq<char>) -> Seq<Seq<char>> {
    lines_from(s, 0, Seq::empty())
}

/// What is shown when a range's text cannot be taken out.
pub open spec fn no_excerpt() -> Seq<char> {
    "[无法提取文本]"@
}

/// The text a range covers: on one line, the bytes between its two
/// columns; over several lines, the first line from the start column on,
/// followed by ` ...`; a placeholder when the line or the columns do not
/// exist.
pub open spec fn spec_excerpt(s: Seq<char>, range: Range) -> Seq<char> {
    let ls = text_lines(s);
    let sl = range.start.line as int;
    let sc = range.start.character as int;
    let ec = range.end.character as int;
    if sl < ls.len() {
        let l = ls[sl];
        if range.start.line == range.end.line {
            if sc <= utf8_len(l) && ec <= utf8_len(l) {
                byte_slice(l, sc, ec)
            } else {
                no_excerpt()
            }
        } else if sc <= utf8_len(l) {
            byte_slice(l, sc, utf8_len(l)) + " ..."@
        } else {
            no_excerpt()
        }
    } else {
        no_excerpt()
    }
}

/// The columns that are cut at fall on character boundaries of their line,
/// in order (the text could not be cut out otherwise).
pub open spec fn excerpt_ok(s: Seq<char>, range: Range) -> bool {
    let ls = text_lines(s);
    let sl = range.start.line as int;
    let sc = range.start.character as int;
    let ec = range.end.character as int;
    sl < ls.len() ==> {
        let l = ls[sl];
        if range.start.line == range.end.line {
            (sc <= utf8_len(l) && ec <= utf8_len(l)) ==> (sc <= ec && byte_slice_ok(l, sc, ec))
        } else {
            sc <= utf8_len(l) ==> boundary_index(l, sc) is Some
        }
    }
}

/// Every line is at most `n` characters long.
spec fn lines_fit(ls: Seq<Seq<char>>, n: int) -> bool {
    forall|k: int| 0 <= k < ls.len() ==> (#[trigger] ls[k]).len() <= n
}

proof fn lemma_lines_from_fit(s: Seq<char>, i: int, cur: Seq<char>)
    requires
        0 <= i <= s.len(),
        cur.len() <= i,
    ensures
        lines_fit(lines_from(s, i, cur), s.len() as int),
    decreases s.len() - i,
{
    if i >= s.len() {
        let ls = lines_from(s, i, cur);
        assert forall|k: int| 0 <= k < ls.len() implies (#[trigger] ls[k]).len() <= s.len() by {
            assert(ls[k] == cur);
        }
    } else if s[i] == '\n' {
        lemma_lines_from_fit(s, i + 1, Seq::empty());
        let rest = lines_from(s, i + 1, Seq::empty());
        let all = seq![strip_cr(cur)] + rest;
        assert(lines_from(s, i, cur) == all);
        assert(strip_cr(cur).len() <= cur.len());
        assert forall|k: int| 0 <= k < all.len() implies (#[trigger] all[k]).len() <= s.len() by {
            if k > 0 {
                assert(all[k] == rest[k - 1]);
            }
        }
    } else {
        lemma_lines_from_fit(s, i + 1, cur.push(s[i]));
        assert(lines_from(s, i, cur) == lines_from(s, i + 1, cur.push(s[i])));
    }
}

fn split_text_lines(cs: &Vec<char>) -> (r: Vec<Vec<char>>)
    ensures
        r@.len() == text_lines(cs@).len(),
        forall|k: int| 0 <= k < r@.len() ==> (#[trigger] r@[k])@ == text_lines(cs@)[k],
{
    let mut out: Vec<Vec<char>> = Vec::new();
    let ghost mut outv: Seq<Seq<char>> = Seq::empty();
    let mut cur: Vec<char> = Vec::new();
    let mut i: usize = 0;
    while i < cs.len()
        invariant
            i <= cs@.len(),
            out@.len() == outv.len(),
            forall|k: int| 0 <= k < out@.len() ==> (#[trigger] out@[k])@ == outv[k],
            outv + lines_from(cs@, i as int, cur@) == text_lines(cs@),
        decreases cs.len() - i,
    {
        let c = cs[i];
        if c == '\n' {
            let mut line = cur;
            let n = line.len();
            if n > 0 && line[n - 1] == '\r' {
                line.pop();
            }
            proof {
                assert(line@ == strip_cr(cur@));
                assert(outv.push(line@) + lines_from(cs@, i + 1, Seq::empty()) =~= outv + (seq![strip_cr(cur@)]
                    + lines_from(cs@, i + 1, Seq::empty())));
                outv = outv.push(line@);
            }
            out.push(line);
            cur = Vec::new();
        } else {
            cur.push(c);
        }
        i = i + 1;
    }
    if cur.len() > 0 {
        proof {
            outv = outv.push(cur@);
        }
        out.push(cur);
    } else {
        assert(outv + Seq::<Seq<char>>::empty() =~= outv);
    }
    out
}

/// The bytes of a line from byte `a` to byte `b`, both known to be
/// character boundaries.
fn cut(l: &Vec<char>, a: usize, b: usize) -> (r: String)
    requires
        text_fits(l@),
        a <= b,
        byte_slice_ok(l@, a as int, b as int),
    ensures
        r@ == byte_slice(l@, a as int, b as int),
{
    let i = boundary_at(l, a).unwrap();
    let j = boundary_at(l, b).unwrap();
    proof {
        if j < i {
            crate::word::lemma_utf8_offset_increasing(l@, j as int, i as int);
        }
    }
    string_from_range(l.as_slice(), i, j)
}

/// The text a range covers in `content`, for listing an edit.
pub fn get_text_in_range(content: &str, range: Range) -> (r: String)
    requires
        text_fits(content@),
        excerpt_ok(content@, range),
    ensures
        r@ == spec_excerpt(content@, range),
{
    let cs = chars_vec(content);
    let lines = split_text_lines(&cs);
    proof {
        lemma_lines_from_fit(cs@, 0, Seq::empty());
        reveal_strlit("[无法提取文本]");
        reveal_strlit(" ...");
    }
    let sl = range.start.line as usize;
    if sl < lines.len() {
        let l = &lines[sl];
        assert(l@ == text_lines(content@)[sl as int]);
        assert(l@.len() <= content@.len());
        let len = line_byte_len(l);
        let sc = range.start.character as usize;
        let ec = range.end.character as usize;
        if range.start.line == range.end.line {
            if sc <= len && ec <= len {
                return cut(l, sc, ec);
            }
        } else if sc <= len {
            proof {
                crate::word::lemma_utf8_offset_bounds(l@, l@.len() as int);
                assert(crate::word::utf8_offset(l@, l@.len() as int) == len);
                lemma_boundary_at_end(l@);
            }
            return cut(l, sc, len).concat(" ...");
        }
    }
    String::from_str("[无法提取文本]")
}

proof fn lemma_boundary_from_end(l: Seq<char>, k: int)
    requires
        0 <= k <= l.len(),
    ensures
        crate::word::boundary_from(l, utf8_len(l), k) is Some,
    decreases l.len() - k,
{
    if crate::word::utf8_offset(l, k) != utf8_len(l) {
        lemma_boundary_from_end(l, k + 1);
    }
}

/// The end of a line is a character boundary.
proof fn lemma_boundary_at_end(l: Seq<char>)
    ensures
        boundary_index(l, utf8_len(l)) is Some,
{
    lemma_boundary_from_end(l, 0);
}

} // verus!
