//! Document text held in a rope, with the rope's line structure stated
//! over the characters it holds.

use vstd::prelude::*;
use ropey::Rope;

verus! {

#[verifier::external_type_specification]
#[verifier::external_body]
pub struct ExRope(Rope);

/// Name for the characters a rope holds.
pub uninterp spec fn rope_chars(r: Rope) -> Seq<char>;

/// The characters the rope recognizes as line breaks: LF, VT, FF, CR,
/// NEL, LINE SEPARATOR and PARAGRAPH SEPARATOR (CR LF counts once).
pub open spec fn is_line_break_char(c: char) -> bool {
    ||| c == '\n'
    ||| c == '\u{0B}'
    ||| c == '\u{0C}'
    ||| c == '\r'
    ||| c == '\u{85}'
    ||| c == '\u{2028}'
    ||| c == '\u{2029}'
}

/// A line break ends just after `s[i]` (a CR directly before an LF ends none).
pub open spec fn ends_line_at(s: Seq<char>, i: int) -> bool {
    &&& 0 <= i < s.len()
    &&& is_line_break_char(s[i])
    &&& !(s[i] == '\r' && i + 1 < s.len() && s[i + 1] == '\n')
}

/// The indices just after each line break among `s[0..n]`, in order.
pub open spec fn break_ends(s: Seq<char>, n: int) -> Seq<int>
    decreases n,
{
    if n <= 0 {
        Seq::empty()
    } else if ends_line_at(s, n - 1) {
        break_ends(s, n - 1).push(n)
    } else {
        break_ends(s, n - 1)
    }
}

/// Start index of every line: 0, then just after each line break.
pub open spec fn line_starts(s: Seq<char>) -> Seq<int> {
    seq![0int] + break_ends(s, s.len() as int)
}

/// Number of lines: one more than the number of line breaks.
pub open spec fn spec_len_lines(s: Seq<char>) -> int {
    line_starts(s).len() as int
}

/// Char index where line `line` starts; one past the end for the line
/// after the last.
pub open spec fn spec_line_start(s: Seq<char>, line: int) -> int {
    if 0 <= line < spec_len_lines(s) {
        line_starts(s)[line]
    } else {
        s.len() as int
    }
}

/// Line of char index `c`: the number of line breaks that end at or before `c`.
pub open spec fn spec_char_line(s: Seq<char>, c: int) -> int {
    break_ends(s, c).len() as int
}

/// Break positions among `s[0..n]` lie in `(0, n]`, increase strictly,
/// and number at most `n`.
pub proof fn lemma_break_ends(s: Seq<char>, n: int)
    requires
        0 <= n,
    ensures
        break_ends(s, n).len() <= n,
        forall|k: int| 0 <= k < break_ends(s, n).len() ==> 0 < #[trigger] break_ends(s, n)[k] <= n,
        forall|a: int, b: int|
            0 <= a < b < break_ends(s, n).len() ==> #[trigger] break_ends(s, n)[a]
                < #[trigger] break_ends(s, n)[b],
    decreases n,
{
    if n > 0 {
        lemma_break_ends(s, n - 1);
    }
}

/// The break positions among a shorter prefix come first; later ones lie
/// beyond the shorter prefix.
pub proof fn lemma_break_ends_prefix(s: Seq<char>, m: int, n: int)
    requires
        0 <= m <= n,
    ensures
        break_ends(s, m).len() <= break_ends(s, n).len(),
        break_ends(s, n).subrange(0, break_ends(s, m).len() as int) == break_ends(s, m),
        forall|k: int|
            break_ends(s, m).len() <= k < break_ends(s, n).len() ==> #[trigger] break_ends(
                s,
                n,
            )[k] > m,
    decreases n - m,
{
    if m < n {
        lemma_break_ends_prefix(s, m, n - 1);
        lemma_break_ends(s, n - 1);
        let bm = break_ends(s, m);
        let b1 = break_ends(s, n - 1);
        let bn = break_ends(s, n);
        if ends_line_at(s, n - 1) {
            assert(bn =~= b1.push(n));
            assert(bn.subrange(0, bm.len() as int) =~= b1.subrange(0, bm.len() as int));
        } else {
            assert(bn =~= b1);
        }
    } else {
        assert(break_ends(s, n).subrange(0, break_ends(s, n).len() as int) =~= break_ends(s, n));
    }
}

/// Line starts increase with the line number and stay within the text.
pub proof fn lemma_line_start_monotone(s: Seq<char>, a: int, b: int)
    requires
        0 <= a <= b <= spec_len_lines(s),
    ensures
        spec_line_start(s, a) <= spec_line_start(s, b) <= s.len(),
        0 <= spec_line_start(s, a),
{
    lemma_break_ends(s, s.len() as int);
    let be = break_ends(s, s.len() as int);
    let ls = line_starts(s);
    assert(forall|k: int| 1 <= k < ls.len() ==> ls[k] == be[k - 1]);
    if a < b && b < spec_len_lines(s) && a > 0 {
        assert(be[a - 1] < be[b - 1]);
    }
}

/// The line of char index `c` exists, starts at or before `c`, and the
/// next line starts after `c` (or `c` lies on the last line).
pub proof fn lemma_char_line(s: Seq<char>, c: int)
    requires
        0 <= c <= s.len(),
    ensures
        0 <= spec_char_line(s, c) < spec_len_lines(s),
        spec_line_start(s, spec_char_line(s, c)) <= c,
        spec_char_line(s, c) + 1 < spec_len_lines(s) ==> c < spec_line_start(
            s,
            spec_char_line(s, c) + 1,
        ),
        spec_line_start(s, spec_char_line(s, c) + 1) >= c,
{
    lemma_break_ends_prefix(s, c, s.len() as int);
    lemma_break_ends(s, c);
    lemma_break_ends(s, s.len() as int);
    let bc = break_ends(s, c);
    let be = break_ends(s, s.len() as int);
    let ls = line_starts(s);
    let k = bc.len() as int;
    assert(forall|j: int| 1 <= j < ls.len() ==> ls[j] == be[j - 1]);
    if k > 0 {
        assert(be[k - 1] == be.subrange(0, k)[k - 1]);
        assert(bc[k - 1] <= c);
    }
    if k + 1 < spec_len_lines(s) {
        assert(be[k] > c);
    }
}

/// Calls `Rope::from_str`. Claims: the rope holds the characters of `text`.
#[verifier::external_body]
pub(crate) fn rope_from_str(text: &str) -> (r: Rope)
    ensures
        rope_chars(r) == text@,
{
    Rope::from_str(text)
}

/// Calls `Rope::clone`. Claims: the clone holds the same characters.
#[verifier::external_body]
pub(crate) fn rope_clone(r: &Rope) -> (c: Rope)
    ensures
        rope_chars(c) == rope_chars(*r),
{
    r.clone()
}

/// Calls `Rope::to_string`. Claims: the string holds the rope's characters.
#[verifier::external_body]
pub(crate) fn rope_to_string(r: &Rope) -> (s: String)
    ensures
        s@ == rope_chars(*r),
{
    r.to_string()
}

/// Calls `Rope::len_chars`. Claims: the number of characters held.
#[verifier::external_body]
pub(crate) fn rope_len_chars(r: &Rope) -> (n: usize)
    ensures
        n == rope_chars(*r).len(),
{
    r.len_chars()
}

/// Calls `Rope::len_lines`. Claims: one more than the number of line breaks.
#[verifier::external_body]
pub(crate) fn rope_len_lines(r: &Rope) -> (n: usize)
    ensures
        n == spec_len_lines(rope_chars(*r)),
{
    r.len_lines()
}

/// Calls `Rope::line_to_char` (which panics past one-past-the-last line).
/// Claims: the char index where the line starts.
#[verifier::external_body]
pub(crate) fn rope_line_to_char(r: &Rope, line: usize) -> (c: usize)
    requires
        line <= spec_len_lines(rope_chars(*r)),
    ensures
        c == spec_line_start(rope_chars(*r), line as int),
{
    r.line_to_char(line)
}

/// Calls `Rope::char_to_line` (which panics past one-past-the-end).
/// Claims: the line holding the char index.
#[verifier::external_body]
pub(crate) fn rope_char_to_line(r: &Rope, c: usize) -> (line: usize)
    requires
        c <= rope_chars(*r).len(),
    ensures
        line == spec_char_line(rope_chars(*r), c as int),
{
    r.char_to_line(c)
}

/// Calls `Rope::line` and turns the slice into a `String` (`line` panics
/// past the last line). Claims: the characters from the line's start to the
/// next line's start, line break included.
#[verifier::external_body]
pub(crate) fn rope_line_text(r: &Rope, line: usize) -> (s: String)
    requires
        line < spec_len_lines(rope_chars(*r)),
    ensures
        s@ == rope_chars(*r).subrange(
            spec_line_start(rope_chars(*r), line as int),
            spec_line_start(rope_chars(*r), line + 1),
        ),
{
    r.line(line).to_string()
}

/// Calls `Rope::slice` on a char range and turns it into a `String`
/// (`slice` panics on a range outside the text). Claims: those characters.
#[verifier::external_body]
pub(crate) fn rope_slice_text(r: &Rope, from: usize, to: usize) -> (s: String)
    requires
        from <= to <= rope_chars(*r).len(),
    ensures
        s@ == rope_chars(*r).subrange(from as int, to as int),
{
    r.slice(from..to).to_string()
}

} // verus!
