//! Small string helpers over character sequences.

use vstd::prelude::*;

verus! {

/// The characters of `s`, in order.
pub fn chars_vec(s: &str) -> (r: Vec<char>)
    ensures
        r@ == s@,
{
    let mut out: Vec<char> = Vec::new();
    for c in it: s.chars()
        invariant
            out@ == it.seq().take(it.index() as int),
    {
        out.push(c);
    }
    out
}

/// Calls `String::push`. Claims: the character is appended at the end.
#[verifier::external_body]
pub(crate) fn string_push(s: &mut String, c: char)
    ensures
        final(s)@ == old(s)@.push(c),
{
    s.push(c);
}

/// A `String` holding exactly the characters `cs[from..to]`.
pub fn string_from_range(cs: &[char], from: usize, to: usize) -> (r: String)
    requires
        from <= to <= cs@.len(),
    ensures
        r@ == cs@.subrange(from as int, to as int),
{
    let mut out = String::new();
    let mut i = from;
    while i < to
        invariant
            from <= i <= to <= cs@.len(),
            out@ == cs@.subrange(from as int, i as int),
        decreases to - i,
    {
        string_push(&mut out, cs[i]);
        i = i + 1;
    }
    out
}

/// A `String` holding exactly the characters of `cs`.
pub fn string_from_chars(cs: &[char]) -> (r: String)
    ensures
        r@ == cs@,
{
    string_from_range(cs, 0, cs.len())
}

/// Whether two character slices hold the same characters.
pub fn chars_eq(a: &[char], b: &[char]) -> (r: bool)
    ensures
        r == (a@ == b@),
{
    if a.len() != b.len() {
        return false;
    }
    let mut i: usize = 0;
    while i < a.len()
        invariant
            a@.len() == b@.len(),
            0 <= i <= a@.len(),
            a@.subrange(0, i as int) == b@.subrange(0, i as int),
        decreases a.len() - i,
    {
        if a[i] != b[i] {
            assert(a@[i as int] != b@[i as int]);
            return false;
        }
        assert(a@.subrange(0, i + 1) == a@.subrange(0, i as int).push(a@[i as int]));
        assert(b@.subrange(0, i + 1) == b@.subrange(0, i as int).push(b@[i as int]));
        i = i + 1;
    }
    assert(a@ == a@.subrange(0, a@.len() as int));
    assert(b@ == b@.subrange(0, b@.len() as int));
    true
}

/// Whether two strings hold the same characters.
pub fn text_eq(a: &str, b: &str) -> (r: bool)
    ensures
        r == (a@ == b@),
{
    let av = chars_vec(a);
    let bv = chars_vec(b);
    chars_eq(av.as_slice(), bv.as_slice())
}

/// Whether `cs[at..]` begins with `prefix`.
pub fn chars_have_prefix_at(cs: &[char], at: usize, prefix: &[char]) -> (r: bool)
    requires
        at <= cs@.len(),
    ensures
        r == (at + prefix@.len() <= cs@.len() && cs@.subrange(at as int, at + prefix@.len())
            == prefix@),
{
    if prefix.len() > cs.len() - at {
        return false;
    }
    let mut i: usize = 0;
    while i < prefix.len()
        invariant
            at + prefix@.len() <= cs.len(),
            0 <= i <= prefix@.len(),
            cs@.subrange(at as int, at + i) == prefix@.subrange(0, i as int),
        decreases prefix.len() - i,
    {
        if cs[at + i] != prefix[i] {
            assert(cs@.subrange(at as int, at + prefix@.len())[i as int] == cs@[at + i]);
            return false;
        }
        assert(cs@.subrange(at as int, at + i + 1) == cs@.subrange(at as int, at + i).push(
            cs@[at + i],
        ));
        assert(prefix@.subrange(0, i + 1) == prefix@.subrange(0, i as int).push(prefix@[i as int]));
        i = i + 1;
    }
    assert(prefix@ == prefix@.subrange(0, prefix@.len() as int));
    true
}

/// `s` with every trailing `c` removed.
pub open spec fn trim_end_char(s: Seq<char>, c: char) -> Seq<char>
    decreases s.len(),
{
    if s.len() > 0 && s.last() == c {
        trim_end_char(s.drop_last(), c)
    } else {
        s
    }
}

/// Length of `s` once every trailing `c` is removed.
pub fn trimmed_end_len(s: &[char], len: usize, c: char) -> (r: usize)
    requires
        len <= s@.len(),
    ensures
        r <= len,
        s@.subrange(0, r as int) == trim_end_char(s@.subrange(0, len as int), c),
{
    let mut n = len;
    while n > 0 && s[n - 1] == c
        invariant
            n <= len <= s@.len(),
            trim_end_char(s@.subrange(0, n as int), c) == trim_end_char(
                s@.subrange(0, len as int),
                c,
            ),
        decreases n,
    {
        assert(s@.subrange(0, n as int).drop_last() == s@.subrange(0, n - 1));
        n = n - 1;
    }
    n
}

} // verus!
