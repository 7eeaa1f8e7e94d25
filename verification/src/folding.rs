//! Folding ranges, found by scanning the raw text (so that they hold up
//! while the text does not parse): balanced `{}` / `【】` pairs over several
//! lines, runs of `//` comment lines, and runs of import lines.

use vstd::prelude::*;
use crate::document::text_fits;
use crate::strings::{chars_have_prefix_at, chars_vec};
use crate::unicode::{char_is_whitespace, spec_char_is_whitespace};

verus! {

/// What a folding range folds.
#[derive(Debug, Clone, Copy, PartialEq, Eq, Structural)]
pub enum FoldingRangeKind {
    /// A block between braces.
    Region,
    /// A run of comment lines.
    Comment,
    /// A run of import lines.
    Imports,
}

/// A range of lines that can be folded.
#[derive(Debug, Clone, PartialEq, Eq)]
pub struct FoldingRange {
    pub start_line: u32,
    pub start_character: Option<u32>,
    pub end_line: u32,
    pub end_character: Option<u32>,
    pub kind: Option<FoldingRangeKind>,
    pub collapsed_text: Option<String>,
}

/// A folding range as its lines and kind; the other fields are unset.
pub open spec fn fold_view(f: FoldingRange) -> Option<(int, int, FoldingRangeKind)> {
    if f.start_character is None && f.end_character is None && f.collapsed_text is None && f.kind is Some {
        Some((f.start_line as int, f.end_line as int, f.kind->0))
    } else {
        None
    }
}

/// The folding ranges hold exactly these lines and kinds, in order.
pub open spec fn folds_are(out: Seq<FoldingRange>, want: Seq<(int, int, FoldingRangeKind)>) -> bool {
    &&& out.len() == want.len()
    &&& forall|k: int| 0 <= k < out.len() ==> fold_view(#[trigger] out[k]) == Some(want[k])
}

/// The state of the brace scan: open braces' lines, the current line, and
/// whether the scan is in a line comment, a block comment or a string.
pub struct BraceScan {
    pub stack: Seq<int>,
    pub line: int,
    pub in_line_comment: bool,
    pub in_block_comment: bool,
    pub in_string: bool,
}

/// The brace pairs closed from index `i` on, as (opening line, closing
/// line) for pairs over more than one line. A newline ends a line comment;
/// `*/` ends a block comment; `"` starts or ends a string, in which a `\`
/// skips the next character; `//` and `/*` open comments; an unmatched
/// closing brace is ignored.
pub open spec fn brace_folds(s: Seq<char>, i: int, st: BraceScan) -> Seq<(int, int)>
    decreases s.len() + 1 - i,
{
    if i < 0 || i >= s.len() {
        Seq::empty()
    } else {
        let ch = s[i];
        if ch == '\n' {
            brace_folds(s, i + 1, BraceScan { in_line_comment: false, line: st.line + 1, ..st })
        } else if st.in_line_comment {
            brace_folds(s, i + 1, st)
        } else if st.in_block_comment {
            if ch == '*' && i + 1 < s.len() && s[i + 1] == '/' {
                brace_folds(s, i + 2, BraceScan { in_block_comment: false, ..st })
            } else {
                brace_folds(s, i + 1, st)
            }
        } else if ch == '"' {
            brace_folds(s, i + 1, BraceScan { in_string: !st.in_string, ..st })
        } else if st.in_string {
            if ch == '\\' {
                brace_folds(s, i + 2, st)
            } else {
                brace_folds(s, i + 1, st)
            }
        } else if ch == '/' {
            if i + 1 < s.len() && s[i + 1] == '/' {
                brace_folds(s, i + 2, BraceScan { in_line_comment: true, ..st })
            } else if i + 1 < s.len() && s[i + 1] == '*' {
                brace_folds(s, i + 2, BraceScan { in_block_comment: true, ..st })
            } else {
                brace_folds(s, i + 1, st)
            }
        } else if ch == '{' || ch == '【' {
            brace_folds(s, i + 1, BraceScan { stack: st.stack.push(st.line), ..st })
        } else if ch == '}' || ch == '】' {
            if st.stack.len() > 0 {
                let start = st.stack.last();
                let rest = brace_folds(s, i + 1, BraceScan { stack: st.stack.drop_last(), ..st });
                if st.line > start {
                    seq![(start, st.line)] + rest
                } else {
                    rest
                }
            } else {
                brace_folds(s, i + 1, st)
            }
        } else {
            brace_folds(s, i + 1, st)
        }
    }
}

/// The number of newlines in a text.
pub open spec fn newlines(s: Seq<char>) -> int
    decreases s.len(),
{
    if s.len() == 0 {
        0
    } else {
        newlines(s.drop_last()) + if s.last() == '\n' {
            1int
        } else {
            0
        }
    }
}

/// The pieces of a text between newlines (one more than there are
/// newlines).
pub open spec fn split_lines(s: Seq<char>) -> Seq<Seq<char>>
    decreases s.len(),
{
    if s.len() == 0 {
        seq![Seq::empty()]
    } else {
        let prev = split_lines(s.drop_last());
        if s.last() == '\n' {
            prev.push(Seq::empty())
        } else {
            prev.update(prev.len() - 1, prev.last().push(s.last()))
        }
    }
}

/// A line without its leading white space.
pub open spec fn trim_start(l: Seq<char>) -> Seq<char>
    decreases l.len(),
{
    if l.len() > 0 && spec_char_is_whitespace(l[0]) {
        trim_start(l.skip(1))
    } else {
        l
    }
}

/// `p` begins `l`.
pub open spec fn begins_with(l: Seq<char>, p: Seq<char>) -> bool {
    p.len() <= l.len() && l.subrange(0, p.len() as int) == p
}

/// A line that is a `//` comment.
pub open spec fn is_comment_line(l: Seq<char>) -> bool {
    begins_with(trim_start(l), "//"@)
}

/// A line that is an import.
pub open spec fn is_import_line(l: Seq<char>) -> bool {
    begins_with(trim_start(l), "导入"@) || begins_with(trim_start(l), "公开 导入"@)
}

/// The runs of lines, from line `i` on, for which `is_run_line` holds, as
/// (first line, last line) for runs of two or more; `start` is the run in
/// progress. A run still open at the end is kept when `flush` is set.
pub open spec fn line_runs(
    flags: Seq<bool>,
    i: int,
    start: Option<int>,
    flush: bool,
) -> Seq<(int, int)>
    decreases flags.len() - i,
{
    if i < 0 || i >= flags.len() {
        match start {
            Some(st) => if flush && flags.len() - 1 > st {
                seq![(st, flags.len() - 1)]
            } else {
                Seq::empty()
            },
            None => Seq::empty(),
        }
    } else {
        match (flags[i], start) {
            (true, None) => line_runs(flags, i + 1, Some(i), flush),
            (false, Some(st)) => (if i - 1 > st {
                seq![(st, i - 1)]
            } else {
                Seq::empty()
            }) + line_runs(flags, i + 1, None, flush),
            _ => line_runs(flags, i + 1, start, flush),
        }
    }
}

/// Tag each pair with a kind.
pub open spec fn with_kind(ps: Seq<(int, int)>, k: FoldingRangeKind) -> Seq<(int, int, FoldingRangeKind)> {
    ps.map_values(|p: (int, int)| (p.0, p.1, k))
}

/// The folding ranges of a text: brace regions, then comment runs, then
/// import runs.
pub open spec fn spec_folding_ranges(s: Seq<char>) -> Seq<(int, int, FoldingRangeKind)> {
    let lines = split_lines(s);
    with_kind(
        brace_folds(
            s,
            0,
            BraceScan {
                stack: Seq::empty(),
                line: 0,
                in_line_comment: false,
                in_block_comment: false,
                in_string: false,
            },
        ),
        FoldingRangeKind::Region,
    ) + with_kind(
        line_runs(lines.map_values(|l: Seq<char>| is_comment_line(l)), 0, None, true),
        FoldingRangeKind::Comment,
    ) + with_kind(
        line_runs(lines.map_values(|l: Seq<char>| is_import_line(l)), 0, None, true),
        FoldingRangeKind::Imports,
    )
}

proof fn lemma_newlines_prefix(s: Seq<char>, i: int, j: int)
    requires
        0 <= i <= j <= s.len(),
    ensures
        newlines(s.take(i)) <= newlines(s.take(j)),
    decreases j - i,
{
    if i < j {
        lemma_newlines_prefix(s, i, j - 1);
        assert(s.take(j).drop_last() =~= s.take(j - 1));
    }
}

proof fn lemma_split_lines_len(s: Seq<char>)
    ensures
        split_lines(s).len() == newlines(s) + 1,
        newlines(s) >= 0,
    decreases s.len(),
{
    if s.len() > 0 {
        lemma_split_lines_len(s.drop_last());
        let prev = split_lines(s.drop_last());
        if s.last() != '\n' {
            assert(prev.update(prev.len() - 1, prev.last().push(s.last())).len() == prev.len());
        }
    }
}

fn new_fold(start: u32, end: u32, kind: FoldingRangeKind) -> (r: FoldingRange)
    ensures
        fold_view(r) == Some((start as int, end as int, kind)),
{
    FoldingRange {
        start_line: start,
        start_character: None,
        end_line: end,
        end_character: None,
        kind: Some(kind),
        collapsed_text: None,
    }
}

fn push_fold(out: &mut Vec<FoldingRange>, start: u32, end: u32, kind: FoldingRangeKind, Ghost(want): Ghost<
    Seq<(int, int, FoldingRangeKind)>,
>)
    requires
        folds_are(old(out)@, want),
    ensures
        folds_are(final(out)@, want.push((start as int, end as int, kind))),
{
    out.push(new_fold(start, end, kind));
    proof {
        let w2 = want.push((start as int, end as int, kind));
        assert forall|k: int| 0 <= k < out@.len() implies fold_view(#[trigger] out@[k]) == Some(w2[k]) by {
            if k < want.len() {
                assert(out@[k] == old(out)@[k]);
            }
        }
    }
}

fn brace_regions(cs: &Vec<char>, out: &mut Vec<FoldingRange>, Ghost(want): Ghost<Seq<(int, int, FoldingRangeKind)>>)
    requires
        folds_are(old(out)@, want),
        newlines(cs@) <= u32::MAX,
        text_fits(cs@),
    ensures
        folds_are(
            final(out)@,
            want + with_kind(
                brace_folds(
                    cs@,
                    0,
                    BraceScan {
                        stack: Seq::empty(),
                        line: 0,
                        in_line_comment: false,
                        in_block_comment: false,
                        in_string: false,
                    },
                ),
                FoldingRangeKind::Region,
            ),
        ),
{
    let n = cs.len();
    let mut stack: Vec<u32> = Vec::new();
    let mut line_idx: u32 = 0;
    let mut in_line_comment = false;
    let mut in_block_comment = false;
    let mut in_string = false;
    let mut i: usize = 0;
    let ghost total = with_kind(
        brace_folds(
            cs@,
            0,
            BraceScan {
                stack: Seq::empty(),
                line: 0,
                in_line_comment: false,
                in_block_comment: false,
                in_string: false,
            },
        ),
        FoldingRangeKind::Region,
    );
    let ghost mut done: Seq<(int, int, FoldingRangeKind)> = want;
    proof {
        assert(stack@.map_values(|x: u32| x as int) =~= Seq::<int>::empty());
        assert(done + total =~= want + total);
        assert(cs@.take(0) =~= Seq::<char>::empty());
    }
    while i < n
        invariant
            n == cs@.len(),
            i <= n + 1,
            newlines(cs@) <= u32::MAX,
            text_fits(cs@),
            i <= n ==> line_idx <= newlines(cs@.take(i as int)),
            i > n ==> line_idx <= newlines(cs@),
            forall|k: int| 0 <= k < stack@.len() ==> #[trigger] stack@[k] <= line_idx,
            folds_are(out@, done),
            want + total == done + with_kind(
                brace_folds(
                    cs@,
                    i as int,
                    BraceScan {
                        stack: stack@.map_values(|x: u32| x as int),
                        line: line_idx as int,
                        in_line_comment,
                        in_block_comment,
                        in_string,
                    },
                ),
                FoldingRangeKind::Region,
            ),
        decreases n + 1 - i,
    {
        let ch = cs[i];
        let ghost old_i = i as int;
        let ghost old_line = line_idx as int;
        let ghost st = BraceScan {
            stack: stack@.map_values(|x: u32| x as int),
            line: line_idx as int,
            in_line_comment,
            in_block_comment,
            in_string,
        };
        proof {
            lemma_newlines_prefix(cs@, i as int + 1, n as int);
            assert(cs@.take(i + 1).drop_last() =~= cs@.take(i as int));
            assert(cs@.take(n as int) =~= cs@);
        }
        if ch == '\n' {
            in_line_comment = false;
            line_idx = line_idx + 1;
            i = i + 1;
        } else if in_line_comment {
            i = i + 1;
        } else if in_block_comment {
            if ch == '*' && i + 1 < n && cs[i + 1] == '/' {
                in_block_comment = false;
                i = i + 2;
            } else {
                i = i + 1;
            }
        } else if ch == '"' {
            in_string = !in_string;
            i = i + 1;
        } else if in_string {
            if ch == '\\' {
                i = i + 2;
            } else {
                i = i + 1;
            }
        } else if ch == '/' {
            if i + 1 < n && cs[i + 1] == '/' {
                in_line_comment = true;
                i = i + 2;
            } else if i + 1 < n && cs[i + 1] == '*' {
                in_block_comment = true;
                i = i + 2;
            } else {
                i = i + 1;
            }
        } else if ch == '{' || ch == '【' {
            stack.push(line_idx);
            proof {
                assert(stack@.map_values(|x: u32| x as int) =~= st.stack.push(line_idx as int));
            }
            i = i + 1;
        } else if ch == '}' || ch == '】' {
            if stack.len() > 0 {
                let start = stack.pop().unwrap();
                proof {
                    assert(stack@.map_values(|x: u32| x as int) =~= st.stack.drop_last());
                }
                if line_idx > start {
                    let ghost rest = with_kind(
                        brace_folds(
                            cs@,
                            i + 1,
                            BraceScan {
                                stack: stack@.map_values(|x: u32| x as int),
                                line: line_idx as int,
                                in_line_comment,
                                in_block_comment,
                                in_string,
                            },
                        ),
                        FoldingRangeKind::Region,
                    );
                    push_fold(out, start, line_idx, FoldingRangeKind::Region, Ghost(done));
                    proof {
                        let item = (start as int, line_idx as int, FoldingRangeKind::Region);
                        assert(with_kind(seq![(start as int, line_idx as int)] + brace_folds(
                            cs@,
                            i + 1,
                            BraceScan {
                                stack: stack@.map_values(|x: u32| x as int),
                                line: line_idx as int,
                                in_line_comment,
                                in_block_comment,
                                in_string,
                            },
                        ), FoldingRangeKind::Region) =~= seq![item] + rest);
                        assert(done + (seq![item] + rest) =~= done.push(item) + rest);
                        done = done.push(item);
                    }
                }
            }
            i = i + 1;
        } else {
            i = i + 1;
        }
        proof {
            if i <= n {
                lemma_newlines_prefix(cs@, old_i + 1, i as int);
            }
        }
    }
    proof {
        assert(with_kind(
            brace_folds(
                cs@,
                i as int,
                BraceScan {
                    stack: stack@.map_values(|x: u32| x as int),
                    line: line_idx as int,
                    in_line_comment,
                    in_block_comment,
                    in_string,
                },
            ),
            FoldingRangeKind::Region,
        ) =~= Seq::empty());
        assert(done + Seq::<(int, int, FoldingRangeKind)>::empty() =~= done);
    }
}

/// The views of a list of lines.
pub open spec fn lines_view(v: Seq<Vec<char>>) -> Seq<Seq<char>> {
    v.map_values(|l: Vec<char>| l@)
}

fn split_into_lines(cs: &Vec<char>) -> (r: Vec<Vec<char>>)
    ensures
        lines_view(r@) == split_lines(cs@),
{
    let mut lines: Vec<Vec<char>> = Vec::new();
    let mut cur: Vec<char> = Vec::new();
    let mut i: usize = 0;
    proof {
        assert(cs@.take(0) =~= Seq::<char>::empty());
        assert(lines_view(lines@) + seq![cur@] =~= split_lines(cs@.take(0)));
    }
    while i < cs.len()
        invariant
            i <= cs@.len(),
            lines_view(lines@) + seq![cur@] == split_lines(cs@.take(i as int)),
        decreases cs.len() - i,
    {
        let c = cs[i];
        let ghost lv = lines_view(lines@);
        let ghost cv = cur@;
        proof {
            assert(cs@.take(i + 1).drop_last() =~= cs@.take(i as int));
            assert(cs@.take(i + 1).last() == c);
        }
        if c == '\n' {
            let done = cur;
            lines.push(done);
            cur = Vec::new();
            proof {
                assert(lines_view(lines@) =~= lv.push(cv));
                assert(lines_view(lines@) + seq![cur@] =~= (lv + seq![cv]).push(Seq::empty()));
            }
        } else {
            cur.push(c);
            proof {
                let prev = lv + seq![cv];
                assert(lines_view(lines@) + seq![cur@] =~= prev.update(prev.len() - 1, prev.last().push(c)));
            }
        }
        i = i + 1;
    }
    lines.push(cur);
    proof {
        assert(cs@.take(cs@.len() as int) =~= cs@);
        assert(lines_view(lines@) =~= split_lines(cs@));
    }
    lines
}

fn trimmed_starts_with(l: &Vec<char>, p: &str) -> (r: bool)
    ensures
        r == begins_with(trim_start(l@), p@),
{
    let mut k: usize = 0;
    assert(l@.skip(0) =~= l@);
    while k < l.len()
        invariant
            k <= l@.len(),
            trim_start(l@) == trim_start(l@.skip(k as int)),
        ensures
            k <= l@.len(),
            trim_start(l@) == trim_start(l@.skip(k as int)),
            k < l@.len() ==> !spec_char_is_whitespace(l@[k as int]),
        decreases l.len() - k,
    {
        if !char_is_whitespace(l[k]) {
            break;
        }
        proof {
            assert(l@.skip(k as int)[0] == l@[k as int]);
            assert(l@.skip(k as int).skip(1) =~= l@.skip(k + 1));
        }
        k = k + 1;
    }
    proof {
        if k < l@.len() {
            assert(l@.skip(k as int)[0] == l@[k as int]);
        }
        assert(trim_start(l@) == l@.skip(k as int));
    }
    let pv = chars_vec(p);
    let r = chars_have_prefix_at(l.as_slice(), k, pv.as_slice());
    proof {
        if k + pv@.len() <= l@.len() {
            assert(l@.skip(k as int).subrange(0, pv@.len() as int) =~= l@.subrange(k as int, k + pv@.len()));
        }
    }
    r
}

/// Which lines a run collects: imports, or comments.
pub open spec fn run_flags(lines: Seq<Seq<char>>, imports: bool) -> Seq<bool> {
    if imports {
        lines.map_values(|l: Seq<char>| is_import_line(l))
    } else {
        lines.map_values(|l: Seq<char>| is_comment_line(l))
    }
}

fn is_run_line(l: &Vec<char>, imports: bool) -> (r: bool)
    ensures
        r == (if imports {
            is_import_line(l@)
        } else {
            is_comment_line(l@)
        }),
{
    if imports {
        trimmed_starts_with(l, "导入") || trimmed_starts_with(l, "公开 导入")
    } else {
        trimmed_starts_with(l, "//")
    }
}

fn line_run_folds(
    lines: &Vec<Vec<char>>,
    imports: bool,
    out: &mut Vec<FoldingRange>,
    Ghost(want): Ghost<Seq<(int, int, FoldingRangeKind)>>,
)
    requires
        folds_are(old(out)@, want),
        lines@.len() <= u32::MAX + 1,
        lines@.len() >= 1,
    ensures
        folds_are(
            final(out)@,
            want + with_kind(
                line_runs(run_flags(lines_view(lines@), imports), 0, None, true),
                if imports {
                    FoldingRangeKind::Imports
                } else {
                    FoldingRangeKind::Comment
                },
            ),
        ),
{
    let kind = if imports {
        FoldingRangeKind::Imports
    } else {
        FoldingRangeKind::Comment
    };
    let ghost flags = run_flags(lines_view(lines@), imports);
    let ghost total = with_kind(line_runs(flags, 0, None, true), kind);
    let ghost mut done = want;
    let mut block_start: Option<u32> = None;
    let mut i: usize = 0;
    assert(done + total =~= want + total);
    while i < lines.len()
        invariant
            i <= lines@.len() <= u32::MAX + 1,
            lines@.len() >= 1,
            flags == run_flags(lines_view(lines@), imports),
            kind == (if imports {
                FoldingRangeKind::Imports
            } else {
                FoldingRangeKind::Comment
            }),
            folds_are(out@, done),
            block_start matches Some(st) ==> st < i,
            want + total == done + with_kind(
                line_runs(
                    flags,
                    i as int,
                    match block_start {
                        Some(st) => Some(st as int),
                        None => None,
                    },
                    true,
                ),
                kind,
            ),
        decreases lines.len() - i,
    {
        let flag = is_run_line(&lines[i], imports);
        assert(flag == flags[i as int]);
        let ii = i as u32;
        match block_start {
            None => {
                if flag {
                    block_start = Some(ii);
                }
            },
            Some(start) => {
                if !flag {
                    let end = ii - 1;
                    if end > start {
                        let ghost rest = with_kind(line_runs(flags, i + 1, None, true), kind);
                        push_fold(out, start, end, kind, Ghost(done));
                        proof {
                            let item = (start as int, end as int, kind);
                            assert(with_kind(seq![(start as int, i - 1)] + line_runs(flags, i + 1, None, true), kind)
                                =~= seq![item] + rest);
                            assert(done + (seq![item] + rest) =~= done.push(item) + rest);
                            done = done.push(item);
                        }
                    } else {
                        assert(with_kind(Seq::<(int, int)>::empty() + line_runs(flags, i + 1, None, true), kind)
                            =~= with_kind(line_runs(flags, i + 1, None, true), kind));
                    }
                    block_start = None;
                }
            },
        }
        i = i + 1;
    }
    match block_start {
        Some(start) => {
            let end = (lines.len() - 1) as u32;
            if end > start {
                push_fold(out, start, end, kind, Ghost(done));
                proof {
                    let item = (start as int, end as int, kind);
                    assert(with_kind(seq![(start as int, lines@.len() - 1)], kind) =~= seq![item]);
                    done = done.push(item);
                }
            } else {
                assert(with_kind(Seq::<(int, int)>::empty(), kind) =~= Seq::empty());
                assert(done + Seq::<(int, int, FoldingRangeKind)>::empty() =~= done);
            }
        },
        None => {
            assert(with_kind(Seq::<(int, int)>::empty(), kind) =~= Seq::empty());
            assert(done + Seq::<(int, int, FoldingRangeKind)>::empty() =~= done);
        },
    }
}

/// Compute the folding ranges of a text: multi-line brace pairs, then runs
/// of two or more `//` comment lines, then runs of two or more import
/// lines (a run still open at the end of the text is closed there).
pub fn compute_folding_ranges(source: &str) -> (r: Vec<FoldingRange>)
    requires
        text_fits(source@),
        newlines(source@) <= u32::MAX,
    ensures
        folds_are(r@, spec_folding_ranges(source@)),
{
    let cs = chars_vec(source);
    let mut out: Vec<FoldingRange> = Vec::new();
    let lines = split_into_lines(&cs);
    proof {
        lemma_split_lines_len(cs@);
    }
    let ghost w0 = Seq::<(int, int, FoldingRangeKind)>::empty();
    brace_regions(&cs, &mut out, Ghost(w0));
    let ghost w1 = w0 + with_kind(
        brace_folds(
            cs@,
            0,
            BraceScan {
                stack: Seq::empty(),
                line: 0,
                in_line_comment: false,
                in_block_comment: false,
                in_string: false,
            },
        ),
        FoldingRangeKind::Region,
    );
    line_run_folds(&lines, false, &mut out, Ghost(w1));
    let ghost w2 = w1 + with_kind(
        line_runs(run_flags(lines_view(lines@), false), 0, None, true),
        FoldingRangeKind::Comment,
    );
    line_run_folds(&lines, true, &mut out, Ghost(w2));
    proof {
        assert(w0 + with_kind(
            brace_folds(
                cs@,
                0,
                BraceScan {
                    stack: Seq::empty(),
                    line: 0,
                    in_line_comment: false,
                    in_block_comment: false,
                    in_string: false,
                },
            ),
            FoldingRangeKind::Region,
        ) =~= with_kind(
            brace_folds(
                cs@,
                0,
                BraceScan {
                    stack: Seq::empty(),
                    line: 0,
                    in_line_comment: false,
                    in_block_comment: false,
                    in_string: false,
                },
            ),
            FoldingRangeKind::Region,
        ));
    }
    out
}

/// Each pair opens before it closes.
spec fn spans_lines(ps: Seq<(int, int)>) -> bool {
    forall|k: int| 0 <= k < ps.len() ==> (#[trigger] ps[k]).0 < ps[k].1
}

proof fn lemma_spans_concat(a: Seq<(int, int)>, b: Seq<(int, int)>)
    requires
        spans_lines(a),
        spans_lines(b),
    ensures
        spans_lines(a + b),
{
    assert forall|k: int| 0 <= k < (a + b).len() implies (#[trigger] (a + b)[k]).0 < (a + b)[k].1 by {
        if k < a.len() {
            assert((a + b)[k] == a[k]);
        } else {
            assert((a + b)[k] == b[k - a.len()]);
        }
    }
}

/// Every brace pair found closes on a later line than it opens.
proof fn lemma_brace_folds_span(s: Seq<char>, i: int, st: BraceScan)
    ensures
        spans_lines(brace_folds(s, i, st)),
    decreases s.len() + 1 - i,
{
    if i < 0 || i >= s.len() {
    } else {
        let ch = s[i];
        if ch == '\n' {
            lemma_brace_folds_span(s, i + 1, BraceScan { in_line_comment: false, line: st.line + 1, ..st });
        } else if st.in_line_comment {
            lemma_brace_folds_span(s, i + 1, st);
        } else if st.in_block_comment {
            if ch == '*' && i + 1 < s.len() && s[i + 1] == '/' {
                lemma_brace_folds_span(s, i + 2, BraceScan { in_block_comment: false, ..st });
            } else {
                lemma_brace_folds_span(s, i + 1, st);
            }
        } else if ch == '"' {
            lemma_brace_folds_span(s, i + 1, BraceScan { in_string: !st.in_string, ..st });
        } else if st.in_string {
            if ch == '\\' {
                lemma_brace_folds_span(s, i + 2, st);
            } else {
                lemma_brace_folds_span(s, i + 1, st);
            }
        } else if ch == '/' {
            if i + 1 < s.len() && s[i + 1] == '/' {
                lemma_brace_folds_span(s, i + 2, BraceScan { in_line_comment: true, ..st });
            } else if i + 1 < s.len() && s[i + 1] == '*' {
                lemma_brace_folds_span(s, i + 2, BraceScan { in_block_comment: true, ..st });
            } else {
                lemma_brace_folds_span(s, i + 1, st);
            }
        } else if ch == '{' || ch == '【' {
            lemma_brace_folds_span(s, i + 1, BraceScan { stack: st.stack.push(st.line), ..st });
        } else if ch == '}' || ch == '】' {
            if st.stack.len() > 0 {
                let rest_st = BraceScan { stack: st.stack.drop_last(), ..st };
                lemma_brace_folds_span(s, i + 1, rest_st);
                if st.line > st.stack.last() {
                    lemma_spans_concat(seq![(st.stack.last(), st.line)], brace_folds(s, i + 1, rest_st));
                }
            } else {
                lemma_brace_folds_span(s, i + 1, st);
            }
        } else {
            lemma_brace_folds_span(s, i + 1, st);
        }
    }
}

/// Every run found has at least two lines.
proof fn lemma_line_runs_span(flags: Seq<bool>, i: int, start: Option<int>, flush: bool)
    ensures
        spans_lines(line_runs(flags, i, start, flush)),
    decreases flags.len() - i,
{
    if i < 0 || i >= flags.len() {
    } else {
        match (flags[i], start) {
            (true, None) => lemma_line_runs_span(flags, i + 1, Some(i), flush),
            (false, Some(st)) => {
                lemma_line_runs_span(flags, i + 1, None, flush);
                let head = if i - 1 > st {
                    seq![(st, i - 1)]
                } else {
                    Seq::empty()
                };
                lemma_spans_concat(head, line_runs(flags, i + 1, None, flush));
            },
            _ => lemma_line_runs_span(flags, i + 1, start, flush),
        }
    }
}

/// Every folding range of a text spans more than one line: it starts on
/// an earlier line than it ends.
pub proof fn law_folds_span_lines(s: Seq<char>)
    ensures
        forall|k: int| 0 <= k < spec_folding_ranges(s).len() ==> (#[trigger] spec_folding_ranges(s)[k]).0
            < spec_folding_ranges(s)[k].1,
{
    let lines = split_lines(s);
    let b = brace_folds(
        s,
        0,
        BraceScan {
            stack: Seq::empty(),
            line: 0,
            in_line_comment: false,
            in_block_comment: false,
            in_string: false,
        },
    );
    let cflags = lines.map_values(|l: Seq<char>| is_comment_line(l));
    let iflags = lines.map_values(|l: Seq<char>| is_import_line(l));
    let c = line_runs(cflags, 0, None, true);
    let m = line_runs(iflags, 0, None, true);
    lemma_brace_folds_span(
        s,
        0,
        BraceScan {
            stack: Seq::empty(),
            line: 0,
            in_line_comment: false,
            in_block_comment: false,
            in_string: false,
        },
    );
    lemma_line_runs_span(cflags, 0, None, true);
    lemma_line_runs_span(iflags, 0, None, true);
    let all = with_kind(b, FoldingRangeKind::Region) + with_kind(c, FoldingRangeKind::Comment) + with_kind(
        m,
        FoldingRangeKind::Imports,
    );
    assert(all == spec_folding_ranges(s));
    assert forall|k: int| 0 <= k < all.len() implies (#[trigger] all[k]).0 < all[k].1 by {
        if k < b.len() {
            assert(all[k] == (b[k].0, b[k].1, FoldingRangeKind::Region));
        } else if k < b.len() + c.len() {
            let j = k - b.len();
            assert(all[k] == (c[j].0, c[j].1, FoldingRangeKind::Comment));
        } else {
            let j = k - b.len() - c.len();
            assert(all[k] == (m[j].0, m[j].1, FoldingRangeKind::Imports));
        }
    }
}

/// `flags[a..=b]` is a maximal run of set flags, two or more long.
pub open spec fn maximal_run(flags: Seq<bool>, a: int, b: int) -> bool {
    &&& 0 <= a < b < flags.len()
    &&& forall|k: int| a <= k <= b ==> #[trigger] flags[k]
    &&& (a == 0 || !flags[a - 1])
    &&& (b == flags.len() - 1 || !flags[b + 1])
}

proof fn lemma_run_from_start(flags: Seq<bool>, i: int, a: int, b: int)
    requires
        maximal_run(flags, a, b),
        a < i <= b + 1,
    ensures
        line_runs(flags, i, Some(a), true).contains((a, b)),
    decreases flags.len() - i,
{
    if i <= b {
        assert(flags[i]);
        lemma_run_from_start(flags, i + 1, a, b);
    } else if i < flags.len() {
        let r = line_runs(flags, i + 1, None, true);
        assert(line_runs(flags, i, Some(a), true) == seq![(a, b)] + r);
        assert((seq![(a, b)] + r)[0] == (a, b));
    } else {
        assert(line_runs(flags, i, Some(a), true) == seq![(a, b)]);
        assert(seq![(a, b)][0] == (a, b));
    }
}

proof fn lemma_run_reached(flags: Seq<bool>, i: int, start: Option<int>, a: int, b: int)
    requires
        maximal_run(flags, a, b),
        0 <= i <= a,
        i == a ==> start is None,
    ensures
        line_runs(flags, i, start, true).contains((a, b)),
    decreases a - i,
{
    if i == a {
        assert(flags[a]);
        lemma_run_from_start(flags, a + 1, a, b);
    } else {
        let next = match (flags[i], start) {
            (true, None) => Some(i),
            (false, Some(_)) => None,
            _ => start,
        };
        if i + 1 == a {
            assert(!flags[i]);
        }
        lemma_run_reached(flags, i + 1, next, a, b);
        let rest = line_runs(flags, i + 1, next, true);
        match (flags[i], start) {
            (false, Some(st)) => {
                let head: Seq<(int, int)> = if i - 1 > st {
                    seq![(st, i - 1)]
                } else {
                    Seq::empty()
                };
                assert(line_runs(flags, i, start, true) == head + rest);
                let k = choose|k: int| 0 <= k < rest.len() && rest[k] == (a, b);
                assert((head + rest)[head.len() + k] == (a, b));
            },
            _ => {},
        }
    }
}

proof fn lemma_with_kind_contains(ps: Seq<(int, int)>, p: (int, int), kind: FoldingRangeKind)
    requires
        ps.contains(p),
    ensures
        with_kind(ps, kind).contains((p.0, p.1, kind)),
{
    let k = choose|k: int| 0 <= k < ps.len() && ps[k] == p;
    assert(with_kind(ps, kind)[k] == (p.0, p.1, kind));
}

/// Two or more consecutive comment lines, with no comment line just
/// before or after them, fold as one comment range from the first to the
/// last; the same holds of import lines, which fold as an imports range
/// (also when the run reaches the end of the text).
pub proof fn law_line_runs_fold(s: Seq<char>, a: int, b: int)
    ensures
        maximal_run(split_lines(s).map_values(|l: Seq<char>| is_comment_line(l)), a, b) ==> spec_folding_ranges(
            s,
        ).contains((a, b, FoldingRangeKind::Comment)),
        maximal_run(split_lines(s).map_values(|l: Seq<char>| is_import_line(l)), a, b) ==> spec_folding_ranges(
            s,
        ).contains((a, b, FoldingRangeKind::Imports)),
{
    let lines = split_lines(s);
    let b0 = with_kind(
        brace_folds(
            s,
            0,
            BraceScan {
                stack: Seq::empty(),
                line: 0,
                in_line_comment: false,
                in_block_comment: false,
                in_string: false,
            },
        ),
        FoldingRangeKind::Region,
    );
    let cflags = lines.map_values(|l: Seq<char>| is_comment_line(l));
    let iflags = lines.map_values(|l: Seq<char>| is_import_line(l));
    let c = with_kind(line_runs(cflags, 0, None, true), FoldingRangeKind::Comment);
    let m = with_kind(line_runs(iflags, 0, None, true), FoldingRangeKind::Imports);
    assert(spec_folding_ranges(s) == b0 + c + m);
    if maximal_run(cflags, a, b) {
        lemma_run_reached(cflags, 0, None, a, b);
        lemma_with_kind_contains(line_runs(cflags, 0, None, true), (a, b), FoldingRangeKind::Comment);
        let k = choose|k: int| 0 <= k < c.len() && c[k] == (a, b, FoldingRangeKind::Comment);
        assert((b0 + c + m)[b0.len() + k] == c[k]);
    }
    if maximal_run(iflags, a, b) {
        lemma_run_reached(iflags, 0, None, a, b);
        lemma_with_kind_contains(line_runs(iflags, 0, None, true), (a, b), FoldingRangeKind::Imports);
        let k = choose|k: int| 0 <= k < m.len() && m[k] == (a, b, FoldingRangeKind::Imports);
        assert((b0 + c + m)[b0.len() + c.len() + k] == m[k]);
    }
}

} // verus!
