//! Where an imported package's source file may lie: from the importing
//! document's URI to its directory, and from a module path to the files
//! that may hold the package, in the compiler's order of resolution.

use vstd::prelude::*;
use crate::build_task::{spec_strip_file_scheme, strip_file_scheme};
use crate::strings::{chars_vec, string_push, text_eq};
use crate::unicode::char_from_u32;

verus! {

/// Value of a hexadecimal digit.
pub open spec fn hex_value(c: char) -> Option<int> {
    if '0' <= c && c <= '9' {
        Some(c as int - '0' as int)
    } else if 'a' <= c && c <= 'f' {
        Some(c as int - 'a' as int + 10)
    } else if 'A' <= c && c <= 'F' {
        Some(c as int - 'A' as int + 10)
    } else {
        None
    }
}

/// What `u8::from_str_radix(s, 16)` gives for a two-character `s`: two
/// hexadecimal digits, or a `+` sign and one digit.
pub open spec fn hex_pair(a: char, b: char) -> Option<int> {
    if a == '+' {
        hex_value(b)
    } else {
        match (hex_value(a), hex_value(b)) {
            (Some(x), Some(y)) => Some(16 * x + y),
            _ => None,
        }
    }
}

/// The byte that the `%XX` group at index `i` of `s` gives, if one stands
/// there.
pub open spec fn pct_byte(s: Seq<char>, i: int) -> Option<int> {
    if 0 <= i && i + 3 <= s.len() && s[i] == '%' {
        hex_pair(s[i + 1], s[i + 2])
    } else {
        None
    }
}

/// The low six bits of the UTF-8 continuation byte (0x80..=0xBF) that the
/// `%XX` group at index `i` gives, if one stands there.
pub open spec fn pct_cont(s: Seq<char>, i: int) -> Option<int> {
    match pct_byte(s, i) {
        Some(b) => if 0x80 <= b < 0xC0 {
            Some(b - 0x80)
        } else {
            None
        },
        None => None,
    }
}

/// The character that a run of two to four `%XX` groups at the start of
/// `s` encodes in UTF-8, with the number of groups: the first group is a
/// lead byte, the others continuation bytes, and the code is neither
/// overlong nor a surrogate nor past U+10FFFF.
pub open spec fn pct_utf8_char(s: Seq<char>) -> Option<(int, int)> {
    match pct_byte(s, 0) {
        Some(b0) => if 0xC2 <= b0 <= 0xDF {
            match pct_cont(s, 3) {
                Some(c1) => Some(((b0 - 0xC0) * 64 + c1, 2)),
                None => None,
            }
        } else if 0xE0 <= b0 <= 0xEF {
            match (pct_cont(s, 3), pct_cont(s, 6)) {
                (Some(c1), Some(c2)) => {
                    let cp = (b0 - 0xE0) * 4096 + c1 * 64 + c2;
                    if cp >= 0x800 && !(0xD800 <= cp <= 0xDFFF) {
                        Some((cp, 3))
                    } else {
                        None
                    }
                },
                _ => None,
            }
        } else if 0xF0 <= b0 <= 0xF4 {
            match (pct_cont(s, 3), pct_cont(s, 6), pct_cont(s, 9)) {
                (Some(c1), Some(c2), Some(c3)) => {
                    let cp = (b0 - 0xF0) * 262144 + c1 * 4096 + c2 * 64 + c3;
                    if 0x10000 <= cp <= 0x10FFFF {
                        Some((cp, 4))
                    } else {
                        None
                    }
                },
                _ => None,
            }
        } else {
            None
        },
        None => None,
    }
}

/// Percent-decoding of a path: a run of `%XX` groups that encodes a
/// character in UTF-8 becomes that character; any other `%XX` becomes the
/// character whose code is the byte `XX`; a `%` not followed by two
/// characters that form a byte is kept together with the (at most two)
/// characters after it.
pub open spec fn spec_percent_decode(s: Seq<char>) -> Seq<char>
    decreases s.len(),
{
    if s.len() == 0 {
        Seq::empty()
    } else if s[0] == '%' {
        if pct_utf8_char(s) is Some {
            let (cp, n) = pct_utf8_char(s)->0;
            seq![cp as char] + spec_percent_decode(s.skip(3 * n))
        } else if s.len() >= 3 && hex_pair(s[1], s[2]) is Some {
            seq![(hex_pair(s[1], s[2])->0) as char] + spec_percent_decode(s.skip(3))
        } else {
            let k = if s.len() >= 3 {
                3
            } else {
                s.len() as int
            };
            s.take(k) + spec_percent_decode(s.skip(k))
        }
    } else {
        seq![s[0]] + spec_percent_decode(s.skip(1))
    }
}

fn hex_digit(c: char) -> (r: Option<u8>)
    ensures
        match hex_value(c) {
            Some(v) => r == Some(v as u8),
            None => r is None,
        },
{
    if '0' <= c && c <= '9' {
        Some(((c as u32) - 0x30) as u8)
    } else if 'a' <= c && c <= 'f' {
        Some(((c as u32) - 0x61 + 10) as u8)
    } else if 'A' <= c && c <= 'F' {
        Some(((c as u32) - 0x41 + 10) as u8)
    } else {
        None
    }
}

/// `u8::from_str_radix` on the two characters `a`, `b` in base 16.
fn hex_pair_value(a: char, b: char) -> (r: Option<u8>)
    ensures
        match hex_pair(a, b) {
            Some(v) => r == Some(v as u8) && 0 <= v < 256,
            None => r is None,
        },
{
    if a == '+' {
        return hex_digit(b);
    }
    match (hex_digit(a), hex_digit(b)) {
        (Some(x), Some(y)) => Some(x * 16 + y),
        _ => None,
    }
}

proof fn lemma_pct_byte_skip(s: Seq<char>, i: int, j: int)
    requires
        0 <= i <= s.len(),
        0 <= j,
    ensures
        pct_byte(s.skip(i), j) == pct_byte(s, i + j),
        pct_cont(s.skip(i), j) == pct_cont(s, i + j),
{
    if i + j + 3 <= s.len() {
        assert(s.skip(i)[j] == s[i + j]);
        assert(s.skip(i)[j + 1] == s[i + j + 1]);
        assert(s.skip(i)[j + 2] == s[i + j + 2]);
    }
}

/// The byte of the `%XX` group at index `i` of `cs`, if one stands there.
fn pct_byte_at(cs: &Vec<char>, i: usize) -> (r: Option<u32>)
    ensures
        match pct_byte(cs@, i as int) {
            Some(b) => r == Some(b as u32) && 0 <= b < 256,
            None => r is None,
        },
{
    if i < cs.len() && cs.len() - i >= 3 && cs[i] == '%' {
        match hex_pair_value(cs[i + 1], cs[i + 2]) {
            Some(b) => Some(b as u32),
            None => None,
        }
    } else {
        None
    }
}

/// The low six bits of the continuation byte of the `%XX` group at index
/// `i` of `cs`, if one stands there.
fn pct_cont_at(cs: &Vec<char>, i: usize) -> (r: Option<u32>)
    ensures
        match pct_cont(cs@, i as int) {
            Some(b) => r == Some(b as u32) && 0 <= b < 64,
            None => r is None,
        },
{
    match pct_byte_at(cs, i) {
        Some(b) => if 0x80 <= b && b < 0xC0 {
            Some(b - 0x80)
        } else {
            None
        },
        None => None,
    }
}

/// The character that a run of `%XX` groups at index `i` of `cs` encodes
/// in UTF-8, with the number of groups.
fn pct_utf8_at(cs: &Vec<char>, i: usize) -> (r: Option<(char, usize)>)
    requires
        i <= cs@.len(),
    ensures
        match pct_utf8_char(cs@.skip(i as int)) {
            Some((cp, n)) => r matches Some((c, m)) && c == cp as char && m == n && 3 * n <= cs@.len() - i,
            None => r is None,
        },
{
    proof {
        lemma_pct_byte_skip(cs@, i as int, 0);
        lemma_pct_byte_skip(cs@, i as int, 3);
        lemma_pct_byte_skip(cs@, i as int, 6);
        lemma_pct_byte_skip(cs@, i as int, 9);
    }
    let b0 = match pct_byte_at(cs, i) {
        Some(b) => b,
        None => {
            return None;
        },
    };
    let rest = cs.len() - i;
    let (cp, n): (u32, usize) = if 0xC2 <= b0 && b0 <= 0xDF {
        if rest < 6 {
            return None;
        }
        match pct_cont_at(cs, i + 3) {
            Some(c1) => ((b0 - 0xC0) * 64 + c1, 2),
            None => {
                return None;
            },
        }
    } else if 0xE0 <= b0 && b0 <= 0xEF {
        if rest < 9 {
            return None;
        }
        match (pct_cont_at(cs, i + 3), pct_cont_at(cs, i + 6)) {
            (Some(c1), Some(c2)) => {
                let cp = (b0 - 0xE0) * 4096 + c1 * 64 + c2;
                if cp >= 0x800 && !(0xD800 <= cp && cp <= 0xDFFF) {
                    (cp, 3)
                } else {
                    return None;
                }
            },
            _ => {
                return None;
            },
        }
    } else if 0xF0 <= b0 && b0 <= 0xF4 {
        if rest < 12 {
            return None;
        }
        match (pct_cont_at(cs, i + 3), pct_cont_at(cs, i + 6), pct_cont_at(cs, i + 9)) {
            (Some(c1), Some(c2), Some(c3)) => {
                let cp = (b0 - 0xF0) * 262144 + c1 * 4096 + c2 * 64 + c3;
                if 0x10000 <= cp && cp <= 0x10FFFF {
                    (cp, 4)
                } else {
                    return None;
                }
            },
            _ => {
                return None;
            },
        }
    } else {
        return None;
    };
    match char_from_u32(cp) {
        Some(c) => {
            proof {
                vstd::utf8::char_u32_cast(c, cp);
            }
            assert(c == (cp as int) as char);
            Some((c, n))
        },
        None => None,
    }
}

/// Decode percent-encoded characters in a path (e.g. `%20` gives a space).
pub fn percent_decode_path(path: &str) -> (r: String)
    ensures
        r@ == spec_percent_decode(path@),
{
    let cs = chars_vec(path);
    let n = cs.len();
    let mut result = String::new();
    let mut i: usize = 0;
    proof {
        assert(cs@.skip(0) =~= cs@);
        assert(result@ + spec_percent_decode(cs@) =~= spec_percent_decode(cs@));
    }
    while i < n
        invariant
            n == cs@.len(),
            i <= n,
            result@ + spec_percent_decode(cs@.skip(i as int)) == spec_percent_decode(cs@),
        decreases n - i,
    {
        let ghost rest = cs@.skip(i as int);
        let ch = cs[i];
        if ch == '%' {
            match pct_utf8_at(&cs, i) {
                Some((c, groups)) => {
                    string_push(&mut result, c);
                    proof {
                        assert(rest.skip(3 * groups) =~= cs@.skip(i + 3 * groups));
                    }
                    i = i + 3 * groups;
                    proof {
                        assert(result@ + spec_percent_decode(cs@.skip(i as int)) =~= (result@.drop_last()
                            + (seq![result@.last()] + spec_percent_decode(cs@.skip(i as int)))));
                    }
                    continue;
                },
                None => {},
            }
            if n - i > 2 {
                match hex_pair_value(cs[i + 1], cs[i + 2]) {
                    Some(byte) => {
                        string_push(&mut result, byte as char);
                        proof {
                            assert(rest.skip(3) =~= cs@.skip(i + 3));
                            assert(rest[1] == cs@[i + 1] && rest[2] == cs@[i + 2]);
                        }
                        i = i + 3;
                        proof {
                            assert(result@ + spec_percent_decode(cs@.skip(i as int)) =~= (result@.drop_last()
                                + (seq![result@.last()] + spec_percent_decode(cs@.skip(i as int)))));
                        }
                        continue;
                    },
                    None => {},
                }
            }
            let k: usize = if n - i > 2 {
                3
            } else {
                n - i
            };
            let mut j: usize = 0;
            let ghost before = result@;
            while j < k
                invariant
                    i + k <= n,
                    n == cs@.len(),
                    j <= k,
                    result@ == before + cs@.subrange(i as int, (i + j) as int),
                decreases k - j,
            {
                string_push(&mut result, cs[i + j]);
                proof {
                    assert(cs@.subrange(i as int, (i + j + 1) as int) =~= cs@.subrange(i as int, (i + j) as int).push(cs@[i + j]));
                }
                j = j + 1;
            }
            proof {
                assert(rest.take(k as int) =~= cs@.subrange(i as int, (i + k) as int));
                assert(rest.skip(k as int) =~= cs@.skip((i + k) as int));
                if rest.len() >= 3 {
                    assert(rest[1] == cs@[i + 1] && rest[2] == cs@[i + 2]);
                }
                assert(before + (rest.take(k as int) + spec_percent_decode(rest.skip(k as int))) =~= result@
                    + spec_percent_decode(cs@.skip((i + k) as int)));
            }
            i = i + k;
        } else {
            string_push(&mut result, ch);
            proof {
                assert(rest.skip(1) =~= cs@.skip(i + 1));
                assert(result@.drop_last() + (seq![ch] + spec_percent_decode(rest.skip(1))) =~= result@
                    + spec_percent_decode(cs@.skip(i + 1)));
            }
            i = i + 1;
        }
    }
    proof {
        assert(cs@.skip(n as int) =~= Seq::<char>::empty());
        assert(result@ + Seq::<char>::empty() =~= result@);
    }
    result
}

/// The path a `file://` URI names, in Unix form: the rest of the URI
/// after the scheme, percent-decoded.
pub open spec fn spec_normalize_uri_to_path(uri: Seq<char>) -> Option<Seq<char>> {
    match spec_strip_file_scheme(uri) {
        Some(rest) => Some(spec_percent_decode(rest)),
        None => None,
    }
}

/// Normalize a URI to a file path (Unix form: `file:///path` gives `/path`).
pub fn normalize_uri_to_path(uri: &str) -> (r: Option<String>)
    ensures
        match spec_normalize_uri_to_path(uri@) {
            Some(p) => r matches Some(t) && t@ == p,
            None => r is None,
        },
{
    match strip_file_scheme(uri) {
        Some(rest) => Some(percent_decode_path(rest.as_str())),
        None => None,
    }
}

/// The path a `file://` URI names, in Windows form: one leading `/`
/// dropped and every `/` written as `\`.
pub open spec fn spec_normalize_windows_uri(uri: Seq<char>) -> Option<Seq<char>> {
    match spec_strip_file_scheme(uri) {
        Some(rest) => {
            let p = if rest.len() > 0 && rest[0] == '/' {
                rest.skip(1)
            } else {
                rest
            };
            Some(p.map_values(|c: char| if c == '/' { '\\' } else { c }))
        },
        None => None,
    }
}

/// Normalize a URI to a file path in Windows form
/// (`file:///C:/Users/x` gives `C:\Users\x`).
pub fn normalize_windows_uri_to_path(uri: &str) -> (r: Option<String>)
    ensures
        match spec_normalize_windows_uri(uri@) {
            Some(p) => r matches Some(t) && t@ == p,
            None => r is None,
        },
{
    let rest = match strip_file_scheme(uri) {
        Some(rest) => rest,
        None => {
            return None;
        },
    };
    let cs = chars_vec(rest.as_str());
    let start: usize = if cs.len() > 0 && cs[0] == '/' {
        1
    } else {
        0
    };
    let ghost p = if cs@.len() > 0 && cs@[0] == '/' {
        cs@.skip(1)
    } else {
        cs@
    };
    assert(p =~= cs@.skip(start as int));
    let mut out = String::new();
    let mut i = start;
    while i < cs.len()
        invariant
            start <= i <= cs@.len(),
            p =~= cs@.skip(start as int),
            out@ =~= cs@.subrange(start as int, i as int).map_values(
                |c: char|
                    if c == '/' {
                        '\\'
                    } else {
                        c
                    },
            ),
        decreases cs.len() - i,
    {
        let c = cs[i];
        string_push(&mut out, if c == '/' { '\\' } else { c });
        proof {
            assert(cs@.subrange(start as int, i + 1) =~= cs@.subrange(start as int, i as int).push(c));
        }
        i = i + 1;
    }
    proof {
        assert(cs@.subrange(start as int, cs@.len() as int) =~= p);
    }
    Some(out)
}

/// The URI of a file path in Unix form: `file://` followed by the path.
pub open spec fn spec_path_to_uri(path: Seq<char>) -> Seq<char> {
    "file://"@ + path
}

/// Convert a file path to a URI string (Unix: `/a/b` gives `file:///a/b`).
pub fn path_to_uri(path: &str) -> (r: String)
    ensures
        r@ == spec_path_to_uri(path@),
{
    let s = String::from_str("file://");
    s.concat(path)
}

/// The URI of a file path in Windows form: `file:///` followed by the path
/// with every `\` written as `/`.
pub open spec fn spec_windows_path_to_uri(path: Seq<char>) -> Seq<char> {
    "file:///"@ + path.map_values(|c: char| if c == '\\' { '/' } else { c })
}

/// Convert a Windows file path to a URI string
/// (`C:\a\b` gives `file:///C:/a/b`).
pub fn windows_path_to_uri(path: &str) -> (r: String)
    ensures
        r@ == spec_windows_path_to_uri(path@),
{
    let cs = chars_vec(path);
    let mut out = String::from_str("file:///");
    let ghost head = out@;
    let mut i: usize = 0;
    while i < cs.len()
        invariant
            i <= cs@.len(),
            head == "file:///"@,
            out@ =~= head + cs@.subrange(0, i as int).map_values(
                |c: char|
                    if c == '\\' {
                        '/'
                    } else {
                        c
                    },
            ),
        decreases cs.len() - i,
    {
        let c = cs[i];
        string_push(&mut out, if c == '\\' { '/' } else { c });
        proof {
            assert(cs@.subrange(0, i + 1) =~= cs@.subrange(0, i as int).push(c));
        }
        i = i + 1;
    }
    proof {
        assert(cs@.subrange(0, cs@.len() as int) =~= path@);
    }
    out
}

/// Name for what `Path::join` gives: `base` with `part` pushed onto it.
pub uninterp spec fn spec_path_join(base: Seq<char>, part: Seq<char>) -> Seq<char>;

/// Name for what `Path::parent` gives: the path without its last
/// component, if it has one.
pub uninterp spec fn spec_path_parent(path: Seq<char>) -> Option<Seq<char>>;

/// Name for what `PathBuf::set_extension` leaves: the path with the
/// extension of its last component set to `ext`.
pub uninterp spec fn spec_path_set_extension(path: Seq<char>, ext: Seq<char>) -> Seq<char>;

/// Calls `Path::join`. Claims: the joined path is the named result for
/// these two paths (a path built from text is text again).
#[verifier::external_body]
pub(crate) fn path_join(base: &str, part: &str) -> (r: String)
    ensures
        r@ == spec_path_join(base@, part@),
{
    std::path::Path::new(base).join(part).to_string_lossy().into_owned()
}

/// Calls `Path::parent`. Claims: the parent is the named result for this
/// path.
#[verifier::external_body]
pub(crate) fn path_parent(path: &str) -> (r: Option<String>)
    ensures
        match spec_path_parent(path@) {
            Some(p) => r matches Some(t) && t@ == p,
            None => r is None,
        },
{
    std::path::Path::new(path).parent().map(|p| p.to_string_lossy().into_owned())
}

/// Calls `PathBuf::set_extension`, which panics on an extension holding a
/// path separator (`/`, and `\\` on Windows); no separator is admitted.
/// Claims: the path left is the named result for this path and extension.
#[verifier::external_body]
pub(crate) fn path_set_extension(path: &str, ext: &str) -> (r: String)
    requires
        !ext@.contains('/'),
        !ext@.contains('\\'),
    ensures
        r@ == spec_path_set_extension(path@, ext@),
{
    let mut buf = std::path::PathBuf::from(path);
    buf.set_extension(ext);
    buf.to_string_lossy().into_owned()
}

/// Where packages are looked for besides the importing file's directory,
/// and which candidate files exist: what the environment and the disk
/// answer, gathered before a search.
pub struct PackageSearch {
    /// The `QI_PACKAGES_PATH` directory, if set.
    pub packages_root: Option<String>,
    /// The working directory, if known.
    pub work_dir: Option<String>,
    /// The home directory, if known.
    pub home_dir: Option<String>,
    /// Whether paths and URIs take the Windows form.
    pub windows: bool,
    /// Candidate package files found on disk.
    pub existing_files: Vec<String>,
}

/// The system-wide package directory.
pub open spec fn spec_system_root(windows: bool) -> Seq<char> {
    if windows {
        "C:\\Program Files\\Qi\\packages"@
    } else {
        "/usr/local/lib/qi/packages"@
    }
}

/// `name.qi`.
pub open spec fn qi_file(name: Seq<char>) -> Seq<char> {
    name + ".qi"@
}

/// `dir/name/name.qi`: a package in its own directory under `dir`.
pub open spec fn package_dir_file(dir: Seq<char>, name: Seq<char>) -> Seq<char> {
    spec_path_join(spec_path_join(dir, name), qi_file(name))
}

/// `base` with `segs[i..]` joined on, one after another.
pub open spec fn join_all(base: Seq<char>, segs: Seq<String>, i: int) -> Seq<char>
    decreases segs.len() - i,
{
    if 0 <= i < segs.len() {
        join_all(spec_path_join(base, segs[i]@), segs, i + 1)
    } else {
        base
    }
}

/// The places a module path may resolve to, in order, from directory
/// `dir`: with a leading `.` or `..`, `name.qi` in that directory;
/// otherwise `name.qi` beside the file, the nested path with extension
/// `qi`, `name/name.qi`, then `name/name.qi` under the packages root, the
/// working directory's `qi_packages`, `~/.qi/packages` and the system-wide
/// package directory.
pub open spec fn spec_module_candidates(mp: Seq<String>, dir: Seq<char>, search: PackageSearch) -> Seq<Seq<char>> {
    if mp.len() == 0 {
        Seq::empty()
    } else if mp[0]@ == "."@ {
        if mp.len() > 1 {
            seq![spec_path_join(dir, qi_file(mp[1]@))]
        } else {
            Seq::empty()
        }
    } else if mp[0]@ == ".."@ {
        match spec_path_parent(dir) {
            Some(pd) => if mp.len() > 1 {
                seq![spec_path_join(pd, qi_file(mp[1]@))]
            } else {
                Seq::empty()
            },
            None => Seq::empty(),
        }
    } else {
        let first = mp[0]@;
        let direct = seq![spec_path_join(dir, qi_file(first))];
        let nested = if mp.len() > 1 {
            seq![spec_path_set_extension(join_all(spec_path_join(dir, first), mp, 1), "qi"@)]
        } else {
            Seq::empty()
        };
        let subdir = seq![package_dir_file(dir, first)];
        let from_root = match search.packages_root {
            Some(r) => seq![package_dir_file(r@, first)],
            None => Seq::empty(),
        };
        let from_work = match search.work_dir {
            Some(w) => seq![package_dir_file(spec_path_join(w@, "qi_packages"@), first)],
            None => Seq::empty(),
        };
        let from_home = match search.home_dir {
            Some(h) => seq![
                package_dir_file(spec_path_join(spec_path_join(h@, ".qi"@), "packages"@), first),
            ],
            None => Seq::empty(),
        };
        let system = seq![package_dir_file(spec_system_root(search.windows), first)];
        direct + nested + subdir + from_root + from_work + from_home + system
    }
}

/// The views of a vector of strings.
pub open spec fn string_views(v: Seq<String>) -> Seq<Seq<char>> {
    v.map_values(|s: String| s@)
}

fn package_dir_path(dir: &str, name: &str) -> (r: String)
    ensures
        r@ == package_dir_file(dir@, name@),
{
    let sub = path_join(dir, name);
    let file = String::from_str(name).concat(".qi");
    proof {
        reveal_strlit(".qi");
    }
    path_join(sub.as_str(), file.as_str())
}

/// Resolve a module path to the files that may hold the package, in the
/// compiler's order of resolution.
pub fn resolve_module_path(segments: &Vec<String>, current_dir: &str, search: &PackageSearch) -> (r: Vec<String>)
    ensures
        string_views(r@) == spec_module_candidates(segments@, current_dir@, *search),
{
    let mut possible_paths: Vec<String> = Vec::new();
    if segments.len() == 0 {
        proof {
            assert(string_views(possible_paths@) =~= Seq::<Seq<char>>::empty());
        }
        return possible_paths;
    }
    let first = segments[0].as_str();
    proof {
        reveal_strlit(".");
        reveal_strlit("..");
        reveal_strlit(".qi");
        reveal_strlit("qi");
    }
    if text_eq(first, ".") {
        if segments.len() > 1 {
            let file_name = String::from_str(segments[1].as_str()).concat(".qi");
            possible_paths.push(path_join(current_dir, file_name.as_str()));
        }
        proof {
            assert(string_views(possible_paths@) =~= spec_module_candidates(segments@, current_dir@, *search));
        }
        return possible_paths;
    }
    if text_eq(first, "..") {
        match path_parent(current_dir) {
            Some(parent_dir) => {
                if segments.len() > 1 {
                    let file_name = String::from_str(segments[1].as_str()).concat(".qi");
                    possible_paths.push(path_join(parent_dir.as_str(), file_name.as_str()));
                }
            },
            None => {},
        }
        proof {
            assert(string_views(possible_paths@) =~= spec_module_candidates(segments@, current_dir@, *search));
        }
        return possible_paths;
    }
    let file_name = String::from_str(first).concat(".qi");
    possible_paths.push(path_join(current_dir, file_name.as_str()));
    let ghost direct = string_views(possible_paths@);
    if segments.len() > 1 {
        let mut nested_path = path_join(current_dir, first);
        let mut i: usize = 1;
        while i < segments.len()
            invariant
                1 <= i <= segments@.len(),
                join_all(spec_path_join(current_dir@, first@), segments@, 1) == join_all(
                    nested_path@,
                    segments@,
                    i as int,
                ),
            decreases segments.len() - i,
        {
            nested_path = path_join(nested_path.as_str(), segments[i].as_str());
            i = i + 1;
        }
        proof {
            reveal_strlit("qi");
        }
        possible_paths.push(path_set_extension(nested_path.as_str(), "qi"));
    }
    let ghost upto_nested = string_views(possible_paths@);
    possible_paths.push(package_dir_path(current_dir, first));
    let ghost upto_subdir = string_views(possible_paths@);
    match &search.packages_root {
        Some(root) => possible_paths.push(package_dir_path(root.as_str(), first)),
        None => {},
    }
    let ghost upto_root = string_views(possible_paths@);
    match &search.work_dir {
        Some(w) => {
            let packages = path_join(w.as_str(), "qi_packages");
            possible_paths.push(package_dir_path(packages.as_str(), first));
        },
        None => {},
    }
    let ghost upto_work = string_views(possible_paths@);
    match &search.home_dir {
        Some(h) => {
            let qi = path_join(h.as_str(), ".qi");
            let packages = path_join(qi.as_str(), "packages");
            possible_paths.push(package_dir_path(packages.as_str(), first));
        },
        None => {},
    }
    let ghost upto_home = string_views(possible_paths@);
    let system_root = if search.windows {
        String::from_str("C:\\Program Files\\Qi\\packages")
    } else {
        String::from_str("/usr/local/lib/qi/packages")
    };
    possible_paths.push(package_dir_path(system_root.as_str(), first));
    proof {
        reveal_strlit("qi_packages");
        reveal_strlit(".qi");
        reveal_strlit("packages");
        reveal_strlit("C:\\Program Files\\Qi\\packages");
        reveal_strlit("/usr/local/lib/qi/packages");
        assert(string_views(possible_paths@) =~= spec_module_candidates(segments@, current_dir@, *search));
    }
    possible_paths
}

/// A path without `%` is left as it is by percent-decoding.
proof fn lemma_percent_decode_plain(s: Seq<char>)
    requires
        !s.contains('%'),
    ensures
        spec_percent_decode(s) == s,
    decreases s.len(),
{
    if s.len() > 0 {
        assert(s[0] != '%') by {
            assert(s.contains(s[0]));
        }
        let t = s.skip(1);
        assert forall|c: char| t.contains(c) implies s.contains(c) by {
            let k = choose|k: int| 0 <= k < t.len() && t[k] == c;
            assert(s[k + 1] == c);
        }
        lemma_percent_decode_plain(t);
        assert(seq![s[0]] + t =~= s);
    }
}

/// Unix form: the URI of a path names that path again, for every path
/// without a `%` (a `%` in a path is read back as the start of an escape).
pub proof fn law_unix_uri_names_its_path(path: Seq<char>)
    requires
        !path.contains('%'),
    ensures
        spec_normalize_uri_to_path(spec_path_to_uri(path)) == Some(path),
{
    reveal_strlit("file://");
    let uri = spec_path_to_uri(path);
    assert(uri.take(7) =~= "file://"@);
    assert(uri.skip(7) =~= path);
    lemma_percent_decode_plain(path);
}

/// Windows form: the URI of a path names that path again, for every path
/// without a `/` (a `/` in a path is read back as a `\`).
pub proof fn law_windows_uri_names_its_path(path: Seq<char>)
    requires
        !path.contains('/'),
    ensures
        spec_normalize_windows_uri(spec_windows_path_to_uri(path)) == Some(path),
{
    reveal_strlit("file://");
    reveal_strlit("file:///");
    let uri = spec_windows_path_to_uri(path);
    let mapped = path.map_values(|c: char| if c == '\\' { '/' } else { c });
    assert(uri.take(7) =~= "file://"@);
    let rest = uri.skip(7);
    assert(rest =~= seq!['/'] + mapped);
    assert(rest.skip(1) =~= mapped);
    let back = mapped.map_values(|c: char| if c == '/' { '\\' } else { c });
    assert forall|k: int| 0 <= k < path.len() implies back[k] == path[k] by {
        assert(path.contains(path[k]));
    }
    assert(back =~= path);
}

} // verus!
