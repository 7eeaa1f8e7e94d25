//! Turning a document URI into the path of the file to build.

use vstd::prelude::*;
use crate::strings::{chars_have_prefix_at, chars_vec, string_from_range, string_push};

verus! {

/// Why a URI could not be turned into a path.
#[derive(Debug, Clone, Copy, PartialEq, Eq, Structural)]
pub enum UriError {
    /// The URI does not start with `file://`.
    InvalidFormat,
}

impl UriError {
    /// The error's message.
    pub fn message(&self) -> (r: String)
        ensures
            r@ == "Invalid URI format"@,
    {
        String::from_str("Invalid URI format")
    }
}

/// The text after a leading `file://`, if there is one.
pub open spec fn spec_strip_file_scheme(uri: Seq<char>) -> Option<Seq<char>> {
    if uri.len() >= 7 && uri.take(7) == "file://"@ {
        Some(uri.skip(7))
    } else {
        None
    }
}

/// The text after a leading `file://`, if there is one.
pub fn strip_file_scheme(uri: &str) -> (r: Option<String>)
    ensures
        match spec_strip_file_scheme(uri@) {
            Some(rest) => r matches Some(p) && p@ == rest,
            None => r is None,
        },
{
    let cs = chars_vec(uri);
    let prefix = chars_vec("file://");
    proof {
        reveal_strlit("file://");
    }
    if chars_have_prefix_at(cs.as_slice(), 0, prefix.as_slice()) {
        assert(cs@.take(7) == cs@.subrange(0, 7));
        Some(string_from_range(cs.as_slice(), 7, cs.len()))
    } else {
        assert(cs@.len() >= 7 ==> cs@.take(7) == cs@.subrange(0, 7));
        None
    }
}

/// Convert URI to file path (Unix form): `file:///path` gives `/path`.
pub fn uri_to_path(uri: &str) -> (r: Result<String, UriError>)
    ensures
        match spec_strip_file_scheme(uri@) {
            Some(rest) => r matches Ok(p) && p@ == rest,
            None => r == Err::<String, UriError>(UriError::InvalidFormat),
        },
{
    match strip_file_scheme(uri) {
        Some(p) => Ok(p),
        None => Err(UriError::InvalidFormat),
    }
}

/// `p` with one leading `/` removed, and every `/` written as `\`.
pub open spec fn spec_windows_path(p: Seq<char>) -> Seq<char> {
    let q = if p.len() > 0 && p[0] == '/' { p.skip(1) } else { p };
    q.map_values(|c: char| if c == '/' { '\\' } else { c })
}

/// Convert URI to file path (Windows form): `file:///C:/path` gives `C:\path`.
pub fn uri_to_windows_path(uri: &str) -> (r: Result<String, UriError>)
    ensures
        match spec_strip_file_scheme(uri@) {
            Some(rest) => r matches Ok(p) && p@ == spec_windows_path(rest),
            None => r == Err::<String, UriError>(UriError::InvalidFormat),
        },
{
    let rest = match strip_file_scheme(uri) {
        Some(p) => p,
        None => {
            return Err(UriError::InvalidFormat);
        },
    };
    let cs = chars_vec(rest.as_str());
    let from: usize = if cs.len() > 0 && cs[0] == '/' {
        1
    } else {
        0
    };
    let ghost q = cs@.skip(from as int);
    let mut out = String::new();
    let mut i = from;
    while i < cs.len()
        invariant
            from <= i <= cs@.len(),
            q == cs@.skip(from as int),
            out@ == q.take(i - from).map_values(|c: char| if c == '/' { '\\' } else { c }),
        decreases cs.len() - i,
    {
        let c = cs[i];
        let d = if c == '/' {
            '\\'
        } else {
            c
        };
        string_push(&mut out, d);
        proof {
            assert(q.take(i + 1 - from) =~= q.take(i - from).push(c));
        }
        i = i + 1;
    }
    proof {
        assert(q.take(i - from) =~= q);
    }
    Ok(out)
}

} // verus!
