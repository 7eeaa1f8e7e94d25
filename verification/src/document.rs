//! Document management: the open documents, their text and their parse
//! results, and conversions between line/character positions and offsets.

use vstd::prelude::*;
use dashmap::DashMap;
use ropey::Rope;
use std::sync::Arc;
use crate::ast::{ParseError, Program};
use crate::position::{DocumentPosition, DocumentRange};
use crate::strings::chars_vec;
use crate::word::{
    boundary_at, boundary_index, lemma_boundary_index_facts, lemma_boundary_of_offset, utf8_offset, utf8_prefix,
};
use crate::rope_text::{
    lemma_break_ends, lemma_char_line, lemma_line_start_monotone, rope_char_to_line, rope_chars, rope_clone,
    rope_from_str, rope_len_chars, rope_len_lines, rope_line_text, rope_line_to_char,
    rope_slice_text, rope_to_string, spec_char_line, spec_len_lines, spec_line_start,
};

verus! {

#[verifier::external_type_specification]
#[verifier::external_body]
#[verifier::reject_recursive_types(K)]
#[verifier::reject_recursive_types(V)]
#[verifier::reject_recursive_types(S)]
pub struct ExDashMap<K, V, S>(DashMap<K, V, S>);

/// Represents a single document in the editor.
pub struct Document {
    /// Document URI
    pub uri: String,
    /// Document content as a rope for efficient editing
    pub rope: Rope,
    /// Parsed syntax tree, when parsing succeeded
    pub ast: Option<Arc<Program>>,
    /// Parse errors, when parsing failed
    pub parse_errors: Option<Arc<Vec<ParseError>>>,
    /// Version of the document (for change tracking)
    pub version: i32,
    /// Language ID
    pub language_id: String,
}

/// What a document holds, as values.
pub struct DocumentView {
    pub uri: Seq<char>,
    pub text: Seq<char>,
    pub ast: Option<Arc<Program>>,
    pub parse_errors: Option<Arc<Vec<ParseError>>>,
    pub version: int,
    pub language_id: Seq<char>,
}

impl View for Document {
    type V = DocumentView;

    open spec fn view(&self) -> DocumentView {
        DocumentView {
            uri: self.uri@,
            text: rope_chars(self.rope),
            ast: self.ast,
            parse_errors: self.parse_errors,
            version: self.version as int,
            language_id: self.language_id@,
        }
    }
}

/// Calls `Arc::clone`. Claims: the clone shares the same value.
#[verifier::external_body]
fn arc_clone<T>(a: &Arc<T>) -> (r: Arc<T>)
    ensures
        r == *a,
{
    Arc::clone(a)
}

fn clone_opt_arc<T>(a: &Option<Arc<T>>) -> (r: Option<Arc<T>>)
    ensures
        r == *a,
{
    match a {
        Some(x) => Some(arc_clone(x)),
        None => None,
    }
}

impl Clone for Document {
    fn clone(&self) -> (r: Self)
        ensures
            r@ == self@,
    {
        Document {
            uri: self.uri.clone(),
            rope: rope_clone(&self.rope),
            ast: clone_opt_arc(&self.ast),
            parse_errors: clone_opt_arc(&self.parse_errors),
            version: self.version,
            language_id: self.language_id.clone(),
        }
    }
}

/// The empty document map.
pub open spec fn no_documents() -> Map<Seq<char>, DocumentView> {
    Map::empty()
}

/// Name for the documents a map holds, by URI.
pub uninterp spec fn doc_map(m: DashMap<String, Document>) -> Map<Seq<char>, DocumentView>;

/// Calls `DashMap::new`. Claims: the map holds nothing.
#[verifier::external_body]
fn docs_new() -> (r: DashMap<String, Document>)
    ensures
        doc_map(r) == no_documents(),
{
    DashMap::new()
}

/// Calls `DashMap::insert`. Claims: the key now maps to the document,
/// every other key is unchanged.
#[verifier::external_body]
fn docs_insert(m: &mut DashMap<String, Document>, key: String, doc: Document)
    ensures
        doc_map(*final(m)) == doc_map(*old(m)).insert(key@, doc@),
{
    m.insert(key, doc);
}

/// Calls `DashMap::view`, handing it a closure that clones the document
/// found. Claims: a document comes back exactly when the key is held, equal
/// to the one held.
#[verifier::external_body]
fn docs_get(m: &DashMap<String, Document>, key: &str) -> (r: Option<Document>)
    ensures
        r is Some <==> doc_map(*m).contains_key(key@),
        r matches Some(d) ==> d@ == doc_map(*m)[key@],
{
    m.view(key, |_, d| d.clone())
}

/// Calls `DashMap::remove`. Claims: the key is no longer held, every other
/// key is unchanged.
#[verifier::external_body]
fn docs_remove(m: &mut DashMap<String, Document>, key: &str)
    ensures
        doc_map(*final(m)) == doc_map(*old(m)).remove(key@),
{
    m.remove(key);
}

/// Calls `DashMap::contains_key`. Claims: whether the key is held.
#[verifier::external_body]
fn docs_contains(m: &DashMap<String, Document>, key: &str) -> (r: bool)
    ensures
        r == doc_map(*m).contains_key(key@),
{
    m.contains_key(key)
}

/// Walks the map with `DashMap::iter` and clones each key. Claims: every
/// held key comes back exactly once (as many keys as the map holds); the
/// order is the map's own.
#[verifier::external_body]
fn docs_keys(m: &DashMap<String, Document>) -> (r: Vec<String>)
    ensures
        forall|i: int| 0 <= i < r@.len() ==> doc_map(*m).contains_key(#[trigger] r@[i]@),
        forall|k: Seq<char>| #[trigger] doc_map(*m).contains_key(k) ==> exists|i: int|
            0 <= i < r@.len() && #[trigger] r@[i]@ == k,
        forall|i: int, j: int| 0 <= i < j < r@.len() ==> #[trigger] r@[i]@ != #[trigger] r@[j]@,
        r@.len() == doc_map(*m).dom().len(),
{
    m.iter().map(|entry| entry.key().clone()).collect()
}

/// Document manager that handles all open documents.
pub struct DocumentManager {
    /// Map of document URI to document state
    documents: DashMap<String, Document>,
}

/// A document keeps the tree of a successful parse and no errors, or no
/// tree and the single error of a failed one.
pub open spec fn holds_parse(d: DocumentView, parsed: Result<Program, ParseError>) -> bool {
    match parsed {
        Ok(p) => (d.ast matches Some(a) && *a == p) && d.parse_errors is None,
        Err(e) => d.ast is None && (d.parse_errors matches Some(errs) && errs@ == seq![e]),
    }
}

/// Converts a parse outcome to what a document keeps: the tree on
/// success; the single error on failure.
fn parse_content(parsed: Result<Program, ParseError>) -> (r: (
    Option<Arc<Program>>,
    Option<Arc<Vec<ParseError>>>,
))
    ensures
        match parsed {
            Ok(p) => (r.0 matches Some(a) && *a == p) && r.1 is None,
            Err(e) => r.0 is None && (r.1 matches Some(errs) && errs@ == seq![e]),
        },
{
    match parsed {
        Ok(program) => (Some(Arc::new(program)), None),
        Err(error) => {
            let v = vec![error];
            (None, Some(Arc::new(v)))
        },
    }
}

/// A text small enough that byte offsets computed over it (at most four
/// bytes per character, one more per line) fit in a machine word.
pub open spec fn text_fits(s: Seq<char>) -> bool {
    5 * s.len() + 2 <= usize::MAX
}

/// A URI short enough to hand to the URI parser, which reads at most
/// `i32::MAX` bytes (a character takes at most four).
pub open spec fn uri_fits(u: Seq<char>) -> bool {
    u.len() <= 0x1fff_ffff
}

/// Character index of a position in a text: the line's start plus the
/// character, when the line exists and the character lies within it (its
/// line break included).
pub open spec fn spec_position_to_char(s: Seq<char>, p: DocumentPosition) -> Option<int> {
    if p.line < spec_len_lines(s) {
        let start = spec_line_start(s, p.line as int);
        let end = spec_line_start(s, p.line + 1);
        if p.character <= end - start {
            Some(start + p.character)
        } else {
            None
        }
    } else {
        None
    }
}

/// Position of a character index in a text: its line, and its distance
/// from that line's start; `None` past the end.
pub open spec fn spec_char_to_position(s: Seq<char>, offset: int) -> Option<(int, int)> {
    if 0 <= offset <= s.len() {
        let line = spec_char_line(s, offset);
        Some((line, offset - spec_line_start(s, line)))
    } else {
        None
    }
}

/// Byte offset of a position in a text: the UTF-8 length of the text
/// before the position's character index.
pub open spec fn spec_position_to_offset(s: Seq<char>, p: DocumentPosition) -> Option<int> {
    match spec_position_to_char(s, p) {
        Some(k) => Some(utf8_offset(s, k)),
        None => None,
    }
}

/// Position of a byte offset in a text, when a character starts there (or
/// it is the end of the text); `None` otherwise.
pub open spec fn spec_offset_to_position(s: Seq<char>, offset: int) -> Option<(int, int)> {
    match boundary_index(s, offset) {
        Some(k) => spec_char_to_position(s, k),
        None => None,
    }
}

impl DocumentManager {
    /// The open documents by URI.
    pub closed spec fn view(&self) -> Map<Seq<char>, DocumentView> {
        doc_map(self.documents)
    }

    /// Finitely many documents are open; every open document's text fits the
    /// machine-word offset bound, and its URI is short enough for the URI
    /// parser.
    pub open spec fn wf(&self) -> bool {
        &&& self.view().dom().finite()
        &&& forall|k: Seq<char>| #[trigger] self.view().contains_key(k) ==> text_fits(self.view()[k].text)
            && uri_fits(k)
    }

    /// Create a new document manager
    pub fn new() -> (r: Self)
        ensures
            r.view() == no_documents(),
            r.wf(),
    {
        DocumentManager { documents: docs_new() }
    }

    /// Open a document, keeping its text and the outcome of parsing it.
    pub fn open_document(&mut self, uri: &str, content: String, parsed: Result<Program, ParseError>)
        requires
            old(self).wf(),
            text_fits(content@),
            uri_fits(uri@),
        ensures
            final(self).wf(),
            final(self).view().dom() == old(self).view().dom().insert(uri@),
            forall|k: Seq<char>| k != uri@ && #[trigger] old(self).view().contains_key(k) ==> final(self).view()[k]
                == old(self).view()[k],
            final(self).view()[uri@].uri == uri@,
            final(self).view()[uri@].text == content@,
            final(self).view()[uri@].version == 1,
            final(self).view()[uri@].language_id == "qi"@,
            holds_parse(final(self).view()[uri@], parsed),
    {
        let rope = rope_from_str(content.as_str());
        let (ast, parse_errors) = parse_content(parsed);
        let document = Document {
            uri: String::from_str(uri),
            rope,
            ast,
            parse_errors,
            version: 1,
            language_id: String::from_str("qi"),
        };
        docs_insert(&mut self.documents, String::from_str(uri), document);
    }

    /// Replace a document's text and parse outcome, raising its version by
    /// one; a document that is not open is left alone.
    pub fn update_document(&mut self, uri: &str, content: &str, parsed: Result<Program, ParseError>)
        requires
            old(self).wf(),
            text_fits(content@),
            old(self).view().contains_key(uri@) ==> old(self).view()[uri@].version < i32::MAX,
        ensures
            final(self).wf(),
            !old(self).view().contains_key(uri@) ==> final(self).view() == old(self).view(),
            old(self).view().contains_key(uri@) ==> {
                &&& final(self).view().dom() == old(self).view().dom()
                &&& forall|k: Seq<char>|
                    k != uri@ && #[trigger] old(self).view().contains_key(k) ==> final(self).view()[k]
                        == old(self).view()[k]
                &&& final(self).view()[uri@].uri == old(self).view()[uri@].uri
                &&& final(self).view()[uri@].text == content@
                &&& final(self).view()[uri@].version == old(self).view()[uri@].version + 1
                &&& final(self).view()[uri@].language_id == old(self).view()[uri@].language_id
                &&& holds_parse(final(self).view()[uri@], parsed)
            },
    {
        match docs_get(&self.documents, uri) {
            Some(mut doc) => {
                doc.rope = rope_from_str(content);
                doc.version = doc.version + 1;
                let (ast, parse_errors) = parse_content(parsed);
                doc.ast = ast;
                doc.parse_errors = parse_errors;
                docs_insert(&mut self.documents, String::from_str(uri), doc);
                proof {
                    assert(final(self).view().dom() =~= old(self).view().dom());
                }
            },
            None => {},
        }
    }

    /// Close a document
    pub fn close_document(&mut self, uri: &str)
        requires
            old(self).wf(),
        ensures
            final(self).wf(),
            final(self).view() == old(self).view().remove(uri@),
    {
        docs_remove(&mut self.documents, uri);
    }

    /// Get a document by URI
    pub fn get_document(&self, uri: &str) -> (r: Option<Document>)
        ensures
            r is Some <==> self.view().contains_key(uri@),
            r matches Some(d) ==> d@ == self.view()[uri@],
    {
        docs_get(&self.documents, uri)
    }

    /// Get document content as string
    pub fn get_document_content(&self, uri: &str) -> (r: Option<String>)
        ensures
            r is Some <==> self.view().contains_key(uri@),
            r matches Some(t) ==> t@ == self.view()[uri@].text,
    {
        match docs_get(&self.documents, uri) {
            Some(doc) => Some(rope_to_string(&doc.rope)),
            None => None,
        }
    }

    /// Get document syntax tree if available
    pub fn get_document_ast(&self, uri: &str) -> (r: Option<Arc<Program>>)
        ensures
            r == (if self.view().contains_key(uri@) {
                self.view()[uri@].ast
            } else {
                None
            }),
    {
        match docs_get(&self.documents, uri) {
            Some(doc) => clone_opt_arc(&doc.ast),
            None => None,
        }
    }

    /// Get document parse errors if available
    pub fn get_document_errors(&self, uri: &str) -> (r: Option<Arc<Vec<ParseError>>>)
        ensures
            r == (if self.view().contains_key(uri@) {
                self.view()[uri@].parse_errors
            } else {
                None
            }),
    {
        match docs_get(&self.documents, uri) {
            Some(doc) => clone_opt_arc(&doc.parse_errors),
            None => None,
        }
    }

    /// Check if a document is managed
    pub fn has_document(&self, uri: &str) -> (r: bool)
        ensures
            r == self.view().contains_key(uri@),
    {
        docs_contains(&self.documents, uri)
    }

    /// Get all document URIs, each once, in the map's own order.
    pub fn get_all_uris(&self) -> (r: Vec<String>)
        ensures
            forall|i: int| 0 <= i < r@.len() ==> self.view().contains_key(#[trigger] r@[i]@),
            forall|k: Seq<char>| #[trigger] self.view().contains_key(k) ==> exists|i: int|
                0 <= i < r@.len() && #[trigger] r@[i]@ == k,
            forall|i: int, j: int| 0 <= i < j < r@.len() ==> #[trigger] r@[i]@ != #[trigger] r@[j]@,
            r@.len() == self.view().dom().len(),
    {
        docs_keys(&self.documents)
    }

    /// Convert line/character to a character offset
    pub fn position_to_offset(&self, uri: &str, position: DocumentPosition) -> (r: Option<usize>)
        requires
            self.wf(),
        ensures
            r == (if self.view().contains_key(uri@) {
                match spec_position_to_offset(self.view()[uri@].text, position) {
                    Some(o) => Some(o as usize),
                    None => None,
                }
            } else {
                None
            }),
    {
        match docs_get(&self.documents, uri) {
            Some(doc) => match doc_position_to_char(&doc, position) {
                Some(k) => {
                    let text = rope_to_string(&doc.rope);
                    let cs = chars_vec(text.as_str());
                    let b = utf8_prefix(&cs, k);
                    proof {
                        crate::word::lemma_utf8_offset_bounds(cs@, k as int);
                        lemma_position_to_char_bounds(rope_chars(doc.rope), position);
                        assert(spec_position_to_char(rope_chars(doc.rope), position) == Some(k as int));
                    }
                    Some(b)
                },
                None => None,
            },
            None => None,
        }
    }

    /// Convert a byte offset to line/character
    pub fn offset_to_position(&self, uri: &str, offset: usize) -> (r: Option<DocumentPosition>)
        requires
            self.wf(),
        ensures
            r == (if self.view().contains_key(uri@) {
                match spec_offset_to_position(self.view()[uri@].text, offset as int) {
                    Some((l, c)) => Some(DocumentPosition { line: l as usize, character: c as usize }),
                    None => None,
                }
            } else {
                None
            }),
    {
        match docs_get(&self.documents, uri) {
            Some(doc) => {
                let ghost s = rope_chars(doc.rope);
                let text = rope_to_string(&doc.rope);
                let cs = chars_vec(text.as_str());
                let k = match boundary_at(&cs, offset) {
                    Some(k) => k,
                    None => {
                        return None;
                    },
                };
                proof {
                    lemma_char_line(s, k as int);
                }
                let line = rope_char_to_line(&doc.rope, k);
                let line_start = rope_line_to_char(&doc.rope, line);
                let character = k - line_start;
                Some(DocumentPosition { line, character })
            },
            None => None,
        }
    }

    /// Get line content (line break included)
    pub fn get_line_content(&self, uri: &str, line: usize) -> (r: Option<String>)
        ensures
            self.view().contains_key(uri@) && line < spec_len_lines(self.view()[uri@].text) <==> r is Some,
            r matches Some(t) ==> t@ == spec_line_text(self.view()[uri@].text, line as int),
    {
        match docs_get(&self.documents, uri) {
            Some(doc) => {
                if line < rope_len_lines(&doc.rope) {
                    Some(rope_line_text(&doc.rope, line))
                } else {
                    None
                }
            },
            None => None,
        }
    }

    /// Get text in a range
    pub fn get_range_text(&self, uri: &str, range: DocumentRange) -> (r: Option<String>)
        ensures
            r is Some <==> self.view().contains_key(uri@) && spec_range_slice(
                self.view()[uri@].text,
                range,
            ) is Some,
            r matches Some(t) ==> Some(t@) == spec_range_slice(self.view()[uri@].text, range),
    {
        match docs_get(&self.documents, uri) {
            Some(doc) => {
                let len = rope_len_chars(&doc.rope);
                proof {
                    lemma_position_to_char_bounds(rope_chars(doc.rope), range.start);
                    lemma_position_to_char_bounds(rope_chars(doc.rope), range.end);
                }
                let start_offset = match doc_position_to_char(&doc, range.start) {
                    Some(o) => o,
                    None => {
                        return None;
                    },
                };
                let end_offset = match doc_position_to_char(&doc, range.end) {
                    Some(o) => o,
                    None => {
                        return None;
                    },
                };
                if start_offset <= end_offset && end_offset <= len {
                    Some(rope_slice_text(&doc.rope, start_offset, end_offset))
                } else {
                    None
                }
            },
            None => None,
        }
    }
}

/// The text of line `line`, its line break included: what
/// `get_line_content` gives.
pub open spec fn spec_line_text(s: Seq<char>, line: int) -> Seq<char> {
    s.subrange(spec_line_start(s, line), spec_line_start(s, line + 1))
}

/// The first `n` lines of `s`, one after the other.
pub open spec fn lines_joined(s: Seq<char>, n: int) -> Seq<char>
    decreases n,
{
    if n <= 0 {
        Seq::empty()
    } else {
        lines_joined(s, n - 1) + spec_line_text(s, n - 1)
    }
}

proof fn lemma_lines_joined_prefix(s: Seq<char>, n: int)
    requires
        0 <= n <= spec_len_lines(s),
    ensures
        lines_joined(s, n) == s.subrange(0, spec_line_start(s, n)),
    decreases n,
{
    lemma_line_start_monotone(s, 0, n);
    if n == 0 {
        assert(spec_line_start(s, 0) == 0);
        assert(s.subrange(0, 0) =~= Seq::<char>::empty());
    } else {
        lemma_lines_joined_prefix(s, n - 1);
        lemma_line_start_monotone(s, n - 1, n);
        assert(s.subrange(0, spec_line_start(s, n - 1)) + s.subrange(
            spec_line_start(s, n - 1),
            spec_line_start(s, n),
        ) =~= s.subrange(0, spec_line_start(s, n)));
    }
}

/// The lines of a document as `get_line_content` gives them, line breaks
/// included, joined in order give back its whole text.
pub proof fn law_lines_concatenate(s: Seq<char>)
    ensures
        lines_joined(s, spec_len_lines(s)) == s,
{
    lemma_lines_joined_prefix(s, spec_len_lines(s));
    assert(s.subrange(0, s.len() as int) =~= s);
}

/// The characters between the offsets of a range's two ends, when both
/// exist and come in order.
pub open spec fn spec_range_slice(s: Seq<char>, range: DocumentRange) -> Option<Seq<char>> {
    match (spec_position_to_char(s, range.start), spec_position_to_char(s, range.end)) {
        (Some(a), Some(b)) => if a <= b && b <= s.len() {
            Some(s.subrange(a, b))
        } else {
            None
        },
        _ => None,
    }
}

fn doc_position_to_char(doc: &Document, position: DocumentPosition) -> (r: Option<usize>)
    ensures
        r == (match spec_position_to_char(rope_chars(doc.rope), position) {
            Some(o) => Some(o as usize),
            None => None,
        }),
        r matches Some(o) ==> o <= rope_chars(doc.rope).len(),
{
    let ghost s = rope_chars(doc.rope);
    if position.line < rope_len_lines(&doc.rope) {
        proof {
            lemma_line_start_monotone(s, position.line as int, position.line + 1);
        }
        let line_start = rope_line_to_char(&doc.rope, position.line);
        let line_end = rope_line_to_char(&doc.rope, position.line + 1);
        let line_len = line_end - line_start;
        if position.character <= line_len {
            Some(line_start + position.character)
        } else {
            None
        }
    } else {
        None
    }
}

impl Default for DocumentManager {
    fn default() -> (r: Self)
        ensures
            r.view() == no_documents(),
            r.wf(),
    {
        Self::new()
    }
}

/// An offset found for a position lies within the text.
pub proof fn lemma_position_to_char_bounds(s: Seq<char>, p: DocumentPosition)
    ensures
        spec_position_to_char(s, p) matches Some(o) ==> 0 <= o <= s.len(),
{
    if p.line < spec_len_lines(s) {
        lemma_line_start_monotone(s, p.line as int, p.line + 1);
    }
}

/// Every offset within a text survives the trip to a position and back.
proof fn lemma_char_position_roundtrip(s: Seq<char>, offset: int)
    requires
        0 <= offset <= s.len() < usize::MAX,
    ensures
        spec_char_to_position(s, offset) matches Some((l, c)) && spec_position_to_char(
            s,
            DocumentPosition { line: l as usize, character: c as usize },
        ) == Some(offset),
{
    lemma_char_line(s, offset);
    lemma_break_ends(s, s.len() as int);
    let l = spec_char_line(s, offset);
    lemma_line_start_monotone(s, l, l + 1);
    let p = DocumentPosition { line: l as usize, character: (offset - spec_line_start(s, l)) as usize };
    assert(p.line == l);
    assert(p.character == offset - spec_line_start(s, l));
}

/// A position inside a line (before that line's break, or anywhere on the
/// last line) survives the trip to an offset and back.
proof fn lemma_position_char_roundtrip(s: Seq<char>, p: DocumentPosition)
    requires
        p.line < spec_len_lines(s),
        p.line + 1 < spec_len_lines(s) ==> p.character < spec_line_start(s, p.line + 1)
            - spec_line_start(s, p.line as int),
        p.line + 1 == spec_len_lines(s) ==> p.character <= spec_line_start(s, p.line + 1)
            - spec_line_start(s, p.line as int),
    ensures
        spec_position_to_char(s, p) matches Some(o) && spec_char_to_position(s, o) == Some(
            (p.line as int, p.character as int),
        ),
{
    lemma_line_start_monotone(s, p.line as int, p.line + 1);
    let o = spec_line_start(s, p.line as int) + p.character;
    lemma_char_line(s, o);
    let l = spec_char_line(s, o);
    // the line holding `o` is `p.line`: neither earlier nor later
    if l < p.line {
        lemma_line_start_monotone(s, l + 1, p.line as int);
    } else if l > p.line {
        lemma_line_start_monotone(s, p.line + 1, l);
    }
}


/// Every byte offset at which a character starts (or the end of the text)
/// survives the trip to a position and back.
pub proof fn lemma_offset_position_roundtrip(s: Seq<char>, offset: int)
    requires
        boundary_index(s, offset) is Some,
        s.len() < usize::MAX,
    ensures
        spec_offset_to_position(s, offset) matches Some((l, c)) && spec_position_to_offset(
            s,
            DocumentPosition { line: l as usize, character: c as usize },
        ) == Some(offset),
{
    lemma_boundary_index_facts(s, offset);
    let k = boundary_index(s, offset)->0;
    lemma_char_position_roundtrip(s, k);
}

/// A position inside a line (before that line's break, or anywhere on the
/// last line) survives the trip to a byte offset and back.
pub proof fn lemma_position_offset_roundtrip(s: Seq<char>, p: DocumentPosition)
    requires
        p.line < spec_len_lines(s),
        p.line + 1 < spec_len_lines(s) ==> p.character < spec_line_start(s, p.line + 1)
            - spec_line_start(s, p.line as int),
        p.line + 1 == spec_len_lines(s) ==> p.character <= spec_line_start(s, p.line + 1)
            - spec_line_start(s, p.line as int),
    ensures
        spec_position_to_offset(s, p) matches Some(o) && spec_offset_to_position(s, o) == Some(
            (p.line as int, p.character as int),
        ),
{
    lemma_position_char_roundtrip(s, p);
    lemma_position_to_char_bounds(s, p);
    let k = spec_position_to_char(s, p)->0;
    lemma_boundary_of_offset(s, k);
}

} // verus!
