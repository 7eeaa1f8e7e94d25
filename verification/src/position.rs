//! Positions and ranges: the protocol's (32-bit line / character) and the
//! document's (machine-word line / character).

use vstd::prelude::*;
use vstd::std_specs::convert::FromSpecImpl;

verus! {

/// A protocol position: zero-based line and character.
#[derive(Debug, Clone, Copy, PartialEq, Eq, Structural)]
pub struct Position {
    /// Line number (0-based).
    pub line: u32,
    /// Character offset in the line (0-based).
    pub character: u32,
}

/// A protocol range: start and end positions.
#[derive(Debug, Clone, Copy, PartialEq, Eq, Structural)]
pub struct Range {
    /// Start position.
    pub start: Position,
    /// End position.
    pub end: Position,
}

/// Position in a document.
#[derive(Debug, Clone, Copy, PartialEq, Eq, Structural)]
pub struct DocumentPosition {
    /// Line number (0-based).
    pub line: usize,
    /// Character offset in line (0-based).
    pub character: usize,
}

/// Range in a document.
#[derive(Debug, Clone, Copy, PartialEq, Eq, Structural)]
pub struct DocumentRange {
    /// Start position.
    pub start: DocumentPosition,
    /// End position.
    pub end: DocumentPosition,
}

impl Position {
    /// A position from its line and character.
    pub fn new(line: u32, character: u32) -> (r: Position)
        ensures
            r.line == line,
            r.character == character,
    {
        Position { line, character }
    }
}

impl Range {
    /// A range from its two ends.
    pub fn new(start: Position, end: Position) -> (r: Range)
        ensures
            r.start == start,
            r.end == end,
    {
        Range { start, end }
    }
}

/// A protocol position read as a document position (widening).
pub open spec fn doc_pos_of(p: Position) -> DocumentPosition {
    DocumentPosition { line: p.line as usize, character: p.character as usize }
}

/// A document position written as a protocol position (each number
/// truncated to 32 bits, as `as u32` does).
pub open spec fn lsp_pos_of(p: DocumentPosition) -> Position {
    Position { line: p.line as u32, character: p.character as u32 }
}

impl From<Position> for DocumentPosition {
    fn from(pos: Position) -> (r: Self) {
        DocumentPosition { line: pos.line as usize, character: pos.character as usize }
    }
}

impl FromSpecImpl<Position> for DocumentPosition {
    open spec fn obeys_from_spec() -> bool {
        true
    }

    open spec fn from_spec(pos: Position) -> Self {
        doc_pos_of(pos)
    }
}

impl From<DocumentPosition> for Position {
    fn from(pos: DocumentPosition) -> (r: Self) {
        Position { line: pos.line as u32, character: pos.character as u32 }
    }
}

impl FromSpecImpl<DocumentPosition> for Position {
    open spec fn obeys_from_spec() -> bool {
        true
    }

    open spec fn from_spec(pos: DocumentPosition) -> Self {
        lsp_pos_of(pos)
    }
}

impl From<Range> for DocumentRange {
    fn from(range: Range) -> (r: Self) {
        DocumentRange { start: DocumentPosition::from(range.start), end: DocumentPosition::from(range.end) }
    }
}

impl FromSpecImpl<Range> for DocumentRange {
    open spec fn obeys_from_spec() -> bool {
        true
    }

    open spec fn from_spec(range: Range) -> Self {
        DocumentRange { start: doc_pos_of(range.start), end: doc_pos_of(range.end) }
    }
}

impl From<DocumentRange> for Range {
    fn from(range: DocumentRange) -> (r: Self) {
        Range { start: Position::from(range.start), end: Position::from(range.end) }
    }
}

impl FromSpecImpl<DocumentRange> for Range {
    open spec fn obeys_from_spec() -> bool {
        true
    }

    open spec fn from_spec(range: DocumentRange) -> Self {
        Range { start: lsp_pos_of(range.start), end: lsp_pos_of(range.end) }
    }
}

/// Widening a protocol position and writing it back gives it unchanged.
pub proof fn lemma_position_roundtrip(p: Position)
    ensures
        lsp_pos_of(doc_pos_of(p)) == p,
{
}

/// A document position whose numbers fit in 32 bits survives the trip
/// through the protocol position unchanged.
pub proof fn lemma_document_position_roundtrip(p: DocumentPosition)
    requires
        p.line <= u32::MAX,
        p.character <= u32::MAX,
    ensures
        doc_pos_of(lsp_pos_of(p)) == p,
{
}

} // verus!
