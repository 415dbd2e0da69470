//! Positions, ranges, locations and errors shared by every component.

use vstd::prelude::*;

verus! {

/// A point in a document: one-based line and column.
#[derive(Debug, Clone, Copy, PartialEq, Eq, PartialOrd, Ord, Hash, Structural)]
pub struct Position {
    /// Line number in a document (one-based).
    pub line: u32,
    /// Column offset on a line in a document (one-based).
    pub column: u32,
}

impl Position {
    /// The lexicographic order on (line, column): `self` is at or before `other`.
    pub open spec fn leq(self, other: Position) -> bool {
        self.line < other.line || (self.line == other.line && self.column <= other.column)
    }

    /// Whether `self` is at or before `other`.
    pub fn at_or_before(&self, other: &Position) -> (r: bool)
        ensures
            r == self.leq(*other),
    {
        self.line < other.line || (self.line == other.line && self.column <= other.column)
    }

    /// The later of two positions.
    pub open spec fn later(self, other: Position) -> Position {
        if self.leq(other) {
            other
        } else {
            self
        }
    }

    /// The later of two positions.
    pub fn later_of(self, other: Position) -> (r: Position)
        ensures
            r == self.later(other),
    {
        if self.at_or_before(&other) {
            other
        } else {
            self
        }
    }
}

impl Position {
    /// The position as editors count it: lines and columns from zero.
    pub fn to_wire(self) -> (r: (u32, u32))
        requires
            self.line >= 1,
            self.column >= 1,
        ensures
            r.0 == self.line - 1,
            r.1 == self.column - 1,
    {
        (self.line - 1, self.column - 1)
    }

    /// The position that an editor gives as a line and a character, both
    /// counted from zero.
    pub fn from_wire(line: u32, character: u32) -> (r: Position)
        requires
            line < u32::MAX,
            character < u32::MAX,
        ensures
            r.line == line + 1,
            r.column == character + 1,
    {
        Position { line: line + 1, column: character + 1 }
    }
}

impl Default for Position {
    /// The first point of a document.
    fn default() -> (r: Position)
        ensures
            r == (Position { line: 1, column: 1 }),
    {
        Position { line: 1, column: 1 }
    }
}

/// `leq` is a total order on positions.
pub proof fn lemma_position_order(a: Position, b: Position, c: Position)
    ensures
        a.leq(a),
        a.leq(b) || b.leq(a),
        a.leq(b) && b.leq(a) ==> a == b,
        a.leq(b) && b.leq(c) ==> a.leq(c),
{
}

/// A range in a document, from `start` to `end`, both included.
#[derive(Debug, Clone, Copy, PartialEq, Eq, PartialOrd, Ord, Hash, Structural)]
pub struct Range {
    /// Start position of the range.
    pub start: Position,
    /// End position of the range.
    pub end: Position,
}

impl Range {
    /// A range is well formed when it does not end before it starts.
    pub open spec fn wf(self) -> bool {
        self.start.leq(self.end)
    }

    /// `pos` lies between the two ends, both included.
    pub open spec fn spec_contains(self, pos: Position) -> bool {
        self.start.leq(pos) && pos.leq(self.end)
    }

    /// `inner` lies within `self`.
    pub open spec fn encloses(self, inner: Range) -> bool {
        self.start.leq(inner.start) && inner.end.leq(self.end)
    }

    /// Whether `pos` lies within the range, ends included.
    pub fn contains(&self, pos: Position) -> (r: bool)
        ensures
            r == self.spec_contains(pos),
    {
        self.start.at_or_before(&pos) && pos.at_or_before(&self.end)
    }
}

/// A range in the file at `path`.
#[derive(Debug, PartialEq, Eq)]
pub struct Location {
    pub path: String,
    pub range: Range,
}

/// What a `Location` holds, as plain values.
pub struct LocationView {
    pub path: Seq<char>,
    pub range: Range,
}

impl DeepView for Location {
    type V = LocationView;

    open spec fn deep_view(&self) -> LocationView {
        LocationView { path: self.path@, range: self.range }
    }
}

impl Clone for Location {
    fn clone(&self) -> (r: Location)
        ensures
            r.deep_view() == self.deep_view(),
    {
        Location { path: self.path.clone(), range: self.range }
    }
}

/// A diagnostic: a message attached to a range of the document.
#[derive(Debug, PartialEq, Eq)]
pub struct Error {
    pub range: Range,
    pub message: String,
}

/// What an `Error` holds, as plain values.
pub struct ErrorView {
    pub range: Range,
    pub message: Seq<char>,
}

impl DeepView for Error {
    type V = ErrorView;

    open spec fn deep_view(&self) -> ErrorView {
        ErrorView { range: self.range, message: self.message@ }
    }
}

impl Clone for Error {
    fn clone(&self) -> (r: Error)
        ensures
            r.deep_view() == self.deep_view(),
    {
        Error { range: self.range, message: self.message.clone() }
    }
}

} // verus!
