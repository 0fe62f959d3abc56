//! Intermediate structures between syntax-tree coordinates and editor
//! coordinates.

use vstd::prelude::*;
use vstd::std_specs::convert::FromSpecImpl;
use crate::protocol;

verus! {

/// A place in a syntax tree: a row and a column, both from zero.
#[derive(Clone, Copy, Debug, PartialEq, Eq, PartialOrd, Ord, Structural)]
pub struct Point {
    pub row: usize,
    pub column: usize,
}

impl Point {
    pub fn new(row: usize, column: usize) -> (p: Point)
        ensures
            p.row == row,
            p.column == column,
    {
        Point { row, column }
    }

    pub fn zero() -> (p: Point)
        ensures
            p.row == 0,
            p.column == 0,
    {
        Point { row: 0, column: 0 }
    }

    pub fn row(&self) -> (r: usize)
        ensures
            r == self.row,
    {
        self.row
    }

    pub fn column(&self) -> (c: usize)
        ensures
            c == self.column,
    {
        self.column
    }

    /// Whether both coordinates can be written in 32 bits, which is all an
    /// editor position holds.
    pub open spec fn fits(self) -> bool {
        self.row <= u32::MAX && self.column <= u32::MAX
    }

    /// The editor position of this point. Coordinates are cut to their low
    /// 32 bits.
    pub open spec fn to_position(self) -> protocol::Position {
        protocol::Position { line: self.row as u32, character: self.column as u32 }
    }

    /// The point of an editor position.
    pub open spec fn of_position(p: protocol::Position) -> Point {
        Point { row: p.line as usize, column: p.character as usize }
    }
}

impl From<Point> for protocol::Position {
    fn from(value: Point) -> (p: protocol::Position) {
        protocol::Position {
            line: #[verifier::truncate] (value.row as u32),
            character: #[verifier::truncate] (value.column as u32),
        }
    }
}

impl FromSpecImpl<Point> for protocol::Position {
    open spec fn obeys_from_spec() -> bool {
        true
    }

    open spec fn from_spec(value: Point) -> protocol::Position {
        value.to_position()
    }
}

impl From<protocol::Position> for Point {
    fn from(value: protocol::Position) -> (p: Point) {
        Point { row: value.line as usize, column: value.character as usize }
    }
}

impl FromSpecImpl<protocol::Position> for Point {
    open spec fn obeys_from_spec() -> bool {
        true
    }

    open spec fn from_spec(value: protocol::Position) -> Point {
        Point::of_position(value)
    }
}

/// A stretch of a syntax tree between two points.
#[derive(Clone, Copy, Debug, PartialEq, Eq, PartialOrd, Ord, Structural)]
pub struct Range {
    pub start: Point,
    pub end: Point,
}

impl Range {
    pub fn new(start: Point, end: Point) -> (r: Range)
        ensures
            r.start == start,
            r.end == end,
    {
        Range { start, end }
    }

    pub fn zero() -> (r: Range)
        ensures
            r.start == (Point { row: 0, column: 0 }),
            r.end == (Point { row: 0, column: 0 }),
    {
        Range { start: Point::zero(), end: Point::zero() }
    }

    /// Whether the start does not lie behind the end, reading row first.
    pub open spec fn ordered(self) -> bool {
        self.start.row < self.end.row || (self.start.row == self.end.row && self.start.column
            <= self.end.column)
    }

    /// The editor range between the editor positions of both ends.
    pub open spec fn to_protocol(self) -> protocol::Range {
        protocol::Range { start: self.start.to_position(), end: self.end.to_position() }
    }

    /// The range between the points of both ends of an editor range.
    pub open spec fn of_protocol(r: protocol::Range) -> Range {
        Range { start: Point::of_position(r.start), end: Point::of_position(r.end) }
    }
}

impl From<Range> for protocol::Range {
    fn from(value: Range) -> (r: protocol::Range) {
        protocol::Range {
            start: protocol::Position::from(value.start),
            end: protocol::Position::from(value.end),
        }
    }
}

impl FromSpecImpl<Range> for protocol::Range {
    open spec fn obeys_from_spec() -> bool {
        true
    }

    open spec fn from_spec(value: Range) -> protocol::Range {
        value.to_protocol()
    }
}

impl From<protocol::Range> for Range {
    fn from(value: protocol::Range) -> (r: Range) {
        Range { start: Point::from(value.start), end: Point::from(value.end) }
    }
}

impl FromSpecImpl<protocol::Range> for Range {
    open spec fn obeys_from_spec() -> bool {
        true
    }

    open spec fn from_spec(value: protocol::Range) -> Range {
        Range::of_protocol(value)
    }
}

/// Going to the editor and back gives the same point, for every point
/// whose coordinates an editor position can hold.
pub proof fn lemma_point_round_trip(p: Point)
    requires
        p.fits(),
    ensures
        Point::of_position(p.to_position()) == p,
{
}

/// Going to the tree and back gives the same editor position.
pub proof fn lemma_position_round_trip(p: protocol::Position)
    ensures
        Point::of_position(p).to_position() == p,
        Point::of_position(p).fits(),
{
}

/// Both round trips hold of ranges too, end by end.
pub proof fn lemma_range_round_trip(r: Range, q: protocol::Range)
    requires
        r.start.fits(),
        r.end.fits(),
    ensures
        Range::of_protocol(r.to_protocol()) == r,
        Range::of_protocol(q).to_protocol() == q,
{
    lemma_point_round_trip(r.start);
    lemma_point_round_trip(r.end);
    lemma_position_round_trip(q.start);
    lemma_position_round_trip(q.end);
}

} // verus!
