//! Integer positions in a text grid, ordered as the text is read.

use vstd::prelude::*;
use std::cmp::Ordering;
use vstd::std_specs::cmp::PartialOrdSpecImpl;
use vstd::std_specs::convert::FromSpecImpl;

verus! {

/// A position as the contracts see it: a column and a row, unbounded.
pub ghost struct Pos {
    pub col: int,
    pub row: int,
}

impl Pos {
    /// Reading order: `self` stands strictly before `other` when it is on an
    /// earlier row, or on the same row in an earlier column.
    pub open spec fn before(self, other: Pos) -> bool {
        self.row < other.row || (self.row == other.row && self.col < other.col)
    }

    /// `self` is `other` or stands before it.
    pub open spec fn not_after(self, other: Pos) -> bool {
        self == other || self.before(other)
    }

    /// Componentwise sum.
    pub open spec fn plus(self, d: Pos) -> Pos {
        Pos { col: self.col + d.col, row: self.row + d.row }
    }

    /// The earlier of two positions in reading order.
    pub open spec fn earlier(self, other: Pos) -> Pos {
        if other.before(self) {
            other
        } else {
            self
        }
    }

    /// The later of two positions in reading order.
    pub open spec fn later(self, other: Pos) -> Pos {
        if other.before(self) {
            self
        } else {
            other
        }
    }
}

/// A position or a displacement in the grid: `.0` is the column, `.1` the row.
#[derive(Copy, Clone, Debug, PartialEq, Eq, Structural)]
pub struct Vector2(pub i32, pub i32);

impl View for Vector2 {
    type V = Pos;

    open spec fn view(&self) -> Pos {
        Pos { col: self.0 as int, row: self.1 as int }
    }
}

impl Vector2 {
    /// Reading order on the stored integers; the same as `self@.before(other@)`.
    pub open spec fn before(self, other: Vector2) -> bool {
        self.1 < other.1 || (self.1 == other.1 && self.0 < other.0)
    }

    /// The column.
    pub fn x(&self) -> (x: i32)
        ensures
            x == self.0,
    {
        self.0
    }

    /// The row.
    pub fn y(&self) -> (y: i32)
        ensures
            y == self.1,
    {
        self.1
    }

    /// Componentwise sum.
    pub fn add(&self, a: Vector2) -> (sum: Vector2)
        requires
            i32::MIN <= self.0 + a.0 <= i32::MAX,
            i32::MIN <= self.1 + a.1 <= i32::MAX,
        ensures
            sum.0 == self.0 + a.0,
            sum.1 == self.1 + a.1,
    {
        Vector2(self.0 + a.0, self.1 + a.1)
    }

    /// Three-way comparison in reading order.
    pub fn cmp(&self, other: &Vector2) -> (o: Ordering)
        ensures
            o == Ordering::Equal <==> *self == *other,
            o == Ordering::Less <==> self.before(*other),
            o == Ordering::Greater <==> other.before(*self),
    {
        if self.0 == other.0 && self.1 == other.1 {
            Ordering::Equal
        } else if self.1 < other.1 || (self.1 == other.1 && self.0 < other.0) {
            Ordering::Less
        } else {
            Ordering::Greater
        }
    }
}

impl PartialOrd for Vector2 {
    fn partial_cmp(&self, other: &Vector2) -> (o: Option<Ordering>) {
        Some(self.cmp(other))
    }
}

impl PartialOrdSpecImpl for Vector2 {
    open spec fn obeys_partial_cmp_spec() -> bool {
        true
    }

    open spec fn partial_cmp_spec(&self, other: &Vector2) -> Option<Ordering> {
        if *self == *other {
            Some(Ordering::Equal)
        } else if self.before(*other) {
            Some(Ordering::Less)
        } else {
            Some(Ordering::Greater)
        }
    }
}

impl From<&Vector2> for Vector2 {
    fn from(a: &Vector2) -> (v: Vector2) {
        *a
    }
}

impl FromSpecImpl<&Vector2> for Vector2 {
    open spec fn obeys_from_spec() -> bool {
        true
    }

    open spec fn from_spec(a: &Vector2) -> Vector2 {
        *a
    }
}

impl From<(i32, i32)> for Vector2 {
    fn from(pair: (i32, i32)) -> (v: Vector2) {
        Vector2(pair.0, pair.1)
    }
}

impl FromSpecImpl<(i32, i32)> for Vector2 {
    open spec fn obeys_from_spec() -> bool {
        true
    }

    open spec fn from_spec(pair: (i32, i32)) -> Vector2 {
        Vector2(pair.0, pair.1)
    }
}

} // verus!
