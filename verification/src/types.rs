//! Grid coordinates and the four directions a snake can take.

use vstd::prelude::*;

verus! {

/// A cell of the grid, or a step between two cells.
#[derive(Copy, Clone, Debug, PartialEq, Eq, Structural)]
pub struct Point {
    pub x: i32,
    pub y: i32,
}

impl Point {
    pub open spec fn spec_up() -> Point {
        Point { x: 0, y: -1i32 }
    }

    pub open spec fn spec_down() -> Point {
        Point { x: 0, y: 1 }
    }

    pub open spec fn spec_left() -> Point {
        Point { x: -1i32, y: 0 }
    }

    pub open spec fn spec_right() -> Point {
        Point { x: 1, y: 0 }
    }

    /// One row towards the top of the screen.
    #[verifier::when_used_as_spec(spec_up)]
    pub fn up() -> (step: Point)
        ensures
            step == Point::spec_up(),
    {
        Point { x: 0, y: -1 }
    }

    /// One row towards the bottom of the screen.
    #[verifier::when_used_as_spec(spec_down)]
    pub fn down() -> (step: Point)
        ensures
            step == Point::spec_down(),
    {
        Point { x: 0, y: 1 }
    }

    /// One column to the left.
    #[verifier::when_used_as_spec(spec_left)]
    pub fn left() -> (step: Point)
        ensures
            step == Point::spec_left(),
    {
        Point { x: -1, y: 0 }
    }

    /// One column to the right.
    #[verifier::when_used_as_spec(spec_right)]
    pub fn right() -> (step: Point)
        ensures
            step == Point::spec_right(),
    {
        Point { x: 1, y: 0 }
    }

    /// The coordinate-wise sum of two points.
    pub open spec fn plus(self, other: Point) -> Point {
        Point { x: (self.x + other.x) as i32, y: (self.y + other.y) as i32 }
    }

    /// Both coordinates of the sum fit the machine integer.
    pub open spec fn can_add(self, other: Point) -> bool {
        &&& i32::MIN <= self.x + other.x <= i32::MAX
        &&& i32::MIN <= self.y + other.y <= i32::MAX
    }

    /// The point with both coordinates negated.
    pub open spec fn reversed(self) -> Point {
        Point { x: (-self.x) as i32, y: (-self.y) as i32 }
    }

    /// Both coordinates can be negated in the machine integer.
    pub open spec fn can_reverse(self) -> bool {
        self.x != i32::MIN && self.y != i32::MIN
    }

    /// One of the four unit steps.
    pub open spec fn is_direction(self) -> bool {
        self == Point::up() || self == Point::down() || self == Point::left()
            || self == Point::right()
    }

    pub fn add(&mut self, other: Point) -> (sum: Point)
        requires
            old(self).can_add(other),
        ensures
            *final(self) == *old(self),
            sum == old(self).plus(other),
            sum.x == old(self).x + other.x,
            sum.y == old(self).y + other.y,
    {
        Point { x: self.x + other.x, y: self.y + other.y }
    }

    pub fn eq(&self, other: Point) -> (same: bool)
        ensures
            same == (*self == other),
            same == (self.x == other.x && self.y == other.y),
    {
        self.x == other.x && self.y == other.y
    }

    pub fn reverse(&mut self) -> (back: Point)
        requires
            old(self).can_reverse(),
        ensures
            *final(self) == *old(self),
            back == old(self).reversed(),
            back.x == -old(self).x,
            back.y == -old(self).y,
    {
        Point { x: -self.x, y: -self.y }
    }
}

/// Adding two points gives the same whichever comes first.
pub proof fn law_add_commutes(a: Point, b: Point)
    ensures
        a.plus(b) == b.plus(a),
        a.can_add(b) == b.can_add(a),
{
}

/// Adding three points gives the same however they are grouped, as long as
/// every sum on the way fits.
pub proof fn law_add_associates(a: Point, b: Point, c: Point)
    requires
        a.can_add(b),
        b.can_add(c),
        a.plus(b).can_add(c),
    ensures
        a.can_add(b.plus(c)),
        a.plus(b).plus(c) == a.plus(b.plus(c)),
{
}

/// Reversing twice gives the point back, and a point and its reverse add
/// up to the origin.
pub proof fn law_reverse(a: Point)
    requires
        a.can_reverse(),
    ensures
        a.reversed().can_reverse(),
        a.reversed().reversed() == a,
        a.can_add(a.reversed()),
        a.plus(a.reversed()) == (Point { x: 0, y: 0 }),
{
}

/// The reverse of a direction is a direction, and a different one.
pub proof fn law_directions(d: Point)
    requires
        d.is_direction(),
    ensures
        d.can_reverse(),
        d.reversed().is_direction(),
        d.reversed() != d,
{
}

} // verus!
