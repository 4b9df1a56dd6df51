//! Integer plane geometry: 2D points, the four facings, and 90-degree
//! rotation of a point around a pivot.

use vstd::prelude::*;

verus! {

/// The sense of a rotation request.
#[derive(Debug, Clone, Copy, PartialEq, Eq, Structural)]
pub enum Rotation {
    Clockwise,
    CounterClockwise,
}

/// One of the four axis-aligned facings; also used as a movement intent
/// (left/right) for the active piece.
#[derive(Debug, Clone, Copy, PartialEq, Eq, Structural)]
pub enum Direction {
    Up,
    Right,
    Down,
    Left,
}

impl Direction {
    /// Where this facing lands after one 90-degree step in the given sense,
    /// with wraparound over the cycle Up, Right, Down, Left.
    pub open spec fn spec_rotate(self, rotation: Rotation) -> Direction {
        match rotation {
            Rotation::Clockwise => match self {
                Direction::Up => Direction::Right,
                Direction::Right => Direction::Down,
                Direction::Down => Direction::Left,
                Direction::Left => Direction::Up,
            },
            Rotation::CounterClockwise => match self {
                Direction::Up => Direction::Left,
                Direction::Right => Direction::Up,
                Direction::Down => Direction::Right,
                Direction::Left => Direction::Down,
            },
        }
    }

    /// Rotate the facing by 90 degrees clockwise or counterclockwise.
    pub fn rotate(self, rotation: Rotation) -> (r: Direction)
        ensures
            r == self.spec_rotate(rotation),
    {
        match rotation {
            Rotation::Clockwise => match self {
                Direction::Up => Direction::Right,
                Direction::Right => Direction::Down,
                Direction::Down => Direction::Left,
                Direction::Left => Direction::Up,
            },
            Rotation::CounterClockwise => match self {
                Direction::Up => Direction::Left,
                Direction::Right => Direction::Up,
                Direction::Down => Direction::Right,
                Direction::Left => Direction::Down,
            },
        }
    }
}

/// Rotating four times in the same sense returns every facing to itself:
/// the four facings form a cyclic group of order 4 under `rotate`.
pub proof fn lemma_direction_rotate_order_four(d: Direction, r: Rotation)
    ensures
        d.spec_rotate(r).spec_rotate(r).spec_rotate(r).spec_rotate(r) == d,
{
}

/// Rotating clockwise and then counterclockwise (or the other way around)
/// returns every facing to itself.
pub proof fn lemma_direction_rotate_inverse(d: Direction)
    ensures
        d.spec_rotate(Rotation::Clockwise).spec_rotate(Rotation::CounterClockwise) == d,
        d.spec_rotate(Rotation::CounterClockwise).spec_rotate(Rotation::Clockwise) == d,
{
}

/// A 2D integer point, used both for cells of a piece (shape-relative) and
/// for absolute board coordinates.
#[derive(Debug, Clone, Copy, PartialEq, Eq, Structural)]
pub struct Point {
    pub x: isize,
    pub y: isize,
}

/// Where `(x, y)` lands when rotated around `(cx, cy)` to `direction`,
/// over unbounded integers: Up is the identity, Right maps the offset
/// `(dx, dy)` to `(-dy, dx)`, Down to `(-dx, -dy)`, Left to `(dy, -dx)`.
pub open spec fn spec_rotate_around(
    x: int,
    y: int,
    cx: int,
    cy: int,
    direction: Direction,
) -> (int, int) {
    let dx = x - cx;
    let dy = y - cy;
    match direction {
        Direction::Up => (cx + dx, cy + dy),
        Direction::Right => (cx - dy, cy + dx),
        Direction::Down => (cx - dx, cy - dy),
        Direction::Left => (cx + dy, cy - dx),
    }
}

impl Point {
    pub fn new(x: isize, y: isize) -> (r: Point)
        ensures
            r.x == x,
            r.y == y,
    {
        Point { x, y }
    }

    /// Rotates `self` around a given `center` to the given `direction`.
    pub fn rotate_around(self, center: Point, direction: Direction) -> (r: Point)
        requires
            isize::MIN <= self.x - center.x <= isize::MAX,
            isize::MIN <= self.y - center.y <= isize::MAX,
            isize::MIN <= center.x + (self.x - center.x) <= isize::MAX,
            isize::MIN <= center.x - (self.y - center.y) <= isize::MAX,
            isize::MIN <= center.x + (self.y - center.y) <= isize::MAX,
            isize::MIN <= center.x - (self.x - center.x) <= isize::MAX,
            isize::MIN <= center.y + (self.x - center.x) <= isize::MAX,
            isize::MIN <= center.y - (self.y - center.y) <= isize::MAX,
            isize::MIN <= center.y + (self.y - center.y) <= isize::MAX,
            isize::MIN <= center.y - (self.x - center.x) <= isize::MAX,
        ensures
            (r.x as int, r.y as int) == spec_rotate_around(
                self.x as int,
                self.y as int,
                center.x as int,
                center.y as int,
                direction,
            ),
    {
        let dx = self.x - center.x;
        let dy = self.y - center.y;
        match direction {
            Direction::Up => Point { x: center.x + dx, y: center.y + dy },
            Direction::Right => Point { x: center.x - dy, y: center.y + dx },
            Direction::Down => Point { x: center.x - dx, y: center.y - dy },
            Direction::Left => Point { x: center.x + dy, y: center.y - dx },
        }
    }
}

/// Four quarter turns around the same center return every point to
/// itself: the 90-degree step is of order 4.
pub proof fn lemma_rotate_around_order_four(x: int, y: int, cx: int, cy: int)
    ensures
        ({
            let r1 = spec_rotate_around(x, y, cx, cy, Direction::Right);
            let r2 = spec_rotate_around(r1.0, r1.1, cx, cy, Direction::Right);
            let r3 = spec_rotate_around(r2.0, r2.1, cx, cy, Direction::Right);
            let r4 = spec_rotate_around(r3.0, r3.1, cx, cy, Direction::Right);
            r4 == (x, y)
        }),
{
}

} // verus!
