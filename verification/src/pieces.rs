//! The seven tetromino kinds, their base shapes and colors, and the active
//! piece: a kind together with its rotated cells, a board-space offset and
//! a facing.

use vstd::prelude::*;

use rand::seq::SliceRandom;

use crate::color::Color;
use crate::geometry::Direction;
use crate::geometry::Point;
use crate::geometry::Rotation;
use crate::geometry::spec_rotate_around;

verus! {

/// Each of the seven piece kinds of the game.
#[derive(Debug, Clone, Copy, PartialEq, Eq, Structural)]
pub enum TetrominoKind {
    O,
    I,
    T,
    S,
    Z,
    L,
    J,
}

impl TetrominoKind {
    /// Cell `i` of this kind's base shape, the one shown in the Up facing.
    pub open spec fn spec_basic_cell(self, i: int) -> (int, int) {
        match self {
            TetrominoKind::O => if i == 0 {
                (1, 0)
            } else if i == 1 {
                (1, 1)
            } else if i == 2 {
                (2, 1)
            } else {
                (2, 0)
            },
            TetrominoKind::I => if i == 0 {
                (0, 1)
            } else if i == 1 {
                (1, 1)
            } else if i == 2 {
                (2, 1)
            } else {
                (3, 1)
            },
            TetrominoKind::J => if i == 0 {
                (1, 1)
            } else if i == 1 {
                (0, 0)
            } else if i == 2 {
                (0, 1)
            } else {
                (2, 1)
            },
            TetrominoKind::L => if i == 0 {
                (1, 1)
            } else if i == 1 {
                (0, 1)
            } else if i == 2 {
                (2, 0)
            } else {
                (2, 1)
            },
            TetrominoKind::S => if i == 0 {
                (1, 1)
            } else if i == 1 {
                (0, 1)
            } else if i == 2 {
                (1, 0)
            } else {
                (2, 0)
            },
            TetrominoKind::Z => if i == 0 {
                (1, 1)
            } else if i == 1 {
                (0, 0)
            } else if i == 2 {
                (1, 0)
            } else {
                (2, 1)
            },
            TetrominoKind::T => if i == 0 {
                (1, 1)
            } else if i == 1 {
                (0, 1)
            } else if i == 2 {
                (1, 0)
            } else {
                (2, 1)
            },
        }
    }

    /// The pivot a kind rotates around; O never rotates, so its pivot is
    /// irrelevant and left at the common one.
    pub open spec fn spec_pivot(self) -> (int, int) {
        match self {
            TetrominoKind::I => (1, 2),
            _ => (1, 1),
        }
    }

    /// Cell `i` of this kind's shape in the given facing: O always shows its
    /// base shape, every other kind rotates its base shape around its pivot.
    pub open spec fn spec_shape_cell(self, direction: Direction, i: int) -> (int, int) {
        if self is O {
            self.spec_basic_cell(i)
        } else {
            let b = self.spec_basic_cell(i);
            let p = self.spec_pivot();
            spec_rotate_around(b.0, b.1, p.0, p.1, direction)
        }
    }

    /// The fixed display color of this kind.
    pub open spec fn spec_color(self) -> Color {
        match self {
            TetrominoKind::I => Color { r: 0, g: 231, b: 254 },
            TetrominoKind::J => Color { r: 0, g: 0, b: 255 },
            TetrominoKind::L => Color { r: 255, g: 127, b: 0 },
            TetrominoKind::O => Color { r: 255, g: 200, b: 0 },
            TetrominoKind::S => Color { r: 0, g: 255, b: 0 },
            TetrominoKind::Z => Color { r: 255, g: 0, b: 0 },
            TetrominoKind::T => Color { r: 255, g: 0, b: 255 },
        }
    }

    /// The base shape of this kind: its four cells in the Up facing.
    pub fn basic_shape(&self) -> (r: [Point; 4])
        ensures
            forall|i: int|
                0 <= i < 4 ==> ((#[trigger] r@[i]).x as int, r@[i].y as int)
                    == self.spec_basic_cell(i),
    {
        match self {
            TetrominoKind::O => [
                Point { x: 1, y: 0 },
                Point { x: 1, y: 1 },
                Point { x: 2, y: 1 },
                Point { x: 2, y: 0 },
            ],
            TetrominoKind::I => [
                Point { x: 0, y: 1 },
                Point { x: 1, y: 1 },
                Point { x: 2, y: 1 },
                Point { x: 3, y: 1 },
            ],
            TetrominoKind::J => [
                Point { x: 1, y: 1 },
                Point { x: 0, y: 0 },
                Point { x: 0, y: 1 },
                Point { x: 2, y: 1 },
            ],
            TetrominoKind::L => [
                Point { x: 1, y: 1 },
                Point { x: 0, y: 1 },
                Point { x: 2, y: 0 },
                Point { x: 2, y: 1 },
            ],
            TetrominoKind::S => [
                Point { x: 1, y: 1 },
                Point { x: 0, y: 1 },
                Point { x: 1, y: 0 },
                Point { x: 2, y: 0 },
            ],
            TetrominoKind::Z => [
                Point { x: 1, y: 1 },
                Point { x: 0, y: 0 },
                Point { x: 1, y: 0 },
                Point { x: 2, y: 1 },
            ],
            TetrominoKind::T => [
                Point { x: 1, y: 1 },
                Point { x: 0, y: 1 },
                Point { x: 1, y: 0 },
                Point { x: 2, y: 1 },
            ],
        }
    }

    /// The shape of this kind in the given facing.
    pub fn rotated_shape(&self, direction: Direction) -> (r: [Point; 4])
        ensures
            forall|i: int|
                0 <= i < 4 ==> ((#[trigger] r@[i]).x as int, r@[i].y as int)
                    == self.spec_shape_cell(direction, i),
    {
        let center = match self {
            TetrominoKind::O => {
                return self.basic_shape();
            },
            TetrominoKind::I => Point { x: 1, y: 2 },
            _ => Point { x: 1, y: 1 },
        };
        let b = self.basic_shape();
        [
            b[0].rotate_around(center, direction),
            b[1].rotate_around(center, direction),
            b[2].rotate_around(center, direction),
            b[3].rotate_around(center, direction),
        ]
    }
}

/// Every cell of every shape, in every facing, lies in a small fixed box.
pub proof fn lemma_shape_cell_bounds(kind: TetrominoKind, direction: Direction, i: int)
    requires
        0 <= i < 4,
    ensures
        -1 <= kind.spec_shape_cell(direction, i).0 <= 3,
        0 <= kind.spec_shape_cell(direction, i).1 <= 4,
{
}

/// In every facing, the four cells of a shape are pairwise distinct.
pub proof fn lemma_shape_cells_distinct(kind: TetrominoKind, direction: Direction)
    ensures
        forall|i: int, j: int|
            0 <= i < j < 4 ==> kind.spec_shape_cell(direction, i) != kind.spec_shape_cell(
                direction,
                j,
            ),
{
}

/// A tetromino is a shape that can be placed on the board.
#[derive(Debug, Clone, Copy)]
pub struct Tetromino {
    pub kind: TetrominoKind,
    pub cells: [Point; 4],
    pub offset: Point,
    pub direction: Direction,
}

/// The board-space offset a freshly drawn piece of the given kind starts
/// at, placed just above the visible board and centered over its width.
pub open spec fn spec_spawn_offset(kind: TetrominoKind) -> (int, int) {
    if kind is I {
        (2, -1)
    } else {
        (3, -1)
    }
}

impl Tetromino {
    pub const SIZE: usize = 7;

    /// Cell `i` of the piece, in shape-relative coordinates.
    pub open spec fn cell_at(self, i: int) -> (int, int) {
        (self.cells@[i].x as int, self.cells@[i].y as int)
    }

    /// Cell `i` of the piece, in absolute board coordinates.
    pub open spec fn abs_cell(self, i: int) -> (int, int) {
        (self.offset.x + self.cells@[i].x, self.offset.y + self.cells@[i].y)
    }

    /// A well-formed piece always shows exactly the shape of its kind in its
    /// current facing.
    pub open spec fn wf(self) -> bool {
        forall|i: int|
            0 <= i < 4 ==> #[trigger] self.cell_at(i) == self.kind.spec_shape_cell(
                self.direction,
                i,
            )
    }

    /// A piece exactly as it comes out of the bag: base shape, Up facing,
    /// at its kind's spawn offset.
    pub open spec fn is_spawn(self) -> bool {
        &&& self.wf()
        &&& self.direction == Direction::Up
        &&& (self.offset.x as int, self.offset.y as int) == spec_spawn_offset(self.kind)
    }

    /// Constructor: a piece of the given kind at its spawn position.
    pub fn new(kind: TetrominoKind) -> (r: Tetromino)
        ensures
            r.kind == kind,
            r.is_spawn(),
    {
        let offset = match kind {
            TetrominoKind::I => Point { x: 2, y: -1 },
            _ => Point { x: 3, y: -1 },
        };
        Tetromino { cells: kind.basic_shape(), kind, offset, direction: Direction::Up }
    }

    /// Returns the color of `self` (each tetromino kind has its own color).
    pub fn get_color(&self) -> (c: Color)
        ensures
            c == self.kind.spec_color(),
    {
        match self.kind {
            TetrominoKind::I => Color { r: 0, g: 231, b: 254 },
            TetrominoKind::J => Color { r: 0, g: 0, b: 255 },
            TetrominoKind::L => Color { r: 255, g: 127, b: 0 },
            TetrominoKind::O => Color { r: 255, g: 200, b: 0 },
            TetrominoKind::S => Color { r: 0, g: 255, b: 0 },
            TetrominoKind::Z => Color { r: 255, g: 0, b: 0 },
            TetrominoKind::T => Color { r: 255, g: 0, b: 255 },
        }
    }

    /// Drops `self`'s y in place by 1; validation is the board's job.
    pub fn drop(&mut self)
        requires
            old(self).offset.y < isize::MAX,
        ensures
            final(self).offset.y == old(self).offset.y + 1,
            final(self).offset.x == old(self).offset.x,
            final(self).cells == old(self).cells,
            final(self).kind == old(self).kind,
            final(self).direction == old(self).direction,
    {
        self.offset.y = self.offset.y + 1;
    }

    /// Moves `self` in place one column left or right; any other direction
    /// is a no-op. Validation is the board's job.
    pub fn move_lr(&mut self, direction: Direction)
        requires
            direction is Left ==> old(self).offset.x > isize::MIN,
            direction is Right ==> old(self).offset.x < isize::MAX,
        ensures
            final(self).offset.x == old(self).offset.x + match direction {
                Direction::Left => -1int,
                Direction::Right => 1int,
                _ => 0int,
            },
            final(self).offset.y == old(self).offset.y,
            final(self).cells == old(self).cells,
            final(self).kind == old(self).kind,
            final(self).direction == old(self).direction,
    {
        match direction {
            Direction::Left => {
                self.offset.x = self.offset.x - 1;
            },
            Direction::Right => {
                self.offset.x = self.offset.x + 1;
            },
            _ => {},
        }
    }

    /// Rotates `self` in place clockwise or counterclockwise: the facing
    /// advances one step and the cells are recomputed for it.
    pub fn rotate(&mut self, rotation: Rotation)
        ensures
            final(self).direction == old(self).direction.spec_rotate(rotation),
            final(self).kind == old(self).kind,
            final(self).offset == old(self).offset,
            final(self).wf(),
    {
        self.direction = self.direction.rotate(rotation);
        self.cells = self.kind.rotated_shape(self.direction);
    }

    /// The absolute board coordinates of the piece's four cells.
    pub fn position(&self) -> (r: [Point; 4])
        requires
            forall|i: int|
                0 <= i < 4 ==> isize::MIN <= (#[trigger] self.abs_cell(i)).0 <= isize::MAX
                    && isize::MIN <= self.abs_cell(i).1 <= isize::MAX,
        ensures
            forall|i: int|
                0 <= i < 4 ==> ((#[trigger] r@[i]).x as int, r@[i].y as int) == self.abs_cell(i),
    {
        proof {
            assert(self.abs_cell(0) == (self.offset.x + self.cells@[0].x, self.offset.y
                + self.cells@[0].y));
            assert(self.abs_cell(1) == (self.offset.x + self.cells@[1].x, self.offset.y
                + self.cells@[1].y));
            assert(self.abs_cell(2) == (self.offset.x + self.cells@[2].x, self.offset.y
                + self.cells@[2].y));
            assert(self.abs_cell(3) == (self.offset.x + self.cells@[3].x, self.offset.y
                + self.cells@[3].y));
        }
        [
            Point { x: self.cells[0].x + self.offset.x, y: self.cells[0].y + self.offset.y },
            Point { x: self.cells[1].x + self.offset.x, y: self.cells[1].y + self.offset.y },
            Point { x: self.cells[2].x + self.offset.x, y: self.cells[2].y + self.offset.y },
            Point { x: self.cells[3].x + self.offset.x, y: self.cells[3].y + self.offset.y },
        ]
    }
}

/// True when some piece in `s` has kind `k`.
pub open spec fn contains_kind(s: Seq<Tetromino>, k: TetrominoKind) -> bool {
    exists|i: int| 0 <= i < s.len() && s[i].kind == k
}

/// Relies on rand::seq::SliceRandom::shuffle, driven by rand::rng(): it
/// permutes the slice in place, so the multiset of its elements is
/// unchanged. Nothing is promised about the resulting order.
#[verifier::external_body]
fn shuffle_pieces(pieces: &mut Vec<Tetromino>)
    ensures
        final(pieces)@.to_multiset() == old(pieces)@.to_multiset(),
{
    pieces.as_mut_slice().shuffle(&mut rand::rng());
}

impl Tetromino {
    /// One instance of each of the seven kinds, each at its spawn position,
    /// in a random order: a fresh seven-piece bag.
    pub fn bag() -> (r: Vec<Tetromino>)
        ensures
            r@.len() == 7,
            forall|i: int| 0 <= i < 7 ==> (#[trigger] r@[i]).is_spawn(),
            forall|i: int, j: int| 0 <= i < j < 7 ==> r@[i].kind != r@[j].kind,
            forall|k: TetrominoKind| #[trigger] contains_kind(r@, k),
    {
        let mut pieces: Vec<Tetromino> = Vec::new();
        pieces.push(Tetromino::new(TetrominoKind::O));
        pieces.push(Tetromino::new(TetrominoKind::I));
        pieces.push(Tetromino::new(TetrominoKind::T));
        pieces.push(Tetromino::new(TetrominoKind::S));
        pieces.push(Tetromino::new(TetrominoKind::Z));
        pieces.push(Tetromino::new(TetrominoKind::L));
        pieces.push(Tetromino::new(TetrominoKind::J));
        let ghost orig = pieces@;
        shuffle_pieces(&mut pieces);
        proof {
            broadcast use vstd::seq_lib::group_to_multiset_ensures;

            assert(orig.len() == 7);
            assert(pieces@.to_multiset() == orig.to_multiset());
            assert(pieces@.to_multiset().len() == pieces@.len());
            assert(orig.to_multiset().len() == orig.len());
            assert(pieces@.len() == 7);
            assert forall|i: int| 0 <= i < 7 implies (#[trigger] pieces@[i]).is_spawn() by {
                assert(pieces@.contains(pieces@[i]));
                assert(pieces@.to_multiset().count(pieces@[i]) > 0);
                assert(orig.to_multiset().count(pieces@[i]) > 0);
                assert(orig.contains(pieces@[i]));
            }
            assert(orig.no_duplicates());
            orig.lemma_multiset_has_no_duplicates();
            pieces@.lemma_multiset_has_no_duplicates_conv();
            assert forall|i: int, j: int| 0 <= i < j < 7 implies pieces@[i].kind
                != pieces@[j].kind by {
                if pieces@[i].kind == pieces@[j].kind {
                    lemma_spawn_determined(pieces@[i], pieces@[j]);
                }
            }
            assert forall|k: TetrominoKind| #[trigger] contains_kind(pieces@, k) by {
                let w: int = match k {
                    TetrominoKind::O => 0,
                    TetrominoKind::I => 1,
                    TetrominoKind::T => 2,
                    TetrominoKind::S => 3,
                    TetrominoKind::Z => 4,
                    TetrominoKind::L => 5,
                    TetrominoKind::J => 6,
                };
                assert(orig[w].kind == k);
                assert(orig.contains(orig[w]));
                assert(orig.to_multiset().count(orig[w]) > 0);
                assert(pieces@.to_multiset().count(orig[w]) > 0);
                assert(pieces@.contains(orig[w]));
                let i = choose|i: int| 0 <= i < pieces@.len() && pieces@[i] == orig[w];
                assert(0 <= i < 7 && pieces@[i].kind == k);
            }
        }
        pieces
    }
}

/// Two spawn pieces of the same kind are the same piece.
pub proof fn lemma_spawn_determined(t: Tetromino, u: Tetromino)
    requires
        t.is_spawn(),
        u.is_spawn(),
        t.kind == u.kind,
    ensures
        t == u,
{
    lemma_piece_determined(t, u);
}

/// Two well-formed pieces that agree on kind, facing and offset are the same
/// piece: the cells are determined by kind and facing.
pub proof fn lemma_piece_determined(t: Tetromino, u: Tetromino)
    requires
        t.wf(),
        u.wf(),
        t.kind == u.kind,
        t.direction == u.direction,
        t.offset == u.offset,
    ensures
        t == u,
{
    broadcast use vstd::array::group_array_axioms;

    assert forall|i: int| 0 <= i < 4 implies t.cells@[i] == u.cells@[i] by {
        assert(t.cell_at(i) == t.kind.spec_shape_cell(t.direction, i));
        assert(u.cell_at(i) == u.kind.spec_shape_cell(u.direction, i));
    }
    assert(t.cells@ =~= u.cells@);
    assert(t.cells == u.cells);
}

/// Rotation of a piece is a group of order 4: four rotations in the same
/// sense return a well-formed piece to exactly its original state. For O
/// the facing still cycles, but the cells never change.
pub proof fn lemma_rotate_order_four(t: Tetromino, u: Tetromino, r: Rotation)
    requires
        t.wf(),
        u.wf(),
        u.kind == t.kind,
        u.offset == t.offset,
        u.direction == t.direction.spec_rotate(r).spec_rotate(r).spec_rotate(r).spec_rotate(r),
    ensures
        u == t,
{
    crate::geometry::lemma_direction_rotate_order_four(t.direction, r);
    lemma_piece_determined(t, u);
}

/// Well-formedness only looks at kind, cells and facing, so it carries
/// over to any translate of a piece.
pub proof fn lemma_translated_wf(t: Tetromino, u: Tetromino)
    requires
        t.wf(),
        u.cells == t.cells,
        u.kind == t.kind,
        u.direction == t.direction,
    ensures
        u.wf(),
{
    assert forall|i: int|
        0 <= i < 4 implies #[trigger] u.cell_at(i) == u.kind.spec_shape_cell(u.direction, i) by {
        assert(t.cell_at(i) == t.kind.spec_shape_cell(t.direction, i));
        assert(u.cell_at(i) == t.cell_at(i));
    }
}

/// The four absolute cells of a well-formed piece are pairwise distinct
/// board coordinates.
pub proof fn lemma_position_cells_distinct(t: Tetromino)
    requires
        t.wf(),
    ensures
        forall|i: int, j: int| 0 <= i < j < 4 ==> t.abs_cell(i) != t.abs_cell(j),
{
    lemma_shape_cells_distinct(t.kind, t.direction);
    assert forall|i: int, j: int| 0 <= i < j < 4 implies t.abs_cell(i) != t.abs_cell(j) by {
        assert(t.cell_at(i) == t.kind.spec_shape_cell(t.direction, i));
        assert(t.cell_at(j) == t.kind.spec_shape_cell(t.direction, j));
    }
}

} // verus!
