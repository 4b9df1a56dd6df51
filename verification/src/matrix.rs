//! The game's matrix: a fixed 10 by 20 grid of optional colors holding
//! every already-placed piece, with bounds and occupancy collision tests,
//! piece placement, and row compaction.

use vstd::prelude::*;

use crate::color::Color;
use crate::pieces::Tetromino;
use crate::geometry::Point;

verus! {

/// One row of the board with every cell empty.
pub open spec fn empty_row() -> Seq<Option<Color>> {
    Seq::new(10, |x: int| None::<Color>)
}

/// A row is full when every one of its cells holds a color.
pub open spec fn row_full(row: Seq<Option<Color>>) -> bool {
    forall|x: int| 0 <= x < row.len() ==> (#[trigger] row[x]) is Some
}

/// True iff the coordinate lies inside the visible board. Rows above the
/// board (negative y) count as out of bounds here, though a piece may sit
/// there before it locks.
pub open spec fn spec_in_bounds(c: (int, int)) -> bool {
    0 <= c.0 < 10 && 0 <= c.1 < 20
}

/// The rows of `g` that are not full, in their original order.
pub open spec fn live_rows(g: Seq<Seq<Option<Color>>>) -> Seq<Seq<Option<Color>>>
    decreases g.len(),
{
    if g.len() == 0 {
        Seq::empty()
    } else if row_full(g.last()) {
        live_rows(g.drop_last())
    } else {
        live_rows(g.drop_last()).push(g.last())
    }
}

/// How many rows of `g` are full.
pub open spec fn count_full(g: Seq<Seq<Option<Color>>>) -> int {
    g.len() - live_rows(g).len()
}

/// `n` empty rows.
pub open spec fn empty_rows(n: int) -> Seq<Seq<Option<Color>>> {
    Seq::new(n as nat, |y: int| empty_row())
}

/// The index of the bottommost full row of `g`, or -1 when no row is full.
pub open spec fn bottom_full_row(g: Seq<Seq<Option<Color>>>) -> int
    decreases g.len(),
{
    if g.len() == 0 {
        -1
    } else if row_full(g.last()) {
        g.len() - 1
    } else {
        bottom_full_row(g.drop_last())
    }
}

/// True when some cell of the piece lands exactly on `(x, y)`.
pub open spec fn covers(t: Tetromino, x: int, y: int) -> bool {
    exists|i: int| 0 <= i < 4 && #[trigger] t.abs_cell(i) == (x, y)
}

/// The grid `g` with the piece's four cells written with its kind's color.
pub open spec fn spec_place(g: Seq<Seq<Option<Color>>>, t: Tetromino) -> Seq<
    Seq<Option<Color>>,
> {
    Seq::new(
        g.len(),
        |y: int|
            Seq::new(
                g[y].len(),
                |x: int|
                    if covers(t, x, y) {
                        Some(t.kind.spec_color())
                    } else {
                        g[y][x]
                    },
            ),
    )
}

/// The game's matrix. Each cell is either empty (`None`) or filled with
/// the color of the piece that was locked into it.
pub struct Matrix(Vec<Vec<Option<Color>>>);

impl View for Matrix {
    type V = Seq<Seq<Option<Color>>>;

    closed spec fn view(&self) -> Seq<Seq<Option<Color>>> {
        Seq::new(self.0@.len(), |y: int| self.0@[y]@)
    }
}

impl Matrix {
    pub const WIDTH: usize = 10;

    pub const HEIGHT: usize = 20;

    /// The matrix always keeps its fixed dimensions.
    pub open spec fn wf(self) -> bool {
        &&& self@.len() == 20
        &&& forall|y: int| 0 <= y < 20 ==> (#[trigger] self@[y]).len() == 10
    }

    /// The cell at in-bounds coordinate `c` holds a color.
    pub open spec fn spec_occupied(self, c: (int, int)) -> bool
        recommends
            spec_in_bounds(c),
    {
        self@[c.1][c.0] is Some
    }

    /// The piece has a cell that is out of bounds or lands on an occupied
    /// cell.
    pub open spec fn spec_collides(self, t: Tetromino) -> bool {
        exists|i: int|
            0 <= i < 4 && (!spec_in_bounds(#[trigger] t.abs_cell(i)) || self.spec_occupied(
                t.abs_cell(i),
            ))
    }

    /// A fresh matrix with every cell empty.
    pub fn new() -> (m: Matrix)
        ensures
            m.wf(),
            forall|y: int| 0 <= y < 20 ==> (#[trigger] m@[y]) == empty_row(),
    {
        let mut rows: Vec<Vec<Option<Color>>> = Vec::new();
        while rows.len() < 20
            invariant
                rows@.len() <= 20,
                forall|y: int| 0 <= y < rows@.len() ==> (#[trigger] rows@[y])@ =~= empty_row(),
            decreases 20 - rows@.len(),
        {
            rows.push(new_empty_row());
        }
        Matrix(rows)
    }

    /// Read-only access to the rows, top to bottom.
    pub fn iter(&self) -> (r: &Vec<Vec<Option<Color>>>)
        ensures
            r@.len() == self@.len(),
            forall|y: int| 0 <= y < self@.len() ==> (#[trigger] r@[y])@ == self@[y],
    {
        &self.0
    }

    /// Returns `true` iff the given coordinate is in the bounds of the
    /// matrix.
    pub fn in_bounds(&self, coord: Point) -> (r: bool)
        ensures
            r == spec_in_bounds((coord.x as int, coord.y as int)),
    {
        coord.y >= 0 && coord.x >= 0 && coord.y < 20 && coord.x < 10
    }

    /// Bounds-checked read of one cell: `None` when the coordinate is
    /// outside the board, otherwise the cell's content.
    pub fn get(&self, coord: Point) -> (r: Option<Option<Color>>)
        requires
            self.wf(),
        ensures
            spec_in_bounds((coord.x as int, coord.y as int)) ==> r == Some(
                self@[coord.y as int][coord.x as int],
            ),
            !spec_in_bounds((coord.x as int, coord.y as int)) ==> r is None,
    {
        if coord.y >= 0 && coord.x >= 0 && coord.y < 20 && coord.x < 10 {
            proof {
                assert(self.0@.len() == 20);
                assert(self@[coord.y as int].len() == 10);
            }
            Some(self.0[coord.y as usize][coord.x as usize])
        } else {
            None
        }
    }

    /// Write one in-bounds cell.
    pub fn set(&mut self, coord: Point, cell: Option<Color>)
        requires
            old(self).wf(),
            spec_in_bounds((coord.x as int, coord.y as int)),
        ensures
            final(self).wf(),
            final(self)@ =~= old(self)@.update(
                coord.y as int,
                old(self)@[coord.y as int].update(coord.x as int, cell),
            ),
    {
        let x = coord.x as usize;
        let y = coord.y as usize;
        proof {
            assert(self.0@.len() == 20);
            assert(self@[y as int].len() == 10);
            assert(self.0@[y as int]@.len() == 10);
        }
        self.0[y][x] = cell;
        proof {
            let g = old(self)@.update(
                coord.y as int,
                old(self)@[coord.y as int].update(coord.x as int, cell),
            );
            assert forall|yy: int| 0 <= yy < 20 implies (#[trigger] self@[yy]) == g[yy] by {
                if yy != y as int {
                    assert(self@[yy] == old(self)@[yy]);
                }
            }
            assert(self@ =~= g);
        }
    }

    /// Returns `true` iff row `y` is fully occupied.
    pub fn row_is_full(&self, y: usize) -> (r: bool)
        requires
            self.wf(),
            y < 20,
        ensures
            r == row_full(self@[y as int]),
    {
        let row = &self.0[y];
        let mut x: usize = 0;
        while x < 10
            invariant
                self.wf(),
                y < 20,
                row@ == self@[y as int],
                x <= 10,
                forall|j: int| 0 <= j < x ==> (#[trigger] row@[j]) is Some,
            decreases 10 - x,
        {
            if row[x].is_none() {
                return false;
            }
            x = x + 1;
        }
        true
    }

    /// Returns `true` iff some cell of the given piece is out of the
    /// matrix's bounds or already occupied; `false` otherwise.
    pub fn will_collide(&self, tetromino: &Tetromino) -> (r: bool)
        requires
            self.wf(),
            forall|i: int|
                0 <= i < 4 ==> isize::MIN <= (#[trigger] tetromino.abs_cell(i)).0 <= isize::MAX
                    && isize::MIN <= tetromino.abs_cell(i).1 <= isize::MAX,
        ensures
            r == self.spec_collides(*tetromino),
    {
        let pos = tetromino.position();
        let mut i: usize = 0;
        while i < 4
            invariant
                self.wf(),
                forall|j: int|
                    0 <= j < 4 ==> ((#[trigger] pos@[j]).x as int, pos@[j].y as int)
                        == tetromino.abs_cell(j),
                i <= 4,
                forall|j: int|
                    0 <= j < i ==> spec_in_bounds(#[trigger] tetromino.abs_cell(j))
                        && !self.spec_occupied(tetromino.abs_cell(j)),
            decreases 4 - i,
        {
            let p = pos[i];
            if p.y < 0 || p.x < 0 || p.y >= 20 || p.x >= 10 {
                proof {
                    assert(!spec_in_bounds(tetromino.abs_cell(i as int)));
                }
                return true;
            }
            proof {
                assert(self.0@.len() == 20);
                assert(self@[p.y as int].len() == 10);
            }
            if self.0[p.y as usize][p.x as usize].is_some() {
                proof {
                    assert(self.spec_occupied(tetromino.abs_cell(i as int)));
                }
                return true;
            }
            i = i + 1;
        }
        false
    }
}

/// `bottom_full_row` finds exactly the bottommost full row: it returns an
/// index into the grid when some row is full, that row is then full, and
/// every row below it is not; it returns -1 exactly when no row is full.
pub proof fn lemma_bottom_full_row(g: Seq<Seq<Option<Color>>>)
    ensures
        -1 <= bottom_full_row(g) < g.len(),
        bottom_full_row(g) >= 0 ==> row_full(g[bottom_full_row(g)]),
        forall|j: int| bottom_full_row(g) < j < g.len() ==> !row_full(#[trigger] g[j]),
    decreases g.len(),
{
    if g.len() == 0 {
    } else if row_full(g.last())  {
    } else {
        lemma_bottom_full_row(g.drop_last());
        assert forall|j: int| bottom_full_row(g) < j < g.len() implies !row_full(
            #[trigger] g[j],
        ) by {
            if j < g.len() - 1 {
                assert(g.drop_last()[j] == g[j]);
            }
        }
    }
}

/// There are never more live rows than rows.
pub proof fn lemma_live_rows_len(g: Seq<Seq<Option<Color>>>)
    ensures
        live_rows(g).len() <= g.len(),
    decreases g.len(),
{
    if g.len() > 0 {
        lemma_live_rows_len(g.drop_last());
    }
}

/// Taking the live rows distributes over concatenation.
pub proof fn lemma_live_rows_add(a: Seq<Seq<Option<Color>>>, b: Seq<Seq<Option<Color>>>)
    ensures
        live_rows(a + b) == live_rows(a) + live_rows(b),
    decreases b.len(),
{
    if b.len() == 0 {
        assert(a + b =~= a);
        assert(live_rows(b) =~= Seq::<Seq<Option<Color>>>::empty());
        assert(live_rows(a) + live_rows(b) =~= live_rows(a));
    } else {
        lemma_live_rows_add(a, b.drop_last());
        assert((a + b).drop_last() =~= a + b.drop_last());
        assert((a + b).last() == b.last());
        if row_full(b.last()) {
            assert(live_rows(a + b) == live_rows(a) + live_rows(b.drop_last()));
        } else {
            assert(live_rows(a + b) =~= live_rows(a) + live_rows(b.drop_last()).push(b.last()));
        }
    }
}

/// A grid with no full row keeps all of its rows.
pub proof fn lemma_live_rows_all(g: Seq<Seq<Option<Color>>>)
    requires
        forall|y: int| 0 <= y < g.len() ==> !row_full(#[trigger] g[y]),
    ensures
        live_rows(g) == g,
    decreases g.len(),
{
    if g.len() == 0 {
        assert(live_rows(g) =~= g);
    } else {
        assert(forall|y: int|
            0 <= y < g.len() - 1 ==> !row_full(#[trigger] g.drop_last()[y]) && g.drop_last()[y]
                == g[y]);
        lemma_live_rows_all(g.drop_last());
        assert(live_rows(g) =~= g);
    }
}

/// An all-empty row is never full.
pub proof fn lemma_empty_row_not_full()
    ensures
        !row_full(empty_row()),
{
    assert(empty_row()[0] is None);
}

/// Clearing the full row at index `r` -- shifting everything above it down
/// by one and emptying the top row -- removes exactly that row from the
/// live rows and puts one empty row in front of them.
pub proof fn lemma_clear_step(g: Seq<Seq<Option<Color>>>, r: int)
    requires
        0 <= r < g.len(),
        row_full(g[r]),
    ensures
        ({
            let cleared = seq![empty_row()] + g.subrange(0, r) + g.subrange(r + 1, g.len() as int);
            &&& live_rows(cleared) == seq![empty_row()] + live_rows(g)
            &&& cleared.len() == g.len()
            &&& count_full(cleared) == count_full(g) - 1
        }),
{
    let e = seq![empty_row()];
    let a = g.subrange(0, r);
    let b = g.subrange(r + 1, g.len() as int);
    let s = seq![g[r]];
    let cleared = e + a + b;
    lemma_empty_row_not_full();
    assert(live_rows(Seq::<Seq<Option<Color>>>::empty()) =~= Seq::<Seq<Option<Color>>>::empty());
    assert(s.drop_last() =~= Seq::<Seq<Option<Color>>>::empty());
    assert(live_rows(s) =~= Seq::<Seq<Option<Color>>>::empty());
    assert(e.drop_last() =~= Seq::<Seq<Option<Color>>>::empty());
    assert(live_rows(e) =~= e);
    assert(g =~= a + s + b);
    lemma_live_rows_add(a + s, b);
    lemma_live_rows_add(a, s);
    assert(live_rows(g) == live_rows(a) + live_rows(b)) by {
        assert(live_rows(a) + live_rows(s) =~= live_rows(a));
    }
    lemma_live_rows_add(e + a, b);
    lemma_live_rows_add(e, a);
    assert(live_rows(cleared) =~= e + (live_rows(a) + live_rows(b)));
}

/// No surviving row is full: `live_rows` keeps only rows that are not.
pub proof fn lemma_live_rows_not_full(g: Seq<Seq<Option<Color>>>)
    ensures
        forall|i: int| 0 <= i < live_rows(g).len() ==> !row_full(#[trigger] live_rows(g)[i]),
    decreases g.len(),
{
    if g.len() > 0 {
        lemma_live_rows_not_full(g.drop_last());
        assert forall|i: int| 0 <= i < live_rows(g).len() implies !row_full(
            #[trigger] live_rows(g)[i],
        ) by {
            if !row_full(g.last()) && i == live_rows(g).len() - 1 {
                assert(live_rows(g)[i] == g.last());
            } else {
                assert(live_rows(g)[i] == live_rows(g.drop_last())[i]);
            }
        }
    }
}

/// Compaction clears everything: with the full rows of a 20-row board
/// replaced by empty rows on top and the surviving rows below, the board
/// again has 20 rows and none of them is full.
pub proof fn lemma_compaction_clears_all(g: Seq<Seq<Option<Color>>>)
    requires
        g.len() == 20,
    ensures
        (empty_rows(count_full(g)) + live_rows(g)).len() == 20,
        forall|y: int|
            0 <= y < 20 ==> !row_full(#[trigger] (empty_rows(count_full(g)) + live_rows(g))[y]),
{
    lemma_live_rows_len(g);
    lemma_live_rows_not_full(g);
    lemma_empty_row_not_full();
}

/// One row clear, exactly: on a board whose only full row is `r`, the
/// compacted board has an empty top row, every row originally above `r`
/// shifted down by one, and every row below `r` unchanged.
pub proof fn lemma_single_row_clear(g: Seq<Seq<Option<Color>>>, r: int)
    requires
        g.len() == 20,
        0 <= r < 20,
        row_full(g[r]),
        forall|y: int| 0 <= y < 20 && y != r ==> !row_full(#[trigger] g[y]),
    ensures
        count_full(g) == 1,
        ({
            let cleared = empty_rows(count_full(g)) + live_rows(g);
            &&& cleared.len() == 20
            &&& cleared[0] == empty_row()
            &&& forall|y: int| 1 <= y <= r ==> cleared[y] == g[y - 1]
            &&& forall|y: int| r < y < 20 ==> cleared[y] == g[y]
        }),
{
    let a = g.subrange(0, r);
    let b = g.subrange(r + 1, 20);
    let s = seq![g[r]];
    assert(g =~= a + s + b);
    lemma_live_rows_add(a + s, b);
    lemma_live_rows_add(a, s);
    assert(s.drop_last() =~= Seq::<Seq<Option<Color>>>::empty());
    assert(live_rows(Seq::<Seq<Option<Color>>>::empty()) =~= Seq::<Seq<Option<Color>>>::empty());
    assert(live_rows(s) =~= Seq::<Seq<Option<Color>>>::empty());
    lemma_live_rows_all(a);
    lemma_live_rows_all(b);
    assert(live_rows(g) == a + b) by {
        assert(live_rows(a) + live_rows(s) =~= a);
        assert(a + b =~= live_rows(a + s) + live_rows(b));
    }
    assert(count_full(g) == 1);
}

impl Matrix {
    /// Compacts the grid after row `index` was found full: every row above
    /// it shifts down by one and the top row becomes empty.
    pub fn push_down(&mut self, index: usize)
        requires
            old(self).wf(),
            index < 20,
        ensures
            final(self).wf(),
            final(self)@ == seq![empty_row()] + old(self)@.subrange(0, index as int) + old(
                self,
            )@.subrange(index as int + 1, 20),
    {
        proof {
            assert(self.0@.len() == 20);
        }
        self.0.remove(index);
        self.0.insert(0, new_empty_row());
        proof {
            let target = seq![empty_row()] + old(self)@.subrange(0, index as int) + old(
                self,
            )@.subrange(index as int + 1, 20);
            assert forall|y: int| 0 <= y < 20 implies (#[trigger] self@[y]) == target[y] by {
                if y == 0 {
                } else if y <= index {
                    assert(self.0@[y] == old(self).0@[y - 1]);
                } else {
                    assert(self.0@[y] == old(self).0@[y]);
                }
            }
            assert(self@ =~= target);
        }
    }

    /// Takes a piece lying fully inside the board and places it into the
    /// matrix. When some cell it needs is already occupied nothing changes
    /// and `false` comes back (the caller treats that as the fatal,
    /// game-ending condition); otherwise the piece's color is written into
    /// its four cells.
    pub fn place_piece(&mut self, tetromino: Tetromino) -> (ok: bool)
        requires
            old(self).wf(),
            forall|i: int| 0 <= i < 4 ==> spec_in_bounds(#[trigger] tetromino.abs_cell(i)),
        ensures
            final(self).wf(),
            ok == !(exists|i: int|
                0 <= i < 4 && old(self).spec_occupied(#[trigger] tetromino.abs_cell(i))),
            ok ==> final(self)@ == spec_place(old(self)@, tetromino),
            !ok ==> *final(self) == *old(self),
    {
        let pos = tetromino.position();
        let mut i: usize = 0;
        while i < 4
            invariant
                self == old(self),
                self.wf(),
                forall|j: int|
                    0 <= j < 4 ==> ((#[trigger] pos@[j]).x as int, pos@[j].y as int)
                        == tetromino.abs_cell(j),
                forall|j: int| 0 <= j < 4 ==> spec_in_bounds(#[trigger] tetromino.abs_cell(j)),
                i <= 4,
                forall|j: int|
                    0 <= j < i ==> !self.spec_occupied(#[trigger] tetromino.abs_cell(j)),
            decreases 4 - i,
        {
            let p = pos[i];
            proof {
                assert(spec_in_bounds(tetromino.abs_cell(i as int)));
                assert(self.0@.len() == 20);
                assert(self@[p.y as int].len() == 10);
            }
            if self.0[p.y as usize][p.x as usize].is_some() {
                proof {
                    assert(self.spec_occupied(tetromino.abs_cell(i as int)));
                }
                return false;
            }
            i = i + 1;
        }
        let color = tetromino.get_color();
        let p0 = pos[0];
        let p1 = pos[1];
        let p2 = pos[2];
        let p3 = pos[3];
        proof {
            assert(spec_in_bounds(tetromino.abs_cell(0)));
            assert(spec_in_bounds(tetromino.abs_cell(1)));
            assert(spec_in_bounds(tetromino.abs_cell(2)));
            assert(spec_in_bounds(tetromino.abs_cell(3)));
        }
        self.set(p0, Some(color));
        self.set(p1, Some(color));
        self.set(p2, Some(color));
        self.set(p3, Some(color));
        proof {
            let g0 = old(self)@;
            let target = spec_place(g0, tetromino);
            assert forall|y: int| 0 <= y < 20 implies (#[trigger] self@[y]) =~= target[y] by {
                assert forall|x: int| 0 <= x < 10 implies self@[y][x] == target[y][x] by {
                    if tetromino.abs_cell(0) == (x, y) || tetromino.abs_cell(1) == (x, y)
                        || tetromino.abs_cell(2) == (x, y) || tetromino.abs_cell(3) == (x, y) {
                        assert(covers(tetromino, x, y));
                        assert(self@[y][x] == Some(tetromino.kind.spec_color()));
                    } else {
                        assert(!covers(tetromino, x, y));
                        assert(self@[y][x] == g0[y][x]);
                    }
                }
            }
            assert(self@ =~~= target);
        }
        true
    }
}

/// A fresh all-empty row.
fn new_empty_row() -> (r: Vec<Option<Color>>)
    ensures
        r@ =~= empty_row(),
{
    let mut row: Vec<Option<Color>> = Vec::new();
    while row.len() < 10
        invariant
            row@.len() <= 10,
            forall|j: int| 0 <= j < row@.len() ==> (#[trigger] row@[j]) is None,
        decreases 10 - row@.len(),
    {
        row.push(None);
    }
    row
}

} // verus!
