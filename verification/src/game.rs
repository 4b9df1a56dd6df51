//! The game controller: owns the board, the active piece, the bag, the
//! score and the gravity speed, and drives the turn logic -- move and
//! rotate requests, gravity drops, locking, row clearing and spawning.

use vstd::prelude::*;

use crate::geometry::Direction;
use crate::geometry::Point;
use crate::geometry::Rotation;
use crate::matrix::Matrix;
use crate::matrix::bottom_full_row;
use crate::matrix::count_full;
use crate::matrix::empty_row;
use crate::matrix::empty_rows;
use crate::matrix::lemma_bottom_full_row;
use crate::matrix::lemma_clear_step;
use crate::matrix::lemma_live_rows_all;
use crate::matrix::lemma_live_rows_len;
use crate::matrix::live_rows;
use crate::matrix::row_full;
use crate::matrix::spec_in_bounds;
use crate::matrix::spec_place;
use crate::pieces::Tetromino;
use crate::pieces::contains_kind;
use crate::pieces::lemma_shape_cell_bounds;

verus! {

/// A discrete command from the input layer.
#[derive(Debug, Clone, Copy, PartialEq, Eq, Structural)]
pub enum Command {
    MoveLeft,
    MoveRight,
    SoftDropStart,
    SoftDropStop,
    HardDrop,
    RotateClockwise,
    RotateCounterClockwise,
}

/// Whether the session goes on after an action. `Lost` is terminal: the
/// caller must stop feeding commands in.
#[derive(Debug, Clone, Copy, PartialEq, Eq, Structural)]
pub enum GameStatus {
    Playing,
    Lost,
}

/// Game struct. Handles the game logic and the score.
pub struct Game {
    pub matrix: Matrix,
    pub cur_tetromino: Option<Tetromino>,
    pub bag: Vec<Tetromino>,
    pub score: u32,
    /// Milliseconds between two gravity ticks.
    pub tick: u64,
}

/// The box the game can ever steer the active piece through: a
/// well-formed shape, columns over the board, rows from the spawn row just
/// above the board down to one step past the floor.
pub open spec fn piece_in_range(t: Tetromino) -> bool {
    &&& t.wf()
    &&& -3 <= t.offset.x <= 10
    &&& -1 <= t.offset.y <= 20
}

/// Where a piece may sit at the moment it locks; a hard drop started from
/// an already blocked piece can aim one row above the spawn row.
pub open spec fn piece_lockable(t: Tetromino) -> bool {
    &&& t.wf()
    &&& -3 <= t.offset.x <= 10
    &&& -2 <= t.offset.y <= 20
}

/// `t` translated by `(dx, dy)` board cells.
pub open spec fn spec_moved(t: Tetromino, dx: int, dy: int) -> Tetromino {
    Tetromino {
        offset: Point { x: (t.offset.x + dx) as isize, y: (t.offset.y + dy) as isize },
        ..t
    }
}

/// `t` carried to the row where its offset's y is `yy`, same column and
/// facing.
pub open spec fn spec_with_y(t: Tetromino, yy: int) -> Tetromino {
    Tetromino { offset: Point { x: t.offset.x, y: yy as isize }, ..t }
}

/// The piece collides when its offset's y is carried to `yy`.
pub open spec fn collides_at(m: Matrix, t: Tetromino, yy: int) -> bool {
    m.spec_collides(spec_with_y(t, yy))
}

/// `u` is `t` rotated one step in the given sense: same kind and offset,
/// the facing advanced, the cells recomputed for it.
pub open spec fn is_rotation_of(u: Tetromino, t: Tetromino, rotation: Rotation) -> bool {
    &&& u.wf()
    &&& u.kind == t.kind
    &&& u.offset == t.offset
    &&& u.direction == t.direction.spec_rotate(rotation)
}

/// The top-out test at lock time: some cell of the piece lies above or
/// left of the board.
pub open spec fn spec_piece_out(t: Tetromino) -> bool {
    exists|i: int| 0 <= i < 4 && ((#[trigger] t.abs_cell(i)).0 < 0 || t.abs_cell(i).1 < 0)
}

/// `g` is where `t` comes to rest when dropped straight down: same piece
/// and column, moved down to the last row it can reach without ever
/// colliding on the way.
pub open spec fn is_rest_of(m: Matrix, t: Tetromino, g: Tetromino) -> bool {
    &&& g == spec_with_y(t, g.offset.y as int)
    &&& g.offset.y >= t.offset.y
    &&& forall|yy: int| t.offset.y <= yy <= g.offset.y ==> !collides_at(m, t, yy)
    &&& collides_at(m, t, g.offset.y + 1)
}

/// On a board without overhangs over the piece's column -- where the
/// piece, once it collides at some row, also collides at every row below
/// -- the resting row is the maximum row at which the piece does not
/// collide: it collides at every row below the resting position.
pub proof fn lemma_rest_row_is_maximum(m: Matrix, t: Tetromino, g: Tetromino, yy: int)
    requires
        forall|y: int| collides_at(m, t, y) ==> #[trigger] collides_at(m, t, y + 1),
        is_rest_of(m, t, g),
        yy > g.offset.y,
    ensures
        collides_at(m, t, yy),
    decreases yy - g.offset.y,
{
    if yy > g.offset.y + 1 {
        lemma_rest_row_is_maximum(m, t, g, yy - 1);
        assert(collides_at(m, t, (yy - 1) + 1));
    }
}

/// Every absolute cell of a well-formed piece near the board fits
/// comfortably in machine integers, in a small box around the board.
pub proof fn lemma_cells_fit(t: Tetromino)
    requires
        t.wf(),
        -4 <= t.offset.x <= 11,
        -2 <= t.offset.y <= 21,
    ensures
        forall|i: int|
            0 <= i < 4 ==> -5 <= (#[trigger] t.abs_cell(i)).0 <= 14 && -2 <= t.abs_cell(i).1
                <= 25,
{
    assert forall|i: int|
        0 <= i < 4 implies -5 <= (#[trigger] t.abs_cell(i)).0 <= 14 && -2 <= t.abs_cell(i).1
        <= 25 by {
        lemma_shape_cell_bounds(t.kind, t.direction, i);
        assert(t.cell_at(i) == t.kind.spec_shape_cell(t.direction, i));
    }
}

/// A piece that does not collide lies fully inside the board, which pins
/// its offset down near the board.
pub proof fn lemma_no_collide_in_box(m: Matrix, t: Tetromino)
    requires
        t.wf(),
        !m.spec_collides(t),
    ensures
        -3 <= t.offset.x <= 10,
        -4 <= t.offset.y <= 19,
{
    assert(spec_in_bounds(t.abs_cell(0)));
    lemma_shape_cell_bounds(t.kind, t.direction, 0);
    assert(t.cell_at(0) == t.kind.spec_shape_cell(t.direction, 0));
}

/// Relies on rand::random_range: the result lies in the given (non-empty)
/// range.
#[verifier::external_body]
fn lock_bonus() -> (b: u32)
    ensures
        3 <= b <= 8,
{
    rand::random_range(3..=8)
}

impl Game {
    /// Milliseconds between gravity ticks at normal speed.
    pub const BASE_TICK: u64 = 600;

    /// Milliseconds between gravity ticks while soft-dropping.
    pub const FAST_TICK: u64 = 600 / 20;

    /// Headroom the score needs before a lock: the random lock bonus (at
    /// most 8), the hard-drop bonus (30), and 100 per cleared row for at
    /// most 21 row checks.
    pub const SCORE_HEADROOM: u32 = 2138;

    /// Everything `wf` keeps true apart from the active piece: the board
    /// has its fixed dimensions and the bag holds at most seven spawn
    /// pieces, no kind twice.
    pub open spec fn wf_except_piece(self) -> bool {
        &&& self.matrix.wf()
        &&& self.bag@.len() <= 7
        &&& forall|i: int| 0 <= i < self.bag@.len() ==> (#[trigger] self.bag@[i]).is_spawn()
        &&& forall|i: int, j: int|
            0 <= i < j < self.bag@.len() ==> self.bag@[i].kind != self.bag@[j].kind
    }

    /// Everything the game keeps true between commands.
    pub open spec fn wf(self) -> bool {
        &&& self.wf_except_piece()
        &&& (self.cur_tetromino matches Some(t) ==> piece_in_range(t))
    }

    /// A fresh game: empty board, zero score, base speed, a full bag with
    /// its first piece already drawn as the active one.
    pub fn new() -> (g: Game)
        ensures
            g.wf(),
            g.score == 0,
            g.tick == Game::BASE_TICK,
            forall|y: int| 0 <= y < 20 ==> (#[trigger] g.matrix@[y]) == empty_row(),
            g.cur_tetromino is Some,
            g.bag@.len() == 6,
    {
        let mut game = Game {
            matrix: Matrix::new(),
            cur_tetromino: None,
            bag: Vec::new(),
            tick: Game::BASE_TICK,
            score: 0,
        };
        game.refill_bag();
        game.put_tetromino();
        game
    }

    /// Refills the bag when it is empty with all the 7 new variants
    /// shuffled: afterwards it holds one piece of every kind, each at its
    /// spawn position, in a random order.
    pub fn refill_bag(&mut self)
        requires
            old(self).bag@.len() == 0,
        ensures
            final(self).bag@.len() == 7,
            forall|i: int| 0 <= i < 7 ==> (#[trigger] final(self).bag@[i]).is_spawn(),
            forall|i: int, j: int|
                0 <= i < j < 7 ==> final(self).bag@[i].kind != final(self).bag@[j].kind,
            forall|k: crate::pieces::TetrominoKind| #[trigger] contains_kind(final(self).bag@, k),
            final(self).matrix == old(self).matrix,
            final(self).cur_tetromino == old(self).cur_tetromino,
            final(self).score == old(self).score,
            final(self).tick == old(self).tick,
    {
        self.bag = Tetromino::bag();
    }

    /// Makes the bag's last piece the active one (or none, when the bag
    /// is empty).
    fn put_tetromino(&mut self)
        ensures
            old(self).bag@.len() > 0 ==> final(self).cur_tetromino == Some(old(self).bag@.last())
                && final(self).bag@ == old(self).bag@.drop_last(),
            old(self).bag@.len() == 0 ==> final(self).cur_tetromino is None && final(self).bag@
                == old(self).bag@,
            final(self).matrix == old(self).matrix,
            final(self).score == old(self).score,
            final(self).tick == old(self).tick,
    {
        self.cur_tetromino = self.bag.pop();
    }

    /// Tries to move the active piece one column left or right; a move
    /// that would collide is discarded and nothing changes.
    fn try_move(&mut self, direction: Direction)
        requires
            old(self).wf(),
            old(self).cur_tetromino is Some,
        ensures
            final(self).wf(),
            final(self).matrix == old(self).matrix,
            final(self).bag == old(self).bag,
            final(self).score == old(self).score,
            final(self).tick == old(self).tick,
            ({
                let t = old(self).cur_tetromino->Some_0;
                let dx: int = match direction {
                    Direction::Left => -1,
                    Direction::Right => 1,
                    _ => 0,
                };
                let c = spec_moved(t, dx, 0);
                final(self).cur_tetromino == Some(
                    if dx == 0 || old(self).matrix.spec_collides(c) {
                        t
                    } else {
                        c
                    },
                )
            }),
    {
        let t = self.cur_tetromino.unwrap();
        match direction {
            Direction::Left | Direction::Right => {},
            _ => {
                return ;
            },
        }
        let mut candidate = t;
        candidate.move_lr(direction);
        proof {
            let dx: int = if direction is Left {
                -1
            } else {
                1
            };
            assert(candidate == spec_moved(t, dx, 0));
            crate::pieces::lemma_translated_wf(t, candidate);
            lemma_cells_fit(candidate);
        }
        if self.matrix.will_collide(&candidate) {
            return ;
        }
        proof {
            lemma_no_collide_in_box(self.matrix, candidate);
        }
        self.cur_tetromino = Some(candidate);
    }

    /// Drops the active piece one row if it can; returns `true` when it
    /// dropped, `false` (changing nothing) when a drop would collide.
    pub fn try_drop(&mut self) -> (dropped: bool)
        requires
            old(self).wf(),
            old(self).cur_tetromino is Some,
        ensures
            final(self).wf(),
            final(self).matrix == old(self).matrix,
            final(self).bag == old(self).bag,
            final(self).score == old(self).score,
            final(self).tick == old(self).tick,
            ({
                let t = old(self).cur_tetromino->Some_0;
                let c = spec_moved(t, 0, 1);
                &&& dropped == !old(self).matrix.spec_collides(c)
                &&& final(self).cur_tetromino == Some(
                    if dropped {
                        c
                    } else {
                        t
                    },
                )
            }),
    {
        let t = self.cur_tetromino.unwrap();
        let mut candidate = t;
        candidate.drop();
        proof {
            assert(candidate == spec_moved(t, 0, 1));
            crate::pieces::lemma_translated_wf(t, candidate);
            lemma_cells_fit(candidate);
        }
        if self.matrix.will_collide(&candidate) {
            return false;
        }
        proof {
            lemma_no_collide_in_box(self.matrix, candidate);
        }
        self.cur_tetromino = Some(candidate);
        true
    }

    /// Tries to rotate the active piece one step; a rotation that would
    /// collide is rejected wholesale (no wall kicks) and nothing changes.
    fn try_rotate(&mut self, rotation: Rotation)
        requires
            old(self).wf(),
            old(self).cur_tetromino is Some,
        ensures
            final(self).wf(),
            final(self).matrix == old(self).matrix,
            final(self).bag == old(self).bag,
            final(self).score == old(self).score,
            final(self).tick == old(self).tick,
            ({
                let t = old(self).cur_tetromino->Some_0;
                forall|u: Tetromino|
                    is_rotation_of(u, t, rotation) ==> final(self).cur_tetromino == Some(
                        if old(self).matrix.spec_collides(u) {
                            t
                        } else {
                            u
                        },
                    )
            }),
    {
        let t = self.cur_tetromino.unwrap();
        let mut candidate = t;
        candidate.rotate(rotation);
        proof {
            assert(is_rotation_of(candidate, t, rotation));
            lemma_cells_fit(candidate);
        }
        if self.matrix.will_collide(&candidate) {
            proof {
                assert forall|u: Tetromino| is_rotation_of(u, t, rotation) implies self.matrix.spec_collides(
                    u,
                ) by {
                    crate::pieces::lemma_piece_determined(u, candidate);
                }
            }
            return ;
        }
        self.cur_tetromino = Some(candidate);
        proof {
            assert forall|u: Tetromino| is_rotation_of(u, t, rotation) implies u == candidate by {
                crate::pieces::lemma_piece_determined(u, candidate);
            }
        }
    }
}

impl Game {
    /// One bottom-to-top scan: finds the bottommost full row, awards 100
    /// points, clears it (rows above shift down by one, the top row
    /// empties) and returns `true`; returns `false` when no row is full.
    pub fn check_rows(&mut self) -> (cleared: bool)
        requires
            old(self).matrix.wf(),
            old(self).score <= u32::MAX - 100,
        ensures
            final(self).matrix.wf(),
            final(self).cur_tetromino == old(self).cur_tetromino,
            final(self).bag == old(self).bag,
            final(self).tick == old(self).tick,
            ({
                let g = old(self).matrix@;
                let r = bottom_full_row(g);
                &&& cleared == (r >= 0)
                &&& r >= 0 ==> final(self).matrix@ == seq![empty_row()] + g.subrange(0, r)
                    + g.subrange(r + 1, 20) && final(self).score == old(self).score + 100
                &&& r < 0 ==> final(self).matrix == old(self).matrix && final(self).score == old(
                    self,
                ).score
            }),
    {
        let mut y: usize = 20;
        while y > 0
            invariant
                self == old(self),
                self.matrix.wf(),
                self.score <= u32::MAX - 100,
                y <= 20,
                forall|j: int| y <= j < 20 ==> !row_full(#[trigger] self.matrix@[j]),
            decreases y,
        {
            let yy = y - 1;
            if self.matrix.row_is_full(yy) {
                proof {
                    lemma_bottom_full_row(self.matrix@);
                    assert(row_full(self.matrix@[yy as int]));
                    assert(bottom_full_row(self.matrix@) == yy as int);
                }
                self.score = self.score + 100;
                self.matrix.push_down(yy);
                return true;
            }
            y = yy;
        }
        proof {
            lemma_bottom_full_row(self.matrix@);
        }
        false
    }

    /// Locks the active piece: commits it into the matrix, awards the
    /// random lock bonus in [3, 8], clears full rows bottom-up for 100
    /// points each until none remain, and draws the next piece from the
    /// bag, refilling the bag first when it is empty. When the piece
    /// cannot be committed -- a cell out of bounds (the top-out loss) or
    /// already occupied (the internal invariant break) -- the session
    /// ends: `Lost` comes back, the board and score stay as they were,
    /// and no piece is active any more.
    pub fn place(&mut self) -> (status: GameStatus)
        requires
            old(self).wf_except_piece(),
            old(self).cur_tetromino matches Some(t) && piece_lockable(t),
            old(self).score <= u32::MAX - Game::SCORE_HEADROOM,
        ensures
            final(self).wf(),
            final(self).tick == old(self).tick,
            ({
                let t = old(self).cur_tetromino->Some_0;
                if old(self).matrix.spec_collides(t) {
                    &&& status == GameStatus::Lost
                    &&& final(self).cur_tetromino is None
                    &&& final(self).matrix == old(self).matrix
                    &&& final(self).score == old(self).score
                    &&& final(self).bag == old(self).bag
                } else {
                    let placed = spec_place(old(self).matrix@, t);
                    let f = count_full(placed);
                    &&& status == GameStatus::Playing
                    &&& final(self).matrix@ == empty_rows(f) + live_rows(placed)
                    &&& old(self).score + 3 + 100 * f <= final(self).score <= old(self).score + 8
                        + 100 * f
                    &&& old(self).bag@.len() > 0 ==> final(self).cur_tetromino == Some(
                        old(self).bag@.last(),
                    ) && final(self).bag@ == old(self).bag@.drop_last()
                    &&& old(self).bag@.len() == 0 ==> final(self).bag@.len() == 6
                    &&& final(self).cur_tetromino is Some
                }
            }),
    {
        let t = self.cur_tetromino.unwrap();
        proof {
            lemma_cells_fit(t);
        }
        let pos = t.position();
        let mut i: usize = 0;
        while i < 4
            invariant
                self == old(self),
                old(self).wf_except_piece(),
                t == old(self).cur_tetromino->Some_0,
                piece_lockable(t),
                forall|j: int|
                    0 <= j < 4 ==> ((#[trigger] pos@[j]).x as int, pos@[j].y as int)
                        == t.abs_cell(j),
                i <= 4,
                forall|j: int| 0 <= j < i ==> spec_in_bounds(#[trigger] t.abs_cell(j)),
            decreases 4 - i,
        {
            let p = pos[i];
            if p.x < 0 || p.y < 0 || p.x >= 10 || p.y >= 20 {
                proof {
                    assert(!spec_in_bounds(t.abs_cell(i as int)));
                }
                self.cur_tetromino = None;
                return GameStatus::Lost;
            }
            i = i + 1;
        }
        let committed = self.matrix.place_piece(t);
        if !committed {
            self.cur_tetromino = None;
            proof {
                assert(old(self).matrix.spec_collides(t));
            }
            return GameStatus::Lost;
        }
        proof {
            assert(!old(self).matrix.spec_collides(t));
        }
        let bonus = lock_bonus();
        self.score = self.score + bonus;
        let ghost placed = self.matrix@;
        let ghost base = self.score as int;
        let ghost cur0 = self.cur_tetromino;
        let ghost bag0 = self.bag;
        let ghost tick0 = self.tick;
        proof {
            lemma_live_rows_len(placed);
        }
        loop
            invariant
                self.matrix.wf(),
                self.cur_tetromino == cur0,
                self.bag == bag0,
                self.tick == tick0,
                0 <= count_full(self.matrix@) <= count_full(placed) <= 20,
                live_rows(self.matrix@) == empty_rows(
                    count_full(placed) - count_full(self.matrix@),
                ) + live_rows(placed),
                self.score == base + 100 * (count_full(placed) - count_full(self.matrix@)),
                base + 100 * count_full(placed) <= u32::MAX - 130,
            ensures
                self.matrix.wf(),
                self.cur_tetromino == cur0,
                self.bag == bag0,
                self.tick == tick0,
                self.matrix@ == empty_rows(count_full(placed)) + live_rows(placed),
                self.score == base + 100 * count_full(placed),
            decreases count_full(self.matrix@),
        {
            let ghost g_prev = self.matrix@;
            let cleared = self.check_rows();
            proof {
                lemma_bottom_full_row(g_prev);
            }
            if !cleared {
                proof {
                    lemma_live_rows_all(self.matrix@);
                    assert(self.matrix@ == empty_rows(count_full(placed)) + live_rows(placed));
                }
                break;
            }
            proof {
                let r = bottom_full_row(g_prev);
                lemma_clear_step(g_prev, r);
                lemma_live_rows_len(self.matrix@);
                assert(self.matrix@ == seq![empty_row()] + g_prev.subrange(0, r)
                    + g_prev.subrange(r + 1, 20));
                assert(count_full(self.matrix@) == count_full(g_prev) - 1);
                assert(live_rows(self.matrix@) == seq![empty_row()] + live_rows(g_prev));
                let k = count_full(placed) - count_full(g_prev);
                assert(seq![empty_row()] + (empty_rows(k) + live_rows(placed)) =~= empty_rows(
                    k + 1,
                ) + live_rows(placed));
                assert(live_rows(self.matrix@) == empty_rows(k + 1) + live_rows(placed));
            }
        }
        if self.bag.len() == 0 {
            self.refill_bag();
        }
        self.put_tetromino();
        proof {
            let u = self.cur_tetromino->Some_0;
            assert(u.is_spawn());
            assert(piece_in_range(u));
        }
        GameStatus::Playing
    }

    /// Returns the shadow of the active piece placed as far down as it can
    /// fall in the matrix, or `None` when no piece is active: the resting
    /// position used for the hard-drop preview and the hard drop itself.
    /// When the piece already collides where it stands, the shadow sits
    /// one row above it instead.
    pub fn get_ghost(&self) -> (r: Option<Tetromino>)
        requires
            self.wf(),
        ensures
            r is Some <==> self.cur_tetromino is Some,
            ({
                self.cur_tetromino matches Some(t) ==> {
                    let g = r->Some_0;
                    &&& g == spec_with_y(t, g.offset.y as int)
                    &&& t.offset.y - 1 <= g.offset.y <= 20
                    &&& (!self.matrix.spec_collides(t) ==> is_rest_of(self.matrix, t, g))
                    &&& (self.matrix.spec_collides(t) ==> g.offset.y == t.offset.y - 1)
                }
            }),
    {
        let t = match &self.cur_tetromino {
            Some(t) => *t,
            None => {
                return None;
            },
        };
        let mut shadow = t;
        loop
            invariant
                self.wf(),
                self.cur_tetromino == Some(t),
                piece_in_range(t),
                shadow.kind == t.kind,
                shadow.cells == t.cells,
                shadow.direction == t.direction,
                shadow.offset.x == t.offset.x,
                shadow.wf(),
                t.offset.y <= shadow.offset.y <= 20,
                forall|yy: int|
                    t.offset.y <= yy < shadow.offset.y ==> !collides_at(self.matrix, t, yy),
            ensures
                shadow.kind == t.kind,
                shadow.cells == t.cells,
                shadow.direction == t.direction,
                shadow.offset.x == t.offset.x,
                t.offset.y <= shadow.offset.y <= 20,
                forall|yy: int|
                    t.offset.y <= yy < shadow.offset.y ==> !collides_at(self.matrix, t, yy),
                collides_at(self.matrix, t, shadow.offset.y as int),
            decreases 21 - shadow.offset.y,
        {
            proof {
                lemma_cells_fit(shadow);
                assert(spec_with_y(t, shadow.offset.y as int) == shadow);
            }
            if self.matrix.will_collide(&shadow) {
                break;
            }
            proof {
                lemma_no_collide_in_box(self.matrix, shadow);
                assert(!collides_at(self.matrix, t, shadow.offset.y as int));
            }
            shadow.drop();
            proof {
                crate::pieces::lemma_translated_wf(t, shadow);
            }
        }
        shadow.offset.y = shadow.offset.y - 1;
        proof {
            assert(spec_with_y(t, shadow.offset.y as int) == shadow);
            if !self.matrix.spec_collides(t) {
                assert(!collides_at(self.matrix, t, t.offset.y as int));
                assert(shadow.offset.y >= t.offset.y);
                assert(is_rest_of(self.matrix, t, shadow));
            } else {
                assert(collides_at(self.matrix, t, t.offset.y as int));
                assert(shadow.offset.y == t.offset.y - 1);
            }
        }
        Some(shadow)
    }

    /// Instantly drops the active piece to its resting position and locks
    /// it there, awarding the fixed hard-drop bonus of 30 points on top of
    /// the normal lock scoring. A piece still holding a cell above or left
    /// of the board is left untouched.
    fn hard_drop(&mut self) -> (status: GameStatus)
        requires
            old(self).wf(),
            old(self).cur_tetromino is Some,
            old(self).score <= u32::MAX - Game::SCORE_HEADROOM,
        ensures
            final(self).wf(),
            hard_dropped_state(*old(self), *final(self), status),
    {
        let t = self.cur_tetromino.unwrap();
        proof {
            lemma_cells_fit(t);
        }
        let pos = t.position();
        let mut i: usize = 0;
        while i < 4
            invariant
                self == old(self),
                old(self).wf(),
                t == old(self).cur_tetromino->Some_0,
                forall|j: int|
                    0 <= j < 4 ==> ((#[trigger] pos@[j]).x as int, pos@[j].y as int)
                        == t.abs_cell(j),
                i <= 4,
                forall|j: int|
                    0 <= j < i ==> (#[trigger] t.abs_cell(j)).0 >= 0 && t.abs_cell(j).1 >= 0,
            decreases 4 - i,
        {
            let p = pos[i];
            if p.x < 0 || p.y < 0 {
                proof {
                    assert(t.abs_cell(i as int).0 < 0 || t.abs_cell(i as int).1 < 0);
                    assert(spec_piece_out(t));
                }
                return GameStatus::Playing;
            }
            i = i + 1;
        }
        proof {
            assert(!spec_piece_out(t));
        }
        let shadow = self.get_ghost().unwrap();
        self.cur_tetromino = Some(shadow);
        proof {
            crate::pieces::lemma_translated_wf(t, shadow);
            assert(piece_lockable(shadow));
        }
        let status = self.place();
        match status {
            GameStatus::Lost => {
                proof {
                    if !spec_piece_out(t) && !old(self).matrix.spec_collides(t) {
                        assert(!collides_at(old(self).matrix, t, shadow.offset.y as int));
                        assert(spec_with_y(t, shadow.offset.y as int) == shadow);
                        assert(false);
                    }
                }
                GameStatus::Lost
            },
            GameStatus::Playing => {
                self.score = self.score + 30;
                proof {
                    if !old(self).matrix.spec_collides(t) {
                        assert forall|g: Tetromino|
                            is_rest_of(old(self).matrix, t, g) implies g == shadow by {
                            if g.offset.y < shadow.offset.y {
                                assert(collides_at(old(self).matrix, t, g.offset.y + 1));
                                assert(!collides_at(old(self).matrix, t, g.offset.y + 1));
                            } else if g.offset.y > shadow.offset.y {
                                assert(collides_at(old(self).matrix, t, shadow.offset.y + 1));
                                assert(!collides_at(old(self).matrix, t, shadow.offset.y + 1));
                            }
                            assert(g.offset.y == shadow.offset.y);
                        }
                    }
                }
                GameStatus::Playing
            },
        }
    }

    /// Applies one discrete command: moves and rotations go through the
    /// collide-or-discard validation, the soft-drop toggles switch the
    /// gravity interval between the two fixed speeds, and a hard drop
    /// locks the piece at its resting position.
    pub fn update(&mut self, cmd: Command) -> (status: GameStatus)
        requires
            old(self).wf(),
            !(cmd is SoftDropStart || cmd is SoftDropStop) ==> old(self).cur_tetromino is Some,
            cmd is HardDrop ==> old(self).score <= u32::MAX - Game::SCORE_HEADROOM,
        ensures
            final(self).wf(),
            ({
                let t = old(self).cur_tetromino->Some_0;
                match cmd {
                    Command::MoveLeft => sideways_state(*old(self), *final(self), -1) && status
                        == GameStatus::Playing,
                    Command::MoveRight => sideways_state(*old(self), *final(self), 1) && status
                        == GameStatus::Playing,
                    Command::SoftDropStart => *final(self) == Game {
                        tick: Game::FAST_TICK,
                        ..*old(self)
                    } && status == GameStatus::Playing,
                    Command::SoftDropStop => *final(self) == Game {
                        tick: Game::BASE_TICK,
                        ..*old(self)
                    } && status == GameStatus::Playing,
                    Command::HardDrop => hard_dropped_state(*old(self), *final(self), status),
                    Command::RotateClockwise => rotated_state(
                        *old(self),
                        *final(self),
                        Rotation::Clockwise,
                    ) && status == GameStatus::Playing,
                    Command::RotateCounterClockwise => rotated_state(
                        *old(self),
                        *final(self),
                        Rotation::CounterClockwise,
                    ) && status == GameStatus::Playing,
                }
            }),
    {
        match cmd {
            Command::MoveLeft => {
                self.try_move(Direction::Left);
                GameStatus::Playing
            },
            Command::MoveRight => {
                self.try_move(Direction::Right);
                GameStatus::Playing
            },
            Command::SoftDropStart => {
                self.tick = Game::FAST_TICK;
                GameStatus::Playing
            },
            Command::SoftDropStop => {
                self.tick = Game::BASE_TICK;
                GameStatus::Playing
            },
            Command::HardDrop => self.hard_drop(),
            Command::RotateClockwise => {
                self.try_rotate(Rotation::Clockwise);
                GameStatus::Playing
            },
            Command::RotateCounterClockwise => {
                self.try_rotate(Rotation::CounterClockwise);
                GameStatus::Playing
            },
        }
    }
}

/// What a sideways move command leaves behind: everything but the active
/// piece untouched, and the piece moved one column iff the move does not
/// collide.
pub open spec fn sideways_state(pre: Game, post: Game, dx: int) -> bool {
    &&& post.matrix == pre.matrix
    &&& post.bag == pre.bag
    &&& post.score == pre.score
    &&& post.tick == pre.tick
    &&& ({
        let t = pre.cur_tetromino->Some_0;
        let c = spec_moved(t, dx, 0);
        post.cur_tetromino == Some(
            if pre.matrix.spec_collides(c) {
                t
            } else {
                c
            },
        )
    })
}

/// What a rotation command leaves behind: everything but the active piece
/// untouched, and the piece rotated one step iff the rotation does not
/// collide.
pub open spec fn rotated_state(pre: Game, post: Game, rotation: Rotation) -> bool {
    &&& post.matrix == pre.matrix
    &&& post.bag == pre.bag
    &&& post.score == pre.score
    &&& post.tick == pre.tick
    &&& ({
        let t = pre.cur_tetromino->Some_0;
        forall|u: Tetromino|
            is_rotation_of(u, t, rotation) ==> post.cur_tetromino == Some(
                if pre.matrix.spec_collides(u) {
                    t
                } else {
                    u
                },
            )
    })
}

/// What a hard drop leaves behind. A piece still holding a cell above or
/// left of the board is left alone. Otherwise, when the piece is not
/// blocked where it stands, it locks at its resting position `g`: the
/// board holds the compacted lock of `g`, the score grew by the two
/// bonuses (the random one in [3, 8] plus the fixed 30) and 100 per
/// cleared row, and the next piece came out of the bag. A piece that is
/// blocked where it stands locks one row up, which may end the session.
pub open spec fn hard_dropped_state(pre: Game, post: Game, status: GameStatus) -> bool {
    let t = pre.cur_tetromino->Some_0;
    &&& (spec_piece_out(t) ==> post == pre && status == GameStatus::Playing)
    &&& (!spec_piece_out(t) && !pre.matrix.spec_collides(t) ==> forall|g: Tetromino|
        is_rest_of(pre.matrix, t, g) ==> {
            let placed = spec_place(pre.matrix@, g);
            let f = count_full(placed);
            &&& status == GameStatus::Playing
            &&& post.matrix@ == empty_rows(f) + live_rows(placed)
            &&& pre.score + 33 + 100 * f <= post.score <= pre.score + 38 + 100 * f
            &&& post.cur_tetromino is Some
            &&& post.tick == pre.tick
            &&& (pre.bag@.len() > 0 ==> post.cur_tetromino == Some(pre.bag@.last()) && post.bag@
                == pre.bag@.drop_last())
            &&& (pre.bag@.len() == 0 ==> post.bag@.len() == 6)
        })
    &&& (status == GameStatus::Lost ==> post.cur_tetromino is None)
}

} // verus!
