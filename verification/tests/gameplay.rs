use tetris_core::Color;
use tetris_core::Command;
use tetris_core::Game;
use tetris_core::GameStatus;
use tetris_core::Point;
use tetris_core::Rotation;
use tetris_core::Tetromino;
use tetris_core::TetrominoKind;

fn gray() -> Color {
    Color::new(128, 128, 128)
}

fn fill_row_except(game: &mut Game, y: isize, gap: Option<isize>) {
    for x in 0..10 {
        if Some(x) != gap {
            game.matrix.set(Point::new(x, y), Some(gray()));
        }
    }
}

#[test]
fn new_game_state() {
    let game = Game::new();
    assert_eq!(game.score, 0);
    assert_eq!(game.tick, Game::BASE_TICK);
    assert_eq!(game.bag.len(), 6);
    assert!(game.cur_tetromino.is_some());
    for row in game.matrix.iter() {
        for cell in row {
            assert!(cell.is_none());
        }
    }
}

#[test]
fn base_and_fast_tick_are_the_two_fixed_speeds() {
    assert_eq!(Game::BASE_TICK, 600);
    assert_eq!(Game::FAST_TICK, 30);
}

#[test]
fn soft_drop_toggles_the_gravity_interval() {
    let mut game = Game::new();
    assert_eq!(game.update(Command::SoftDropStart), GameStatus::Playing);
    assert_eq!(game.tick, 30);
    assert_eq!(game.update(Command::SoftDropStop), GameStatus::Playing);
    assert_eq!(game.tick, 600);
}

#[test]
fn refill_bag_restores_all_seven_kinds() {
    let mut game = Game::new();
    game.bag.clear();
    game.refill_bag();
    assert_eq!(game.bag.len(), 7);
    for kind in [
        TetrominoKind::O,
        TetrominoKind::I,
        TetrominoKind::T,
        TetrominoKind::S,
        TetrominoKind::Z,
        TetrominoKind::L,
        TetrominoKind::J,
    ] {
        let color = Tetromino::new(kind).get_color();
        let n = game.bag.iter().filter(|t| t.get_color() == color).count();
        assert_eq!(n, 1);
    }
}

#[test]
fn moves_at_spawn_are_rejected_above_the_board() {
    // A fresh T still has cells above the board, and out-of-bounds cells
    // collide, so lateral moves are rejected wholesale there.
    let mut game = Game::new();
    game.cur_tetromino = Some(Tetromino::new(TetrominoKind::T));
    let before = game.cur_tetromino.unwrap().offset;
    game.update(Command::MoveLeft);
    assert_eq!(game.cur_tetromino.unwrap().offset, before);
}

#[test]
fn move_left_stops_at_the_wall() {
    let mut game = Game::new();
    game.cur_tetromino = Some(Tetromino::new(TetrominoKind::T));
    assert!(game.try_drop());
    for _ in 0..10 {
        game.update(Command::MoveLeft);
    }
    let pos = game.cur_tetromino.unwrap().position();
    assert_eq!(pos.iter().map(|p| p.x).min().unwrap(), 0);
}

#[test]
fn move_right_stops_at_the_wall() {
    let mut game = Game::new();
    game.cur_tetromino = Some(Tetromino::new(TetrominoKind::T));
    assert!(game.try_drop());
    for _ in 0..10 {
        game.update(Command::MoveRight);
    }
    let pos = game.cur_tetromino.unwrap().position();
    assert_eq!(pos.iter().map(|p| p.x).max().unwrap(), 9);
}

#[test]
fn rotation_applies_when_free() {
    let mut game = Game::new();
    let mut t = Tetromino::new(TetrominoKind::I);
    t.rotate(Rotation::Clockwise);
    t.offset = Point::new(2, 10);
    game.cur_tetromino = Some(t);
    let before = game.cur_tetromino.unwrap().position();
    game.update(Command::RotateClockwise);
    let after = game.cur_tetromino.unwrap().position();
    assert_ne!(before.to_vec(), after.to_vec());
}

#[test]
fn rotation_is_rejected_when_blocked() {
    let mut game = Game::new();
    let mut t = Tetromino::new(TetrominoKind::I);
    t.rotate(Rotation::Clockwise);
    // The vertical I hugging the left wall: its cells sit in column 0.
    t.offset = Point::new(-2, 10);
    game.cur_tetromino = Some(t);
    let before = game.cur_tetromino.unwrap().position();
    // Rotating on would need columns left of the wall; it is rejected
    // wholesale, with no wall kick.
    game.update(Command::RotateClockwise);
    assert_eq!(game.cur_tetromino.unwrap().position().to_vec(), before.to_vec());
}

#[test]
fn try_drop_descends_until_the_floor() {
    let mut game = Game::new();
    game.cur_tetromino = Some(Tetromino::new(TetrominoKind::I));
    let mut drops = 0;
    while game.try_drop() {
        drops += 1;
        assert!(drops < 25);
    }
    // I spawns with its cells on row 0 and rests with them on row 19.
    assert_eq!(drops, 19);
    let pos = game.cur_tetromino.unwrap().position();
    for p in pos {
        assert_eq!(p.y, 19);
    }
}

#[test]
fn ghost_rests_on_the_floor_of_an_empty_board() {
    let mut game = Game::new();
    game.cur_tetromino = Some(Tetromino::new(TetrominoKind::I));
    let ghost = game.get_ghost().unwrap();
    for p in ghost.position() {
        assert_eq!(p.y, 19);
    }
    assert!(!game.matrix.will_collide(&ghost));
    let mut below = ghost;
    below.drop();
    assert!(game.matrix.will_collide(&below));
}

#[test]
fn ghost_rests_on_the_stack() {
    let mut game = Game::new();
    fill_row_except(&mut game, 19, None);
    game.cur_tetromino = Some(Tetromino::new(TetrominoKind::I));
    let ghost = game.get_ghost().unwrap();
    for p in ghost.position() {
        assert_eq!(p.y, 18);
    }
}

#[test]
fn i_piece_dropped_into_empty_board_locks_on_the_bottom_row() {
    let mut game = Game::new();
    game.cur_tetromino = Some(Tetromino::new(TetrominoKind::I));
    while game.try_drop() {}
    let rest = game.cur_tetromino.unwrap();
    let pos = rest.position();
    let color = rest.get_color();
    assert_eq!(game.place(), GameStatus::Playing);
    for p in pos {
        assert_eq!(p.y, 19);
        assert_eq!(game.matrix.get(p), Some(Some(color)));
    }
    // Any further downward move from the resting position collides.
    let mut below = rest;
    below.drop();
    assert!(game.matrix.will_collide(&below));
    // Locking awards the random bonus in [3, 8] and nothing else here.
    assert!(game.score >= 3 && game.score <= 8);
    assert!(game.cur_tetromino.is_some());
}

#[test]
fn check_rows_clears_the_bottommost_full_row_for_100_points() {
    let mut game = Game::new();
    fill_row_except(&mut game, 19, None);
    game.matrix.set(Point::new(2, 18), Some(gray()));
    assert!(game.check_rows());
    assert_eq!(game.score, 100);
    // The row above fell onto the cleared one; the top row is empty.
    assert_eq!(game.matrix.get(Point::new(2, 19)), Some(Some(gray())));
    assert_eq!(game.matrix.get(Point::new(2, 18)), Some(None));
    for x in 0..10 {
        assert_eq!(game.matrix.get(Point::new(x, 0)), Some(None));
        if x != 2 {
            assert_eq!(game.matrix.get(Point::new(x, 19)), Some(None));
        }
    }
    // A second scan finds nothing more to clear.
    assert!(!game.check_rows());
    assert_eq!(game.score, 100);
}

#[test]
fn filling_the_last_gap_clears_exactly_one_row() {
    let mut game = Game::new();
    fill_row_except(&mut game, 19, Some(4));
    // A vertical I whose lowest cell lands exactly on the gap at (4, 19).
    let mut t = Tetromino::new(TetrominoKind::I);
    t.rotate(Rotation::Clockwise);
    t.offset = Point::new(2, 15);
    game.cur_tetromino = Some(t);
    let color = t.get_color();
    assert_eq!(game.place(), GameStatus::Playing);
    // One clear: 100 points plus the lock bonus in [3, 8].
    assert!(game.score >= 103 && game.score <= 108);
    // The cleared bottom row now holds what was above it: the piece's
    // next cell in the same column.
    for x in 0..10 {
        let cell = game.matrix.get(Point::new(x, 19)).unwrap();
        if x == 4 {
            assert_eq!(cell, Some(color));
        } else {
            assert_eq!(cell, None);
        }
    }
    // The rest of the piece moved down one row with it.
    assert_eq!(game.matrix.get(Point::new(4, 18)), Some(Some(color)));
    assert_eq!(game.matrix.get(Point::new(4, 17)), Some(Some(color)));
    assert_eq!(game.matrix.get(Point::new(4, 16)), Some(None));
    for y in 0..20 {
        assert!(!game.matrix.row_is_full(y));
    }
}

#[test]
fn two_separated_full_rows_clear_in_one_lock() {
    let mut game = Game::new();
    fill_row_except(&mut game, 16, None);
    fill_row_except(&mut game, 19, None);
    game.matrix.set(Point::new(0, 17), Some(gray()));
    // Lock a piece far from the full rows.
    let mut t = Tetromino::new(TetrominoKind::I);
    t.offset = Point::new(2, 10);
    game.cur_tetromino = Some(t);
    let color = t.get_color();
    assert_eq!(game.place(), GameStatus::Playing);
    // Two clears: 200 points plus the lock bonus in [3, 8].
    assert!(game.score >= 203 && game.score <= 208);
    for y in 0..20 {
        assert!(!game.matrix.row_is_full(y));
    }
    // The marker above the cleared rows fell by one row per clear below it.
    assert_eq!(game.matrix.get(Point::new(0, 18)), Some(Some(gray())));
    // The locked piece sat above both cleared rows and fell by two.
    for x in 2..6 {
        assert_eq!(game.matrix.get(Point::new(x, 13)), Some(Some(color)));
        assert_eq!(game.matrix.get(Point::new(x, 11)), Some(None));
    }
}

#[test]
fn locking_above_the_board_tops_out() {
    let mut game = Game::new();
    // A fresh T still has cells on the spawn row above the board; locking
    // it there is the loss condition.
    game.cur_tetromino = Some(Tetromino::new(TetrominoKind::T));
    let score_before = game.score;
    assert_eq!(game.place(), GameStatus::Lost);
    assert!(game.cur_tetromino.is_none());
    assert_eq!(game.score, score_before);
}

#[test]
fn locking_onto_an_occupied_cell_ends_the_session() {
    let mut game = Game::new();
    // The I spawn row (row 0) is blocked: its cells overlap the stack.
    game.matrix.set(Point::new(2, 0), Some(gray()));
    game.cur_tetromino = Some(Tetromino::new(TetrominoKind::I));
    assert_eq!(game.place(), GameStatus::Lost);
    assert!(game.cur_tetromino.is_none());
}

#[test]
fn hard_drop_locks_at_the_ghost_and_adds_thirty() {
    let mut game = Game::new();
    game.cur_tetromino = Some(Tetromino::new(TetrominoKind::O));
    // At spawn the O still has cells above the board: hard drop refuses.
    assert_eq!(game.update(Command::HardDrop), GameStatus::Playing);
    assert_eq!(game.score, 0);
    assert!(game
        .cur_tetromino
        .unwrap()
        .position()
        .iter()
        .any(|p| p.y < 0));
    // One gravity step brings it fully onto the board.
    assert!(game.try_drop());
    let color = game.cur_tetromino.unwrap().get_color();
    assert_eq!(game.update(Command::HardDrop), GameStatus::Playing);
    // Lock bonus in [3, 8] plus the fixed 30.
    assert!(game.score >= 33 && game.score <= 38);
    for (x, y) in [(4, 18), (5, 18), (4, 19), (5, 19)] {
        assert_eq!(game.matrix.get(Point::new(x, y)), Some(Some(color)));
    }
    assert!(game.cur_tetromino.is_some());
}

#[test]
fn place_draws_the_next_piece_from_the_bag() {
    let mut game = Game::new();
    let expected = *game.bag.last().unwrap();
    let bag_before = game.bag.len();
    let mut t = Tetromino::new(TetrominoKind::I);
    t.offset = Point::new(2, 18);
    game.cur_tetromino = Some(t);
    assert_eq!(game.place(), GameStatus::Playing);
    assert_eq!(game.bag.len(), bag_before - 1);
    let drawn = game.cur_tetromino.unwrap();
    assert_eq!(drawn.offset, expected.offset);
    assert_eq!(drawn.get_color(), expected.get_color());
}

#[test]
fn place_refills_an_empty_bag_before_drawing() {
    let mut game = Game::new();
    game.bag.clear();
    let mut t = Tetromino::new(TetrominoKind::I);
    t.offset = Point::new(2, 18);
    game.cur_tetromino = Some(t);
    assert_eq!(game.place(), GameStatus::Playing);
    assert_eq!(game.bag.len(), 6);
    assert!(game.cur_tetromino.is_some());
}
