use tetris_core::Color;
use tetris_core::Matrix;
use tetris_core::Point;
use tetris_core::Rotation;
use tetris_core::Tetromino;
use tetris_core::TetrominoKind;

fn gray() -> Color {
    Color::new(128, 128, 128)
}

fn fill_row(m: &mut Matrix, y: isize) {
    for x in 0..10 {
        m.set(Point::new(x, y), Some(gray()));
    }
}

#[test]
fn in_bounds_edges() {
    let m = Matrix::new();
    assert!(m.in_bounds(Point::new(0, 0)));
    assert!(m.in_bounds(Point::new(9, 19)));
    assert!(!m.in_bounds(Point::new(-1, 0)));
    assert!(!m.in_bounds(Point::new(0, -1)));
    assert!(!m.in_bounds(Point::new(10, 0)));
    assert!(!m.in_bounds(Point::new(0, 20)));
}

#[test]
fn get_and_set_round_trip() {
    let mut m = Matrix::new();
    assert_eq!(m.get(Point::new(3, 5)), Some(None));
    m.set(Point::new(3, 5), Some(gray()));
    assert_eq!(m.get(Point::new(3, 5)), Some(Some(gray())));
    assert_eq!(m.get(Point::new(4, 5)), Some(None));
    assert_eq!(m.get(Point::new(-1, 5)), None);
    assert_eq!(m.get(Point::new(3, 20)), None);
}

#[test]
fn new_matrix_is_empty() {
    let m = Matrix::new();
    for row in m.iter() {
        for cell in row {
            assert!(cell.is_none());
        }
    }
}

#[test]
fn will_collide_above_board_is_out_of_bounds() {
    let m = Matrix::new();
    // A fresh T still has cells on the spawn row above the board.
    let t = Tetromino::new(TetrominoKind::T);
    assert!(m.will_collide(&t));
}

#[test]
fn will_collide_walls_floor_and_occupancy() {
    let mut m = Matrix::new();
    // A fresh I sits fully inside the board already (all cells on row 0).
    let mut t = Tetromino::new(TetrominoKind::I);
    assert!(!m.will_collide(&t));

    // Push it past the left wall.
    let mut left = t;
    left.offset = Point::new(-1, 0);
    assert!(m.will_collide(&left));

    // Past the right wall: cells would span columns 7..=10.
    let mut right = t;
    right.offset = Point::new(7, 0);
    assert!(m.will_collide(&right));

    // On the floor at row 19 it still fits ...
    t.offset = Point::new(2, 18);
    assert!(!m.will_collide(&t));
    // ... and one row further it leaves the board.
    t.offset = Point::new(2, 19);
    assert!(m.will_collide(&t));

    // Occupancy: a single colored cell under one of its cells.
    t.offset = Point::new(2, 18);
    m.set(Point::new(4, 19), Some(gray()));
    assert!(m.will_collide(&t));
}

#[test]
fn place_piece_writes_the_kind_color() {
    let mut m = Matrix::new();
    let mut t = Tetromino::new(TetrominoKind::I);
    t.offset = Point::new(2, 18);
    assert!(m.place_piece(t));
    let color = t.get_color();
    for x in 2..6 {
        assert_eq!(m.get(Point::new(x, 19)), Some(Some(color)));
    }
    assert_eq!(m.get(Point::new(6, 19)), Some(None));
}

#[test]
fn place_piece_refuses_occupied_cells() {
    let mut m = Matrix::new();
    m.set(Point::new(4, 19), Some(gray()));
    let mut t = Tetromino::new(TetrominoKind::I);
    t.offset = Point::new(2, 18);
    assert!(!m.place_piece(t));
    // Nothing else was written.
    assert_eq!(m.get(Point::new(2, 19)), Some(None));
}

#[test]
fn row_is_full_only_when_all_ten_cells_hold_colors() {
    let mut m = Matrix::new();
    for x in 0..9 {
        m.set(Point::new(x, 19), Some(gray()));
    }
    assert!(!m.row_is_full(19));
    m.set(Point::new(9, 19), Some(gray()));
    assert!(m.row_is_full(19));
    assert!(!m.row_is_full(18));
}

#[test]
fn push_down_shifts_rows_and_empties_the_top() {
    let mut m = Matrix::new();
    m.set(Point::new(0, 0), Some(gray()));
    m.set(Point::new(1, 5), Some(gray()));
    fill_row(&mut m, 7);
    m.push_down(7);
    // Rows above the cleared one moved down by one.
    assert_eq!(m.get(Point::new(0, 1)), Some(Some(gray())));
    assert_eq!(m.get(Point::new(0, 0)), Some(None));
    assert_eq!(m.get(Point::new(1, 6)), Some(Some(gray())));
    assert_eq!(m.get(Point::new(1, 5)), Some(None));
    // The full row's contents are gone.
    assert!(!m.row_is_full(7));
    assert_eq!(m.get(Point::new(5, 7)), Some(None));
}

#[test]
fn push_down_of_top_row_empties_it() {
    let mut m = Matrix::new();
    fill_row(&mut m, 0);
    m.set(Point::new(3, 4), Some(gray()));
    m.push_down(0);
    for x in 0..10 {
        assert_eq!(m.get(Point::new(x, 0)), Some(None));
    }
    // Everything below stayed where it was.
    assert_eq!(m.get(Point::new(3, 4)), Some(Some(gray())));
}

#[test]
fn vertical_i_fills_a_column() {
    let mut t = Tetromino::new(TetrominoKind::I);
    t.rotate(Rotation::Clockwise);
    t.offset = Point::new(2, 15);
    let pos = t.position();
    assert_eq!(
        pos.to_vec(),
        vec![Point::new(4, 16), Point::new(4, 17), Point::new(4, 18), Point::new(4, 19)]
    );
}
