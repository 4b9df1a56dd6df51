//! Rules engine of a falling-block puzzle game: board geometry, the seven
//! tetromino shapes with their rotations, a shuffled-bag piece supply,
//! collision and placement rules, row clearing, and scoring.

pub mod color;
pub mod game;
pub mod geometry;
pub mod matrix;
pub mod pieces;

pub use color::Color;
pub use game::Command;
pub use game::Game;
pub use game::GameStatus;
pub use geometry::Direction;
pub use geometry::Point;
pub use geometry::Rotation;
pub use matrix::Matrix;
pub use pieces::Tetromino;
pub use pieces::TetrominoKind;
