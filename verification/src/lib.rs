//! A falling-block puzzle on a rectangular grid: the grid and its coordinate
//! arithmetic, the seven four-cell shapes and their rotation states, collision
//! and movement rules, line clearing, enumeration of the placements a piece can
//! come to rest in, and a linear heuristic that ranks them.
//!
//! Every function states what it computes over a mathematical view of the
//! data: a grid is the sequence of what its cells hold, a piece is its shape,
//! rotation state and anchor, and a board is a grid with two pieces.
pub mod agent;
pub mod board;
pub mod frame;
pub mod geometry;
pub mod grid;
pub mod player;
pub mod random;
pub mod search;
pub mod shapes;
pub mod tetromino;
