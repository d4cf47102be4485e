//! Board representation and pseudo-legal move generation for an 8×8 game of
//! six piece kinds and two sides.
//!
//! Every executable function states its behaviour in terms of the spec
//! functions of its module. The laws that the geometry and move generation
//! obey stand beside them as public proof functions: translation and
//! notation in `square`, flipping in `board`, leaper candidates in
//! `direction`, and the move filters and side alternation in `position`.
pub mod board;
pub mod color;
pub mod piece;
pub mod direction;
pub mod square;
mod text;
pub mod position;
