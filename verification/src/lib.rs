//! Chessboard coordinate primitives: a validated 64-cell square index,
//! a 64-bit square-set mask, and conversions between numeric indices,
//! algebraic notation, and singleton masks.
pub mod square;
pub mod square_set;
