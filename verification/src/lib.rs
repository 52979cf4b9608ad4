//! Pawn-promotion picker for a chessboard widget.
//!
//! The crate holds the two halves of the picker that can be stated exactly:
//! the mapping between device pixels and board squares, and the state machine
//! that follows the pointer while a promotion is being chosen.  All geometry
//! is done in exact rational arithmetic and all times are integer
//! nanoseconds, so every function has a contract that pins its result down.

pub mod board;
mod clock;
pub mod promotable;
pub mod util;
