//! Rules engine of a falling-block puzzle game: the playing field, the
//! pieces and their orientations, collision testing, and the
//! fall / lock / spawn state machine.

pub mod block;
pub mod board;
pub mod game;
pub mod input;
