use vstd::prelude::*;
verus! {
/// A player command.
#[derive(Debug, Clone, Copy, PartialEq, Eq, Structural)]
pub enum Input {
    Left,
    Right,
    Clockwise,
    Counterclockwise,
    Drop,
}
} // verus!
