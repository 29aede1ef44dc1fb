use vstd::prelude::*;

verus! {

/// Denotes whether a paired symbol, such as a bracket, opens or closes the pair.
#[derive(Clone, Copy, Debug, PartialEq, Eq, Structural)]
pub enum Direction {
    Left,
    Right,
}

} // verus!
