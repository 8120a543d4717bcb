//! The logical controls of the game.

use vstd::prelude::*;

verus! {

/// The logical controls.
#[derive(Clone, Copy, Debug, PartialEq, Eq, Structural)]
pub enum Control {
    Click,
    Up,
    Down,
    Left,
    Right,
    Submit,
    Debug,
}

} // verus!
