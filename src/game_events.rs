use vstd::prelude::*;

verus! {

/// A game-level fact derived from a collision. The indices are slots of the
/// scene and hold only within the tick that produced the event.
#[derive(Clone, Copy, Debug, PartialEq, Eq, Structural)]
pub enum GameEvent {
    Refuel { rocket_idx: usize, fuel_cell_idx: usize },
}

} // verus!
