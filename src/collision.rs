use crate::particle::ParticleId;
use vstd::prelude::*;

verus! {

/// A collision found in one tick.
#[derive(Clone, Debug)]
pub enum Collision {
    /// Two or more particles share a grid cell; their ids, in slot order.
    Refuel { participants: Vec<ParticleId> },
}

/// The ids of the particles that take part in a collision.
pub open spec fn participants_of(c: Collision) -> Seq<ParticleId> {
    match c {
        Collision::Refuel { participants } => participants@,
    }
}

} // verus!
