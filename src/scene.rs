//! Capabilities of a simulated world.

use vstd::prelude::*;

verus! {

/// A world that can be advanced in time by fixed steps.
pub trait Tickable {
    /// The state is one that a step can advance.
    spec fn well_formed(&self) -> bool;

    /// Advances the world by one step of `1 / steps_per_second` seconds, every
    /// particle having the given mass.
    fn push_forward(&mut self, steps_per_second: u32, particle_mass: u32)
        requires
            old(self).well_formed(),
            steps_per_second > 0,
        ensures
            final(self).well_formed(),
    ;
}

} // verus!
