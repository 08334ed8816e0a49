//! What one frame of the interactive simulation decides: which inputs spawn
//! particles, whether to stop, and when to step.

use vstd::prelude::*;
use crate::galaxy::{cluster, stepped, Galaxy, Particle};
use crate::scene::Tickable;

verus! {

/// Particles added by one pointer press.
pub const CLUSTER_SIZE: u32 = 4;

/// Steps per second of simulated time: each step lasts a sixtieth of a second.
pub const STEPS_PER_SECOND: u32 = 60;

/// The mass shared by all particles, 10 to the power 7.5, rounded.
pub const PARTICLE_MASS: u32 = 31_622_777;

/// An input event, as far as the simulation cares.
#[derive(Clone, Copy, Debug, PartialEq, Eq, Structural)]
pub enum Input {
    /// The primary pointer button went down over pixel `(x, y)`.
    PointerPress { x: i32, y: i32 },
    /// The user asked to stop.
    Quit,
    /// Anything else.
    Other,
}

/// Whether the frame loop goes on.
#[derive(Clone, Copy, Debug, PartialEq, Eq, Structural)]
pub enum LoopControl {
    Continue,
    Terminate,
}

/// The particles after handling `inputs` in order, each pointer press adding
/// a cluster of `CLUSTER_SIZE` particles, up to the first request to stop;
/// and whether there was such a request.
pub open spec fn after_inputs(ps: Seq<Particle>, inputs: Seq<Input>) -> (Seq<Particle>, bool)
    decreases inputs.len(),
{
    if inputs.len() == 0 {
        (ps, false)
    } else {
        match inputs[0] {
            Input::Quit => (ps, true),
            Input::PointerPress { x, y } => after_inputs(
                ps + cluster(x as int, y as int, CLUSTER_SIZE as int),
                inputs.drop_first(),
            ),
            Input::Other => after_inputs(ps, inputs.drop_first()),
        }
    }
}

impl Galaxy {
    /// Handles one frame: applies `inputs` in order, and stops at the first
    /// request to stop with `Terminate`, leaving the particles unstepped.
    /// Without such a request, advances the world by one step and returns
    /// `Continue`.
    pub fn run_frame(&mut self, inputs: &Vec<Input>, steps_per_second: u32, particle_mass: u32) -> (r:
        LoopControl)
        requires
            old(self).well_formed(),
            steps_per_second > 0,
        ensures
            final(self).well_formed(),
            final(self).spec_width() == old(self).spec_width(),
            final(self).spec_height() == old(self).spec_height(),
            ({
                let handled = after_inputs(old(self)@, inputs@);
                if handled.1 {
                    r == LoopControl::Terminate && final(self)@ == handled.0
                } else {
                    r == LoopControl::Continue && final(self)@ == stepped(
                        handled.0,
                        steps_per_second as int,
                        particle_mass as int,
                        old(self).spec_width() as int,
                        old(self).spec_height() as int,
                    )
                }
            }),
    {
        let mut k: usize = 0;
        assert(inputs@.subrange(0, inputs@.len() as int) =~= inputs@);
        while k < inputs.len()
            invariant
                k <= inputs@.len(),
                self.well_formed(),
                self.spec_width() == old(self).spec_width(),
                self.spec_height() == old(self).spec_height(),
                after_inputs(old(self)@, inputs@) == after_inputs(
                    self@,
                    inputs@.subrange(k as int, inputs@.len() as int),
                ),
            decreases inputs@.len() - k,
        {
            let rest = Ghost(inputs@.subrange(k as int, inputs@.len() as int));
            assert(rest@[0] == inputs@[k as int]);
            assert(rest@.drop_first() =~= inputs@.subrange(k + 1, inputs@.len() as int));
            match inputs[k] {
                Input::Quit => {
                    return LoopControl::Terminate;
                },
                Input::PointerPress { x, y } => {
                    self.spawn_cluster(x, y, CLUSTER_SIZE);
                },
                Input::Other => {},
            }
            k += 1;
        }
        assert(inputs@.subrange(k as int, inputs@.len() as int).len() == 0);
        self.push_forward(steps_per_second, particle_mass);
        LoopControl::Continue
    }
}

} // verus!
