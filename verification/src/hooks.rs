//! Cosmetic side-effect sinks.  The simulation invokes them synchronously;
//! nothing about its state depends on what they do.

use vstd::prelude::*;

use crate::well::Block;

verus! {

/// Sink for the decorative falling-cube particles spawned on a line clear.
pub trait Cubes {
    fn spawn_cube(&mut self, x: i32, y: i32, color: Block);
}

/// Sink for sound cues.
pub trait Sounds {
    fn block_spawn(&mut self, color: Block);

    fn line_clear(&mut self);

    fn lock(&mut self);

    fn land(&mut self);
}

} // verus!
