//! Heartbeat: the onboard LED flashes once a second while the device is
//! healthy, and stays lit while the button is held.

use vstd::prelude::*;

verus! {

/// Milliseconds between two beats.
pub const BEAT_MS: u64 = 50;

/// Beats in one cycle of the LED.
pub const CYCLE: u32 = 20;

/// Where the heartbeat is in its cycle.
#[derive(Clone, Copy, Debug, PartialEq, Eq, Structural)]
pub struct Heartbeat {
    pub phase: u32,
}

impl Heartbeat {
    /// A heartbeat at the start of its cycle.
    pub fn new() -> (h: Self)
        ensures
            h.phase == 0,
    {
        Heartbeat { phase: 0 }
    }

    /// One beat. Returns whether the LED is lit for it: on the first beat
    /// of each cycle, and whenever the button is pressed.
    pub fn beat(&mut self, pressed: bool) -> (lit: bool)
        ensures
            lit == (old(self).phase == 0 || pressed),
            final(self).phase == (old(self).phase + 1) % (CYCLE as int),
    {
        let lit = self.phase == 0 || pressed;
        self.phase = (self.phase % CYCLE + 1) % CYCLE;
        lit
    }
}

} // verus!
