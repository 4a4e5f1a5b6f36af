//! The earlier square-and-reduce generator.
//!
//! A single wide register is squared and reduced modulo `2^32 - 1` on every
//! draw; the register's new value, reduced modulo the caller's bound, is
//! the output.  The two-register generator in [`crate::rng`] replaced it
//! for food placement, but sessions recorded against this one still replay.

use vstd::prelude::*;

verus! {

/// The reduction modulus: every register value stays below it.
pub const MAX: u128 = 0xFFFFFFFF;

/// The register seed for a session, derived from a wall-clock reading whose
/// fields the platform layer hands in as plain bytes.
pub fn seed(second: u8, minute: u8, hour: u8, day: u8, month: u8) -> (r: u128)
    requires
        second <= 60,
        minute <= 59,
        hour <= 23,
        day <= 31,
        month <= 12,
    ensures
        r == (second + minute + hour + day + month + 26713) % (MAX as int),
        r < MAX,
{
    ((second + minute + hour + day + month) as u128 + 26713) % MAX
}

/// The generator: one wide register.
pub struct Rng {
    seed: u128,
}

impl Rng {
    /// The register as a mathematical value.
    pub closed spec fn state(self) -> u128 {
        self.seed
    }

    /// The register stays small enough that squaring it cannot overflow.
    pub open spec fn wf(self) -> bool {
        self.state() < 0x1_0000_0000_0000_0000
    }

    /// A generator started from an explicit seed.
    pub fn new(seed: u128) -> (r: Rng)
        requires
            seed < 0x1_0000_0000_0000_0000,
        ensures
            r.state() == seed,
            r.wf(),
    {
        Rng { seed }
    }

    /// One draw below `max`: square the register, reduce it modulo
    /// [`MAX`], and reduce its new value modulo `max` for the output.
    pub fn random(&mut self, max: u8) -> (r: u8)
        requires
            old(self).wf(),
            max >= 1,
        ensures
            final(self).state() == (old(self).state() * old(self).state()) % (MAX as int),
            final(self).wf(),
            r == final(self).state() as int % (max as int),
            r < max,
    {
        proof {
            assert(self.seed * self.seed < 0x1_0000_0000_0000_0000_0000_0000_0000_0000) by (nonlinear_arith)
                requires
                    self.seed < 0x1_0000_0000_0000_0000,
            ;
        }
        let seed = (self.seed * self.seed) % MAX;
        self.seed = seed;
        (seed % (max as u128)) as u8
    }
}

} // verus!
