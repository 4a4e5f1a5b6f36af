//! Seeded byte generator used to pick food cells.
//!
//! The algorithm reproduces a historical console generator: two 8-bit
//! registers stepped in lockstep, where the first runs a small linear
//! congruence and the second shifts left, feeding back a carry computed from
//! two of its own bits.  One output byte is the XOR of the registers after a
//! step; a call to [`Rng::next`] performs two steps and yields two bytes.

use vstd::prelude::*;

verus! {

/// One step of the first register: multiply by five and add one, wrapping.
pub open spec fn step_s0(s0: u8) -> u8 {
    s0.wrapping_mul(5).wrapping_add(1)
}

/// One step of the second register: shift left, with a carry of one exactly
/// when bit 3 and bit 6 agree.
pub open spec fn step_s1(s1: u8) -> u8 {
    let carry: u8 = if ((s1 & 8) == 8) == ((s1 & 64) == 64) {
        1
    } else {
        0
    };
    s1.wrapping_mul(2).wrapping_add(carry)
}

/// One step of the whole generator state.
pub open spec fn step_state(s: (u8, u8)) -> (u8, u8) {
    (step_s0(s.0), step_s1(s.1))
}

/// The two bytes one call to [`Rng::next`] yields from state `s`, together
/// with the states they are read from: the first byte after one step, the
/// second after two.
pub open spec fn next_bytes(s: (u8, u8)) -> (u8, u8) {
    let t1 = step_state(s);
    let t2 = step_state(t1);
    ((t1.0 ^ t1.1), (t2.0 ^ t2.1))
}

/// Seed bytes for a session, derived from a wall-clock reading.  The fields
/// are combined additively for the first register and with a bitwise AND and
/// OR thrown in for the second, so that the two registers start apart.  The
/// clock itself is read by the platform layer, which hands the fields in as
/// plain bytes.
pub fn seeds(second: u8, minute: u8, hour: u8, day: u8, month: u8) -> (r: [u8; 2])
    requires
        second <= 60,
        minute <= 59,
        hour <= 23,
        day <= 31,
        month <= 12,
    ensures
        r[0] == second + minute + hour + day + month,
        r[1] == (second & minute) + hour + (day | month),
{
    proof {
        assert(second & minute <= minute) by (bit_vector);
        assert(day | month < 64) by (bit_vector)
            requires
                day < 32 && month < 16,
        ;
    }
    [second + minute + hour + day + month, (second & minute) + hour + (day | month)]
}

/// The generator: two 8-bit registers, stepped together.
pub struct Rng {
    s0: u8,
    s1: u8,
}

impl Rng {
    /// The register pair as a mathematical value.
    pub closed spec fn state(self) -> (u8, u8) {
        (self.s0, self.s1)
    }

    /// A generator started from an explicit seed pair.  Every later output is
    /// a function of this pair alone, so a recorded session replays exactly.
    pub fn new(s0: u8, s1: u8) -> (r: Rng)
        ensures
            r.state() == (s0, s1),
    {
        Rng { s0, s1 }
    }

    /// Advance both registers by one step.
    fn tick(&mut self)
        ensures
            final(self).state() == step_state(old(self).state()),
    {
        self.s0 = self.s0.wrapping_mul(5).wrapping_add(1);

        let bit4 = self.s1 & 8 == 8;
        let bit7 = self.s1 & 64 == 64;
        let odd: u8 = if bit4 == bit7 {
            1
        } else {
            0
        };

        self.s1 = self.s1.wrapping_mul(2).wrapping_add(odd);
    }

    /// Two fresh bytes, from two consecutive steps.  The pair, and the state
    /// left behind, are functions of the state alone: equal states give
    /// bit-equal outputs.
    pub fn next(&mut self) -> (r: [u8; 2])
        ensures
            final(self).state() == step_state(step_state(old(self).state())),
            r[0] == next_bytes(old(self).state()).0,
            r[1] == next_bytes(old(self).state()).1,
    {
        let mut num: [u8; 2] = [0, 0];

        self.tick();
        num[0] = self.s0 ^ self.s1;
        self.tick();
        num[1] = self.s0 ^ self.s1;

        num
    }

    /// Two fresh bytes, each reduced modulo `max`.  The reduction keeps the
    /// well-known modulo bias; both results lie below `max`.
    pub fn random(&mut self, max: u8) -> (r: [u8; 2])
        requires
            max >= 1,
        ensures
            final(self).state() == step_state(step_state(old(self).state())),
            r[0] == next_bytes(old(self).state()).0 % max,
            r[1] == next_bytes(old(self).state()).1 % max,
            r[0] < max,
            r[1] < max,
    {
        let mut num = self.next();

        num[0] = num[0] % max;
        num[1] = num[1] % max;

        num
    }

    /// One value below `max`, from a byte pair combined big-endian.
    pub fn random_single(&mut self, max: u16) -> (r: u16)
        requires
            max >= 1,
        ensures
            final(self).state() == step_state(step_state(old(self).state())),
            ({
                let b = next_bytes(old(self).state());
                r == (((b.0 as u16) << 8) | (b.1 as u16)) % max
            }),
            r < max,
    {
        let num = self.next();
        (((num[0] as u16) << 8) | (num[1] as u16)) % max
    }

    /// One value below `max`, from four bytes combined big-endian.
    pub fn random_single_u32(&mut self, max: u32) -> (r: u32)
        requires
            max >= 1,
        ensures
            ({
                let s2 = step_state(step_state(old(self).state()));
                let b0 = next_bytes(old(self).state());
                let b1 = next_bytes(s2);
                &&& final(self).state() == step_state(step_state(s2))
                &&& r == (((b0.0 as u32) << 24) | ((b0.1 as u32) << 16) | ((b1.0 as u32) << 8) | (
                b1.1 as u32)) % max
                &&& r < max
            }),
    {
        let num0 = self.next();
        let num1 = self.next();
        (((num0[0] as u32) << 24) | ((num0[1] as u32) << 16) | ((num1[0] as u32) << 8) | (
        num1[1] as u32)) % max
    }
}

} // verus!
