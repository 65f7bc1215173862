//! A deterministic pseudo-random stream.
//!
//! The seed is the sole entropy source: equal seeds give equal draw
//! sequences, which makes every consumer of the stream reproducible.  The
//! step is a linear congruential map modulo `2^64`, and each draw hands out
//! the upper 32 bits of the new state.

use vstd::prelude::*;

verus! {

/// Multiplier of the linear congruential step.
pub const STREAM_MUL: u64 = 6_364_136_223_846_793_005;

/// Increment of the linear congruential step.
pub const STREAM_INC: u64 = 1_442_695_040_888_963_407;

/// The state that follows `s`: one congruential step modulo `2^64`.
pub open spec fn stream_next_s(s: int) -> int {
    (s * (STREAM_MUL as int) + (STREAM_INC as int)) % 0x1_0000_0000_0000_0000
}

/// The 32-bit value drawn when stepping away from state `s`: the upper half
/// of the next state.
pub open spec fn stream_out_s(s: int) -> int {
    stream_next_s(s) / 0x1_0000_0000
}

/// A deterministic stream of pseudo-random draws, seeded explicitly.
pub struct SeedStream {
    pub state: u64,
}

impl SeedStream {
    /// Start a stream from a seed.
    pub fn from_seed(seed: u32) -> (r: SeedStream)
        ensures
            r.state == seed,
    {
        SeedStream { state: seed as u64 }
    }

    /// Draw 32 bits and advance the state.
    pub fn next_u32(&mut self) -> (r: u32)
        ensures
            final(self).state == stream_next_s(old(self).state as int),
            r == stream_out_s(old(self).state as int),
    {
        let s0: u64 = self.state;
        proof {
            assert(0 <= (s0 as int) * (STREAM_MUL as int)
                && (s0 as int) * (STREAM_MUL as int) + (STREAM_INC as int)
                    < 0x1_0000_0000_0000_0000_0000_0000_0000_0000int) by (nonlinear_arith)
                requires
                    0 <= s0 <= 0xffff_ffff_ffff_ffffu64,
            ;
        }
        let p: u128 = (s0 as u128) * (STREAM_MUL as u128) + (STREAM_INC as u128);
        let ns: u64 = (p % 0x1_0000_0000_0000_0000) as u64;
        self.state = ns;
        let out: u64 = ns / 0x1_0000_0000;
        out as u32
    }

    /// Draw a value below `n` and advance the state.
    pub fn next_below(&mut self, n: u32) -> (r: u32)
        requires
            1 <= n,
        ensures
            final(self).state == stream_next_s(old(self).state as int),
            r == stream_out_s(old(self).state as int) % (n as int),
            r < n,
    {
        let x: u32 = self.next_u32();
        x % n
    }

    /// Draw a value in the closed interval `[lo, hi]` and advance the state.
    pub fn next_between(&mut self, lo: u32, hi: u32) -> (r: u32)
        requires
            lo <= hi,
            hi < 0xffff_ffffu32,
        ensures
            final(self).state == stream_next_s(old(self).state as int),
            r == lo + stream_out_s(old(self).state as int) % (hi - lo + 1 as int),
            lo <= r <= hi,
    {
        let width: u32 = hi - lo + 1;
        let d: u32 = self.next_below(width);
        lo + d
    }
}

} // verus!
