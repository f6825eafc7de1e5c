use vstd::prelude::*;

verus! {

/// Seed used in place of zero, which would keep the generator at zero.
pub const FALLBACK_SEED: u64 = 0x9e37_79b9_7f4a_7c15;

/// The state a generator seeded with `seed` starts from.
pub open spec fn seeded(seed: u64) -> u64 {
    if seed == 0 {
        FALLBACK_SEED
    } else {
        seed
    }
}

/// One xorshift step.
pub open spec fn xorshift(s: u64) -> u64 {
    let a = s ^ (s << 13u64);
    let b = a ^ (a >> 7u64);
    b ^ (b << 17u64)
}

/// What `range` makes of a draw `d` for the bounds `min <= max`.
pub open spec fn in_range(d: u64, min: u64, max: u64) -> int {
    if max - min == u64::MAX {
        d as int
    } else {
        min + (d as int) % ((max - min) as int + 1)
    }
}

/// A pseudo-random generator owned by the game field.
#[derive(Clone, Copy, Debug, PartialEq, Eq, Structural)]
pub struct Rng {
    pub state: u64,
}

impl Rng {
    /// A generator seeded with `seed` (zero stands for `FALLBACK_SEED`).
    pub fn new(seed: u64) -> (r: Rng)
        ensures
            r.state == seeded(seed),
    {
        Rng { state: if seed == 0 { FALLBACK_SEED } else { seed } }
    }

    /// The next number of the stream.
    pub fn rand(&mut self) -> (r: u64)
        ensures
            final(self).state == xorshift(old(self).state),
            r == final(self).state,
    {
        let s = self.state;
        let a = s ^ (s << 13u64);
        let b = a ^ (a >> 7u64);
        let c = b ^ (b << 17u64);
        self.state = c;
        c
    }

    /// The next number of the stream, brought into `[min, max]`.
    pub fn range(&mut self, min: u64, max: u64) -> (r: u64)
        requires
            min <= max,
        ensures
            final(self).state == xorshift(old(self).state),
            r == in_range(final(self).state, min, max),
            min <= r <= max,
    {
        let d = self.rand();
        let span: u64 = max - min;
        if span == u64::MAX {
            d
        } else {
            min + d % (span + 1)
        }
    }
}

} // verus!
