//! The random source a shot draws from: either the process generator,
//! or a seeded xorshift state for reproducible simulations.

use vstd::prelude::*;

verus! {

/// One xorshift step of the seeded generator.
pub open spec fn xorshift_s(s: u64) -> u64 {
    let a = s ^ (s << 13);
    let b = a ^ (a >> 7);
    b ^ (b << 17)
}

/// A shot's random source. `System` draws from the process generator;
/// `Seeded` steps a deterministic xorshift state, for reproducible
/// simulations and tests.
pub enum ShotRng {
    System,
    Seeded(u64),
}

/// Relies on rand::random: a machine word from the thread-local
/// generator; nothing is promised of its value.
#[verifier::external_body]
fn random_u64() -> u64 {
    rand::random::<u64>()
}

impl ShotRng {
    /// The next machine word. A seeded source steps deterministically;
    /// of the system source nothing is promised.
    pub fn next_u64(&mut self) -> (r: u64)
        ensures
            *old(self) is Seeded ==> r == xorshift_s(old(self)->Seeded_0) && *final(self)
                == ShotRng::Seeded(r),
            *old(self) is System ==> *final(self) is System,
    {
        match self {
            ShotRng::System => random_u64(),
            ShotRng::Seeded(s) => {
                let v = *s;
                let a = v ^ (v << 13u64);
                let b = a ^ (a >> 7u64);
                let c = b ^ (b << 17u64);
                *s = c;
                c
            },
        }
    }
}

} // verus!
