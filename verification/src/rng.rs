//! A tiny SplitMix64 generator: enough to pick a random font or gradient,
//! and to derive a mark deterministically from a seed.
use vstd::prelude::*;
use vstd::wrapping::u64_specs::{wrapping_add, wrapping_mul};

verus! {

pub open spec fn golden_gamma() -> u64 {
    0x9E37_79B9_7F4A_7C15
}

/// The SplitMix64 output function applied to a state.
#[verifier::opaque]
pub open spec fn mix(state: u64) -> u64 {
    let z1 = wrapping_mul(state ^ (state >> 30u64), 0xBF58_476D_1CE4_E5B9u64);
    let z2 = wrapping_mul(z1 ^ (z1 >> 27u64), 0x94D0_49BB_1331_11EBu64);
    z2 ^ (z2 >> 31u64)
}

/// The state after `k` steps from `seed`.
pub open spec fn state_after(seed: u64, k: nat) -> u64
    decreases k,
{
    if k == 0 {
        seed
    } else {
        wrapping_add(state_after(seed, (k - 1) as nat), golden_gamma())
    }
}

/// The `k`-th output (counting from 0) of a generator seeded with `seed`.
pub open spec fn output(seed: u64, k: nat) -> u64 {
    mix(state_after(seed, k + 1))
}

/// A SplitMix64 pseudo-random generator.
pub struct SplitMix {
    pub state: u64,
}

impl SplitMix {
    pub fn new(seed: u64) -> (r: SplitMix)
        ensures
            r.state == seed,
    {
        SplitMix { state: seed }
    }

    /// The next output; the state advances by the golden gamma.
    pub fn next(&mut self) -> (v: u64)
        ensures
            final(self).state == wrapping_add(old(self).state, golden_gamma()),
            v == mix(final(self).state),
    {
        reveal(mix);
        self.state = self.state.wrapping_add(0x9E37_79B9_7F4A_7C15);
        let mut z = self.state;
        z = (z ^ (z >> 30)).wrapping_mul(0xBF58_476D_1CE4_E5B9);
        z = (z ^ (z >> 27)).wrapping_mul(0x94D0_49BB_1331_11EB);
        z ^ (z >> 31)
    }
}

/// Choose an element of `items` with the generator: the one at index
/// `next() % len`.
pub fn pick_one(items: &Vec<&str>, rng: &mut SplitMix) -> (s: String)
    requires
        items@.len() > 0,
    ensures
        final(rng).state == wrapping_add(old(rng).state, golden_gamma()),
        s@ == items@[(mix(final(rng).state) % (items@.len() as u64)) as int]@,
{
    let i = (rng.next() % items.len() as u64) as usize;
    String::from_str(items[i])
}

/// Generators seeded alike agree call by call: `next` moves a generator in
/// state `state_after(seed, k)` to `state_after(seed, k + 1)` and returns
/// `output(seed, k)`, so the `k`-th call of any generator seeded with
/// `seed` returns `output(seed, k)`, whatever other generator runs beside it.
pub proof fn lemma_calls_follow_the_seed(seed: u64, k: nat)
    ensures
        wrapping_add(state_after(seed, k), golden_gamma()) == state_after(seed, k + 1),
        mix(wrapping_add(state_after(seed, k), golden_gamma())) == output(seed, k),
{
}

} // verus!
