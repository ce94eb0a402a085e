//! A tiny, self-contained deterministic PRNG (SplitMix64).
//!
//! The algorithm is fixed and auditable here, so a given seed yields the same
//! sequence on every platform. Changing it is a breaking change to deal
//! reproducibility.
use vstd::prelude::*;

verus! {

/// The odd constant by which the SplitMix64 state advances on every draw.
pub const GOLDEN_GAMMA: u64 = 0x9E37_79B9_7F4A_7C15;

/// The first multiplier of the SplitMix64 output mix.
pub const MIX_MUL_1: u64 = 0xBF58_476D_1CE4_E5B9;

/// The second multiplier of the SplitMix64 output mix.
pub const MIX_MUL_2: u64 = 0x94D0_49BB_1331_11EB;

/// The number of distinct 64-bit values, `2^64`.
pub open spec fn two_pow_64() -> nat {
    0x1_0000_0000_0000_0000
}

/// The state after one draw: the old state plus the golden gamma, modulo `2^64`.
pub open spec fn splitmix_advance(state: u64) -> u64 {
    vstd::wrapping::u64_specs::wrapping_add(state, GOLDEN_GAMMA)
}

/// The SplitMix64 output function applied to an (already advanced) state.
pub open spec fn splitmix_mix(z: u64) -> u64 {
    let z1 = vstd::wrapping::u64_specs::wrapping_mul(z ^ (z >> 30u64), MIX_MUL_1);
    let z2 = vstd::wrapping::u64_specs::wrapping_mul(z1 ^ (z1 >> 27u64), MIX_MUL_2);
    z2 ^ (z2 >> 31u64)
}

/// The low 64 bits of `x * bound` (Lemire's rejection test value).
pub open spec fn lemire_low(x: u64, bound: u64) -> nat {
    ((x as nat) * (bound as nat)) % two_pow_64()
}

/// The high 64 bits of `x * bound` (Lemire's candidate result).
pub open spec fn lemire_high(x: u64, bound: u64) -> nat {
    ((x as nat) * (bound as nat)) / two_pow_64()
}

/// Lemire's rejection threshold `(2^64 - bound) mod bound`.
pub open spec fn lemire_threshold(bound: u64) -> nat {
    ((two_pow_64() - bound) as nat) % (bound as nat)
}

/// The number of redraws after which a bounded draw stops retrying: `2^64 - 1`.
/// Within that many redraws the generator has produced every 64-bit value once
/// (its state walks all of them), and some value is always accepted, so the
/// limit is never what ends the retries.
pub open spec fn redraw_limit() -> nat {
    0xFFFF_FFFF_FFFF_FFFF
}

/// Lemire's rejection loop from the current draw `x` (made in state `state`):
/// accept `x` unless its low product lies below the threshold, else draw again.
/// Returns the result and the final generator state.
pub open spec fn lemire_retry(state: u64, x: u64, bound: u64, fuel: nat) -> (u64, u64)
    decreases fuel,
{
    if lemire_low(x, bound) >= lemire_threshold(bound) || fuel == 0 {
        (lemire_high(x, bound) as u64, state)
    } else {
        let next = splitmix_advance(state);
        lemire_retry(next, splitmix_mix(next), bound, (fuel - 1) as nat)
    }
}

/// A uniform draw in `0..bound` from generator state `state`: the value and the
/// state after it.
pub open spec fn splitmix_below(state: u64, bound: u64) -> (u64, u64) {
    let next = splitmix_advance(state);
    lemire_retry(next, splitmix_mix(next), bound, redraw_limit())
}

/// A deterministic SplitMix64 pseudo-random number generator.
#[derive(Debug, Clone)]
pub struct SplitMix64 {
    state: u64,
}

impl View for SplitMix64 {
    type V = u64;

    /// The generator's internal state.
    closed spec fn view(&self) -> u64 {
        self.state
    }
}

/// The candidate of a Lemire draw is always below the bound.
pub proof fn lemma_lemire_high_below(x: u64, bound: u64)
    requires
        bound > 0,
    ensures
        lemire_high(x, bound) < bound,
        (x as nat) * (bound as nat) < two_pow_64() * two_pow_64(),
{
    let p = (x as nat) * (bound as nat);
    assert(p < two_pow_64() * (bound as nat)) by (nonlinear_arith)
        requires
            p == (x as nat) * (bound as nat),
            x < two_pow_64(),
            bound > 0,
    ;
    assert(p / two_pow_64() < bound) by (nonlinear_arith)
        requires
            p < two_pow_64() * (bound as nat),
            two_pow_64() > 0,
    ;
    assert(p < two_pow_64() * two_pow_64()) by (nonlinear_arith)
        requires
            p < two_pow_64() * (bound as nat),
            bound < two_pow_64(),
    ;
}

/// Every outcome of the rejection loop is below the bound.
pub proof fn lemma_lemire_retry_below(state: u64, x: u64, bound: u64, fuel: nat)
    requires
        bound > 0,
    ensures
        lemire_retry(state, x, bound, fuel).0 < bound,
    decreases fuel,
{
    lemma_lemire_high_below(x, bound);
    if !(lemire_low(x, bound) >= lemire_threshold(bound) || fuel == 0) {
        let next = splitmix_advance(state);
        lemma_lemire_retry_below(next, splitmix_mix(next), bound, (fuel - 1) as nat);
    }
}

impl SplitMix64 {
    /// Create a generator seeded by `seed`. Every seed value is valid.
    pub fn new(seed: u64) -> (r: SplitMix64)
        ensures
            r@ == seed,
    {
        SplitMix64 { state: seed }
    }

    /// Return the next 64-bit pseudo-random value and advance the state.
    pub fn next_u64(&mut self) -> (r: u64)
        ensures
            final(self)@ == splitmix_advance(old(self)@),
            r == splitmix_mix(final(self)@),
    {
        self.state = self.state.wrapping_add(GOLDEN_GAMMA);
        let mut z = self.state;
        z = (z ^ (z >> 30)).wrapping_mul(MIX_MUL_1);
        z = (z ^ (z >> 27)).wrapping_mul(MIX_MUL_2);
        z ^ (z >> 31)
    }

    /// Return a uniformly distributed value in `0..bound` without modulo bias,
    /// by Lemire's multiply-and-shift rejection method.
    pub fn next_below(&mut self, bound: u64) -> (r: u64)
        requires
            bound > 0,
        ensures
            r < bound,
            (r, final(self)@) == splitmix_below(old(self)@, bound),
    {
        let ghost start = self.state;
        let mut x = self.next_u64();
        let (mut low, mut high) = mul_split(x, bound);
        if low < bound {
            let threshold = 0u64.wrapping_sub(bound) % bound;
            assert(threshold == lemire_threshold(bound));
            let mut redraws: u64 = 0;
            while low < threshold && redraws < 0xFFFF_FFFF_FFFF_FFFFu64
                invariant
                    bound > 0,
                    threshold == lemire_threshold(bound),
                    low == lemire_low(x, bound),
                    high == lemire_high(x, bound),
                    x == splitmix_mix(self@),
                    lemire_retry(self@, x, bound, (redraw_limit() - redraws) as nat)
                        == splitmix_below(start, bound),
                decreases 0xFFFF_FFFF_FFFF_FFFFu64 - redraws,
            {
                x = self.next_u64();
                let (l, h) = mul_split(x, bound);
                low = l;
                high = h;
                redraws = redraws + 1;
            }
        } else {
            assert(lemire_threshold(bound) < bound) by (nonlinear_arith)
                requires
                    bound > 0,
            ;
        }
        proof {
            lemma_lemire_high_below(x, bound);
        }
        high
    }
}

/// The low and high 64-bit halves of the 128-bit product `x * bound`.
fn mul_split(x: u64, bound: u64) -> (r: (u64, u64))
    ensures
        r.0 == lemire_low(x, bound),
        r.1 == lemire_high(x, bound),
{
    proof {
        if bound > 0 {
            lemma_lemire_high_below(x, bound);
        }
        assert((x as nat) * (bound as nat) <= 0xFFFF_FFFF_FFFF_FFFF * 0xFFFF_FFFF_FFFF_FFFF)
            by (nonlinear_arith)
            requires
                x <= 0xFFFF_FFFF_FFFF_FFFFu64,
                bound <= 0xFFFF_FFFF_FFFF_FFFFu64,
        ;
    }
    let m: u128 = (x as u128) * (bound as u128);
    let low = m as u64;
    let high = (m >> 64u32) as u64;
    proof {
        assert(low == m % 0x1_0000_0000_0000_0000) by (bit_vector)
            requires
                low == m as u64,
        ;
        assert(high == m / 0x1_0000_0000_0000_0000) by (bit_vector)
            requires
                high == (m >> 64u32) as u64,
        ;
    }
    (low, high)
}

} // verus!
