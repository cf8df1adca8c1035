//! Seeded pseudo-random generator: a 64-bit xorshift-multiply stream with a
//! splitmix-style seed mixer, plus pure seed derivation.
//!
//! Probabilities are fixed-point integers in millionths (`1_000_000` is
//! certainty). A "unit draw" is a 53-bit value `u`, standing for the fraction
//! `u / 2^53`; a probability test compares `u * 1_000_000 < p * 2^53` exactly.

use vstd::prelude::*;

verus! {

/// Odd constant mixed into seeds (the splitmix golden-gamma increment).
pub const SEED_GAMMA: u64 = 0x9E3779B97F4A7C15;

/// One probability unit: a chance of `PROB_ONE` always passes.
pub const PROB_ONE: u64 = 1_000_000;

/// 2^53, the number of distinct unit draws.
pub const UNIT_ONE: u64 = 0x20000000000000;

/// The splitmix64 finalizer: wrapping add of the gamma, then two
/// xor-shift-multiply rounds and a final xor-shift.
pub open spec fn spec_splitmix64(x: u64) -> u64 {
    let a = vstd::wrapping::u64_specs::wrapping_add(x, 0x9E3779B97F4A7C15);
    let b = vstd::wrapping::u64_specs::wrapping_mul(a ^ (a >> 30), 0xBF58476D1CE4E5B9);
    let c = vstd::wrapping::u64_specs::wrapping_mul(b ^ (b >> 27), 0x94D049BB133111EB);
    c ^ (c >> 31)
}

/// Mixes a word into an evenly distributed one; used to initialize streams
/// and to derive seeds.
pub fn splitmix64(x: u64) -> (r: u64)
    ensures
        r == spec_splitmix64(x),
{
    let a = x.wrapping_add(0x9E3779B97F4A7C15);
    let b = (a ^ (a >> 30)).wrapping_mul(0xBF58476D1CE4E5B9);
    let c = (b ^ (b >> 27)).wrapping_mul(0x94D049BB133111EB);
    c ^ (c >> 31)
}

/// Seed for a dependent stream: distinct salts give independent-looking seeds,
/// reproducibly from one base seed.
pub open spec fn spec_derive_seed(base_seed: u64, salt: u64) -> u64 {
    spec_splitmix64(base_seed ^ vstd::wrapping::u64_specs::wrapping_mul(salt, 0x9E3779B97F4A7C15))
}

/// Derives a new seed from a base seed and a salt.
pub fn derive_seed(base_seed: u64, salt: u64) -> (r: u64)
    ensures
        r == spec_derive_seed(base_seed, salt),
{
    splitmix64(base_seed ^ salt.wrapping_mul(0x9E3779B97F4A7C15))
}

/// The xorshift step: the generator's next internal state.
pub open spec fn spec_rng_mix(s: u64) -> u64 {
    let a = s ^ (s >> 12);
    let b = a ^ (a << 25);
    b ^ (b >> 27)
}

/// The word the generator emits when stepping from state `s`.
pub open spec fn spec_rng_output(s: u64) -> u64 {
    vstd::wrapping::u64_specs::wrapping_mul(spec_rng_mix(s), 0x2545F4914F6CDD1D)
}

/// The initial state for a seed: zero is replaced by the gamma constant so the
/// xorshift stream never starts from the degenerate all-zero state.
pub open spec fn spec_rng_new(seed: u64) -> u64 {
    spec_splitmix64(if seed == 0 { 0x9E3779B97F4A7C15u64 } else { seed })
}

/// A unit draw from state `s`: the emitted word's top 53 bits.
pub open spec fn spec_unit_draw(s: u64) -> u64 {
    spec_rng_output(s) >> 11
}

/// Whether a Bernoulli draw at probability `p` (in millionths, clamped to
/// `[0, PROB_ONE]`) succeeds from state `s`: exactly when the unit draw,
/// read as a fraction of 2^53, is below the clamped probability.
pub open spec fn spec_chance(s: u64, p: int) -> bool {
    let clamped = if p > 1_000_000 {
        1_000_000int
    } else if p < 0 {
        0int
    } else {
        p
    };
    spec_unit_draw(s) * 1_000_000 < clamped * 0x20000000000000
}

/// A bounded draw from state `s`: a value in `[0, upper)` by modulo, with
/// upper bounds of zero or one answered without consuming the stream.
pub open spec fn spec_range_draw(s: u64, upper_exclusive: usize) -> usize {
    if upper_exclusive <= 1 {
        0usize
    } else {
        (spec_rng_output(s) % (upper_exclusive as u64)) as usize
    }
}

/// State of the generator after a bounded draw with the given upper bound.
pub open spec fn spec_range_mix(s: u64, upper_exclusive: usize) -> u64 {
    if upper_exclusive <= 1 {
        s
    } else {
        spec_rng_mix(s)
    }
}

/// A deterministic pseudo-random stream. The view is the internal 64-bit
/// state, of which every draw and every successor state is a pure function.
#[derive(Clone, Copy)]
pub struct Rng {
    state: u64,
}

impl View for Rng {
    type V = u64;

    closed spec fn view(&self) -> u64 {
        self.state
    }
}

impl Rng {
    /// A stream seeded deterministically from `seed`.
    pub fn new(seed: u64) -> (r: Rng)
        ensures
            r@ == spec_rng_new(seed),
    {
        let seeded = if seed == 0 { 0x9E3779B97F4A7C15 } else { seed };
        Rng { state: splitmix64(seeded) }
    }

    /// A stream seeded from the wall clock; the seed, and so the stream,
    /// is otherwise arbitrary.
    pub fn from_time() -> (r: Rng)
        ensures
            exists|seed: u64| r@ == spec_rng_new(seed),
    {
        let now = clock_nanos();
        let r = Rng::new(now);
        assert(r@ == spec_rng_new(now));
        r
    }

    /// Steps the stream and returns the emitted 64-bit word.
    pub fn next_u64(&mut self) -> (r: u64)
        ensures
            final(self)@ == spec_rng_mix(old(self)@),
            r == spec_rng_output(old(self)@),
    {
        let mut x = self.state;
        x ^= x >> 12;
        x ^= x << 25;
        x ^= x >> 27;
        self.state = x;
        x.wrapping_mul(0x2545F4914F6CDD1D)
    }

    /// Draws a 53-bit unit value, standing for a fraction of 2^53.
    pub fn next_unit(&mut self) -> (r: u64)
        ensures
            final(self)@ == spec_rng_mix(old(self)@),
            r == spec_unit_draw(old(self)@),
            r < 0x20000000000000,
    {
        let v = self.next_u64();
        assert(v >> 11 < 0x20000000000000u64) by (bit_vector);
        v >> 11
    }

    /// A Bernoulli draw: true with probability `p` millionths (clamped).
    pub fn chance(&mut self, p: u64) -> (b: bool)
        ensures
            final(self)@ == spec_rng_mix(old(self)@),
            b == spec_chance(old(self)@, p as int),
    {
        let u = self.next_unit();
        let clamped = if p > 1_000_000 { 1_000_000 } else { p };
        (u as u128) * 1_000_000 < (clamped as u128) * 0x20000000000000
    }

    /// A bounded draw in `[0, upper_exclusive)`; bounds of zero or one give
    /// zero without consuming the stream.
    pub fn range_usize(&mut self, upper_exclusive: usize) -> (r: usize)
        ensures
            final(self)@ == spec_range_mix(old(self)@, upper_exclusive),
            r == spec_range_draw(old(self)@, upper_exclusive),
            upper_exclusive > 0 ==> r < upper_exclusive,
    {
        if upper_exclusive <= 1 {
            return 0;
        }
        (self.next_u64() % (upper_exclusive as u64)) as usize
    }
}

/// Relies on std's `SystemTime::now`: nanoseconds since the Unix epoch,
/// or a fixed fallback when the clock reads before it. The result depends
/// on the wall clock, so nothing is promised of it.
#[verifier::external_body]
fn clock_nanos() -> u64 {
    std::time::SystemTime::now()
        .duration_since(std::time::UNIX_EPOCH)
        .map(|d| d.as_nanos() as u64)
        .unwrap_or(0xA5A5_A5A5_A5A5_A5A5)
}


proof fn lemma_wrapping_mul_inj(x1: u64, x2: u64, k: u64, kinv: int)
    requires
        (k as int * kinv) % 0x1_0000_0000_0000_0000 == 1,
        vstd::wrapping::u64_specs::wrapping_mul(x1, k) == vstd::wrapping::u64_specs::wrapping_mul(
            x2,
            k,
        ),
    ensures
        x1 == x2,
{
    let m = 0x1_0000_0000_0000_0000int;
    let p1 = x1 as int * k as int;
    let p2 = x2 as int * k as int;
    vstd::arithmetic::mul::lemma_mul_nonnegative(x1 as int, k as int);
    vstd::arithmetic::mul::lemma_mul_nonnegative(x2 as int, k as int);
    assert(p1 % m == p2 % m);
    vstd::arithmetic::div_mod::lemma_mul_mod_noop_left(p1, kinv, m);
    vstd::arithmetic::div_mod::lemma_mul_mod_noop_left(p2, kinv, m);
    vstd::arithmetic::mul::lemma_mul_is_associative(x1 as int, k as int, kinv);
    vstd::arithmetic::mul::lemma_mul_is_associative(x2 as int, k as int, kinv);
    vstd::arithmetic::div_mod::lemma_mul_mod_noop_right(x1 as int, k as int * kinv, m);
    vstd::arithmetic::div_mod::lemma_mul_mod_noop_right(x2 as int, k as int * kinv, m);
    vstd::arithmetic::div_mod::lemma_small_mod(x1 as nat, m as nat);
    vstd::arithmetic::div_mod::lemma_small_mod(x2 as nat, m as nat);
    assert(x1 as int == (p1 * kinv) % m);
    assert(x2 as int == (p2 * kinv) % m);
}

/// The seed mixer is a bijection: distinct inputs mix to distinct outputs.
pub proof fn lemma_splitmix64_injective(a: u64, b: u64)
    requires
        spec_splitmix64(a) == spec_splitmix64(b),
    ensures
        a == b,
{
    let m = 0x1_0000_0000_0000_0000int;
    let a1 = vstd::wrapping::u64_specs::wrapping_add(a, 0x9E3779B97F4A7C15);
    let b1 = vstd::wrapping::u64_specs::wrapping_add(b, 0x9E3779B97F4A7C15);
    let a2 = a1 ^ (a1 >> 30);
    let b2 = b1 ^ (b1 >> 30);
    let a3 = vstd::wrapping::u64_specs::wrapping_mul(a2, 0xBF58476D1CE4E5B9);
    let b3 = vstd::wrapping::u64_specs::wrapping_mul(b2, 0xBF58476D1CE4E5B9);
    let a4 = a3 ^ (a3 >> 27);
    let b4 = b3 ^ (b3 >> 27);
    let a5 = vstd::wrapping::u64_specs::wrapping_mul(a4, 0x94D049BB133111EB);
    let b5 = vstd::wrapping::u64_specs::wrapping_mul(b4, 0x94D049BB133111EB);
    assert(a5 ^ (a5 >> 31) == b5 ^ (b5 >> 31));
    assert(a5 == b5) by (bit_vector)
        requires
            a5 ^ (a5 >> 31) == b5 ^ (b5 >> 31),
    ;
    assert((0x94D049BB133111EB as int * 0x319642B2D24D8EC3) % 0x1_0000_0000_0000_0000 == 1);
    lemma_wrapping_mul_inj(a4, b4, 0x94D049BB133111EB, 0x319642B2D24D8EC3);
    assert(a3 == b3) by (bit_vector)
        requires
            a3 ^ (a3 >> 27) == b3 ^ (b3 >> 27),
    ;
    assert((0xBF58476D1CE4E5B9 as int * 0x96DE1B173F119089) % 0x1_0000_0000_0000_0000 == 1);
    lemma_wrapping_mul_inj(a2, b2, 0xBF58476D1CE4E5B9, 0x96DE1B173F119089);
    assert(a1 == b1) by (bit_vector)
        requires
            a1 ^ (a1 >> 30) == b1 ^ (b1 >> 30),
    ;
    assert(a == b);
}

/// Seed independence: distinct salts derive distinct seeds from any one base
/// seed — not merely for most salts, but for every distinct pair, since both
/// the salt scaling and the mixer are bijections of the 64-bit space.
pub proof fn lemma_derive_seed_injective(base_seed: u64, salt1: u64, salt2: u64)
    requires
        salt1 != salt2,
    ensures
        spec_derive_seed(base_seed, salt1) != spec_derive_seed(base_seed, salt2),
{
    if spec_derive_seed(base_seed, salt1) == spec_derive_seed(base_seed, salt2) {
        let w1 = vstd::wrapping::u64_specs::wrapping_mul(salt1, 0x9E3779B97F4A7C15);
        let w2 = vstd::wrapping::u64_specs::wrapping_mul(salt2, 0x9E3779B97F4A7C15);
        lemma_splitmix64_injective(base_seed ^ w1, base_seed ^ w2);
        let x = base_seed;
        assert(w1 == w2) by (bit_vector)
            requires
                x ^ w1 == x ^ w2,
        ;
        assert((0x9E3779B97F4A7C15 as int * 0xF1DE83E19937733D) % 0x1_0000_0000_0000_0000 == 1);
        lemma_wrapping_mul_inj(salt1, salt2, 0x9E3779B97F4A7C15, 0xF1DE83E19937733D);
        assert(false);
    }
}

} // verus!
