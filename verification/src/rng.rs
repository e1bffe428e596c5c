//! A small, dependency-free random number generator.
//!
//! [`Rng`] is a splitmix64 generator: pure 64-bit integer arithmetic, so it
//! runs identically on every target with no seeding system calls beyond the
//! clock read of [`Rng::new`]. Seed from the clock with [`Rng::new`] for a
//! different stream on each run, or fix the stream with [`Rng::with_seed`]
//! for reproducible simulations and tests.

use vstd::prelude::*;

verus! {

/// The golden-ratio increment the generator's state advances by on every
/// draw.
pub const GOLDEN_GAMMA: u64 = 0x9E37_79B9_7F4A_7C15;

/// The first multiplier of the output mix.
pub const MIX_MUL_1: u64 = 0xBF58_476D_1CE4_E5B9;

/// The second multiplier of the output mix.
pub const MIX_MUL_2: u64 = 0x94D0_49BB_1331_11EB;

/// The number of distinct `u64` values: arithmetic on the state is modulo
/// this.
pub open spec fn word() -> nat {
    0x1_0000_0000_0000_0000nat
}

/// `a + b` modulo 2^64.
pub open spec fn add_mod(a: u64, b: u64) -> u64 {
    ((a as nat + b as nat) % word()) as u64
}

/// `a * b` modulo 2^64.
pub open spec fn mul_mod(a: u64, b: u64) -> u64 {
    ((a as nat * b as nat) % word()) as u64
}

/// The splitmix64 output function: two xor-shift/multiply rounds and a
/// final xor-shift of the freshly advanced state.
pub open spec fn mix(z: u64) -> u64 {
    let a = mul_mod(z ^ (z >> 30u64), MIX_MUL_1);
    let b = mul_mod(a ^ (a >> 27u64), MIX_MUL_2);
    b ^ (b >> 31u64)
}

/// The generator state after `n` draws from the state `seed`: each draw
/// adds the golden-ratio increment, modulo 2^64.
pub open spec fn state_after(seed: u64, n: nat) -> u64
    decreases n,
{
    if n == 0 {
        seed
    } else {
        add_mod(state_after(seed, (n - 1) as nat), GOLDEN_GAMMA)
    }
}

/// The `n`th value (counting from 0) drawn from a generator seeded with
/// `seed`.
pub open spec fn nth_draw(seed: u64, n: nat) -> u64 {
    mix(state_after(seed, n + 1))
}

/// The inverse of [`MIX_MUL_1`] modulo 2^64.
pub open spec fn mix_mul_1_inverse() -> u64 {
    0x96de_1b17_3f11_9089u64
}

/// The inverse of [`MIX_MUL_2`] modulo 2^64.
pub open spec fn mix_mul_2_inverse() -> u64 {
    0x3196_42b2_d24d_8ec3u64
}

/// Multiplying by an odd constant modulo 2^64 is undone by multiplying by
/// its inverse.
proof fn lemma_mul_mod_cancel(x: u64, c: u64, cinv: u64)
    requires
        (c as nat * cinv as nat) % word() == 1,
    ensures
        (mul_mod(x, c) as nat * cinv as nat) % word() == x as nat,
{
    let m = word() as int;
    let xc = x as int * c as int;
    assert(0 <= xc % m < m) by {
        vstd::arithmetic::div_mod::lemma_mod_bound(xc, m);
    }
    assert(mul_mod(x, c) as int == xc % m);
    vstd::arithmetic::div_mod::lemma_mul_mod_noop_left(xc, cinv as int, m);
    vstd::arithmetic::mul::lemma_mul_is_associative(x as int, c as int, cinv as int);
    vstd::arithmetic::div_mod::lemma_mul_mod_noop_right(x as int, c as int * cinv as int, m);
    assert((x as int * 1) % m == x as int) by {
        vstd::arithmetic::div_mod::lemma_small_mod(x as nat, m as nat);
    }
}

/// Multiplication by an odd constant modulo 2^64 is injective.
proof fn lemma_mul_mod_injective(x: u64, y: u64, c: u64, cinv: u64)
    requires
        (c as nat * cinv as nat) % word() == 1,
        mul_mod(x, c) == mul_mod(y, c),
    ensures
        x == y,
{
    lemma_mul_mod_cancel(x, c, cinv);
    lemma_mul_mod_cancel(y, c, cinv);
}

/// The output mix is a bijection of `u64`: distinct states give distinct
/// values.
pub proof fn lemma_mix_injective(a: u64, b: u64)
    requires
        a != b,
    ensures
        mix(a) != mix(b),
{
    assert((MIX_MUL_1 as nat * mix_mul_1_inverse() as nat) % word() == 1);
    assert((MIX_MUL_2 as nat * mix_mul_2_inverse() as nat) % word() == 1);
    let a1 = a ^ (a >> 30u64);
    let b1 = b ^ (b >> 30u64);
    assert(a1 != b1) by (bit_vector)
        requires
            a != b,
            a1 == a ^ (a >> 30u64),
            b1 == b ^ (b >> 30u64),
    ;
    let a2 = mul_mod(a1, MIX_MUL_1);
    let b2 = mul_mod(b1, MIX_MUL_1);
    if a2 == b2 {
        lemma_mul_mod_injective(a1, b1, MIX_MUL_1, mix_mul_1_inverse());
    }
    let a3 = a2 ^ (a2 >> 27u64);
    let b3 = b2 ^ (b2 >> 27u64);
    assert(a3 != b3) by (bit_vector)
        requires
            a2 != b2,
            a3 == a2 ^ (a2 >> 27u64),
            b3 == b2 ^ (b2 >> 27u64),
    ;
    let a4 = mul_mod(a3, MIX_MUL_2);
    let b4 = mul_mod(b3, MIX_MUL_2);
    if a4 == b4 {
        lemma_mul_mod_injective(a3, b3, MIX_MUL_2, mix_mul_2_inverse());
    }
    assert(a4 ^ (a4 >> 31u64) != b4 ^ (b4 >> 31u64)) by (bit_vector)
        requires
            a4 != b4,
    ;
}

/// The state after `n` draws from `seed` is `seed + n * GOLDEN_GAMMA`
/// modulo 2^64: the state advances by the golden-ratio constant on every
/// draw.
pub proof fn lemma_state_after_closed_form(seed: u64, n: nat)
    ensures
        state_after(seed, n) as nat == (seed as nat + n * GOLDEN_GAMMA as nat) % word(),
    decreases n,
{
    if n == 0 {
        vstd::arithmetic::div_mod::lemma_small_mod(seed as nat, word());
    } else {
        lemma_state_after_closed_form(seed, (n - 1) as nat);
        let m = word() as int;
        let prev = seed as int + (n - 1) * GOLDEN_GAMMA as int;
        vstd::arithmetic::div_mod::lemma_add_mod_noop(prev, GOLDEN_GAMMA as int, m);
        vstd::arithmetic::div_mod::lemma_small_mod(GOLDEN_GAMMA as nat, word());
        vstd::arithmetic::div_mod::lemma_mod_bound(prev, m);
        vstd::arithmetic::div_mod::lemma_mod_bound(prev + GOLDEN_GAMMA as int, m);
        assert(prev + GOLDEN_GAMMA as int == seed as int + n * GOLDEN_GAMMA as int) by (nonlinear_arith)
            requires
                prev == seed as int + (n - 1) * GOLDEN_GAMMA as int,
                n >= 1,
        ;
    }
}

/// Different seeds give different streams: two generators seeded with
/// different values already differ in their first draw.
pub proof fn lemma_different_seeds_differ_at_first_draw(a: u64, b: u64)
    requires
        a != b,
    ensures
        nth_draw(a, 0) != nth_draw(b, 0),
{
    lemma_state_after_closed_form(a, 1);
    lemma_state_after_closed_form(b, 1);
    let sa = state_after(a, 1);
    let sb = state_after(b, 1);
    if sa == sb {
        // Adding the same constant modulo 2^64 is injective on u64.
        let m = word() as int;
        let g = GOLDEN_GAMMA as int;
        assert(a as int + g < 2 * m);
        assert(b as int + g < 2 * m);
        vstd::arithmetic::div_mod::lemma_fundamental_div_mod(a as int + g, m);
        vstd::arithmetic::div_mod::lemma_fundamental_div_mod(b as int + g, m);
        assert(false) by (nonlinear_arith)
            requires
                a != b,
                0 <= a < m,
                0 <= b < m,
                0 <= g < m,
                m > 0,
                (a as int + g) % m == (b as int + g) % m,
                a as int + g == m * ((a as int + g) / m) + (a as int + g) % m,
                b as int + g == m * ((b as int + g) / m) + (b as int + g) % m,
                0 <= (a as int + g) % m < m,
                0 <= (b as int + g) % m < m,
        ;
    }
    lemma_mix_injective(sa, sb);
}

/// Generators seeded alike draw alike: every draw of two generators with
/// the same seed is the same value, because each draw is
/// `mix(seed + (n + 1) * GOLDEN_GAMMA)` modulo 2^64.
pub proof fn lemma_nth_draw_closed_form(seed: u64, n: nat)
    ensures
        nth_draw(seed, n) == mix(((seed as nat + (n + 1) * GOLDEN_GAMMA as nat) % word()) as u64),
{
    lemma_state_after_closed_form(seed, n + 1);
}

/// A small splitmix64 pseudo-random number generator.
///
/// The state advances by the golden-ratio constant on every draw and is
/// mixed with two multiply-xor rounds, so consecutive values are well
/// distributed even though the generator is only a few lines long.
#[derive(Debug, Clone, Copy, PartialEq)]
pub struct Rng(u64);

impl Rng {
    /// The generator's current state.
    pub closed spec fn state(self) -> u64 {
        self.0
    }

    /// Seed from the clock: the nanoseconds since the Unix epoch, mixed
    /// with the golden-ratio constant so a degenerate clock still gives a
    /// healthy seed. Each run gets a different stream.
    ///
    /// The clock reading is whatever the system reports, so no clause
    /// states the seed (on a target without a system clock, seed with
    /// [`Rng::with_seed`] instead): it is that reading (its low 64 bits, or 0 before
    /// the epoch) mixed as [`Rng::from_clock_nanos`] states.
    pub fn new() -> Self {
        let nanos = clock_nanos();
        Self::from_clock_nanos(nanos)
    }

    /// The generator [`Rng::new`] builds from a clock reading of `nanos`
    /// nanoseconds since the Unix epoch: the reading xor the golden-ratio
    /// constant.
    pub fn from_clock_nanos(nanos: u64) -> (rng: Self)
        ensures
            rng.state() == nanos ^ GOLDEN_GAMMA,
    {
        Rng(nanos ^ GOLDEN_GAMMA)
    }

    /// Seed from an exact value: the same seed always gives the same
    /// stream, for reproducible simulations and tests.
    pub fn with_seed(seed: u64) -> (rng: Self)
        ensures
            rng.state() == seed,
    {
        Rng(seed)
    }

    /// The next pseudo-random `u64`: the state advances by the golden-ratio
    /// constant and the new state is mixed into the result.
    pub fn next_u64(&mut self) -> (value: u64)
        ensures
            final(self).state() == add_mod(old(self).state(), GOLDEN_GAMMA),
            value == mix(final(self).state()),
    {
        self.0 = self.0.wrapping_add(GOLDEN_GAMMA);
        let mut z = self.0;
        z = (z ^ (z >> 30)).wrapping_mul(MIX_MUL_1);
        z = (z ^ (z >> 27)).wrapping_mul(MIX_MUL_2);
        z = z ^ (z >> 31);
        z
    }
}

/// The system clock's type, carried opaquely from the clock read to the
/// epoch difference.
#[verifier::external_type_specification]
#[verifier::external_body]
pub struct ExSystemTime(std::time::SystemTime);

/// The current system time: `std::time::SystemTime::now`. Nothing is
/// claimed of it; it depends on the machine's clock. That the call returns
/// on every target is not shown either: std's documentation does not say
/// what it does where the platform has no system clock, as on the bare web
/// target `wasm32-unknown-unknown`, so the generator's clock seeding is
/// meant for targets that have one.
#[verifier::external_body]
fn system_now() -> std::time::SystemTime {
    std::time::SystemTime::now()
}

/// The time elapsed from the Unix epoch to `t`: `SystemTime::duration_since`
/// with `UNIX_EPOCH`, or `None` when `t` lies before the epoch (the error
/// case of the std call). Nothing is claimed of the duration.
#[verifier::external_body]
fn since_unix_epoch(t: std::time::SystemTime) -> Option<std::time::Duration> {
    t.duration_since(std::time::UNIX_EPOCH).ok()
}

/// The whole nanoseconds of `d`: `Duration::as_nanos`. Nothing is claimed
/// of the value beyond its type.
#[verifier::external_body]
fn duration_nanos(d: std::time::Duration) -> u128 {
    d.as_nanos()
}

/// The seed nanoseconds of a clock reading: the low 64 bits of the whole
/// nanoseconds since the Unix epoch, or 0 for a clock that reads before
/// the epoch.
pub open spec fn seed_nanos(reading: Option<u128>) -> u64 {
    match reading {
        Some(n) => (n % 0x1_0000_0000_0000_0000u128) as u64,
        None => 0,
    }
}

/// The seed nanoseconds of a clock reading of `reading` whole nanoseconds
/// since the Unix epoch (`None` for a clock that reads before the epoch),
/// as [`seed_nanos`] states.
pub fn nanos_from_epoch_reading(reading: Option<u128>) -> (nanos: u64)
    ensures
        nanos == seed_nanos(reading),
{
    match reading {
        Some(n) => {
            assert(n as u64 == (n % 0x1_0000_0000_0000_0000u128) as u64) by (bit_vector);
            n as u64
        },
        None => 0,
    }
}

/// The nanoseconds since the Unix epoch that the system clock reports,
/// truncated to 64 bits, or 0 when the clock reads before the epoch. The
/// reading is whatever the system reports, so no clause states it; what is
/// made of the reading is [`nanos_from_epoch_reading`].
fn clock_nanos() -> u64 {
    match since_unix_epoch(system_now()) {
        Some(d) => nanos_from_epoch_reading(Some(duration_nanos(d))),
        None => nanos_from_epoch_reading(None),
    }
}

} // verus!
