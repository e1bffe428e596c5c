use frost::rng::nanos_from_epoch_reading;
use frost::Rng;

/// The uniform `f32` in `[0, 1)` the renderer draws: the top 24 bits of
/// the next `u64`.
fn next_f32(rng: &mut Rng) -> f32 {
    (rng.next_u64() >> 40) as f32 / (1u32 << 24) as f32
}

/// A uniform `f32` in `[lo, hi)`.
fn in_range(rng: &mut Rng, lo: f32, hi: f32) -> f32 {
    lo + next_f32(rng) * (hi - lo)
}

#[test]
fn the_same_seed_gives_the_same_stream() {
    let mut a = Rng::with_seed(42);
    let mut b = Rng::with_seed(42);
    for _ in 0..100 {
        assert_eq!(a.next_u64(), b.next_u64());
        assert_eq!(next_f32(&mut a), next_f32(&mut b));
    }
}

#[test]
fn different_seeds_give_different_streams() {
    let mut a = Rng::with_seed(0);
    let mut b = Rng::with_seed(1);
    assert_ne!(a.next_u64(), b.next_u64());
}

#[test]
fn the_uniforms_stay_in_their_bounds() {
    let mut rng = Rng::with_seed(1234567);
    for _ in 0..10_000 {
        let x = next_f32(&mut rng);
        assert!(x >= 0.0 && x < 1.0, "next_f32 out of range: {x}");
        let y = in_range(&mut rng, -2.5, 7.5);
        assert!(y >= -2.5 && y < 7.5, "in_range out of bounds: {y}");
    }
}

#[test]
fn splitmix_matches_the_reference_vector_from_seed_zero() {
    // The published splitmix64 reference output for seed 0.
    let mut rng = Rng::with_seed(0);
    assert_eq!(rng.next_u64(), 0xE220_A839_7B1D_CDAF);
    assert_eq!(rng.next_u64(), 0x6E78_9E6A_A1B9_65F4);
    assert_eq!(rng.next_u64(), 0x06C4_5D18_8009_454F);
}

#[test]
fn the_state_advances_by_the_golden_ratio_increment() {
    // Seeding one increment ahead skips exactly one draw.
    let mut a = Rng::with_seed(7);
    let mut b = Rng::with_seed(7u64.wrapping_add(0x9E37_79B9_7F4A_7C15));
    a.next_u64();
    assert_eq!(a, b);
    assert_eq!(a.next_u64(), b.next_u64());
}

#[test]
fn the_state_wraps_around_at_the_top_of_u64() {
    let mut a = Rng::with_seed(u64::MAX);
    a.next_u64();
    assert_eq!(a, Rng::with_seed(0x9E37_79B9_7F4A_7C14));
}

#[test]
fn a_clock_reading_is_mixed_with_the_golden_ratio_constant() {
    assert_eq!(Rng::from_clock_nanos(0), Rng::with_seed(0x9E37_79B9_7F4A_7C15));
    assert_eq!(
        Rng::from_clock_nanos(0x9E37_79B9_7F4A_7C15),
        Rng::with_seed(0)
    );
    // A clock-seeded generator draws like any other.
    let mut rng = Rng::new();
    let _ = rng.next_u64();
}

#[test]
fn a_clock_reading_keeps_its_low_64_bits_and_a_pre_epoch_clock_reads_zero() {
    assert_eq!(nanos_from_epoch_reading(Some(1_700_000_000_000_000_000)), 1_700_000_000_000_000_000);
    assert_eq!(nanos_from_epoch_reading(Some((5u128 << 64) | 42)), 42);
    assert_eq!(nanos_from_epoch_reading(Some(u64::MAX as u128 + 1)), 0);
    assert_eq!(nanos_from_epoch_reading(None), 0);
}
