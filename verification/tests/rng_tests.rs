use soccercloud::rng::derive_seed;
use soccercloud::rng::splitmix64;
use soccercloud::rng::Rng;

#[test]
fn splitmix64_known_value() {
    assert_eq!(splitmix64(1), 10451216379200822465u64);
}

#[test]
fn derive_seed_known_values() {
    assert_eq!(derive_seed(42, 1), 2949826092126892291u64);
    assert_eq!(derive_seed(0, 5), 6038094601263162090u64);
}

#[test]
fn rng_streams_are_deterministic() {
    let mut a = Rng::new(12345);
    let mut b = Rng::new(12345);
    for _ in 0..100 {
        assert_eq!(a.next_u64(), b.next_u64());
    }
}

#[test]
fn rng_zero_seed_is_replaced() {
    let mut z = Rng::new(0);
    let mut g = Rng::new(0x9E3779B97F4A7C15);
    assert_eq!(z.next_u64(), g.next_u64());
}

#[test]
fn chance_extremes() {
    let mut rng = Rng::new(7);
    for _ in 0..50 {
        assert!(rng.chance(1_000_000));
    }
    for _ in 0..50 {
        assert!(!rng.chance(0));
    }
    // probabilities above one are clamped to certainty
    for _ in 0..50 {
        assert!(rng.chance(5_000_000));
    }
}

#[test]
fn range_usize_bounds() {
    let mut rng = Rng::new(99);
    assert_eq!(rng.range_usize(0), 0);
    assert_eq!(rng.range_usize(1), 0);
    for n in 2..40usize {
        let v = rng.range_usize(n);
        assert!(v < n);
    }
}

#[test]
fn derived_seeds_differ_for_distinct_salts() {
    // sampled form of the seed-independence law; the library proves it for
    // every distinct pair of salts
    let base = 42u64;
    let mut seen: Vec<u64> = Vec::new();
    for salt in 0..500u64 {
        let s = derive_seed(base, salt);
        assert!(!seen.contains(&s));
        seen.push(s);
    }
}

#[test]
fn from_time_yields_a_working_stream() {
    let mut rng = Rng::from_time();
    for n in 2..10usize {
        assert!(rng.range_usize(n) < n);
    }
}
