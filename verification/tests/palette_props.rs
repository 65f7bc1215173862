use spacesim::fixed::{iroot5, isqrt128};
use spacesim::palette::{circ_dist, generate_hues, HUE_MIN_SEP};
use spacesim::rng::SeedStream;

#[test]
fn adjacent_hues_keep_their_distance() {
    for seed in [1u32, 2, 3, 99, 1234] {
        let mut rng = SeedStream::from_seed(seed);
        let hues = generate_hues(&mut rng, 4, HUE_MIN_SEP).expect("spacing is satisfiable");
        assert_eq!(hues.len(), 4);
        let mut prev: i64 = 0;
        for &h in hues.iter() {
            assert!(0 <= h && h < 360_000_000);
            assert!(circ_dist(h, prev) >= HUE_MIN_SEP);
            prev = h;
        }
    }
}

#[test]
fn hue_generation_is_deterministic() {
    let mut rng_a = SeedStream::from_seed(11);
    let mut rng_b = SeedStream::from_seed(11);
    let hues_a = generate_hues(&mut rng_a, 3, HUE_MIN_SEP).expect("spacing is satisfiable");
    let hues_b = generate_hues(&mut rng_b, 3, HUE_MIN_SEP).expect("spacing is satisfiable");
    assert_eq!(hues_a, hues_b);
}

#[test]
fn impossible_spacing_is_reported() {
    let mut rng = SeedStream::from_seed(5);
    let hues = generate_hues(&mut rng, 2, 360_000_000);
    assert!(hues.is_none());
}

#[test]
fn circ_dist_wraps_around() {
    assert_eq!(circ_dist(10_000_000, 350_000_000), 20_000_000);
    assert_eq!(circ_dist(0, 180_000_000), 180_000_000);
    assert_eq!(circ_dist(90_000_000, 90_000_000), 0);
    assert_eq!(circ_dist(300_000_000, 0), 60_000_000);
}

#[test]
fn seed_stream_is_reproducible() {
    let mut a = SeedStream::from_seed(77);
    let mut b = SeedStream::from_seed(77);
    for _ in 0..10 {
        assert_eq!(a.next_u32(), b.next_u32());
    }
    let mut c = SeedStream::from_seed(78);
    let first_of_77 = SeedStream::from_seed(77).next_u32();
    assert_ne!(c.next_u32(), first_of_77);
}

#[test]
fn bounded_draws_stay_in_range() {
    let mut rng = SeedStream::from_seed(21);
    for _ in 0..100 {
        let v = rng.next_below(7);
        assert!(v < 7);
        let w = rng.next_between(5, 9);
        assert!(5 <= w && w <= 9);
    }
}

#[test]
fn integer_roots_exact_values() {
    assert_eq!(isqrt128(0), 0);
    assert_eq!(isqrt128(1), 1);
    assert_eq!(isqrt128(2), 1);
    assert_eq!(isqrt128(1_000_000_000_000), 1_000_000);
    assert_eq!(isqrt128(999_999_999_999), 999_999);
    assert_eq!(iroot5(0), 0);
    assert_eq!(iroot5(32), 2);
    assert_eq!(iroot5(31), 1);
    let full: u128 = 1_000_000_000_000_000_000_000_000_000_000;
    assert_eq!(iroot5(full), 1_000_000);
}
