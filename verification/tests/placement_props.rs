use spacesim::fixed::isqrt128;
use spacesim::placement::{sample_placement, sample_surface_params, PLANET_COUNT};
use spacesim::rng::SeedStream;

#[test]
fn placements_land_on_the_shell() {
    let mut rng = SeedStream::from_seed(9);
    let mut replay = SeedStream::from_seed(9);
    for _ in 0..PLANET_COUNT {
        let record = sample_placement(&mut rng);
        // Replay the same draws to recover the intended shell distance.
        let dist_units = 200_000 + replay.next_below(800_000);
        let _theta = replay.next_below(2 * 3_141_593);
        let _u = replay.next_below(2 * 1_000_000);
        let _scale = replay.next_below(25_000);
        let dist: i128 = dist_units as i128 * 1_000_000;
        let p = record.position;
        let norm_sq = (p.x as i128) * (p.x as i128) + (p.y as i128) * (p.y as i128)
            + (p.z as i128) * (p.z as i128);
        let norm = isqrt128(norm_sq as u128) as i128;
        // The position's distance from the origin matches the drawn shell
        // distance; the truncated sine and cosine series are coarsest near
        // the ends of their domain, so allow a few percent.
        assert!((norm - dist).abs() <= dist * 3 / 100);
        assert!(5_000_000_000 <= record.scale && record.scale < 30_000_000_000);
    }
}

#[test]
fn placement_is_deterministic() {
    let mut a = SeedStream::from_seed(31);
    let mut b = SeedStream::from_seed(31);
    let ra = sample_placement(&mut a);
    let rb = sample_placement(&mut b);
    assert_eq!(ra, rb);
    let rc = sample_placement(&mut a);
    assert_ne!(ra, rc);
}

#[test]
fn surface_params_stay_in_range() {
    let mut rng = SeedStream::from_seed(12);
    for _ in 0..50 {
        let (roughness, metallic) = sample_surface_params(&mut rng);
        assert!(100_000 <= roughness && roughness < 900_000);
        assert!(0 <= metallic && metallic < 600_000);
    }
}
