use noise::NoiseFn;
use spacesim::color::ColorFp;
use spacesim::texture::{compose_texture, plan_texture, pow_half, shade, sharpen, sqrt_fp, synthesize};

fn build_noise_grid(seed: u32, width: u32, height: u32) -> Vec<i64> {
    let perlin = noise::Perlin::new(seed);
    let mut grid: Vec<i64> = Vec::new();
    for i in 0..(width * height) {
        let fx = (i % width) as f64 / width as f64 * 8.0;
        let fy = (i / width) as f64 / height as f64 * 8.0;
        let v = perlin.get([fx, fy]);
        grid.push((v * 1_000_000.0) as i64);
    }
    grid
}

#[test]
fn synthesize_is_deterministic() {
    let seed: u32 = 42;
    let plan = plan_texture(seed, 2, 4).expect("palette generation should succeed");
    let grid_a = build_noise_grid(plan.noise_seed, 128, 128);
    let grid_b = build_noise_grid(plan.noise_seed, 128, 128);
    assert_eq!(grid_a, grid_b);
    let buf_a = synthesize(seed, 128, 128, 2, 4, 15, &grid_a).expect("synthesis should succeed");
    let buf_b = synthesize(seed, 128, 128, 2, 4, 15, &grid_b).expect("synthesis should succeed");
    assert_eq!(buf_a.data, buf_b.data);
    assert_eq!(buf_a.data.len(), 128 * 128 * 4);
}

#[test]
fn synthesize_matches_plan_and_compose() {
    let seed: u32 = 7;
    let plan = plan_texture(seed, 2, 4).expect("palette generation should succeed");
    let grid = build_noise_grid(plan.noise_seed, 16, 16);
    let direct = compose_texture(&plan.colors, 15, &grid, 16, 16);
    let combined = synthesize(seed, 16, 16, 2, 4, 15, &grid).expect("synthesis should succeed");
    assert_eq!(direct.data, combined.data);
}

#[test]
fn texture_is_fully_opaque() {
    let seed: u32 = 3;
    let plan = plan_texture(seed, 2, 4).expect("palette generation should succeed");
    let grid = build_noise_grid(plan.noise_seed, 16, 16);
    let buf = synthesize(seed, 16, 16, 2, 4, 15, &grid).expect("synthesis should succeed");
    assert_eq!(buf.data.len(), 16 * 16 * 4);
    for px in 0..(16 * 16) {
        assert_eq!(buf.data[4 * px + 3], 255);
    }
}

#[test]
fn blend_boundary_picks_palette_ends() {
    let first = ColorFp { red: 1_000_000, green: 0, blue: 150_000 };
    let last = ColorFp { red: 0, green: 640_000, blue: 1_000_000 };
    let palette = vec![first, last];
    let low = shade(-1_000_000, &palette, 15);
    assert_eq!(low, (255, 0, 38, 255));
    let high = shade(1_000_000, &palette, 15);
    assert_eq!(high, (0, 163, 255, 255));
}

#[test]
fn blend_boundary_survives_extreme_noise() {
    let first = ColorFp { red: 1_000_000, green: 0, blue: 0 };
    let last = ColorFp { red: 0, green: 0, blue: 1_000_000 };
    let palette = vec![first, last];
    let low = shade(-9_000_000, &palette, 15);
    assert_eq!(low, (255, 0, 0, 255));
    let high = shade(9_000_000, &palette, 15);
    assert_eq!(high, (0, 0, 255, 255));
}

#[test]
fn sharpen_keeps_midpoint_and_ends() {
    assert_eq!(sharpen(500_000, 2), 500_000);
    assert_eq!(sharpen(0, 15), 0);
    assert_eq!(sharpen(1_000_000, 15), 1_000_000);
}

#[test]
fn pow_half_exact_values() {
    assert_eq!(pow_half(250_000, 2), 250_000);
    assert_eq!(pow_half(250_000, 1), 500_000);
    assert_eq!(pow_half(700_000, 0), 1_000_000);
    assert_eq!(pow_half(250_000, 4), 62_500);
}

#[test]
fn sqrt_fp_exact_values() {
    assert_eq!(sqrt_fp(250_000), 500_000);
    assert_eq!(sqrt_fp(1_000_000), 1_000_000);
    assert_eq!(sqrt_fp(0), 0);
}
