//! Planet placement: a point on a spherical shell and a uniform scale.
//!
//! A planet's position is drawn by distance, longitude, and the cosine of
//! the colatitude (which makes the direction uniform on the sphere); the
//! colatitude's sine is recovered as `sqrt(1 - u^2)`, so no inverse
//! trigonometric function is needed.  All draws come from the seeded stream.

use crate::fixed::{
    fp_mul, fp_mul_s, isqrt128, lemma_fp_mul_bound, lemma_sqrt_props, lemma_sqrt_upper, sqrt_s,
    FP_ONE,
};
use crate::rng::{stream_next_s, stream_out_s, SeedStream};
use crate::trig::{cos_fp, cos_fp_s, sin_fp, sin_fp_s, PI_FP};
use crate::vec3::Vec3Fp;
use vstd::prelude::*;

verus! {

/// How many planets a scene holds.
pub const PLANET_COUNT: u32 = 30;

/// The nearest shell distance, in whole units.
pub const PLANET_DIST_MIN: u32 = 200_000;

/// The width of the shell distance range, in whole units.
pub const PLANET_DIST_RANGE: u32 = 800_000;

/// The smallest planet scale, in whole units.
pub const PLANET_SCALE_MIN: u32 = 5_000;

/// The width of the planet scale range, in whole units.
pub const PLANET_SCALE_RANGE: u32 = 25_000;

/// A planet's placement: its position and its uniform scale.
#[derive(Clone, Copy, PartialEq, Eq, Structural, Debug)]
pub struct PlanetRecord {
    pub position: Vec3Fp,
    pub scale: i64,
}

/// The placement drawn from stream state `s`, and the state left behind.
/// The draws are, in order: shell distance, longitude, cosine of the
/// colatitude, scale.
pub open spec fn placement_s(s: int) -> (PlanetRecord, int) {
    let dist = (PLANET_DIST_MIN as int + stream_out_s(s) % (PLANET_DIST_RANGE as int)) * (
    FP_ONE as int);
    let s1 = stream_next_s(s);
    let theta = -(PI_FP as int) + stream_out_s(s1) % (2 * (PI_FP as int));
    let s2 = stream_next_s(s1);
    let u = -(FP_ONE as int) + stream_out_s(s2) % (2 * (FP_ONE as int));
    let s3 = stream_next_s(s2);
    let scale = (PLANET_SCALE_MIN as int + stream_out_s(s3) % (PLANET_SCALE_RANGE as int)) * (
    FP_ONE as int);
    let s4 = stream_next_s(s3);
    let sin_phi = sqrt_s((FP_ONE as int) * (FP_ONE as int) - u * u);
    let radial = fp_mul_s(dist, sin_phi);
    let record = PlanetRecord {
        position: Vec3Fp {
            x: fp_mul_s(radial, cos_fp_s(theta)) as i64,
            y: fp_mul_s(dist, u) as i64,
            z: fp_mul_s(radial, sin_fp_s(theta)) as i64,
        },
        scale: scale as i64,
    };
    (record, s4)
}

/// The surface material parameters drawn from stream state `s`: perceptual
/// roughness in `[0.1, 0.9)` and metalness in `[0, 0.6)`, and the state
/// left behind.
pub open spec fn surface_params_s(s: int) -> ((int, int), int) {
    let roughness = 100_000 + stream_out_s(s) % 800_000;
    let s1 = stream_next_s(s);
    let metallic = stream_out_s(s1) % 600_000;
    let s2 = stream_next_s(s1);
    ((roughness, metallic), s2)
}

/// Draw one planet placement from the stream.
pub fn sample_placement(rng: &mut SeedStream) -> (r: PlanetRecord)
    ensures
        r == placement_s(old(rng).state as int).0,
        final(rng).state == placement_s(old(rng).state as int).1,
        5_000_000_000 <= r.scale < 30_000_000_000,
        crate::vec3::v3_wf_s(r.position, 1_000_000_000_000),
{
    let dist_units: u32 = PLANET_DIST_MIN + rng.next_below(PLANET_DIST_RANGE);
    let dist: i64 = (dist_units as i64) * (FP_ONE);
    let theta_draw: u32 = rng.next_below(2 * 3_141_593);
    let theta: i64 = -PI_FP + (theta_draw as i64);
    let u_draw: u32 = rng.next_below(2 * 1_000_000);
    let u: i64 = -FP_ONE + (u_draw as i64);
    let scale_units: u32 = PLANET_SCALE_MIN + rng.next_below(PLANET_SCALE_RANGE);
    let scale: i64 = (scale_units as i64) * (FP_ONE);
    proof {
        assert(0 <= (u as int) * (u as int) <= 1_000_000_000_000) by (nonlinear_arith)
            requires
                -1_000_000 <= u <= 1_000_000,
        ;
    }
    let uu: u128 = ((u as i128) * (u as i128)) as u128;
    let sin_phi_u: u128 = isqrt128(1_000_000_000_000 - uu);
    proof {
        lemma_sqrt_upper(1_000_000_000_000 - (u as int) * (u as int), 1_000_000);
        lemma_sqrt_props(1_000_000_000_000 - (u as int) * (u as int));
    }
    let sin_phi: i64 = sin_phi_u as i64;
    proof {
        lemma_fp_mul_bound(dist as int, sin_phi as int, 1_000_000_000_000, 1_000_000);
    }
    let radial: i64 = fp_mul(dist, sin_phi);
    proof {
        lemma_fp_mul_bound(radial as int, cos_fp_s(theta as int), 1_000_000_000_000, 1_000_000);
        lemma_fp_mul_bound(radial as int, sin_fp_s(theta as int), 1_000_000_000_000, 1_000_000);
        lemma_fp_mul_bound(dist as int, u as int, 1_000_000_000_000, 1_000_000);
    }
    let x: i64 = fp_mul(radial, cos_fp(theta));
    let y: i64 = fp_mul(dist, u);
    let z: i64 = fp_mul(radial, sin_fp(theta));
    PlanetRecord { position: Vec3Fp { x, y, z }, scale }
}

/// Draw one planet's surface material parameters from the stream.
pub fn sample_surface_params(rng: &mut SeedStream) -> (r: (i64, i64))
    ensures
        r.0 == surface_params_s(old(rng).state as int).0.0,
        r.1 == surface_params_s(old(rng).state as int).0.1,
        final(rng).state == surface_params_s(old(rng).state as int).1,
        100_000 <= r.0 < 900_000,
        0 <= r.1 < 600_000,
{
    let rough: u32 = 100_000 + rng.next_below(800_000);
    let metal: u32 = rng.next_below(600_000);
    (rough as i64, metal as i64)
}

} // verus!
