//! Procedural planet-surface textures.
//!
//! For every pixel, a noise sample is remapped to a blend parameter,
//! sharpened by a symmetric power curve, and used to interpolate between
//! neighbouring palette colors; the result is quantized to RGBA bytes with
//! full opacity.  The whole pipeline is a function of the seed alone.

use crate::color::{color_wf_s, hue_color, hue_color_s, ColorFp};
use crate::palette::{generate_hues, lemma_palette_separation, palette_hues_s, HUE_FULL, HUE_MIN_SEP};
use crate::rng::{stream_next_s, stream_out_s, SeedStream};
use crate::fixed::{
    clamp64, clamp_s, fp_div, fp_div_s, fp_mul, fp_mul_s, isqrt128, lemma_fp_mul_fraction,
    lemma_sqrt_props, lemma_sqrt_upper, sqrt_s, tdiv64, tdiv_s, FP_ONE,
};
use vstd::arithmetic::div_mod::{lemma_div_is_ordered, lemma_div_multiples_vanish, lemma_div_pos_is_pos};
use vstd::arithmetic::mul::lemma_mul_is_commutative;
use vstd::prelude::*;

verus! {

/// A noise sample remapped from `[-FP_ONE, FP_ONE]` to a blend parameter in
/// `[0, FP_ONE]`; out-of-range samples are clamped first.
pub open spec fn blend_t_s(nv: int) -> int {
    (clamp_s(nv, -(FP_ONE as int), FP_ONE as int) + FP_ONE) / 2
}

/// The fixed-point square root of a value in `[0, FP_ONE]`.
pub open spec fn sqrt_fp_s(t: int) -> int {
    sqrt_s(t * (FP_ONE as int))
}

/// `t` raised to the power `k / 2`, in fixed point: `k` counts half-steps,
/// so `k == 15` is the exponent `7.5`.
#[verifier::opaque]
pub open spec fn pow_half_s(t: int, k: nat) -> int
    decreases k,
{
    if k == 0 {
        FP_ONE as int
    } else if k == 1 {
        sqrt_fp_s(t)
    } else {
        fp_mul_s(t, pow_half_s(t, (k - 2) as nat))
    }
}

/// The blend parameter sharpened by the symmetric power curve
/// `t^c / (t^c + (1 - t)^c)` with exponent `c = k / 2`.  If truncation makes
/// both powers vanish, the parameter snaps to the nearer end.
pub open spec fn sharpen_s(t: int, k: nat) -> int {
    let a = pow_half_s(t, k);
    let b = pow_half_s((FP_ONE as int) - t, k);
    if a + b == 0 {
        if 2 * t >= FP_ONE as int {
            FP_ONE as int
        } else {
            0
        }
    } else {
        fp_div_s(a, a + b)
    }
}

/// A channel value in `[0, FP_ONE]` quantized to a byte.
pub open spec fn quant_s(v: int) -> int {
    tdiv_s(v * 255, FP_ONE as int)
}

/// The color selected from the palette by a sharpened blend parameter `ts`
/// in `[0, FP_ONE]`: the two palette colors bracketing `ts * (n - 1)` are
/// interpolated linearly by its fractional part.
pub open spec fn blend_color_s(colors: Seq<ColorFp>, ts: int) -> ColorFp {
    let n = colors.len() as int;
    let scaled = ts * (n - 1);
    let idx = scaled / (FP_ONE as int);
    let frac = scaled % (FP_ONE as int);
    let i1 = if idx < n - 1 {
        idx
    } else {
        n - 1
    };
    let i2 = if idx + 1 < n - 1 {
        idx + 1
    } else {
        n - 1
    };
    let c1 = colors[i1];
    let c2 = colors[i2];
    ColorFp {
        red: (fp_mul_s(c1.red as int, (FP_ONE as int) - frac) + fp_mul_s(c2.red as int, frac)) as i64,
        green: (fp_mul_s(c1.green as int, (FP_ONE as int) - frac) + fp_mul_s(
            c2.green as int,
            frac,
        )) as i64,
        blue: (fp_mul_s(c1.blue as int, (FP_ONE as int) - frac) + fp_mul_s(
            c2.blue as int,
            frac,
        )) as i64,
    }
}

/// The four RGBA bytes of a pixel whose noise sample is `nv`: blend, then
/// quantize each channel, then full opacity.
pub open spec fn shade_s(nv: int, colors: Seq<ColorFp>, k: nat) -> (int, int, int) {
    let c = blend_color_s(colors, sharpen_s(blend_t_s(nv), k));
    (quant_s(c.red as int), quant_s(c.green as int), quant_s(c.blue as int))
}

/// Every color of a palette is well formed.
pub open spec fn palette_wf_s(colors: Seq<ColorFp>) -> bool {
    forall|j: int| 0 <= j < colors.len() ==> color_wf_s(#[trigger] colors[j])
}

/// The fixed-point square root of a value in `[0, FP_ONE]`.
pub fn sqrt_fp(t: i64) -> (r: i64)
    requires
        0 <= t <= FP_ONE,
    ensures
        r == sqrt_fp_s(t as int),
        0 <= r <= FP_ONE,
{
    let n: u128 = (t as u128) * 1_000_000;
    let s: u128 = isqrt128(n);
    proof {
        lemma_sqrt_upper(n as int, 1_000_000);
        lemma_sqrt_props(n as int);
    }
    s as i64
}

/// `pow_half_s` maps `[0, FP_ONE]` into itself.
pub proof fn lemma_pow_half_bounds(t: int, k: nat)
    requires
        0 <= t <= FP_ONE as int,
    ensures
        0 <= pow_half_s(t, k) <= FP_ONE as int,
    decreases k,
{
    reveal(pow_half_s);
    if k == 0 {
    } else if k == 1 {
        lemma_sqrt_props(t * (FP_ONE as int));
        lemma_sqrt_upper(t * (FP_ONE as int), 1_000_000);
    } else {
        lemma_pow_half_bounds(t, (k - 2) as nat);
        lemma_fp_mul_fraction(pow_half_s(t, (k - 2) as nat), t);
        lemma_mul_is_commutative(t, pow_half_s(t, (k - 2) as nat));
    }
}

/// `t` raised to the power `k / 2`, in fixed point.
pub fn pow_half(t: i64, k: u32) -> (r: i64)
    requires
        0 <= t <= FP_ONE,
    ensures
        r == pow_half_s(t as int, k as nat),
        0 <= r <= FP_ONE,
{
    proof {
        reveal(pow_half_s);
        lemma_pow_half_bounds(t as int, k as nat);
    }
    let mut res: i64 = if k % 2 == 1 {
        sqrt_fp(t)
    } else {
        FP_ONE
    };
    let mut j: u32 = k / 2;
    while j > 0
        invariant
            0 <= t <= FP_ONE,
            0 <= res <= FP_ONE,
            k / 2 >= j,
            res == pow_half_s(t as int, (k - 2 * j) as nat),
        decreases j,
    {
        proof {
            reveal(pow_half_s);
            lemma_fp_mul_fraction(res as int, t as int);
            lemma_mul_is_commutative(t as int, res as int);
        }
        res = fp_mul(t, res);
        j = j - 1;
    }
    res
}

/// The sharpened blend parameter stays in `[0, FP_ONE]`.
pub proof fn lemma_sharpen_bounds(t: int, k: nat)
    requires
        0 <= t <= FP_ONE as int,
    ensures
        0 <= sharpen_s(t, k) <= FP_ONE as int,
{
    lemma_pow_half_bounds(t, k);
    lemma_pow_half_bounds((FP_ONE as int) - t, k);
    let a = pow_half_s(t, k);
    let b = pow_half_s((FP_ONE as int) - t, k);
    if a + b != 0 {
        lemma_div_pos_is_pos(a * (FP_ONE as int), a + b);
        assert(a * (FP_ONE as int) <= (a + b) * (FP_ONE as int)) by (nonlinear_arith)
            requires
                0 <= a,
                0 <= b,
        ;
        lemma_div_is_ordered(a * (FP_ONE as int), (a + b) * (FP_ONE as int), a + b);
        lemma_div_multiples_vanish(FP_ONE as int, a + b);
        assert(0 <= a * (FP_ONE as int)) by (nonlinear_arith)
            requires
                0 <= a,
        ;
    }
}

/// The blend parameter sharpened by the symmetric power curve.
pub fn sharpen(t: i64, k: u32) -> (r: i64)
    requires
        0 <= t <= FP_ONE,
    ensures
        r == sharpen_s(t as int, k as nat),
        0 <= r <= FP_ONE,
{
    proof {
        lemma_sharpen_bounds(t as int, k as nat);
    }
    let a: i64 = pow_half(t, k);
    let b: i64 = pow_half(FP_ONE - t, k);
    if a + b == 0 {
        if 2 * t >= FP_ONE {
            FP_ONE
        } else {
            0
        }
    } else {
        fp_div(a, a + b)
    }
}

/// A channel value in `[0, FP_ONE]` quantized to a byte.
pub fn quant(v: i64) -> (r: u8)
    requires
        0 <= v <= FP_ONE,
    ensures
        r == quant_s(v as int),
{
    proof {
        lemma_div_pos_is_pos(v as int * 255, FP_ONE as int);
        lemma_div_is_ordered(v as int * 255, 255_000_000, FP_ONE as int);
    }
    let q: i64 = tdiv64(v * 255, FP_ONE);
    q as u8
}

/// Each blended channel stays in `[0, FP_ONE]` when the palette is well
/// formed and the blend parameter is in range.
pub proof fn lemma_blend_color_bounds(colors: Seq<ColorFp>, ts: int)
    requires
        colors.len() >= 1,
        palette_wf_s(colors),
        0 <= ts <= FP_ONE as int,
    ensures
        color_wf_s(blend_color_s(colors, ts)),
{
    let n = colors.len() as int;
    let scaled = ts * (n - 1);
    lemma_scaled_bounds(ts, n - 1);
    let idx = scaled / (FP_ONE as int);
    let frac = scaled % (FP_ONE as int);
    lemma_div_pos_is_pos(scaled, FP_ONE as int);
    let i1 = if idx < n - 1 {
        idx
    } else {
        n - 1
    };
    let i2 = if idx + 1 < n - 1 {
        idx + 1
    } else {
        n - 1
    };
    assert(0 <= i1 < n && 0 <= i2 < n);
    let c1 = colors[i1];
    let c2 = colors[i2];
    lemma_blend_channel(c1.red as int, c2.red as int, frac);
    lemma_blend_channel(c1.green as int, c2.green as int, frac);
    lemma_blend_channel(c1.blue as int, c2.blue as int, frac);
}

/// A blend parameter scaled by a segment count stays within the scaled range.
proof fn lemma_scaled_bounds(ts: int, m: int)
    requires
        0 <= ts <= 1_000_000,
        0 <= m,
    ensures
        0 <= ts * m <= 1_000_000 * m,
{
    assert(0 <= ts * m <= 1_000_000 * m) by (nonlinear_arith)
        requires
            0 <= ts <= 1_000_000,
            0 <= m,
    ;
}

/// One interpolated channel stays in `[0, FP_ONE]`.
proof fn lemma_blend_channel(a: int, b: int, frac: int)
    requires
        0 <= a <= FP_ONE as int,
        0 <= b <= FP_ONE as int,
        0 <= frac < FP_ONE as int,
    ensures
        0 <= fp_mul_s(a, (FP_ONE as int) - frac) + fp_mul_s(b, frac) <= FP_ONE as int,
{
    lemma_mul_is_commutative(a, (FP_ONE as int) - frac);
    lemma_fp_mul_fraction((FP_ONE as int) - frac, a);
    lemma_mul_is_commutative(b, frac);
    lemma_fp_mul_fraction(frac, b);
}

/// The RGBA bytes of one pixel, from its raw noise sample.
pub fn shade(nv: i64, colors: &Vec<ColorFp>, k: u32) -> (r: (u8, u8, u8, u8))
    requires
        colors.len() >= 1,
        palette_wf_s(colors@),
    ensures
        (r.0 as int, r.1 as int, r.2 as int) == shade_s(nv as int, colors@, k as nat),
        r.3 == 255,
{
    let c: i64 = clamp64(nv, -FP_ONE, FP_ONE);
    let t: i64 = (c + FP_ONE) / 2;
    proof {
        assert(t == blend_t_s(nv as int));
    }
    let ts: i64 = sharpen(t, k);
    proof {
        lemma_blend_color_bounds(colors@, ts as int);
    }
    let n: usize = colors.len();
    proof {
        lemma_scaled_bounds(ts as int, n as int - 1);
    }
    let scaled: i128 = (ts as i128) * (n as i128 - 1);
    let idx: i128 = scaled / 1_000_000;
    let frac: i64 = (scaled % 1_000_000) as i64;
    proof {
        lemma_div_pos_is_pos(scaled as int, FP_ONE as int);
        lemma_div_is_ordered(scaled as int, (FP_ONE as int) * (n as int - 1), FP_ONE as int);
        lemma_div_multiples_vanish(n as int - 1, FP_ONE as int);
    }
    let i1: usize = if idx < n as i128 - 1 {
        idx as usize
    } else {
        n - 1
    };
    let i2: usize = if idx + 1 < n as i128 - 1 {
        (idx + 1) as usize
    } else {
        n - 1
    };
    let c1: ColorFp = colors[i1];
    let c2: ColorFp = colors[i2];
    proof {
        lemma_blend_channel(c1.red as int, c2.red as int, frac as int);
        lemma_blend_channel(c1.green as int, c2.green as int, frac as int);
        lemma_blend_channel(c1.blue as int, c2.blue as int, frac as int);
    }
    let red: i64 = fp_mul(c1.red, FP_ONE - frac) + fp_mul(c2.red, frac);
    let green: i64 = fp_mul(c1.green, FP_ONE - frac) + fp_mul(c2.green, frac);
    let blue: i64 = fp_mul(c1.blue, FP_ONE - frac) + fp_mul(c2.blue, frac);
    (quant(red), quant(green), quant(blue), 255)
}

/// Everything a planet texture needs besides the noise grid: the seed for
/// the noise field and the palette colors, all derived from one seed.
pub struct TexturePlan {
    pub noise_seed: u32,
    pub colors: Vec<ColorFp>,
}

/// A finished texture: RGBA bytes, row-major, four per pixel.
pub struct PixelBuffer {
    pub width: u32,
    pub height: u32,
    pub data: Vec<u8>,
}

/// The one way texture synthesis can fail: the palette retry budget ran out
/// before hues with the required spacing were found.
#[derive(Clone, Copy, PartialEq, Eq, Structural, Debug)]
pub enum TextureError {
    PaletteExhausted,
}

/// A buffer is well formed when it holds exactly four bytes per pixel.
pub open spec fn buffer_wf_s(b: PixelBuffer) -> bool {
    b.data@.len() == (b.width as int) * (b.height as int) * 4
}

/// The plan derived from a seed: the stream first yields the noise seed,
/// then the palette size from `[lo, hi]`, then the palette hues.
pub open spec fn plan_s(seed: u32, lo: int, hi: int) -> Option<(int, Seq<i64>)> {
    let s0 = seed as int;
    let noise_seed = stream_out_s(s0);
    let s1 = stream_next_s(s0);
    let n = lo + stream_out_s(s1) % (hi - lo + 1);
    let s2 = stream_next_s(s1);
    match palette_hues_s(s2, n as nat, HUE_MIN_SEP as int) {
        None => None,
        Some(p) => Some((noise_seed, p.0)),
    }
}

/// The first `count` pixels of a texture: four RGBA bytes per noise sample.
#[verifier::opaque]
pub open spec fn tex_bytes_s(colors: Seq<ColorFp>, k: nat, noise: Seq<i64>, count: int) -> Seq<u8>
    decreases count,
{
    if count <= 0 {
        Seq::empty()
    } else {
        let px = shade_s(noise[count - 1] as int, colors, k);
        tex_bytes_s(colors, k, noise, count - 1) + seq![
            px.0 as u8,
            px.1 as u8,
            px.2 as u8,
            255u8,
        ]
    }
}

/// The bytes of a whole texture synthesized from a seed and a noise grid.
pub open spec fn synth_s(seed: u32, lo: int, hi: int, k: nat, noise: Seq<i64>) -> Option<Seq<u8>> {
    match plan_s(seed, lo, hi) {
        None => None,
        Some(p) => Some(
            tex_bytes_s(
                p.1.map_values(|hh: i64| hue_color_s(hh as int)),
                k,
                noise,
                noise.len() as int,
            ),
        ),
    }
}

/// Derive a texture plan from a seed: the noise seed and the palette, with
/// the palette size drawn from the closed range `[palette_lo, palette_hi]`.
pub fn plan_texture(seed: u32, palette_lo: u32, palette_hi: u32) -> (r: Result<
    TexturePlan,
    TextureError,
>)
    requires
        1 <= palette_lo <= palette_hi,
        palette_hi < 0xffff_ffffu32,
    ensures
        (match plan_s(seed, palette_lo as int, palette_hi as int) {
            Some(p) => r is Ok && r.unwrap().noise_seed == p.0
                && r.unwrap().colors@ == p.1.map_values(|hh: i64| hue_color_s(hh as int))
                && palette_wf_s(r.unwrap().colors@) && palette_lo <= r.unwrap().colors@.len()
                <= palette_hi,
            None => r == Err::<TexturePlan, TextureError>(TextureError::PaletteExhausted),
        }),
{
    let mut rng = SeedStream::from_seed(seed);
    let noise_seed: u32 = rng.next_u32();
    let n: u32 = rng.next_between(palette_lo, palette_hi);
    proof {
        lemma_palette_separation(rng.state as int, n as nat, HUE_MIN_SEP as int);
    }
    let hues_opt: Option<Vec<i64>> = generate_hues(&mut rng, n, HUE_MIN_SEP);
    match hues_opt {
        None => Err(TextureError::PaletteExhausted),
        Some(hues) => {
            let ghost hs: Seq<i64> = hues@;
            let mut colors: Vec<ColorFp> = Vec::new();
            let mut i: usize = 0;
            while i < hues.len()
                invariant
                    i <= hues.len(),
                    hues@ == hs,
                    forall|j: int| 0 <= j < hs.len() ==> 0 <= #[trigger] hs[j] < HUE_FULL,
                    colors@.len() == i,
                    forall|j: int|
                        0 <= j < i ==> #[trigger] colors@[j] == hue_color_s(hs[j] as int)
                            && color_wf_s(colors@[j]),
                decreases hues.len() - i,
            {
                let c: ColorFp = hue_color(hues[i]);
                colors.push(c);
                i = i + 1;
            }
            proof {
                assert(colors@ =~= hs.map_values(|hh: i64| hue_color_s(hh as int)));
            }
            Ok(TexturePlan { noise_seed, colors })
        }
    }
}

/// Turn a palette, a contrast, and a noise grid into RGBA bytes.
pub fn compose_texture(
    colors: &Vec<ColorFp>,
    contrast_halves: u32,
    noise: &Vec<i64>,
    width: u32,
    height: u32,
) -> (r: PixelBuffer)
    requires
        colors.len() >= 1,
        palette_wf_s(colors@),
        1 <= width,
        1 <= height,
        (width as int) * (height as int) * 4 <= usize::MAX as int,
        noise.len() == (width as int) * (height as int),
    ensures
        r.width == width,
        r.height == height,
        r.data@ == tex_bytes_s(colors@, contrast_halves as nat, noise@, noise@.len() as int),
        buffer_wf_s(r),
{
    let total: usize = noise.len();
    let mut data: Vec<u8> = Vec::new();
    proof {
        reveal(tex_bytes_s);
        assert(data@ =~= tex_bytes_s(colors@, contrast_halves as nat, noise@, 0));
    }
    let mut i: usize = 0;
    while i < total
        invariant
            i <= total,
            total == noise.len(),
            colors.len() >= 1,
            palette_wf_s(colors@),
            total * 4 <= usize::MAX,
            data@.len() == i * 4,
            data@ == tex_bytes_s(colors@, contrast_halves as nat, noise@, i as int),
        decreases total - i,
    {
        let px: (u8, u8, u8, u8) = shade(noise[i], colors, contrast_halves);
        let ghost before: Seq<u8> = data@;
        data.push(px.0);
        data.push(px.1);
        data.push(px.2);
        data.push(px.3);
        proof {
            reveal(tex_bytes_s);
            assert(data@ =~= tex_bytes_s(
                colors@,
                contrast_halves as nat,
                noise@,
                i as int + 1,
            ));
        }
        i = i + 1;
    }
    PixelBuffer { width, height, data }
}

/// Synthesize a planet texture: the seed drives the palette, and the noise
/// grid (one fixed-point sample per pixel, row-major) drives the blending.
pub fn synthesize(
    seed: u32,
    width: u32,
    height: u32,
    palette_lo: u32,
    palette_hi: u32,
    contrast_halves: u32,
    noise: &Vec<i64>,
) -> (r: Result<PixelBuffer, TextureError>)
    requires
        1 <= width,
        1 <= height,
        (width as int) * (height as int) * 4 <= usize::MAX as int,
        noise.len() == (width as int) * (height as int),
        1 <= palette_lo <= palette_hi,
        palette_hi < 0xffff_ffffu32,
        1 <= contrast_halves,
    ensures
        (match r {
            Ok(buf) => Some(buf.data@) == synth_s(
                seed,
                palette_lo as int,
                palette_hi as int,
                contrast_halves as nat,
                noise@,
            ) && buf.width == width && buf.height == height && buffer_wf_s(buf),
            Err(e) => synth_s(
                seed,
                palette_lo as int,
                palette_hi as int,
                contrast_halves as nat,
                noise@,
            ) is None && e == TextureError::PaletteExhausted,
        }),
{
    let plan: Result<TexturePlan, TextureError> = plan_texture(seed, palette_lo, palette_hi);
    match plan {
        Err(e) => Err(e),
        Ok(p) => {
            if p.colors.len() == 0 {
                proof {
                    assert(false);
                }
            }
            Ok(compose_texture(&p.colors, contrast_halves, noise, width, height))
        }
    }
}

/// Determinism: one seed, one parameter set, one noise grid — one texture.
/// Any two buffers synthesized from equal inputs are byte-identical.
pub proof fn lemma_synthesize_deterministic(
    a: Seq<u8>,
    b: Seq<u8>,
    seed: u32,
    lo: int,
    hi: int,
    k: nat,
    noise: Seq<i64>,
)
    requires
        synth_s(seed, lo, hi, k, noise) == Some(a),
        synth_s(seed, lo, hi, k, noise) == Some(b),
    ensures
        a == b,
{
}

/// Texture bounds: a texture holds four bytes per pixel, and every pixel's
/// alpha byte equals 255.  Each RGB byte is a `u8`, hence within `[0, 255]`.
pub proof fn lemma_texture_opaque(colors: Seq<ColorFp>, k: nat, noise: Seq<i64>, count: int)
    requires
        0 <= count,
    ensures
        tex_bytes_s(colors, k, noise, count).len() == 4 * count,
        forall|i: int|
            0 <= i < count ==> #[trigger] tex_bytes_s(colors, k, noise, count)[4 * i + 3] == 255,
    decreases count,
{
    reveal(tex_bytes_s);
    if count > 0 {
        lemma_texture_opaque(colors, k, noise, count - 1);
        let prefix = tex_bytes_s(colors, k, noise, count - 1);
        let whole = tex_bytes_s(colors, k, noise, count);
        assert(whole[4 * (count - 1) + 3] == 255);
        assert(forall|i: int|
            0 <= i < count - 1 ==> #[trigger] whole[4 * i + 3] == prefix[4 * i + 3]);
    }
}

proof fn lemma_pow_half_zero(k: nat)
    requires
        1 <= k,
    ensures
        pow_half_s(0, k) == 0,
{
    reveal(pow_half_s);
    if k == 1 {
        assert(sqrt_fp_s(0) == sqrt_s(0));
    } else {
        assert(0 * pow_half_s(0, (k - 2) as nat) == 0) by (nonlinear_arith);
    }
}

proof fn lemma_pow_half_one(k: nat)
    ensures
        pow_half_s(FP_ONE as int, k) == FP_ONE as int,
    decreases k,
{
    reveal(pow_half_s);
    if k == 0 {
    } else if k == 1 {
        crate::fixed::lemma_sqrt_s_is(1_000_000_000_000, 1_000_000);
    } else {
        lemma_pow_half_one((k - 2) as nat);
    }
}

/// Blend boundary: at the lowest noise value the sampled color is the first
/// palette color, and at the highest it is the last, for any positive
/// contrast exponent.
pub proof fn lemma_blend_boundary(colors: Seq<ColorFp>, k: nat)
    requires
        colors.len() >= 1,
        palette_wf_s(colors),
        1 <= k,
    ensures
        blend_color_s(colors, sharpen_s(blend_t_s(-(FP_ONE as int)), k)) == colors[0],
        blend_color_s(colors, sharpen_s(blend_t_s(FP_ONE as int), k)) == colors[colors.len() - 1],
{
    let n = colors.len() as int;
    lemma_pow_half_zero(k);
    lemma_pow_half_one(k);
    assert(blend_t_s(-(FP_ONE as int)) == 0);
    assert(blend_t_s(FP_ONE as int) == FP_ONE as int);
    assert(sharpen_s(0, k) == 0);
    assert(sharpen_s(FP_ONE as int, k) == FP_ONE as int);
    lemma_blend_first(colors);
    lemma_blend_last(colors);
}

/// At blend parameter zero the blend picks the first palette color whole.
proof fn lemma_blend_first(colors: Seq<ColorFp>)
    requires
        colors.len() >= 1,
        palette_wf_s(colors),
    ensures
        blend_color_s(colors, 0) == colors[0],
{
    let n = colors.len() as int;
    assert(0 * (n - 1) == 0) by (nonlinear_arith);
    assert(color_wf_s(colors[0]));
    let i2 = if 0 + 1 < n - 1 {
        1int
    } else {
        n - 1
    };
    assert(color_wf_s(colors[i2]));
    lemma_channel_whole(colors[0].red as int, colors[i2].red as int);
    lemma_channel_whole(colors[0].green as int, colors[i2].green as int);
    lemma_channel_whole(colors[0].blue as int, colors[i2].blue as int);
}

/// At blend parameter one the blend picks the last palette color whole.
proof fn lemma_blend_last(colors: Seq<ColorFp>)
    requires
        colors.len() >= 1,
        palette_wf_s(colors),
    ensures
        blend_color_s(colors, FP_ONE as int) == colors[colors.len() - 1],
{
    let n = colors.len() as int;
    let scaled = (FP_ONE as int) * (n - 1);
    assert(scaled / (FP_ONE as int) == n - 1) by {
        lemma_div_multiples_vanish(n - 1, FP_ONE as int);
    }
    assert(scaled % (FP_ONE as int) == 0) by {
        vstd::arithmetic::div_mod::lemma_mod_multiples_basic(n - 1, FP_ONE as int);
        lemma_mul_is_commutative(n - 1, FP_ONE as int);
    }
    assert(color_wf_s(colors[n - 1]));
    lemma_channel_whole(colors[n - 1].red as int, colors[n - 1].red as int);
    lemma_channel_whole(colors[n - 1].green as int, colors[n - 1].green as int);
    lemma_channel_whole(colors[n - 1].blue as int, colors[n - 1].blue as int);
}

/// Interpolating with a zero fraction returns the first channel unchanged.
proof fn lemma_channel_whole(a: int, b: int)
    requires
        0 <= a <= FP_ONE as int,
    ensures
        fp_mul_s(a, (FP_ONE as int) - 0) + fp_mul_s(b, 0) == a,
{
    assert(a * (FP_ONE as int) == (FP_ONE as int) * a) by (nonlinear_arith);
    lemma_div_multiples_vanish(a, FP_ONE as int);
    assert(b * 0 == 0) by (nonlinear_arith);
}

} // verus!
