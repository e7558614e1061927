//! Packed 0xAARRGGBB pixel arithmetic.
use vstd::prelude::*;

verus! {

/// The 8-bit channel of `c` that starts at bit `shift`.
pub open spec fn channel(c: u32, shift: u32) -> u32 {
    (c >> shift) & 0xFF
}

/// Integer linear interpolation of one channel with a weight out of 256.
pub open spec fn mix_channel(a: u32, b: u32, alpha: u32) -> u32 {
    ((a * (256 - alpha) + b * alpha) / 256) as u32
}

/// An opaque pixel from three 8-bit channels.
pub open spec fn opaque_rgb(r: u32, g: u32, b: u32) -> u32 {
    0xFF00_0000u32 | (r << 16) | (g << 8) | b
}

/// The result of blending `c1` towards `c2` with weight `alpha` (clamped to 256).
pub open spec fn blend_spec(c1: u32, c2: u32, alpha: u32) -> u32 {
    let a = if alpha < 256 { alpha } else { 256 };
    opaque_rgb(
        mix_channel(channel(c1, 16), channel(c2, 16), a),
        mix_channel(channel(c1, 8), channel(c2, 8), a),
        mix_channel(channel(c1, 0), channel(c2, 0), a),
    )
}

/// Integer alpha blending with a weight in 0..=256 (larger weights count as 256).
pub fn blend_pixel_fast(c1: u32, c2: u32, alpha_256: u32) -> (r: u32)
    ensures
        r == blend_spec(c1, c2, alpha_256),
{
    let a = if alpha_256 < 256 { alpha_256 } else { 256 };
    let inv_a = 256 - a;
    let r1 = (c1 >> 16) & 0xFF;
    let g1 = (c1 >> 8) & 0xFF;
    let b1 = c1 & 0xFF;
    let r2 = (c2 >> 16) & 0xFF;
    let g2 = (c2 >> 8) & 0xFF;
    let b2 = c2 & 0xFF;
    assert(r1 <= 255 && g1 <= 255 && b1 <= 255 && r2 <= 255 && g2 <= 255 && b2 <= 255) by (bit_vector)
        requires r1 == (c1 >> 16) & 0xFF, g1 == (c1 >> 8) & 0xFF, b1 == c1 & 0xFF,
            r2 == (c2 >> 16) & 0xFF, g2 == (c2 >> 8) & 0xFF, b2 == c2 & 0xFF;
    assert(r1 * inv_a <= 255 * 256) by (nonlinear_arith) requires r1 <= 255, inv_a <= 256;
    assert(r2 * a <= 255 * 256) by (nonlinear_arith) requires r2 <= 255, a <= 256;
    assert(g1 * inv_a <= 255 * 256) by (nonlinear_arith) requires g1 <= 255, inv_a <= 256;
    assert(g2 * a <= 255 * 256) by (nonlinear_arith) requires g2 <= 255, a <= 256;
    assert(b1 * inv_a <= 255 * 256) by (nonlinear_arith) requires b1 <= 255, inv_a <= 256;
    assert(b2 * a <= 255 * 256) by (nonlinear_arith) requires b2 <= 255, a <= 256;
    let sr = r1 * inv_a + r2 * a;
    let sg = g1 * inv_a + g2 * a;
    let sb = b1 * inv_a + b2 * a;
    assert(sr >> 8 == sr / 256 && sg >> 8 == sg / 256 && sb >> 8 == sb / 256) by (bit_vector);
    let r = sr >> 8;
    let g = sg >> 8;
    let b = sb >> 8;
    assert(r == mix_channel(channel(c1, 16), channel(c2, 16), a));
    assert(g == mix_channel(channel(c1, 8), channel(c2, 8), a));
    assert(b1 == channel(c1, 0) && b2 == channel(c2, 0)) by (bit_vector)
        requires b1 == c1 & 0xFF, b2 == c2 & 0xFF;
    assert(b == mix_channel(channel(c1, 0), channel(c2, 0), a));
    assert((0xFFu32 << 24) == 0xFF00_0000u32) by (bit_vector);
    (0xFF << 24) | (r << 16) | (g << 8) | b
}

/// A channel mixed with a weight out of 256 lies between the two channels; weight 0 gives the first, 256 the
/// second.
proof fn lemma_mix_between(a: u32, b: u32, alpha: u32)
    requires
        a <= 255,
        b <= 255,
        alpha <= 256,
    ensures
        alpha == 0 ==> mix_channel(a, b, alpha) == a,
        alpha == 256 ==> mix_channel(a, b, alpha) == b,
        (a <= mix_channel(a, b, alpha) <= b) || (b <= mix_channel(a, b, alpha) <= a),
{
    let v: int = (a * (256 - alpha) + b * alpha) / 256;
    assert(a <= b ==> a <= v <= b) by (nonlinear_arith)
        requires
            v == (a * (256 - alpha) + b * alpha) / 256,
            alpha <= 256,
            0 <= a,
    ;
    assert(b <= a ==> b <= v <= a) by (nonlinear_arith)
        requires
            v == (a * (256 - alpha) + b * alpha) / 256,
            alpha <= 256,
            0 <= b,
    ;
    assert(alpha == 0 ==> v == a) by (nonlinear_arith)
        requires
            v == (a * (256 - alpha) + b * alpha) / 256,
    ;
    assert(alpha == 256 ==> v == b) by (nonlinear_arith)
        requires
            v == (a * (256 - alpha) + b * alpha) / 256,
    ;
}

/// Blending with weight 0 gives the first colour made opaque, with weight 256 or more the second; every
/// blend is opaque, and each of its colour channels lies between the two colours' channels.
pub proof fn law_blend_bounds(c1: u32, c2: u32, alpha: u32)
    ensures
        alpha == 0 ==> blend_spec(c1, c2, alpha) == 0xFF00_0000u32 | (c1 & 0x00FF_FFFFu32),
        alpha >= 256 ==> blend_spec(c1, c2, alpha) == 0xFF00_0000u32 | (c2 & 0x00FF_FFFFu32),
        blend_spec(c1, c2, alpha) >> 24u32 == 0xFFu32,
        forall|shift: u32|
            shift == 0 || shift == 8 || shift == 16 ==> {
                let m = #[trigger] channel(blend_spec(c1, c2, alpha), shift);
                (channel(c1, shift) <= m <= channel(c2, shift)) || (channel(c2, shift) <= m <= channel(c1, shift))
            },
{
    let a = if alpha < 256 { alpha } else { 256 };
    let r1 = channel(c1, 16);
    let g1 = channel(c1, 8);
    let b1 = channel(c1, 0);
    let r2 = channel(c2, 16);
    let g2 = channel(c2, 8);
    let b2 = channel(c2, 0);
    assert(r1 <= 255 && g1 <= 255 && b1 <= 255 && r2 <= 255 && g2 <= 255 && b2 <= 255) by (bit_vector)
        requires
            r1 == (c1 >> 16) & 0xFF,
            g1 == (c1 >> 8) & 0xFF,
            b1 == (c1 >> 0) & 0xFF,
            r2 == (c2 >> 16) & 0xFF,
            g2 == (c2 >> 8) & 0xFF,
            b2 == (c2 >> 0) & 0xFF,
    ;
    lemma_mix_between(r1, r2, a);
    lemma_mix_between(g1, g2, a);
    lemma_mix_between(b1, b2, a);
    let r = mix_channel(r1, r2, a);
    let g = mix_channel(g1, g2, a);
    let b = mix_channel(b1, b2, a);
    let o = opaque_rgb(r, g, b);
    assert(o == blend_spec(c1, c2, alpha));
    assert(o >> 24u32 == 0xFFu32 && (o >> 16u32) & 0xFF == r && (o >> 8u32) & 0xFF == g && (o >> 0u32) & 0xFF
        == b) by (bit_vector)
        requires
            o == 0xFF00_0000u32 | (r << 16) | (g << 8) | b,
            r <= 255,
            g <= 255,
            b <= 255,
    ;
    assert(opaque_rgb(r1, g1, b1) == 0xFF00_0000u32 | (c1 & 0x00FF_FFFFu32)) by (bit_vector)
        requires
            r1 == (c1 >> 16) & 0xFF,
            g1 == (c1 >> 8) & 0xFF,
            b1 == (c1 >> 0) & 0xFF,
    ;
    assert(opaque_rgb(r2, g2, b2) == 0xFF00_0000u32 | (c2 & 0x00FF_FFFFu32)) by (bit_vector)
        requires
            r2 == (c2 >> 16) & 0xFF,
            g2 == (c2 >> 8) & 0xFF,
            b2 == (c2 >> 0) & 0xFF,
    ;
}

/// Integer linear interpolation of one channel with a weight out of 255.
pub open spec fn mix_channel_255(a: u32, b: u32, alpha: u32) -> u32 {
    ((a * (255 - alpha) + b * alpha) / 255) as u32
}

/// The result of blending `c1` towards `c2` with weight `alpha` out of 255.
pub open spec fn blend_255_spec(c1: u32, c2: u32, alpha: u32) -> u32 {
    opaque_rgb(
        mix_channel_255(channel(c1, 16), channel(c2, 16), alpha),
        mix_channel_255(channel(c1, 8), channel(c2, 8), alpha),
        mix_channel_255(channel(c1, 0), channel(c2, 0), alpha),
    )
}

/// Blends `c1` towards `c2` with a weight in 0..=255; the result is opaque.
pub fn blend_pixel_255(c1: u32, c2: u32, alpha: u32) -> (r: u32)
    requires
        alpha <= 255,
    ensures
        r == blend_255_spec(c1, c2, alpha),
{
    let inv_a = 255 - alpha;
    let r1 = (c1 >> 16) & 0xFF;
    let g1 = (c1 >> 8) & 0xFF;
    let b1 = c1 & 0xFF;
    let r2 = (c2 >> 16) & 0xFF;
    let g2 = (c2 >> 8) & 0xFF;
    let b2 = c2 & 0xFF;
    assert(r1 <= 255 && g1 <= 255 && b1 <= 255 && r2 <= 255 && g2 <= 255 && b2 <= 255) by (bit_vector)
        requires r1 == (c1 >> 16) & 0xFF, g1 == (c1 >> 8) & 0xFF, b1 == c1 & 0xFF,
            r2 == (c2 >> 16) & 0xFF, g2 == (c2 >> 8) & 0xFF, b2 == c2 & 0xFF;
    assert(r1 * inv_a <= 255 * 255) by (nonlinear_arith) requires r1 <= 255, inv_a <= 255;
    assert(r2 * alpha <= 255 * 255) by (nonlinear_arith) requires r2 <= 255, alpha <= 255;
    assert(g1 * inv_a <= 255 * 255) by (nonlinear_arith) requires g1 <= 255, inv_a <= 255;
    assert(g2 * alpha <= 255 * 255) by (nonlinear_arith) requires g2 <= 255, alpha <= 255;
    assert(b1 * inv_a <= 255 * 255) by (nonlinear_arith) requires b1 <= 255, inv_a <= 255;
    assert(b2 * alpha <= 255 * 255) by (nonlinear_arith) requires b2 <= 255, alpha <= 255;
    let r = (r1 * inv_a + r2 * alpha) / 255;
    let g = (g1 * inv_a + g2 * alpha) / 255;
    let b = (b1 * inv_a + b2 * alpha) / 255;
    assert(b1 == channel(c1, 0) && b2 == channel(c2, 0)) by (bit_vector)
        requires b1 == c1 & 0xFF, b2 == c2 & 0xFF;
    assert((0xFFu32 << 24) == 0xFF00_0000u32) by (bit_vector);
    (0xFF << 24) | (r << 16) | (g << 8) | b
}

} // verus!
