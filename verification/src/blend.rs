//! Alpha compositor: blends a scaled watermark into a photograph.
//!
//! A pixel of the photograph that the watermark covers becomes, channel by
//! channel, `base * (1 - alpha) + watermark * alpha` rounded to the nearest
//! integer, where `alpha` is the watermark pixel's own alpha times the
//! opacity; its alpha becomes fully opaque. Every other pixel passes through
//! unchanged. The arithmetic is exact: `alpha` is kept as a fraction.

use vstd::prelude::*;
use vstd::arithmetic::div_mod::{
    lemma_div_is_ordered,
    lemma_fundamental_div_mod,
    lemma_fundamental_div_mod_converse,
    lemma_mod_bound,
};
use crate::ratio::{clamp01, round_div, Ratio};
use crate::raster::{
    lemma_index_in_range,
    lemma_index_to_coordinate,
    pixel_from_raw,
    view_from_raw,
    ImageView,
    RasterImage,
    Rgba,
};

verus! {

/// Numerator of the effective alpha `(wm_alpha / 255) * opacity`, with the
/// opacity clamped into `[0, 1]`.
pub open spec fn alpha_num(wm_alpha: u8, opacity: Ratio) -> int {
    wm_alpha * opacity.unit_num()
}

/// Denominator of the effective alpha.
pub open spec fn alpha_den(opacity: Ratio) -> int {
    255 * opacity.den()
}

pub open spec fn clamp_channel(v: int) -> int {
    if v < 0 {
        0
    } else if v > 255 {
        255
    } else {
        v
    }
}

/// One blended channel for the effective alpha `num / den`:
/// `base * (1 - alpha) + wm * alpha`, rounded and clamped to a byte.
pub open spec fn spec_blend_channel(base: u8, wm: u8, num: int, den: int) -> int {
    clamp_channel(round_div(base * (den - num) + wm * num, den))
}

/// The blend of a photograph's pixel with the watermark pixel over it.
pub open spec fn spec_blend_rgba(base: Rgba, wm: Rgba, opacity: Ratio) -> Rgba {
    let num = alpha_num(wm.a, opacity);
    let den = alpha_den(opacity);
    Rgba {
        r: spec_blend_channel(base.r, wm.r, num, den) as u8,
        g: spec_blend_channel(base.g, wm.g, num, den) as u8,
        b: spec_blend_channel(base.b, wm.b, num, den) as u8,
        a: 255,
    }
}

/// Whether a watermark of this size, with its top-left corner at
/// `(pos_x, pos_y)`, covers the pixel `(x, y)`.
pub open spec fn covers(wm: ImageView, pos_x: int, pos_y: int, x: int, y: int) -> bool {
    pos_x <= x < pos_x + wm.width && pos_y <= y < pos_y + wm.height
}

/// The watermark pixel over `(x, y)`, if the watermark covers it.
pub open spec fn spec_watermark_pixel_at(wm: ImageView, pos_x: int, pos_y: int, x: int, y: int)
    -> Option<Rgba> {
    if covers(wm, pos_x, pos_y, x, y) {
        Some(wm.pixel(x - pos_x, y - pos_y))
    } else {
        None
    }
}

/// The output pixel at `(x, y)`.
pub open spec fn spec_blend_at(
    base: ImageView,
    wm: ImageView,
    pos_x: int,
    pos_y: int,
    opacity: Ratio,
    x: int,
    y: int,
) -> Rgba {
    match spec_watermark_pixel_at(wm, pos_x, pos_y, x, y) {
        None => base.pixel(x, y),
        Some(p) => spec_blend_rgba(base.pixel(x, y), p, opacity),
    }
}

/// The composited image: as large as the photograph, each pixel blended on
/// its own.
pub open spec fn spec_composite(
    base: ImageView,
    wm: ImageView,
    pos_x: int,
    pos_y: int,
    opacity: Ratio,
) -> ImageView {
    ImageView {
        width: base.width,
        height: base.height,
        pixels: Seq::new(
            base.width * base.height,
            |i: int|
                spec_blend_at(
                    base,
                    wm,
                    pos_x,
                    pos_y,
                    opacity,
                    i % (base.width as int),
                    i / (base.width as int),
                ),
        ),
    }
}

/// Blends one channel for the effective alpha `num / den`.
fn mix(base: u8, wm: u8, num: u64, den: u64) -> (r: u8)
    requires
        0 < den <= 255 * 0xFFFF_FFFF,
        num <= den,
    ensures
        r == spec_blend_channel(base, wm, num as int, den as int),
{
    let keep: u64 = den - num;
    assert(base * keep <= 255 * keep && wm * num <= 255 * num) by (nonlinear_arith)
        requires
            base <= 255,
            wm <= 255,
            keep >= 0,
            num >= 0,
    ;
    let n: u64 = (base as u64) * keep + (wm as u64) * num;
    let q: u64 = (2 * n + den) / (2 * den);
    if q > 255 {
        255
    } else {
        q as u8
    }
}

/// The effective alpha of a watermark pixel at an opacity, as a numerator
/// and a denominator.
fn effective_alpha(wm_alpha: u8, opacity: Ratio) -> (alpha: (u64, u64))
    ensures
        alpha.0 == alpha_num(wm_alpha, opacity),
        alpha.1 == alpha_den(opacity),
        0 < alpha.1 <= 255 * 0xFFFF_FFFF,
        alpha.0 <= alpha.1,
        opacity.den() > 0,
{
    let unit = clamp01(opacity);
    let p: u64 = unit.numerator() as u64;
    let q: u64 = unit.denominator() as u64;
    assert(wm_alpha * p <= 255 * q) by (nonlinear_arith)
        requires
            wm_alpha <= 255,
            0 <= p <= q,
    ;
    ((wm_alpha as u64) * p, 255 * q)
}

/// Blends one colour channel of a photograph's pixel with the same channel
/// of the watermark pixel over it, whose alpha is `wm_alpha`, at `opacity`
/// (clamped into `[0, 1]`).
///
/// At opacity one under a fully opaque watermark pixel the result is the
/// watermark's channel; at opacity zero or under a fully transparent
/// watermark pixel it is the photograph's.
pub fn blend_channel(base: u8, wm: u8, wm_alpha: u8, opacity: Ratio) -> (r: u8)
    ensures
        r == spec_blend_channel(base, wm, alpha_num(wm_alpha, opacity), alpha_den(opacity)),
        opacity.num() >= opacity.den() && wm_alpha == 255 ==> r == wm,
        opacity.num() <= 0 || wm_alpha == 0 ==> r == base,
        base <= wm ==> base <= r <= wm,
        wm <= base ==> wm <= r <= base,
{
    let (num, den) = effective_alpha(wm_alpha, opacity);
    proof {
        lemma_blend_channel_between(base, wm, num as int, den as int);
        if opacity.num() >= opacity.den() && wm_alpha == 255 {
            lemma_blend_channel_opaque(base, wm, den as int);
        }
        if opacity.num() <= 0 || wm_alpha == 0 {
            assert(num == 0) by (nonlinear_arith)
                requires
                    num == wm_alpha * opacity.unit_num(),
                    opacity.unit_num() == 0 || wm_alpha == 0,
            ;
            lemma_blend_channel_transparent(base, wm, den as int);
        }
    }
    mix(base, wm, num, den)
}

/// Blends a photograph's pixel with the watermark pixel over it. The result
/// is fully opaque.
///
/// At opacity one a fully opaque watermark pixel replaces the photograph's
/// colour; at opacity zero, or under a fully transparent watermark pixel,
/// the photograph's colour is kept.
pub fn blend_rgba(base: Rgba, wm: Rgba, opacity: Ratio) -> (out: Rgba)
    ensures
        out == spec_blend_rgba(base, wm, opacity),
        opacity.num() >= opacity.den() && wm.a == 255 ==> out == (Rgba {
            r: wm.r,
            g: wm.g,
            b: wm.b,
            a: 255,
        }),
        opacity.num() <= 0 || wm.a == 0 ==> out == (Rgba {
            r: base.r,
            g: base.g,
            b: base.b,
            a: 255,
        }),
{
    Rgba {
        r: blend_channel(base.r, wm.r, wm.a, opacity),
        g: blend_channel(base.g, wm.g, wm.a, opacity),
        b: blend_channel(base.b, wm.b, wm.a, opacity),
        a: 255,
    }
}

/// The watermark pixel over `(x, y)` of the photograph, when the watermark's
/// top-left corner sits at `pos`; nothing where the watermark does not reach.
pub fn watermark_pixel_at(watermark: &RasterImage, pos: (u32, u32), x: u32, y: u32) -> (p: Option<
    Rgba,
>)
    ensures
        p == spec_watermark_pixel_at(watermark@, pos.0 as int, pos.1 as int, x as int, y as int),
{
    let ww = watermark.width();
    let wh = watermark.height();
    let inside = x >= pos.0 && y >= pos.1 && (x as u64) < (pos.0 as u64) + (ww as u64) && (y as u64)
        < (pos.1 as u64) + (wh as u64);
    if inside {
        watermark.get_pixel(x - pos.0, y - pos.1)
    } else {
        None
    }
}

/// The output pixel at `(x, y)`, or nothing outside the photograph.
pub fn blend_at(
    base: &RasterImage,
    watermark: &RasterImage,
    pos: (u32, u32),
    opacity: Ratio,
    x: u32,
    y: u32,
) -> (p: Option<Rgba>)
    ensures
        p is Some <==> base@.in_bounds(x as int, y as int),
        p matches Some(px) ==> px == spec_blend_at(
            base@,
            watermark@,
            pos.0 as int,
            pos.1 as int,
            opacity,
            x as int,
            y as int,
        ),
{
    match base.get_pixel(x, y) {
        None => None,
        Some(base_px) => match watermark_pixel_at(watermark, pos, x, y) {
            None => Some(base_px),
            Some(wm_px) => Some(blend_rgba(base_px, wm_px, opacity)),
        },
    }
}

/// Composites the watermark over the photograph with the watermark's top-left
/// corner at `pos`. The photograph is left untouched; the result is a new
/// image of the same size.
pub fn composite(base: &RasterImage, watermark: &RasterImage, pos: (u32, u32), opacity: Ratio) -> (out:
    RasterImage)
    ensures
        out@ == spec_composite(base@, watermark@, pos.0 as int, pos.1 as int, opacity),
{
    let w = base.width();
    let h = base.height();
    let n = base.pixel_count();
    let ghost want = spec_composite(base@, watermark@, pos.0 as int, pos.1 as int, opacity);
    let mut data: Vec<u8> = Vec::new();
    let mut y: u32 = 0;
    while y < h
        invariant
            w == base@.width,
            h == base@.height,
            n == w * h,
            4 * n <= usize::MAX,
            y <= h,
            data@.len() == 4 * (y * w),
            want == spec_composite(base@, watermark@, pos.0 as int, pos.1 as int, opacity),
            forall|i: int| 0 <= i < y * w ==> #[trigger] pixel_from_raw(data@, i) == want.pixels[i],
        decreases h - y,
    {
        let mut x: u32 = 0;
        while x < w
            invariant
                w == base@.width,
                h == base@.height,
                n == w * h,
                4 * n <= usize::MAX,
                y < h,
                x <= w,
                data@.len() == 4 * (y * w + x),
                want == spec_composite(base@, watermark@, pos.0 as int, pos.1 as int, opacity),
                forall|i: int|
                    0 <= i < y * w + x ==> #[trigger] pixel_from_raw(data@, i) == want.pixels[i],
            decreases w - x,
        {
            let p = blend_at(base, watermark, pos, opacity, x, y).unwrap();
            let ghost before = data@;
            let ghost idx = y * w + x;
            proof {
                lemma_index_in_range(x as int, y as int, w as int, h as int);
                lemma_index_to_coordinate(x as int, y as int, w as int);
                assert(want.pixels[idx] == p);
            }
            data.push(p.r);
            data.push(p.g);
            data.push(p.b);
            data.push(p.a);
            proof {
                assert(pixel_from_raw(data@, idx) == p);
                assert forall|i: int| 0 <= i < idx + 1 implies #[trigger] pixel_from_raw(data@, i)
                    == want.pixels[i] by {
                    if i < idx {
                        assert(pixel_from_raw(data@, i) == pixel_from_raw(before, i));
                    }
                }
            }
            x = x + 1;
        }
        proof {
            assert((y + 1) * w == y * w + w) by (nonlinear_arith);
        }
        y = y + 1;
    }
    proof {
        assert(y * w == w * h) by (nonlinear_arith)
            requires
                y == h,
        ;
        assert(view_from_raw(w as nat, h as nat, data@).pixels =~= want.pixels);
    }
    RasterImage::from_raw(w, h, data).unwrap()
}

/// `k * d / d` rounds to `k`.
pub proof fn lemma_round_div_exact(k: int, d: int)
    requires
        k >= 0,
        d > 0,
    ensures
        round_div(k * d, d) == k,
{
    assert(2 * (k * d) + d == k * (2 * d) + d) by (nonlinear_arith);
    lemma_fundamental_div_mod_converse(2 * (k * d) + d, 2 * d, k, d);
}

/// Rounding keeps the order.
pub proof fn lemma_round_div_ordered(a: int, b: int, d: int)
    requires
        a <= b,
        d > 0,
    ensures
        round_div(a, d) <= round_div(b, d),
{
    lemma_div_is_ordered(2 * a + d, 2 * b + d, 2 * d);
}

/// A blended channel lies between the two channels it blends, so clamping
/// never cuts anything off.
pub proof fn lemma_blend_channel_between(base: u8, wm: u8, num: int, den: int)
    requires
        0 <= num <= den,
        den > 0,
    ensures
        spec_blend_channel(base, wm, num, den) == round_div(base * (den - num) + wm * num, den),
        base <= wm ==> base <= spec_blend_channel(base, wm, num, den) <= wm,
        wm <= base ==> wm <= spec_blend_channel(base, wm, num, den) <= base,
{
    let n = base * (den - num) + wm * num;
    let lo: int = if base <= wm {
        base as int
    } else {
        wm as int
    };
    let hi: int = if base <= wm {
        wm as int
    } else {
        base as int
    };
    assert(lo * den <= n <= hi * den) by (nonlinear_arith)
        requires
            n == base * (den - num) + wm * num,
            0 <= num <= den,
            lo <= base <= hi,
            lo <= wm <= hi,
    ;
    lemma_round_div_exact(lo, den);
    lemma_round_div_exact(hi, den);
    lemma_round_div_ordered(lo * den, n, den);
    lemma_round_div_ordered(n, hi * den, den);
}

/// With an effective alpha of zero a channel keeps the photograph's value.
pub proof fn lemma_blend_channel_transparent(base: u8, wm: u8, den: int)
    requires
        den > 0,
    ensures
        spec_blend_channel(base, wm, 0, den) == base,
{
    assert(base * (den - 0) + wm * 0 == base * den) by (nonlinear_arith);
    lemma_round_div_exact(base as int, den);
}

/// With an effective alpha of one a channel takes the watermark's value.
pub proof fn lemma_blend_channel_opaque(base: u8, wm: u8, den: int)
    requires
        den > 0,
    ensures
        spec_blend_channel(base, wm, den, den) == wm,
{
    assert(base * (den - den) + wm * den == wm * den) by (nonlinear_arith);
    lemma_round_div_exact(wm as int, den);
}

/// At opacity zero, or under a fully transparent watermark pixel, the colour
/// channels of the photograph's pixel are kept; only its alpha becomes
/// opaque.
pub proof fn lemma_blend_rgba_transparent(base: Rgba, wm: Rgba, opacity: Ratio)
    requires
        opacity.den() > 0,
        opacity.num() <= 0 || wm.a == 0,
    ensures
        spec_blend_rgba(base, wm, opacity) == (Rgba { r: base.r, g: base.g, b: base.b, a: 255 }),
{
    let den = alpha_den(opacity);
    assert(alpha_num(wm.a, opacity) == 0) by (nonlinear_arith)
        requires
            alpha_num(wm.a, opacity) == wm.a * opacity.unit_num(),
            opacity.unit_num() == 0 || wm.a == 0,
    ;
    lemma_blend_channel_transparent(base.r, wm.r, den);
    lemma_blend_channel_transparent(base.g, wm.g, den);
    lemma_blend_channel_transparent(base.b, wm.b, den);
}

/// At opacity one, a fully opaque watermark pixel replaces the photograph's
/// pixel: every colour channel of the output equals the watermark's.
pub proof fn lemma_blend_rgba_opaque(base: Rgba, wm: Rgba, opacity: Ratio)
    requires
        opacity.den() > 0,
        opacity.num() >= opacity.den(),
        wm.a == 255,
    ensures
        spec_blend_rgba(base, wm, opacity) == (Rgba { r: wm.r, g: wm.g, b: wm.b, a: 255 }),
{
    let den = alpha_den(opacity);
    lemma_blend_channel_opaque(base.r, wm.r, den);
    lemma_blend_channel_opaque(base.g, wm.g, den);
    lemma_blend_channel_opaque(base.b, wm.b, den);
}

/// The composited image has the photograph's size, one pixel per coordinate,
/// and at each coordinate the pixel that the blend gives there.
pub proof fn lemma_composite_pixel(
    base: ImageView,
    wm: ImageView,
    pos_x: int,
    pos_y: int,
    opacity: Ratio,
    x: int,
    y: int,
)
    requires
        base.in_bounds(x, y),
    ensures
        spec_composite(base, wm, pos_x, pos_y, opacity).wf(),
        spec_composite(base, wm, pos_x, pos_y, opacity).pixel(x, y) == spec_blend_at(
            base,
            wm,
            pos_x,
            pos_y,
            opacity,
            x,
            y,
        ),
{
    lemma_index_in_range(x, y, base.width as int, base.height as int);
    lemma_index_to_coordinate(x, y, base.width as int);
}

/// Every pixel that the watermark does not cover equals the photograph's
/// pixel exactly.
pub proof fn lemma_outside_unchanged(
    base: ImageView,
    wm: ImageView,
    pos_x: int,
    pos_y: int,
    opacity: Ratio,
    x: int,
    y: int,
)
    requires
        base.in_bounds(x, y),
        !covers(wm, pos_x, pos_y, x, y),
    ensures
        spec_composite(base, wm, pos_x, pos_y, opacity).pixel(x, y) == base.pixel(x, y),
{
    lemma_composite_pixel(base, wm, pos_x, pos_y, opacity, x, y);
}

/// At opacity one, a pixel under a fully opaque watermark pixel shows the
/// watermark pixel: every channel of the output equals the watermark's.
pub proof fn lemma_opaque_watermark_shows(
    base: ImageView,
    wm: ImageView,
    pos_x: int,
    pos_y: int,
    opacity: Ratio,
    x: int,
    y: int,
)
    requires
        base.in_bounds(x, y),
        covers(wm, pos_x, pos_y, x, y),
        opacity.den() > 0,
        opacity.num() >= opacity.den(),
        wm.pixel(x - pos_x, y - pos_y).a == 255,
    ensures
        spec_composite(base, wm, pos_x, pos_y, opacity).pixel(x, y) == wm.pixel(
            x - pos_x,
            y - pos_y,
        ),
{
    lemma_composite_pixel(base, wm, pos_x, pos_y, opacity, x, y);
    lemma_blend_rgba_opaque(base.pixel(x, y), wm.pixel(x - pos_x, y - pos_y), opacity);
}

/// At opacity zero the output is pixel-identical to the photograph, provided
/// the photograph is opaque wherever the watermark covers it (the blend makes
/// covered pixels opaque whatever the opacity).
pub proof fn lemma_zero_opacity_identity(
    base: ImageView,
    wm: ImageView,
    pos_x: int,
    pos_y: int,
    opacity: Ratio,
)
    requires
        base.wf(),
        opacity.den() > 0,
        opacity.num() <= 0,
        forall|x: int, y: int|
            base.in_bounds(x, y) && covers(wm, pos_x, pos_y, x, y) ==> (#[trigger] base.pixel(
                x,
                y,
            )).a == 255,
    ensures
        spec_composite(base, wm, pos_x, pos_y, opacity) == base,
{
    let out = spec_composite(base, wm, pos_x, pos_y, opacity);
    let w = base.width as int;
    assert forall|i: int| 0 <= i < out.pixels.len() implies out.pixels[i] == base.pixels[i] by {
        assert(w > 0) by (nonlinear_arith)
            requires
                0 <= i < w * base.height,
                w >= 0,
        ;
        let x = i % w;
        let y = i / w;
        lemma_fundamental_div_mod(i, w);
        lemma_mod_bound(i, w);
        assert(0 <= y < base.height) by (nonlinear_arith)
            requires
                i == w * y + x,
                0 <= x < w,
                0 <= i < w * base.height,
        ;
        assert(y * w + x == i) by (nonlinear_arith)
            requires
                i == w * y + x,
        ;
        assert(base.pixel(x, y) == base.pixels[i]);
        match spec_watermark_pixel_at(wm, pos_x, pos_y, x, y) {
            None => {},
            Some(p) => {
                lemma_blend_rgba_transparent(base.pixel(x, y), p, opacity);
            },
        }
    }
    assert(out.pixels =~= base.pixels);
}

/// Compositing is a function of the photograph, the watermark, the position
/// and the opacity alone: two runs on the same inputs give pixel-identical
/// outputs. The opacity counts by its clamped value only.
pub proof fn lemma_composite_deterministic(
    base: ImageView,
    wm: ImageView,
    pos_x: int,
    pos_y: int,
    first: Ratio,
    second: Ratio,
)
    requires
        first.den() == second.den(),
        first.unit_num() == second.unit_num(),
    ensures
        spec_composite(base, wm, pos_x, pos_y, first) == spec_composite(
            base,
            wm,
            pos_x,
            pos_y,
            second,
        ),
{
    let a = spec_composite(base, wm, pos_x, pos_y, first);
    let b = spec_composite(base, wm, pos_x, pos_y, second);
    assert(a.pixels =~= b.pixels);
}

} // verus!
