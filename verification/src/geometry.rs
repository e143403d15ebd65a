//! Geometry resolver: how large the watermark becomes on a given photograph
//! and where it lands.
//!
//! The watermark is scaled to a share of the photograph's width, keeps its
//! aspect ratio, never shrinks below one pixel, and sits in the bottom-right
//! corner at a margin from both edges. Subtractions saturate, so a watermark
//! larger than the photograph is anchored at the top-left corner instead of
//! getting negative coordinates.

use vstd::prelude::*;
use crate::error::ItemFailure;
use crate::ratio::{round_div, Ratio};

verus! {

/// The part of a photograph that the watermark covers, in the photograph's
/// pixel coordinates.
#[derive(Clone, Copy, Debug, PartialEq, Eq, Structural)]
pub struct PlacementRect {
    pub x: u32,
    pub y: u32,
    pub width: u32,
    pub height: u32,
}

/// The resolved geometry for one photograph: the size the watermark is scaled
/// to, and the rectangle of the photograph it covers.
#[derive(Clone, Copy, Debug, PartialEq, Eq, Structural)]
pub struct Geometry {
    pub scaled_width: u32,
    pub scaled_height: u32,
    pub rect: PlacementRect,
}

impl PlacementRect {
    /// Whether the pixel `(x, y)` lies inside the rectangle.
    pub open spec fn contains(self, x: int, y: int) -> bool {
        self.x <= x < self.x + self.width && self.y <= y < self.y + self.height
    }

    /// Whether the rectangle lies inside a `width x height` image.
    pub open spec fn within(self, width: int, height: int) -> bool {
        self.x + self.width <= width && self.y + self.height <= height
    }
}

pub open spec fn spec_max1(v: int) -> int {
    if v == 0 {
        1
    } else {
        v
    }
}

/// `a - b`, or zero where that would be negative.
pub open spec fn saturating_diff(a: int, b: int) -> int {
    if a >= b {
        a - b
    } else {
        0
    }
}

pub open spec fn spec_min(a: int, b: int) -> int {
    if a <= b {
        a
    } else {
        b
    }
}

/// `value * num / den` rounded to the nearest pixel count, capped at what a
/// dimension can hold and raised to at least one pixel.
pub open spec fn spec_scale(value: int, num: int, den: int) -> int {
    spec_max1(spec_min(round_div(value * num, den), u32::MAX as int))
}

/// The width of the scaled watermark on a photograph `base_w` wide.
pub open spec fn spec_scaled_width(base_w: int, ratio: Ratio) -> int {
    spec_scale(base_w, ratio.non_negative_num(), ratio.den())
}

/// The height that keeps a `wm_w x wm_h` watermark's aspect ratio at the
/// scaled width.
pub open spec fn spec_scaled_height(scaled_w: int, wm_w: int, wm_h: int) -> int {
    spec_scale(scaled_w, wm_h, wm_w)
}

/// The top-left corner of a `wm_w x wm_h` watermark placed bottom-right with
/// a margin.
pub open spec fn spec_bottom_right(base_w: int, base_h: int, wm_w: int, wm_h: int, margin: int) -> (
    int,
    int,
) {
    (saturating_diff(base_w, wm_w + margin), saturating_diff(base_h, wm_h + margin))
}

/// Whether the resolver rejects these sizes.
pub open spec fn invalid_geometry(base_w: int, wm_w: int, wm_h: int) -> bool {
    wm_w == 0 || wm_h == 0 || base_w == 0
}

/// The geometry for a `base_w x base_h` photograph and a `wm_w x wm_h`
/// watermark.
pub open spec fn spec_geometry(
    base_w: u32,
    base_h: u32,
    wm_w: u32,
    wm_h: u32,
    ratio: Ratio,
    margin: u32,
) -> Geometry {
    let w = spec_scaled_width(base_w as int, ratio);
    let h = spec_scaled_height(w, wm_w as int, wm_h as int);
    let pos = spec_bottom_right(base_w as int, base_h as int, w, h, margin as int);
    Geometry {
        scaled_width: w as u32,
        scaled_height: h as u32,
        rect: PlacementRect {
            x: pos.0 as u32,
            y: pos.1 as u32,
            width: spec_min(w, base_w - pos.0) as u32,
            height: spec_min(h, base_h - pos.1) as u32,
        },
    }
}

/// Raises a pixel count of zero to one.
pub fn max1(v: u32) -> (r: u32)
    ensures
        r == spec_max1(v as int),
        r >= 1,
{
    if v == 0 {
        1
    } else {
        v
    }
}

/// The top-left corner at which a `wm_w x wm_h` watermark sits in the
/// bottom-right corner of a `base_w x base_h` photograph, `margin` pixels
/// from both edges.
pub fn bottom_right_position(base_w: u32, base_h: u32, wm_w: u32, wm_h: u32, margin: u32) -> (pos: (
    u32,
    u32,
))
    ensures
        (pos.0 as int, pos.1 as int) == spec_bottom_right(
            base_w as int,
            base_h as int,
            wm_w as int,
            wm_h as int,
            margin as int,
        ),
        pos.0 <= base_w,
        pos.1 <= base_h,
{
    (
        base_w.saturating_sub(wm_w.saturating_add(margin)),
        base_h.saturating_sub(wm_h.saturating_add(margin)),
    )
}

/// `value * num / den`, rounded, capped and raised as `spec_scale` says.
fn scale(value: u32, num: u32, den: u32) -> (r: u32)
    requires
        den > 0,
    ensures
        r == spec_scale(value as int, num as int, den as int),
        r >= 1,
{
    assert(value * num <= 0xFFFF_FFFF * 0xFFFF_FFFF) by (nonlinear_arith)
        requires
            value <= 0xFFFF_FFFF,
            num <= 0xFFFF_FFFF,
    ;
    let n: u128 = (value as u128) * (num as u128);
    let q: u128 = (2 * n + den as u128) / (2 * (den as u128));
    let capped: u32 = if q > u32::MAX as u128 {
        u32::MAX
    } else {
        q as u32
    };
    max1(capped)
}

/// The width of the watermark scaled to `ratio` of a photograph `base_w`
/// wide.
pub fn scaled_width(base_w: u32, ratio: Ratio) -> (w: u32)
    ensures
        w == spec_scaled_width(base_w as int, ratio),
        w >= 1,
{
    let num = ratio.numerator();
    let den = ratio.denominator();
    let n: u32 = if num < 0 {
        0
    } else {
        num as u32
    };
    scale(base_w, n, den)
}

/// The height of the scaled watermark that keeps the aspect ratio of the
/// unscaled `wm_w x wm_h` watermark.
pub(crate) fn scaled_height(scaled_w: u32, wm_w: u32, wm_h: u32) -> (h: u32)
    requires
        wm_w > 0,
    ensures
        h == spec_scaled_height(scaled_w as int, wm_w as int, wm_h as int),
        h >= 1,
{
    scale(scaled_w, wm_h, wm_w)
}

/// Resolves the scaled watermark size and its placement for one photograph.
///
/// Fails with `InvalidGeometry` exactly when the watermark has a zero
/// dimension or the photograph has zero width.
pub fn resolve_geometry(
    base_w: u32,
    base_h: u32,
    wm_w: u32,
    wm_h: u32,
    ratio: Ratio,
    margin: u32,
) -> (res: Result<Geometry, ItemFailure>)
    ensures
        invalid_geometry(base_w as int, wm_w as int, wm_h as int) ==> res == Err::<
            Geometry,
            ItemFailure,
        >(ItemFailure::InvalidGeometry),
        !invalid_geometry(base_w as int, wm_w as int, wm_h as int) ==> res == Ok::<
            Geometry,
            ItemFailure,
        >(spec_geometry(base_w, base_h, wm_w, wm_h, ratio, margin)),
        res matches Ok(g) ==> {
            &&& g.rect.within(base_w as int, base_h as int)
            &&& g.scaled_width == spec_scaled_width(base_w as int, ratio)
            &&& g.scaled_height == spec_scaled_height(
                g.scaled_width as int,
                wm_w as int,
                wm_h as int,
            )
            &&& (g.rect.x as int, g.rect.y as int) == spec_bottom_right(
                base_w as int,
                base_h as int,
                g.scaled_width as int,
                g.scaled_height as int,
                margin as int,
            )
        },
{
    if wm_w == 0 || wm_h == 0 || base_w == 0 {
        return Err(ItemFailure::InvalidGeometry);
    }
    let w = scaled_width(base_w, ratio);
    let h = scaled_height(w, wm_w, wm_h);
    let pos = bottom_right_position(base_w, base_h, w, h, margin);
    let avail_w = base_w - pos.0;
    let avail_h = base_h - pos.1;
    let rect = PlacementRect {
        x: pos.0,
        y: pos.1,
        width: if w <= avail_w {
            w
        } else {
            avail_w
        },
        height: if h <= avail_h {
            h
        } else {
            avail_h
        },
    };
    Ok(Geometry { scaled_width: w, scaled_height: h, rect })
}

/// A scaled dimension is always between one pixel and the largest pixel
/// count.
pub proof fn lemma_scale_bounds(value: int, num: int, den: int)
    requires
        value >= 0,
        num >= 0,
        den > 0,
    ensures
        1 <= spec_scale(value, num, den) <= u32::MAX,
{
    assert(round_div(value * num, den) >= 0) by (nonlinear_arith)
        requires
            value >= 0,
            num >= 0,
            den > 0,
    ;
}

/// The placement rectangle always lies inside the photograph, whatever the
/// sizes and the margin; a watermark that does not fit beside the margin is
/// anchored at coordinate zero on that axis.
pub proof fn lemma_placement_contained(
    base_w: u32,
    base_h: u32,
    wm_w: u32,
    wm_h: u32,
    ratio: Ratio,
    margin: u32,
)
    requires
        ratio.den() > 0,
        wm_w > 0,
    ensures
        ({
            let g = spec_geometry(base_w, base_h, wm_w, wm_h, ratio, margin);
            &&& g.rect.within(base_w as int, base_h as int)
            &&& g.scaled_width == spec_scaled_width(base_w as int, ratio) >= 1
            &&& g.scaled_height == spec_scaled_height(
                g.scaled_width as int,
                wm_w as int,
                wm_h as int,
            ) >= 1
            &&& (g.rect.x as int, g.rect.y as int) == spec_bottom_right(
                base_w as int,
                base_h as int,
                g.scaled_width as int,
                g.scaled_height as int,
                margin as int,
            )
            &&& g.scaled_width + margin >= base_w ==> g.rect.x == 0
            &&& g.scaled_height + margin >= base_h ==> g.rect.y == 0
            &&& g.scaled_width + margin <= base_w ==> g.rect.x + g.scaled_width + margin == base_w
                && g.rect.width == g.scaled_width
            &&& g.scaled_height + margin <= base_h ==> g.rect.y + g.scaled_height + margin
                == base_h && g.rect.height == g.scaled_height
        }),
{
    let w = spec_scaled_width(base_w as int, ratio);
    let h = spec_scaled_height(w, wm_w as int, wm_h as int);
    lemma_scale_bounds(base_w as int, ratio.non_negative_num(), ratio.den());
    lemma_scale_bounds(w, wm_h as int, wm_w as int);
}

/// Every pixel of the photograph that the scaled watermark overlaps, when its
/// top-left corner is put at the rectangle's corner, lies in the placement
/// rectangle, and the other way round.
pub proof fn lemma_rect_is_overlap(
    base_w: u32,
    base_h: u32,
    wm_w: u32,
    wm_h: u32,
    ratio: Ratio,
    margin: u32,
    x: int,
    y: int,
)
    requires
        ratio.den() > 0,
        wm_w > 0,
        0 <= x < base_w,
        0 <= y < base_h,
    ensures
        ({
            let g = spec_geometry(base_w, base_h, wm_w, wm_h, ratio, margin);
            g.rect.contains(x, y) <==> (g.rect.x <= x < g.rect.x + g.scaled_width && g.rect.y <= y
                < g.rect.y + g.scaled_height)
        }),
{
    let w = spec_scaled_width(base_w as int, ratio);
    let h = spec_scaled_height(w, wm_w as int, wm_h as int);
    lemma_scale_bounds(base_w as int, ratio.non_negative_num(), ratio.den());
    lemma_scale_bounds(w, wm_h as int, wm_w as int);
}

} // verus!
