//! Single-image processor: decode, scale the watermark to this photograph,
//! composite, encode.

use vstd::prelude::*;
use crate::blend::{
    composite,
    covers,
    lemma_composite_pixel,
    lemma_outside_unchanged,
    lemma_zero_opacity_identity,
    spec_composite,
};
use crate::codec::{decode_image, encode_png, resample, resample_too_large, spec_encode_png};
use crate::error::ItemFailure;
use crate::geometry::{
    bottom_right_position,
    invalid_geometry,
    lemma_placement_contained,
    lemma_rect_is_overlap,
    scaled_height,
    scaled_width,
    spec_geometry,
    spec_scaled_height,
    spec_scaled_width,
    Geometry,
};
use crate::raster::{ImageView, RasterImage};
use crate::ratio::Ratio;

verus! {

/// The share of a photograph's width that the watermark takes: one fifth.
pub open spec fn default_ratio() -> Ratio {
    Ratio::of(1, 5)
}

/// The share of a photograph's width that the watermark takes: one fifth.
pub fn watermark_ratio() -> (r: Ratio)
    ensures
        r == default_ratio(),
        r.num() == 1,
        r.den() == 5,
{
    Ratio::new(1, 5).unwrap()
}

/// The opacity at which a watermark is blended in unless the caller says
/// otherwise: one half.
pub open spec fn default_opacity() -> Ratio {
    Ratio::of(1, 2)
}

/// The margin, in pixels, kept between the watermark and the photograph's
/// edges unless the caller says otherwise.
pub const DEFAULT_MARGIN: u32 = 20;

/// The opacity at which a watermark is blended in unless the caller says
/// otherwise: one half.
pub fn watermark_opacity() -> (r: Ratio)
    ensures
        r == default_opacity(),
        r.num() == 1,
        r.den() == 2,
{
    Ratio::new(1, 2).unwrap()
}

/// Whether a watermark cannot be scaled for a photograph `base_w` wide:
/// a zero dimension, or a scaled size beyond what this machine can address.
pub open spec fn unscalable(wm: ImageView, base_w: u32, ratio: Ratio) -> bool {
    let w = spec_scaled_width(base_w as int, ratio);
    let h = spec_scaled_height(w, wm.width as int, wm.height as int);
    invalid_geometry(base_w as int, wm.width as int, wm.height as int) || resample_too_large(
        wm.width as int,
        w,
        h,
    )
}

/// Scales the watermark to `ratio` of a photograph `base_width` wide, keeping
/// its aspect ratio. The scaled pixels come from the resampler; the contract
/// fixes when scaling fails and the size of what comes back.
pub fn resize_watermark_relative(watermark: &RasterImage, base_width: u32, ratio: Ratio) -> (res:
    Result<RasterImage, ItemFailure>)
    ensures
        res is Err <==> unscalable(watermark@, base_width, ratio),
        res matches Err(e) ==> e == ItemFailure::InvalidGeometry,
        res matches Ok(scaled) ==> {
            &&& scaled@.wf()
            &&& scaled@.width == spec_scaled_width(base_width as int, ratio)
            &&& scaled@.height == spec_scaled_height(
                scaled@.width as int,
                watermark@.width as int,
                watermark@.height as int,
            )
        },
{
    let wm_w = watermark.width();
    let wm_h = watermark.height();
    if wm_w == 0 || wm_h == 0 || base_width == 0 {
        return Err(ItemFailure::InvalidGeometry);
    }
    let new_w = scaled_width(base_width, ratio);
    let new_h = scaled_height(new_w, wm_w, wm_h);
    resample(watermark, new_w, new_h)
}

/// The geometry for a photograph and a watermark given by their views.
pub open spec fn placement(base: ImageView, wm: ImageView, ratio: Ratio, margin: u32) -> Geometry {
    spec_geometry(
        base.width as u32,
        base.height as u32,
        wm.width as u32,
        wm.height as u32,
        ratio,
        margin,
    )
}

/// Whether a photograph, a watermark and a ratio are ones that the geometry
/// resolver accepts.
pub open spec fn placeable(base: ImageView, wm: ImageView, ratio: Ratio) -> bool {
    &&& base.wf()
    &&& base.width <= u32::MAX
    &&& base.height <= u32::MAX
    &&& wm.width <= u32::MAX
    &&& wm.height <= u32::MAX
    &&& ratio.den() > 0
    &&& !invalid_geometry(base.width as int, wm.width as int, wm.height as int)
}

/// What a successful run of `apply_watermark` returns: the composite of the
/// photograph with some image of the scaled size, placed as the geometry
/// says, at the given opacity.
pub open spec fn is_watermarked(
    out: ImageView,
    base: ImageView,
    wm: ImageView,
    ratio: Ratio,
    opacity: Ratio,
    margin: u32,
) -> bool {
    let g = placement(base, wm, ratio, margin);
    exists|scaled: ImageView|
        {
            &&& scaled.wf()
            &&& scaled.width == g.scaled_width
            &&& scaled.height == g.scaled_height
            &&& out == #[trigger] spec_composite(
                base,
                scaled,
                g.rect.x as int,
                g.rect.y as int,
                opacity,
            )
        }
}

/// Watermarks one decoded photograph: scales the watermark to a fifth of the
/// photograph's width, places it bottom-right at `margin` pixels from the
/// edges, and blends it in at `opacity` (clamped into `[0, 1]`).
///
/// Fails with `InvalidGeometry` exactly when the watermark cannot be scaled
/// for this photograph.
pub fn apply_watermark(base: &RasterImage, watermark: &RasterImage, opacity: Ratio, margin: u32) -> (res:
    Result<RasterImage, ItemFailure>)
    ensures
        res is Err <==> unscalable(watermark@, base@.width as u32, default_ratio()),
        res matches Err(e) ==> e == ItemFailure::InvalidGeometry,
        res matches Ok(out) ==> is_watermarked(
            out@,
            base@,
            watermark@,
            default_ratio(),
            opacity,
            margin,
        ),
{
    let ratio = watermark_ratio();
    proof {
        base.lemma_view();
        watermark.lemma_view();
    }
    let bw = base.width();
    let bh = base.height();
    let scaled = match resize_watermark_relative(watermark, bw, ratio) {
        Ok(s) => s,
        Err(e) => {
            return Err(e);
        },
    };
    let pos = bottom_right_position(
        bw,
        bh,
        scaled.width(),
        scaled.height(),
        margin,
    );
    let out = composite(base, &scaled, pos, opacity);
    proof {
        let g = spec_geometry(
            bw,
            bh,
            watermark@.width as u32,
            watermark@.height as u32,
            ratio,
            margin,
        );
        lemma_placement_contained(
            bw,
            bh,
            watermark@.width as u32,
            watermark@.height as u32,
            ratio,
            margin,
        );
        assert(base@.width as u32 == bw && base@.height as u32 == bh);
        assert(placement(base@, watermark@, ratio, margin) == g);
        assert(scaled@.wf());
        assert(scaled@.width == g.scaled_width);
        assert(scaled@.height == g.scaled_height);
        assert(pos.0 == g.rect.x && pos.1 == g.rect.y);
        assert(out@ == spec_composite(base@, scaled@, g.rect.x as int, g.rect.y as int, opacity));
        assert(is_watermarked(out@, base@, watermark@, default_ratio(), opacity, margin));
    }
    Ok(out)
}

/// What processing a decoded photograph may return: `InvalidGeometry` where
/// the watermark cannot be scaled for it, and otherwise the outcome of
/// encoding some watermarked version of it.
pub open spec fn is_item_outcome(
    res: Result<Seq<u8>, ItemFailure>,
    base: ImageView,
    wm: ImageView,
    opacity: Ratio,
    margin: u32,
) -> bool {
    if unscalable(wm, base.width as u32, default_ratio()) {
        res == Err::<Seq<u8>, ItemFailure>(ItemFailure::InvalidGeometry)
    } else {
        exists|out: ImageView| #[trigger]
            is_watermarked(out, base, wm, default_ratio(), opacity, margin) && res
                == spec_encode_png(out)
    }
}

/// The outcome of an item as a value of the model: the encoded bytes by
/// their view.
pub open spec fn outcome_view(res: Result<Vec<u8>, ItemFailure>) -> Result<Seq<u8>, ItemFailure> {
    match res {
        Ok(bytes) => Ok(bytes@),
        Err(e) => Err(e),
    }
}

/// Watermarks a decoded photograph and encodes the result as PNG.
pub fn process_decoded(base: &RasterImage, watermark: &RasterImage, opacity: Ratio, margin: u32) -> (res:
    Result<Vec<u8>, ItemFailure>)
    ensures
        is_item_outcome(outcome_view(res), base@, watermark@, opacity, margin),
{
    match apply_watermark(base, watermark, opacity, margin) {
        Err(e) => Err(e),
        Ok(out) => {
            let encoded = encode_png(&out);
            proof {
                assert(is_watermarked(out@, base@, watermark@, default_ratio(), opacity, margin));
                assert(outcome_view(encoded) == spec_encode_png(out@));
            }
            encoded
        },
    }
}

/// Processes one photograph from its encoded bytes: decode, watermark,
/// encode. A photograph that cannot be decoded fails with
/// `UnsupportedFormat`; whatever the decoder hands over is processed as
/// `process_decoded` says.
pub fn process_item(photo: &[u8], watermark: &RasterImage, opacity: Ratio, margin: u32) -> (res: Result<
    Vec<u8>,
    ItemFailure,
>)
    ensures
        res == Err::<Vec<u8>, ItemFailure>(ItemFailure::UnsupportedFormat) || exists|
            base: ImageView,
        | #[trigger] is_item_outcome(outcome_view(res), base, watermark@, opacity, margin),
{
    match decode_image(photo) {
        Err(e) => Err(e),
        Ok(base) => {
            let res = process_decoded(&base, watermark, opacity, margin);
            proof {
                assert(is_item_outcome(outcome_view(res), base@, watermark@, opacity, margin));
            }
            res
        },
    }
}

/// Processing a decoded photograph fails in two ways only: the watermark
/// cannot be scaled for it, or the composite cannot be encoded.
pub proof fn lemma_item_failure_kinds(
    res: Result<Seq<u8>, ItemFailure>,
    base: ImageView,
    wm: ImageView,
    opacity: Ratio,
    margin: u32,
)
    requires
        is_item_outcome(res, base, wm, opacity, margin),
    ensures
        res matches Err(f) ==> f == ItemFailure::InvalidGeometry || f == ItemFailure::EncodeFailure,
        res matches Err(ItemFailure::InvalidGeometry) ==> unscalable(
            wm,
            base.width as u32,
            default_ratio(),
        ),
{
}

/// Every pixel of a watermarked photograph outside the placement rectangle
/// equals the photograph's pixel exactly, whatever the watermark, the
/// opacity and the margin.
pub proof fn lemma_outside_rect_unchanged(
    out: ImageView,
    base: ImageView,
    wm: ImageView,
    ratio: Ratio,
    opacity: Ratio,
    margin: u32,
    x: int,
    y: int,
)
    requires
        placeable(base, wm, ratio),
        is_watermarked(out, base, wm, ratio, opacity, margin),
        base.in_bounds(x, y),
        !placement(base, wm, ratio, margin).rect.contains(x, y),
    ensures
        out.pixel(x, y) == base.pixel(x, y),
{
    let g = placement(base, wm, ratio, margin);
    let scaled = choose|scaled: ImageView|
        {
            &&& scaled.wf()
            &&& scaled.width == g.scaled_width
            &&& scaled.height == g.scaled_height
            &&& out == #[trigger] spec_composite(
                base,
                scaled,
                g.rect.x as int,
                g.rect.y as int,
                opacity,
            )
        };
    lemma_rect_is_overlap(
        base.width as u32,
        base.height as u32,
        wm.width as u32,
        wm.height as u32,
        ratio,
        margin,
        x,
        y,
    );
    assert(!covers(scaled, g.rect.x as int, g.rect.y as int, x, y));
    lemma_outside_unchanged(base, scaled, g.rect.x as int, g.rect.y as int, opacity, x, y);
}

/// At opacity zero a watermarked photograph is pixel-identical to the
/// photograph, provided the photograph is opaque inside the placement
/// rectangle (covered pixels always come out opaque).
pub proof fn lemma_zero_opacity_unchanged(
    out: ImageView,
    base: ImageView,
    wm: ImageView,
    ratio: Ratio,
    opacity: Ratio,
    margin: u32,
)
    requires
        placeable(base, wm, ratio),
        is_watermarked(out, base, wm, ratio, opacity, margin),
        opacity.den() > 0,
        opacity.num() <= 0,
        forall|x: int, y: int|
            base.in_bounds(x, y) && placement(base, wm, ratio, margin).rect.contains(x, y) ==> (
            #[trigger] base.pixel(x, y)).a == 255,
    ensures
        out == base,
{
    let g = placement(base, wm, ratio, margin);
    let scaled = choose|scaled: ImageView|
        {
            &&& scaled.wf()
            &&& scaled.width == g.scaled_width
            &&& scaled.height == g.scaled_height
            &&& out == #[trigger] spec_composite(
                base,
                scaled,
                g.rect.x as int,
                g.rect.y as int,
                opacity,
            )
        };
    assert forall|x: int, y: int|
        base.in_bounds(x, y) && covers(scaled, g.rect.x as int, g.rect.y as int, x, y) implies (
    #[trigger] base.pixel(x, y)).a == 255 by {
        lemma_rect_is_overlap(
            base.width as u32,
            base.height as u32,
            wm.width as u32,
            wm.height as u32,
            ratio,
            margin,
            x,
            y,
        );
    }
    lemma_zero_opacity_identity(base, scaled, g.rect.x as int, g.rect.y as int, opacity);
}

/// A watermarked photograph has the photograph's size, and every pixel
/// inside the placement rectangle is opaque.
pub proof fn lemma_watermarked_shape(
    out: ImageView,
    base: ImageView,
    wm: ImageView,
    ratio: Ratio,
    opacity: Ratio,
    margin: u32,
    x: int,
    y: int,
)
    requires
        placeable(base, wm, ratio),
        is_watermarked(out, base, wm, ratio, opacity, margin),
        base.in_bounds(x, y),
    ensures
        out.width == base.width,
        out.height == base.height,
        out.wf(),
        placement(base, wm, ratio, margin).rect.contains(x, y) ==> out.pixel(x, y).a == 255,
{
    let g = placement(base, wm, ratio, margin);
    let scaled = choose|scaled: ImageView|
        {
            &&& scaled.wf()
            &&& scaled.width == g.scaled_width
            &&& scaled.height == g.scaled_height
            &&& out == #[trigger] spec_composite(
                base,
                scaled,
                g.rect.x as int,
                g.rect.y as int,
                opacity,
            )
        };
    lemma_rect_is_overlap(
        base.width as u32,
        base.height as u32,
        wm.width as u32,
        wm.height as u32,
        ratio,
        margin,
        x,
        y,
    );
    lemma_composite_pixel(
        base,
        scaled,
        g.rect.x as int,
        g.rect.y as int,
        opacity,
        x,
        y,
    );
}

} // verus!
