//! Decoding, resampling and encoding, which the `image` crate does.
//!
//! The three private functions at the top are trusted: Verus believes their
//! contracts and does not read their bodies. Everything else is verified
//! against those contracts.

use vstd::prelude::*;
use crate::error::ItemFailure;
use crate::raster::{view_from_raw, ImageView, RasterImage};

verus! {

/// The `image` crate's error, which is passed on unread.
#[verifier::external_type_specification]
#[verifier::external_body]
pub struct ExImageError(image::ImageError);

/// The PNG file that the `image` crate's encoder writes for an image, or
/// nothing where the encoder refuses the image. The encoder is a fixed
/// integer algorithm: the bytes depend on the size and the pixels alone.
pub uninterp spec fn png_encoding(image: ImageView) -> Option<Seq<u8>>;

/// Trusted: `image::load_from_memory`, then the decoded image's conversion to
/// 8-bit RGBA and its raw buffer. Nothing is claimed of the outcome: which
/// formats are recognised depends on what the process has registered with
/// the `image` crate.
#[verifier::external_body]
fn image_load_from_memory(bytes: &[u8]) -> (res: Result<(u32, u32, Vec<u8>), image::ImageError>) {
    let rgba = image::load_from_memory(bytes)?.into_rgba8();
    Ok((rgba.width(), rgba.height(), rgba.into_raw()))
}

/// Trusted: `image::imageops::resize` with the Lanczos3 filter on an RGBA
/// buffer. The contract claims the size of the result and nothing of its
/// pixels, which come out of floating-point resampling. The bounds keep the
/// two buffers that the resampler allocates within what a vector can hold, as
/// it panics beyond that.
#[verifier::external_body]
fn image_resize_lanczos3(width: u32, height: u32, data: &[u8], new_width: u32, new_height: u32) -> (res:
    Option<Vec<u8>>)
    requires
        data@.len() == 4 * (width * height),
        width > 0,
        height > 0,
        16 * (width * new_height) <= isize::MAX,
        4 * (new_width * new_height) <= isize::MAX,
    ensures
        res is Some,
        res matches Some(out) ==> out@.len() == 4 * (new_width * new_height),
{
    let src = image::ImageBuffer::<image::Rgba<u8>, &[u8]>::from_raw(width, height, data)?;
    let filter = image::imageops::FilterType::Lanczos3;
    Some(image::imageops::resize(&src, new_width, new_height, filter).into_raw())
}

/// Trusted: `image::write_buffer_with_format` for an RGBA buffer and the PNG
/// format, into memory. The contract names the outcome `png_encoding`.
#[verifier::external_body]
fn image_write_png(width: u32, height: u32, data: &[u8]) -> (res: Result<Vec<u8>, image::ImageError>)
    requires
        data@.len() == 4 * (width * height),
    ensures
        res matches Ok(bytes) ==> png_encoding(view_from_raw(width as nat, height as nat, data@))
            == Some(bytes@),
        res is Err ==> png_encoding(view_from_raw(width as nat, height as nat, data@)) is None,
{
    let mut out = std::io::Cursor::new(Vec::new());
    let color = image::ExtendedColorType::Rgba8;
    image::write_buffer_with_format(&mut out, data, width, height, color, image::ImageFormat::Png)?;
    Ok(out.into_inner())
}

/// Whether the resampler's buffers for a watermark `width` wide scaled to
/// `new_width x new_height` exceed what a vector can hold on this machine.
pub open spec fn resample_too_large(width: int, new_width: int, new_height: int) -> bool {
    16 * (width * new_height) > isize::MAX || 4 * (new_width * new_height) > isize::MAX
}

/// Turns the outcome of decoding into an image: the decoded pixels where the
/// decoder succeeded and handed over a buffer that fits its size, and
/// `UnsupportedFormat` otherwise.
pub fn raster_from_decoded(decoded: Result<(u32, u32, Vec<u8>), image::ImageError>) -> (res: Result<
    RasterImage,
    ItemFailure,
>)
    ensures
        match decoded {
            Ok((w, h, data)) if data@.len() == 4 * (w * h) => res matches Ok(img) && img@
                == view_from_raw(w as nat, h as nat, data@),
            _ => res == Err::<RasterImage, ItemFailure>(ItemFailure::UnsupportedFormat),
        },
{
    match decoded {
        Ok((w, h, data)) => match RasterImage::from_raw(w, h, data) {
            Some(img) => Ok(img),
            None => Err(ItemFailure::UnsupportedFormat),
        },
        Err(_) => Err(ItemFailure::UnsupportedFormat),
    }
}

/// Decodes an encoded photograph or watermark into RGBA pixels. Whatever the
/// decoder does, a failure is `UnsupportedFormat`.
pub fn decode_image(bytes: &[u8]) -> (res: Result<RasterImage, ItemFailure>)
    ensures
        res matches Err(e) ==> e == ItemFailure::UnsupportedFormat,
{
    raster_from_decoded(image_load_from_memory(bytes))
}

/// The outcome of encoding an image as PNG.
pub open spec fn spec_encode_png(img: ImageView) -> Result<Seq<u8>, ItemFailure> {
    match png_encoding(img) {
        Some(bytes) => Ok(bytes),
        None => Err(ItemFailure::EncodeFailure),
    }
}

/// Encodes an image as PNG. Where the encoder refuses the image the failure
/// is `EncodeFailure`.
pub fn encode_png(img: &RasterImage) -> (res: Result<Vec<u8>, ItemFailure>)
    ensures
        match spec_encode_png(img@) {
            Ok(bytes) => res matches Ok(out) && out@ == bytes,
            Err(e) => res == Err::<Vec<u8>, ItemFailure>(e),
        },
{
    let data = img.as_raw();
    match image_write_png(img.width(), img.height(), data.as_slice()) {
        Ok(bytes) => Ok(bytes),
        Err(_) => Err(ItemFailure::EncodeFailure),
    }
}

/// Resamples an image to `new_width x new_height`. Fails with
/// `InvalidGeometry` exactly when the image is empty or the resampler's
/// buffers would not fit this machine.
pub fn resample(img: &RasterImage, new_width: u32, new_height: u32) -> (res: Result<
    RasterImage,
    ItemFailure,
>)
    ensures
        res is Err <==> (img@.width == 0 || img@.height == 0 || resample_too_large(
            img@.width as int,
            new_width as int,
            new_height as int,
        )),
        res matches Err(e) ==> e == ItemFailure::InvalidGeometry,
        res matches Ok(out) ==> out@.width == new_width && out@.height == new_height && out@.wf(),
{
    let w = img.width();
    let h = img.height();
    if w == 0 || h == 0 {
        return Err(ItemFailure::InvalidGeometry);
    }
    assert(w * new_height <= 0xFFFF_FFFF * 0xFFFF_FFFF && new_width * new_height <= 0xFFFF_FFFF
        * 0xFFFF_FFFF) by (nonlinear_arith)
        requires
            w <= 0xFFFF_FFFF,
            new_width <= 0xFFFF_FFFF,
            new_height <= 0xFFFF_FFFF,
    ;
    let scratch: u128 = 16 * ((w as u128) * (new_height as u128));
    let target: u128 = 4 * ((new_width as u128) * (new_height as u128));
    let limit: u128 = isize::MAX as u128;
    if scratch > limit || target > limit {
        return Err(ItemFailure::InvalidGeometry);
    }
    let data = img.as_raw();
    match image_resize_lanczos3(w, h, data.as_slice(), new_width, new_height) {
        Some(out) => match RasterImage::from_raw(new_width, new_height, out) {
            Some(scaled) => {
                proof {
                    scaled.lemma_view();
                }
                Ok(scaled)
            },
            None => Err(ItemFailure::InvalidGeometry),
        },
        None => Err(ItemFailure::InvalidGeometry),
    }
}

} // verus!
