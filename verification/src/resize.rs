//! Aspect-preserving resize by nearest-neighbour sampling.

use vstd::prelude::*;
use crate::buffer::{byte_length, outcome, ImageView, PixelBuffer, MAX_BYTES};
use crate::error::PipelineError;

verus! {

/// The bytes that `photon_rs::transform::resize` returns for an image of
/// `width` by `height` pixels with the bytes `pixels`, resampled to
/// `new_width` by `new_height` pixels with `SamplingFilter::Nearest`.
pub uninterp spec fn resized_pixels(
    pixels: Seq<u8>,
    width: u32,
    height: u32,
    new_width: u32,
    new_height: u32,
) -> Seq<u8>;

/// The height that keeps the aspect ratio of a `width` by `height` image at
/// the width `target_width`: `target_width * height / width`, rounded down.
pub open spec fn target_height(width: nat, height: nat, target_width: nat) -> nat {
    (target_width * height) / width
}

/// The resampler's working raster, source width by target height with four
/// 32-bit floats per pixel, can be allocated.
pub open spec fn raster_fits(width: nat, new_height: nat) -> bool {
    16 * width * new_height <= isize::MAX
}

/// `src` can be resampled to `new_width` by `new_height` pixels: neither
/// the source nor the result is empty, the result is no larger than a
/// buffer, and the resampler has room to work.
pub open spec fn resamplable(src: ImageView, new_width: nat, new_height: nat) -> bool {
    &&& src.width > 0
    &&& src.height > 0
    &&& new_width > 0
    &&& new_height > 0
    &&& 4 * new_width * new_height <= MAX_BYTES
    &&& 4 * new_width * new_height <= isize::MAX
    &&& raster_fits(src.width, new_height)
}

/// `src` resampled to `new_width` by `new_height` pixels.
pub open spec fn resampled(src: ImageView, new_width: nat, new_height: nat) -> ImageView {
    ImageView {
        width: new_width,
        height: new_height,
        pixels: resized_pixels(
            src.pixels,
            src.width as u32,
            src.height as u32,
            new_width as u32,
            new_height as u32,
        ),
    }
}

/// What resampling `src` to `new_width` by `new_height` pixels gives: the
/// resampled image, or the reason why there is none.
pub open spec fn resample_result(src: ImageView, new_width: nat, new_height: nat) -> Result<
    ImageView,
    PipelineError,
> {
    if resamplable(src, new_width, new_height) {
        Ok(resampled(src, new_width, new_height))
    } else {
        Err(PipelineError::InvalidDimensions)
    }
}

/// `src` can be resized to the width `target_width`: it can be resampled to
/// that width and the height that keeps its aspect ratio.
pub open spec fn resizable(src: ImageView, target_width: nat) -> bool {
    resamplable(src, target_width, target_height(src.width, src.height, target_width))
}

/// `src` resized to the width `target_width`.
pub open spec fn resized(src: ImageView, target_width: nat) -> ImageView {
    resampled(src, target_width, target_height(src.width, src.height, target_width))
}

/// The pixel of column `x` and row `y` of `out` is the pixel of column `sx`
/// and row `sy` of `src`, channel for channel and alpha like colour.
pub open spec fn same_pixel(out: ImageView, x: int, y: int, src: ImageView, sx: int, sy: int) -> bool {
    forall|c: int| 0 <= c < 4 ==> #[trigger] out.channel(x, y, c) == src.channel(sx, sy, c)
}

/// Every pixel of `out` is a pixel of `src`: nothing is interpolated.
pub open spec fn sampled_from(out: ImageView, src: ImageView) -> bool {
    forall|x: int, y: int| #[trigger]
        out.contains(x, y, 0) ==> exists|sx: int, sy: int|
            src.contains(sx, sy, 0) && #[trigger] same_pixel(out, x, y, src, sx, sy)
}

/// What resizing `src` to the width `target_width` gives: the resized image,
/// or the reason why there is none.
pub open spec fn resize_result(src: ImageView, target_width: nat) -> Result<
    ImageView,
    PipelineError,
> {
    if resizable(src, target_width) {
        Ok(resized(src, target_width))
    } else {
        Err(PipelineError::InvalidDimensions)
    }
}

/// Calls `photon_rs::transform::resize` with `SamplingFilter::Nearest` on a
/// copy of the bytes. Trusted: the result is the resampled image's bytes,
/// four for each of its `new_width * new_height` pixels; each of its pixels
/// is a pixel of the source, as nearest-neighbour sampling takes them; and
/// resampling to the size of the source copies it. The sizes asked for keep
/// the outside code away from its panics: the bytes match the source size,
/// and both the result and the working raster can be allocated.
#[verifier::external_body]
fn resample_nearest(pixels: &Vec<u8>, width: u32, height: u32, new_width: u32, new_height: u32) -> (out:
    Vec<u8>)
    requires
        width > 0,
        height > 0,
        new_width > 0,
        new_height > 0,
        pixels@.len() == 4 * width * height,
        4 * width * height <= MAX_BYTES,
        4 * new_width * new_height <= MAX_BYTES,
        4 * new_width * new_height <= isize::MAX,
        raster_fits(width as nat, new_height as nat),
    ensures
        out@ == resized_pixels(pixels@, width, height, new_width, new_height),
        out@.len() == 4 * new_width * new_height,
        sampled_from(
            ImageView { width: new_width as nat, height: new_height as nat, pixels: out@ },
            ImageView { width: width as nat, height: height as nat, pixels: pixels@ },
        ),
        new_width == width && new_height == height ==> out@ == pixels@,
{
    let image = photon_rs::PhotonImage::new(pixels.clone(), width, height);
    let sampling = photon_rs::transform::SamplingFilter::Nearest;
    photon_rs::transform::resize(&image, new_width, new_height, sampling).get_raw_pixels()
}

/// The height for `target_width` that keeps the aspect ratio of a `width` by
/// `height` image, rounded down, when it is a height that an image can
/// have: not zero, and no more than `u32::MAX`.
pub fn scaled_height(width: u32, height: u32, target_width: u32) -> (out: Option<u32>)
    ensures
        out == if width > 0 && 0 < target_height(width as nat, height as nat, target_width as nat)
            <= u32::MAX {
            Some(target_height(width as nat, height as nat, target_width as nat) as u32)
        } else {
            None::<u32>
        },
{
    if width == 0 {
        return None;
    }
    assert((target_width as u64) * (height as u64) <= 0xffff_ffff * 0xffff_ffff)
        by (nonlinear_arith)
        requires
            target_width <= 0xffff_ffff,
            height <= 0xffff_ffff,
    ;
    let scaled: u64 = (target_width as u64) * (height as u64) / (width as u64);
    if scaled == 0 || scaled > u32::MAX as u64 {
        None
    } else {
        Some(scaled as u32)
    }
}

/// Resamples `source` to `new_width` by `new_height` pixels. Each pixel of
/// the result is the nearest pixel of the source under uniform scaling,
/// alpha like colour; nothing is interpolated. Fails with
/// `InvalidDimensions` when the source or the result would be empty, and
/// when the result or the resampler's working raster would be too large.
pub fn resize_to(source: &PixelBuffer, new_width: u32, new_height: u32) -> (out: Result<
    PixelBuffer,
    PipelineError,
>)
    ensures
        outcome(out) == resample_result(source@, new_width as nat, new_height as nat),
        out is Ok ==> out->Ok_0@.wf() && sampled_from(out->Ok_0@, source@),
        out is Ok && new_width == source@.width && new_height == source@.height ==> out->Ok_0@
            == source@,
        out is Err ==> out->Err_0 == PipelineError::InvalidDimensions,
{
    let width = source.width();
    let height = source.height();
    if width == 0 || height == 0 || new_width == 0 || new_height == 0 {
        return Err(PipelineError::InvalidDimensions);
    }
    let len = match byte_length(new_width, new_height) {
        Some(len) => len,
        None => {
            return Err(PipelineError::InvalidDimensions);
        },
    };
    assert((width as u128) * (new_height as u128) <= 0xffff_ffff * 0xffff_ffff)
        by (nonlinear_arith)
        requires
            width <= 0xffff_ffff,
            new_height <= 0xffff_ffff,
    ;
    assert(16 * width * new_height == 16 * (width * new_height)) by (nonlinear_arith);
    let raster: u128 = 16 * ((width as u128) * (new_height as u128));
    if raster > isize::MAX as u128 || len as u128 > isize::MAX as u128 {
        return Err(PipelineError::InvalidDimensions);
    }
    let pixels = resample_nearest(source.pixels(), width, height, new_width, new_height);
    Ok(PixelBuffer::from_parts(new_width, new_height, pixels))
}

/// Resizes `source` to the width `target_width`, keeping its aspect ratio:
/// the new height is `target_width * height / width`, rounded down. Each
/// pixel of the result is the nearest pixel of the source under uniform
/// scaling, alpha like colour. Fails with `InvalidDimensions` when the
/// source or the target width is zero, when the new height would be zero,
/// and when the result would be too large.
pub fn resize(source: &PixelBuffer, target_width: u32) -> (out: Result<PixelBuffer, PipelineError>)
    ensures
        outcome(out) == resize_result(source@, target_width as nat),
        match out {
            Ok(buf) => {
                &&& resizable(source@, target_width as nat)
                &&& buf@ == resized(source@, target_width as nat)
                &&& buf@.wf()
                &&& buf@.width == target_width
                &&& buf@.height == target_height(source@.width, source@.height, target_width as nat)
                &&& buf@.pixels.len() == target_width * buf@.height * 4
                &&& sampled_from(buf@, source@)
                &&& target_width == source@.width ==> buf@ == source@
            },
            Err(e) => e == PipelineError::InvalidDimensions && !resizable(
                source@,
                target_width as nat,
            ),
        },
{
    match scaled_height(source.width(), source.height(), target_width) {
        Some(new_height) => {
            proof {
                assert(target_width * new_height * 4 == 4 * target_width * new_height)
                    by (nonlinear_arith);
                let width = source@.width as int;
                let height = source@.height as int;
                if target_width == width {
                    assert((width * height) / width == height) by (nonlinear_arith)
                        requires
                            width > 0,
                            height >= 0,
                    ;
                }
            }
            resize_to(source, target_width, new_height)
        },
        None => {
            proof {
                let new_height = target_height(
                    source@.width,
                    source@.height,
                    target_width as nat,
                );
                if new_height > u32::MAX && target_width > 0 {
                    assert(4 * target_width * new_height > MAX_BYTES) by (nonlinear_arith)
                        requires
                            target_width >= 1,
                            new_height > u32::MAX,
                    ;
                }
            }
            Err(PipelineError::InvalidDimensions)
        },
    }
}

/// Resizing an image of one colour gives an image of that colour: where
/// every pixel of the source is the pixel `(sx, sy)`, so is every pixel of a
/// result that was sampled from it.
pub proof fn lemma_sampled_from_one_colour(out: ImageView, src: ImageView, sx: int, sy: int)
    requires
        sampled_from(out, src),
        forall|x: int, y: int|
            src.contains(x, y, 0) ==> #[trigger] same_pixel(src, x, y, src, sx, sy),
    ensures
        forall|x: int, y: int, c: int| #[trigger]
            out.contains(x, y, c) ==> out.channel(x, y, c) == src.channel(sx, sy, c),
{
    assert forall|x: int, y: int, c: int| #[trigger] out.contains(x, y, c) implies out.channel(
        x,
        y,
        c,
    ) == src.channel(sx, sy, c) by {
        assert(out.contains(x, y, 0));
        let (px, py) = choose|px: int, py: int|
            src.contains(px, py, 0) && #[trigger] same_pixel(out, x, y, src, px, py);
        assert(same_pixel(src, px, py, src, sx, sy));
        assert(out.channel(x, y, c) == src.channel(px, py, c));
        assert(src.channel(px, py, c) == src.channel(sx, sy, c));
    }
}

/// A source of a single pixel is replicated: every pixel of the result is
/// that pixel.
pub proof fn lemma_single_pixel_is_replicated(out: ImageView, src: ImageView)
    requires
        sampled_from(out, src),
        src.width == 1,
        src.height == 1,
    ensures
        forall|x: int, y: int, c: int| #[trigger]
            out.contains(x, y, c) ==> out.channel(x, y, c) == src.pixels[c],
{
    assert forall|x: int, y: int| src.contains(x, y, 0) implies #[trigger] same_pixel(
        src,
        x,
        y,
        src,
        0,
        0,
    ) by {}
    lemma_sampled_from_one_colour(out, src, 0, 0);
    assert forall|x: int, y: int, c: int| #[trigger] out.contains(x, y, c) implies out.channel(
        x,
        y,
        c,
    ) == src.pixels[c] by {
        assert(src.channel(0, 0, c) == src.pixels[c]);
    }
}

} // verus!
