//! Thumbnail strips: one source resized to several widths, the results
//! stitched from left to right in the order of the widths.

use vstd::prelude::*;
use crate::buffer::{
    byte_length, lemma_offset_coordinates, outcome, ImageView, PixelBuffer, MAX_BYTES,
};
use crate::compose::{
    column_of, copy_into, covers, row_of, stitch_horizontal, stitch_result, stitched, taller, FILL,
};
use crate::error::PipelineError;
use crate::resize::{resizable, resize, resize_result, resized};
use crate::strip_laws::{
    lemma_composite_is_strip, lemma_edges_grow, lemma_first_failure_stays,
    lemma_strip_failure_stays, lemma_strip_of_thumbnails, lemma_strip_result_is_strip,
    lemma_strip_size, lemma_tallest_bounds, lemma_thumbnails_width,
};

verus! {

/// The images that the buffers hold.
pub open spec fn views_of(images: Seq<PixelBuffer>) -> Seq<ImageView> {
    Seq::new(images.len(), |i: int| images[i]@)
}

/// The images stitched from left to right: `((i0 | i1) | i2) | ..`. Of no
/// image it says nothing.
pub open spec fn strip_of(images: Seq<ImageView>) -> ImageView
    decreases images.len(),
{
    if images.len() <= 1 {
        images[0]
    } else {
        stitched(strip_of(images.drop_last()), images.last())
    }
}

/// What stitching the images from left to right gives: the fold of
/// `stitch_result` over them, which stops at the first failure. No image
/// is `InvalidDimensions`; one image is that image.
pub open spec fn strip_result(images: Seq<ImageView>) -> Result<ImageView, PipelineError>
    decreases images.len(),
{
    if images.len() == 0 {
        Err(PipelineError::InvalidDimensions)
    } else if images.len() == 1 {
        Ok(images[0])
    } else {
        match strip_result(images.drop_last()) {
            Ok(before) => stitch_result(before, images.last()),
            Err(e) => Err(e),
        }
    }
}

/// The widths of the images, added up.
pub open spec fn total_width(images: Seq<ImageView>) -> nat
    decreases images.len(),
{
    if images.len() == 0 {
        0
    } else {
        total_width(images.drop_last()) + images.last().width
    }
}

/// The height of the tallest of the images.
pub open spec fn tallest(images: Seq<ImageView>) -> nat
    decreases images.len(),
{
    if images.len() == 0 {
        0
    } else {
        taller(tallest(images.drop_last()), images.last().height)
    }
}

/// The column of a strip at which image `k` starts: the widths of the
/// images before it, added up.
pub open spec fn left_edge(images: Seq<ImageView>, k: int) -> nat {
    total_width(images.take(k))
}

/// Channel `c` of column `x` and row `y` of a white background onto which
/// the first `k` images have been copied, each at its left edge.
pub open spec fn composite_channel(images: Seq<ImageView>, k: int, x: int, y: int, c: int) -> u8
    decreases k,
{
    if k <= 0 {
        FILL
    } else if covers(images[k - 1], left_edge(images, k - 1), x, y) {
        images[k - 1].channel(x - left_edge(images, k - 1), y, c)
    } else {
        composite_channel(images, k - 1, x, y, c)
    }
}

/// The source resized to each of the widths, in their order.
pub open spec fn thumbnails(source: ImageView, widths: Seq<u32>) -> Seq<ImageView> {
    Seq::new(widths.len(), |i: int| resized(source, widths[i] as nat))
}

/// The source can be resized to each of the widths.
pub open spec fn all_resizable(source: ImageView, widths: Seq<u32>) -> bool {
    forall|i: int| 0 <= i < widths.len() ==> resizable(source, #[trigger] widths[i] as nat)
}

/// The widths added up.
pub open spec fn sum_of(widths: Seq<u32>) -> nat
    decreases widths.len(),
{
    if widths.len() == 0 {
        0
    } else {
        sum_of(widths.drop_last()) + widths.last() as nat
    }
}

/// What building a strip of `source` at the given widths gives.
pub open spec fn build_result(source: ImageView, widths: Seq<u32>) -> Result<
    ImageView,
    PipelineError,
> {
    if widths.len() == 0 || !all_resizable(source, widths) {
        Err(PipelineError::InvalidDimensions)
    } else {
        strip_result(thumbnails(source, widths))
    }
}

/// What resizing the source to each of the widths gives, in their order.
pub open spec fn resize_results(source: ImageView, widths: Seq<u32>) -> Seq<
    Result<ImageView, PipelineError>,
> {
    Seq::new(widths.len(), |i: int| resize_result(source, widths[i] as nat))
}

/// What each stage returned, with the buffers read as images.
pub open spec fn outcomes(results: Seq<Result<PixelBuffer, PipelineError>>) -> Seq<
    Result<ImageView, PipelineError>,
> {
    Seq::new(results.len(), |i: int| outcome(results[i]))
}

/// The failure of the first of the results that failed, if any did.
pub open spec fn first_failure(results: Seq<Result<ImageView, PipelineError>>) -> Option<
    PipelineError,
>
    decreases results.len(),
{
    if results.len() == 0 {
        None
    } else {
        match first_failure(results.drop_last()) {
            Some(e) => Some(e),
            None => match results.last() {
                Ok(_) => None,
                Err(e) => Some(e),
            },
        }
    }
}

/// The images of results that all succeeded.
pub open spec fn successes(results: Seq<Result<ImageView, PipelineError>>) -> Seq<ImageView> {
    Seq::new(results.len(), |i: int| results[i]->Ok_0)
}

/// What stitching thumbnails that were computed apart gives: the failure of
/// the first thumbnail that failed, by its place and not by when it was
/// computed, else the strip of the thumbnails in their order.
pub open spec fn stitched_outcomes(results: Seq<Result<ImageView, PipelineError>>) -> Result<
    ImageView,
    PipelineError,
> {
    match first_failure(results) {
        Some(e) => Err(e),
        None => strip_result(successes(results)),
    }
}

/// Two results stitched: the stitched image of two images, the failure of
/// the left where there is one, else that of the right.
pub open spec fn stitch_results(
    left: Result<ImageView, PipelineError>,
    right: Result<ImageView, PipelineError>,
) -> Result<ImageView, PipelineError> {
    match left {
        Ok(l) => match right {
            Ok(r) => stitch_result(l, r),
            Err(e) => Err(e),
        },
        Err(e) => Err(e),
    }
}

/// Stitches the images from left to right, the first leftmost. One image is
/// returned as it is. Fails with `InvalidDimensions` on no image, and as the
/// first stitch that fails: `EmptyImage` where an image has no columns,
/// `InvalidDimensions` where the strip would be larger than a buffer.
pub fn stitch_all(images: &[PixelBuffer]) -> (out: Result<PixelBuffer, PipelineError>)
    ensures
        outcome(out) == strip_result(views_of(images@)),
        out is Ok ==> out->Ok_0@ == strip_of(views_of(images@)) && out->Ok_0@.wf(),
{
    let count = images.len();
    if count == 0 {
        return Err(PipelineError::InvalidDimensions);
    }
    let ghost all = views_of(images@);
    let mut strip = images[0].clone();
    assert(all.take(1) =~= seq![images@[0]@]);
    let mut i: usize = 1;
    while i < count
        invariant
            1 <= i <= count,
            count == images.len(),
            all == views_of(images@),
            strip_result(all.take(i as int)) == Ok::<ImageView, PipelineError>(strip@),
            strip@ == strip_of(all.take(i as int)),
            strip@.wf(),
        decreases count - i,
    {
        proof {
            assert(all.take(i + 1).drop_last() =~= all.take(i as int));
            assert(all.take(i + 1).last() == images@[i as int]@);
        }
        match stitch_horizontal(&strip, &images[i]) {
            Ok(next) => {
                strip = next;
            },
            Err(e) => {
                proof {
                    lemma_strip_failure_stays(all, i + 1);
                }
                return Err(e);
            },
        }
        i += 1;
    }
    assert(all.take(count as int) =~= all);
    Ok(strip)
}

/// Composes the strip of the images in one pass: a white background as wide
/// as all of them and as tall as the tallest, and each image copied onto it
/// at its left edge. The result, and each failure, is that of stitching the
/// images pair by pair from the left.
pub fn compose_strip(images: &[PixelBuffer]) -> (out: Result<PixelBuffer, PipelineError>)
    ensures
        outcome(out) == strip_result(views_of(images@)),
        out is Ok ==> out->Ok_0@ == strip_of(views_of(images@)) && out->Ok_0@.wf(),
{
    let count = images.len();
    if count == 0 {
        return Err(PipelineError::InvalidDimensions);
    }
    let ghost all = views_of(images@);
    let mut width: u32 = images[0].width();
    let mut height: u32 = images[0].height();
    proof {
        assert(all.take(1) =~= seq![images@[0]@]);
        assert(all.take(1).drop_last().len() == 0);
        assert(total_width(all.take(1).drop_last()) == 0);
        assert(tallest(all.take(1).drop_last()) == 0);
    }
    let mut i: usize = 1;
    while i < count
        invariant
            1 <= i <= count,
            count == images.len(),
            all == views_of(images@),
            strip_result(all.take(i as int)) == Ok::<ImageView, PipelineError>(
                strip_of(all.take(i as int)),
            ),
            strip_of(all.take(i as int)).wf(),
            width == total_width(all.take(i as int)),
            height == tallest(all.take(i as int)),
        decreases count - i,
    {
        let next_width = images[i].width();
        let next_height = images[i].height();
        proof {
            assert(all.take(i + 1).drop_last() =~= all.take(i as int));
            assert(all.take(i + 1).last() == images@[i as int]@);
            lemma_strip_size(all.take(i as int));
            lemma_strip_size(all.take(i + 1));
        }
        if width == 0 || next_width == 0 {
            proof {
                lemma_strip_failure_stays(all, i + 1);
            }
            return Err(PipelineError::EmptyImage);
        }
        let taller_height = if height >= next_height {
            height
        } else {
            next_height
        };
        if next_width > u32::MAX - width || byte_length(width + next_width, taller_height).is_none() {
            proof {
                lemma_strip_failure_stays(all, i + 1);
            }
            return Err(PipelineError::InvalidDimensions);
        }
        width = width + next_width;
        height = taller_height;
        i += 1;
    }
    proof {
        assert(all.take(count as int) =~= all);
        lemma_strip_size(all);
    }
    let len = match byte_length(width, height) {
        Some(len) => len,
        None => {
            return Err(PipelineError::InvalidDimensions);
        },
    };
    let mut pixels = vec![FILL; len];
    let mut x_offset: u32 = 0;
    let mut k: usize = 0;
    assert(all.take(0).len() == 0);
    while k < count
        invariant
            k <= count,
            count == images.len(),
            count >= 1,
            all == views_of(images@),
            width == total_width(all),
            height == tallest(all),
            len == 4 * width * height,
            len <= MAX_BYTES,
            pixels.len() == len,
            x_offset == left_edge(all, k as int),
            forall|j: int|
                0 <= j < len ==> #[trigger] pixels@[j] == composite_channel(
                    all,
                    k as int,
                    column_of(width as nat, j),
                    row_of(width as nat, j),
                    j % 4,
                ),
        decreases count - k,
    {
        let image = &images[k];
        let image_width = image.width();
        proof {
            assert(all.take(k + 1).drop_last() =~= all.take(k as int));
            assert(all.take(k + 1).last() == image@);
            lemma_edges_grow(all, k + 1, count as int);
            assert(all.take(count as int) =~= all);
            lemma_tallest_bounds(all, k as int);
            assert(4 * width * image@.height <= 4 * width * height) by (nonlinear_arith)
                requires
                    image@.height <= height,
                    0 <= width,
            ;
        }
        copy_into(pixels.as_mut_slice(), width, image, x_offset);
        x_offset = x_offset + image_width;
        k += 1;
    }
    proof {
        let strip = strip_of(all);
        lemma_strip_size(all);
        lemma_strip_result_is_strip(all);
        assert(strip.pixels.len() == len);
        assert(width == 0 ==> len == 0) by (nonlinear_arith)
            requires
                len == 4 * width * height,
        ;
        assert forall|j: int| 0 <= j < len implies pixels@[j] == strip.pixels[j] by {
            lemma_offset_coordinates(width as int, height as int, j);
            lemma_composite_is_strip(
                all,
                column_of(width as nat, j),
                row_of(width as nat, j),
                j % 4,
            );
        }
        assert(pixels@ =~= strip.pixels);
    }
    Ok(PixelBuffer::from_parts(width, height, pixels))
}

/// Stitches thumbnails that were computed apart, each result at the place of
/// its width. If one failed, nothing is built and the failure of the first
/// that failed is returned; else the thumbnails are stitched from left to
/// right.
pub fn stitch_outcomes(results: Vec<Result<PixelBuffer, PipelineError>>) -> (out: Result<
    PixelBuffer,
    PipelineError,
>)
    ensures
        outcome(out) == stitched_outcomes(outcomes(results@)),
{
    let ghost all = outcomes(results@);
    let mut images: Vec<PixelBuffer> = Vec::new();
    assert(all.take(0) =~= Seq::empty());
    for result in it: results
        invariant
            all == outcomes(results@),
            images.len() == it.index(),
            first_failure(all.take(it.index() as int)) is None,
            views_of(images@) =~= successes(all.take(it.index() as int)),
    {
        proof {
            assert(all.take(it.index() + 1).drop_last() =~= all.take(it.index() as int));
            assert(all.take(it.index() + 1).last() == outcome(result));
        }
        match result {
            Ok(image) => {
                let ghost before = images@;
                images.push(image);
                proof {
                    let done = it.index() as int;
                    assert forall|j: int| 0 <= j < done + 1 implies views_of(images@)[j]
                        == successes(all.take(done + 1))[j] by {
                        if j < done {
                            assert(views_of(before)[j] == successes(all.take(done))[j]);
                        }
                    }
                }
            },
            Err(e) => {
                proof {
                    lemma_first_failure_stays(all, it.index() + 1);
                }
                return Err(e);
            },
        }
    }
    assert(all.take(results@.len() as int) =~= all);
    stitch_all(images.as_slice())
}

/// Builds the thumbnail strip of `source`: resizes it to each of the widths
/// and stitches the thumbnails from left to right in the order of the
/// widths, so that the strip is `((t0 | t1) | t2) | ..` whatever the order in
/// which the thumbnails were computed. Fails with `InvalidDimensions` when
/// there is no width, when the source cannot be resized to one of them, and
/// when the strip would be larger than a buffer; nothing is built then.
pub fn build_strip(source: &PixelBuffer, widths: &[u32]) -> (out: Result<
    PixelBuffer,
    PipelineError,
>)
    ensures
        outcome(out) == build_result(source@, widths@),
        out is Ok ==> {
            &&& out->Ok_0@ == strip_of(thumbnails(source@, widths@))
            &&& out->Ok_0@.wf()
            &&& out->Ok_0@.width == sum_of(widths@)
            &&& out->Ok_0@.height == tallest(thumbnails(source@, widths@))
        },
        out is Err ==> out->Err_0 == PipelineError::InvalidDimensions,
{
    let count = widths.len();
    let mut resized_all: Vec<PixelBuffer> = Vec::new();
    let mut i: usize = 0;
    while i < count
        invariant
            i <= count,
            count == widths.len(),
            resized_all.len() == i,
            forall|k: int| 0 <= k < i ==> resizable(source@, #[trigger] widths@[k] as nat),
            forall|k: int|
                0 <= k < i ==> (#[trigger] resized_all@[k])@ == resized(source@, widths@[k] as nat),
        decreases count - i,
    {
        match resize(source, widths[i]) {
            Ok(thumbnail) => {
                resized_all.push(thumbnail);
            },
            Err(e) => {
                return Err(e);
            },
        }
        i += 1;
    }
    proof {
        assert(all_resizable(source@, widths@));
        assert(views_of(resized_all@) =~= thumbnails(source@, widths@));
        lemma_strip_of_thumbnails(source@, widths@);
        lemma_thumbnails_width(source@, widths@);
        if count > 0 {
            lemma_strip_size(thumbnails(source@, widths@));
        }
    }
    compose_strip(resized_all.as_slice())
}

} // verus!
