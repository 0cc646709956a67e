//! What holds of thumbnail strips: their size, where each image lies in
//! them, and that neither the order of resizing nor the way of composing
//! changes them.

use vstd::prelude::*;
use crate::buffer::ImageView;
use crate::compose::{covers, lemma_stitched_channel, stitch_result, stitched, FILL};
use crate::error::PipelineError;
use crate::resize::{resizable, resize_result, resized};
use crate::strip::{
    all_resizable, build_result, composite_channel, first_failure, left_edge, resize_results,
    stitch_results, stitched_outcomes, strip_of, strip_result, successes, sum_of, tallest,
    thumbnails, total_width,
};

verus! {

/// Once the fold has failed on the first `k` images, it has failed on all,
/// and in the same way.
pub(crate) proof fn lemma_strip_failure_stays(images: Seq<ImageView>, k: int)
    requires
        1 <= k <= images.len(),
        strip_result(images.take(k)) is Err,
    ensures
        strip_result(images) == strip_result(images.take(k)),
    decreases images.len() - k,
{
    if k == images.len() {
        assert(images.take(k) =~= images);
    } else {
        let next = images.take(k + 1);
        assert(next.drop_last() =~= images.take(k));
        assert(strip_result(next) == strip_result(images.take(k)));
        lemma_strip_failure_stays(images, k + 1);
    }
}

/// Where the fold succeeds, it gives the strip.
pub(crate) proof fn lemma_strip_result_is_strip(images: Seq<ImageView>)
    requires
        strip_result(images) is Ok,
    ensures
        strip_result(images) == Ok::<ImageView, PipelineError>(strip_of(images)),
    decreases images.len(),
{
    if images.len() >= 2 {
        lemma_strip_result_is_strip(images.drop_last());
    }
}

/// A failure among the first `k` results is the first failure of all.
pub(crate) proof fn lemma_first_failure_stays(results: Seq<Result<ImageView, PipelineError>>, k: int)
    requires
        0 <= k <= results.len(),
        first_failure(results.take(k)) is Some,
    ensures
        first_failure(results) == first_failure(results.take(k)),
    decreases results.len() - k,
{
    if k == results.len() {
        assert(results.take(k) =~= results);
    } else {
        assert(results.take(k + 1).drop_last() =~= results.take(k));
        lemma_first_failure_stays(results, k + 1);
    }
}

/// A strip is as wide as its images together and as tall as the tallest.
pub proof fn lemma_strip_size(images: Seq<ImageView>)
    requires
        images.len() >= 1,
    ensures
        strip_of(images).width == total_width(images),
        strip_of(images).height == tallest(images),
    decreases images.len(),
{
    if images.len() == 1 {
        assert(images.drop_last().len() == 0);
        assert(total_width(images.drop_last()) == 0);
        assert(tallest(images.drop_last()) == 0);
    } else {
        lemma_strip_size(images.drop_last());
    }
}

/// No image is taller than the tallest.
pub proof fn lemma_tallest_bounds(images: Seq<ImageView>, k: int)
    requires
        0 <= k < images.len(),
    ensures
        images[k].height <= tallest(images),
    decreases images.len(),
{
    if k < images.len() - 1 {
        lemma_tallest_bounds(images.drop_last(), k);
    }
}

/// Left edges grow from image to image.
pub proof fn lemma_edges_grow(images: Seq<ImageView>, i: int, j: int)
    requires
        0 <= i <= j <= images.len(),
    ensures
        left_edge(images, i) <= left_edge(images, j),
    decreases j - i,
{
    if i < j {
        assert(images.take(j).drop_last() =~= images.take(j - 1));
        lemma_edges_grow(images, i, j - 1);
    }
}

/// A strip holds each of its images in the columns from that image's left
/// edge on, rows from the top, and is white below it: the strip is the
/// images copied side by side onto a white background, one pass over each.
pub proof fn lemma_strip_channel(images: Seq<ImageView>, k: int, x: int, y: int, c: int)
    requires
        0 <= k < images.len(),
        left_edge(images, k) <= x < left_edge(images, k) + images[k].width,
        0 <= y < tallest(images),
        0 <= c < 4,
    ensures
        strip_of(images).channel(x, y, c) == if y < images[k].height {
            images[k].channel(x - left_edge(images, k), y, c)
        } else {
            FILL
        },
    decreases images.len(),
{
    let count = images.len() as int;
    if count == 1 {
        assert(images.take(0).len() == 0);
        assert(images.drop_last().len() == 0);
        assert(tallest(images.drop_last()) == 0);
    } else {
        let before = images.drop_last();
        lemma_strip_size(before);
        lemma_strip_size(images);
        assert(before =~= images.take(count - 1));
        if k == count - 1 {
            lemma_stitched_channel(strip_of(before), images.last(), x, y, c);
        } else {
            assert(before.take(k) =~= images.take(k));
            assert(before.take(k + 1) =~= images.take(k + 1));
            assert(before.take(count - 1) =~= before);
            lemma_edges_grow(before, k + 1, count - 1);
            assert(images.take(k + 1).drop_last() =~= images.take(k));
            assert(images.take(k + 1).last() == images[k]);
            assert(left_edge(images, k + 1) == left_edge(images, k) + images[k].width);
            lemma_stitched_channel(strip_of(before), images.last(), x, y, c);
            lemma_tallest_bounds(before, k);
            if y < tallest(before) {
                lemma_strip_channel(before, k, x, y, c);
            }
        }
    }
}

/// Right of the images copied so far, and below the tallest of them, the
/// background is still white.
pub(crate) proof fn lemma_composite_outside(images: Seq<ImageView>, k: int, x: int, y: int, c: int)
    requires
        0 <= k <= images.len(),
        x >= left_edge(images, k) || y >= tallest(images.take(k)),
    ensures
        composite_channel(images, k, x, y, c) == FILL,
    decreases k,
{
    if k > 0 {
        assert(images.take(k).drop_last() =~= images.take(k - 1));
        assert(images.take(k).last() == images[k - 1]);
        lemma_composite_outside(images, k - 1, x, y, c);
    }
}

/// What the first `k` images leave on the background does not depend on the
/// images after them.
pub(crate) proof fn lemma_composite_prefix(images: Seq<ImageView>, m: int, k: int, x: int, y: int, c: int)
    requires
        0 <= k <= m <= images.len(),
    ensures
        composite_channel(images.take(m), k, x, y, c) == composite_channel(images, k, x, y, c),
    decreases k,
{
    if k > 0 {
        assert(images.take(m).take(k - 1) =~= images.take(k - 1));
        lemma_composite_prefix(images, m, k - 1, x, y, c);
    }
}

/// Copying every image onto a white background at its left edge gives the
/// strip: one pass over the images and stitching them pair by pair from the
/// left agree on every channel.
pub proof fn lemma_composite_is_strip(images: Seq<ImageView>, x: int, y: int, c: int)
    requires
        images.len() >= 1,
        0 <= x < total_width(images),
        0 <= y < tallest(images),
        0 <= c < 4,
    ensures
        composite_channel(images, images.len() as int, x, y, c) == strip_of(images).channel(
            x,
            y,
            c,
        ),
    decreases images.len(),
{
    let count = images.len() as int;
    let before = images.drop_last();
    assert(before =~= images.take(count - 1));
    if count == 1 {
        assert(total_width(before) == 0);
        assert(tallest(before) == 0);
        assert(composite_channel(images, 0, x, y, c) == FILL);
    } else {
        lemma_strip_size(before);
        lemma_strip_size(images);
        lemma_stitched_channel(strip_of(before), images.last(), x, y, c);
        if !covers(images[count - 1], left_edge(images, count - 1), x, y) {
            lemma_composite_prefix(images, count - 1, count - 1, x, y, c);
            assert(before.take(count - 1) =~= before);
            if x < total_width(before) && y < tallest(before) {
                lemma_composite_is_strip(before, x, y, c);
            } else {
                lemma_composite_outside(before, count - 1, x, y, c);
            }
        }
    }
}

/// The thumbnails are together as wide as the widths added up.
pub proof fn lemma_thumbnails_width(source: ImageView, widths: Seq<u32>)
    ensures
        total_width(thumbnails(source, widths)) == sum_of(widths),
    decreases widths.len(),
{
    if widths.len() > 0 {
        assert(thumbnails(source, widths).drop_last() =~= thumbnails(source, widths.drop_last()));
        lemma_thumbnails_width(source, widths.drop_last());
    }
}

/// A strip of thumbnails never fails for want of columns: every thumbnail
/// has some, and so has every strip of them.
pub proof fn lemma_strip_of_thumbnails(source: ImageView, widths: Seq<u32>)
    requires
        all_resizable(source, widths),
    ensures
        strip_result(thumbnails(source, widths)) != Err::<ImageView, PipelineError>(
            PipelineError::EmptyImage,
        ),
        strip_result(thumbnails(source, widths)) is Err ==> strip_result(
            thumbnails(source, widths),
        ) == Err::<ImageView, PipelineError>(PipelineError::InvalidDimensions),
        strip_result(thumbnails(source, widths)) is Ok ==> strip_result(
            thumbnails(source, widths),
        )->Ok_0.width > 0,
    decreases widths.len(),
{
    let all = thumbnails(source, widths);
    if widths.len() >= 1 {
        assert(resizable(source, widths[widths.len() - 1] as nat));
    }
    if widths.len() >= 2 {
        assert(all.drop_last() =~= thumbnails(source, widths.drop_last()));
        assert forall|i: int| 0 <= i < widths.drop_last().len() implies resizable(
            source,
            #[trigger] widths.drop_last()[i] as nat,
        ) by {
            assert(widths.drop_last()[i] == widths[i]);
        }
        lemma_strip_of_thumbnails(source, widths.drop_last());
    }
}

/// A strip of three thumbnails is the first two stitched, and the third
/// stitched to their right.
pub proof fn lemma_strip_of_three(a: ImageView, b: ImageView, c: ImageView)
    ensures
        strip_of(seq![a, b, c]) == stitched(stitched(a, b), c),
        strip_result(seq![a, b, c]) == match stitch_result(a, b) {
            Ok(ab) => stitch_result(ab, c),
            Err(e) => Err(e),
        },
{
    let all = seq![a, b, c];
    assert(all.drop_last() =~= seq![a, b]);
    assert(seq![a, b].drop_last() =~= seq![a]);
    assert(strip_of(seq![a]) == a);
    assert(strip_of(seq![a, b]) == stitched(a, b));
    assert(strip_result(seq![a]) == Ok::<ImageView, PipelineError>(a));
    assert(strip_result(seq![a, b]) == stitch_result(a, b));
}

/// The strip of a source at three widths is what resizing to each width and
/// stitching the three thumbnails from left to right gives, in whatever
/// order the thumbnails are computed: each thumbnail depends on the source
/// and its own width alone.
pub proof fn lemma_build_three(source: ImageView, w1: u32, w2: u32, w3: u32)
    ensures
        build_result(source, seq![w1, w2, w3]) == stitch_results(
            stitch_results(resize_result(source, w1 as nat), resize_result(source, w2 as nat)),
            resize_result(source, w3 as nat),
        ),
{
    let widths = seq![w1, w2, w3];
    let a = resized(source, w1 as nat);
    let b = resized(source, w2 as nat);
    let c = resized(source, w3 as nat);
    assert(widths[0] == w1 && widths[1] == w2 && widths[2] == w3);
    if all_resizable(source, widths) {
        assert(resizable(source, widths[0] as nat));
        assert(resizable(source, widths[1] as nat));
        assert(resizable(source, widths[2] as nat));
        assert(thumbnails(source, widths) =~= seq![a, b, c]);
        lemma_strip_of_three(a, b, c);
    } else {
        if resizable(source, w1 as nat) && resizable(source, w2 as nat) {
            assert(!resizable(source, w3 as nat));
            lemma_strip_of_thumbnails(source, seq![w1, w2]);
            assert(thumbnails(source, seq![w1, w2]) =~= seq![a, b]);
            assert(seq![a, b].drop_last() =~= seq![a]);
            assert(strip_result(seq![a]) == Ok::<ImageView, PipelineError>(a));
            assert(strip_result(seq![a, b]) == stitch_result(a, b));
        }
    }
}

/// Among the results of resizing, the first failure is `InvalidDimensions`,
/// and there is one exactly when some width cannot be resized to.
pub(crate) proof fn lemma_first_failure_of_resizes(source: ImageView, widths: Seq<u32>)
    ensures
        first_failure(resize_results(source, widths)) == if all_resizable(source, widths) {
            None::<PipelineError>
        } else {
            Some(PipelineError::InvalidDimensions)
        },
    decreases widths.len(),
{
    let results = resize_results(source, widths);
    if widths.len() > 0 {
        let before = widths.drop_last();
        assert(results.drop_last() =~= resize_results(source, before));
        lemma_first_failure_of_resizes(source, before);
        if all_resizable(source, widths) {
            assert forall|i: int| 0 <= i < before.len() implies resizable(
                source,
                #[trigger] before[i] as nat,
            ) by {
                assert(before[i] == widths[i]);
            }
            assert(resizable(source, widths[widths.len() - 1] as nat));
        } else if all_resizable(source, before) {
            assert(!resizable(source, widths.last() as nat)) by {
                if resizable(source, widths.last() as nat) {
                    assert forall|i: int| 0 <= i < widths.len() implies resizable(
                        source,
                        #[trigger] widths[i] as nat,
                    ) by {
                        if i < before.len() {
                            assert(before[i] == widths[i]);
                        }
                    }
                }
            }
        }
    }
}

/// Building a strip gives what stitching thumbnails computed apart gives:
/// the thumbnails may be computed at once or one after another, in any
/// order, as long as each result is put at the place of its width.
pub proof fn lemma_build_in_any_order(source: ImageView, widths: Seq<u32>)
    ensures
        build_result(source, widths) == stitched_outcomes(resize_results(source, widths)),
{
    lemma_first_failure_of_resizes(source, widths);
    if all_resizable(source, widths) {
        assert(successes(resize_results(source, widths)) =~= thumbnails(source, widths)) by {
            assert forall|i: int| 0 <= i < widths.len() implies successes(
                resize_results(source, widths),
            )[i] == thumbnails(source, widths)[i] by {
                assert(resizable(source, widths[i] as nat));
            }
        }
    }
}

} // verus!
