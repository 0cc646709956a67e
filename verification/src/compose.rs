//! Placing images side by side over a white background.

use vstd::prelude::*;
use crate::buffer::{
    byte_length, lemma_offset_coordinates, lemma_offset_in_bounds, outcome, ImageView, PixelBuffer,
};
use crate::error::PipelineError;

verus! {

/// The value of every channel that no image covers: opaque white.
pub const FILL: u8 = 255;

/// The column of the channel at offset `i` in rows of the given width.
pub open spec fn column_of(width: nat, i: int) -> int {
    (i / 4) % (width as int)
}

/// The row of the channel at offset `i` in rows of the given width.
pub open spec fn row_of(width: nat, i: int) -> int {
    (i / 4) / (width as int)
}

/// `src`, placed with its left edge at column `x_offset` and its top at row
/// 0, covers column `x` of row `y`.
pub open spec fn covers(src: ImageView, x_offset: nat, x: int, y: int) -> bool {
    x_offset <= x < x_offset + src.width && 0 <= y < src.height
}

/// The bytes `dst`, read as rows of `dst_width` pixels, after `src` has been
/// copied over them with its left edge at column `x_offset`: what `src`
/// covers holds the pixels of `src`, the rest is as it was.
pub open spec fn placed(dst: Seq<u8>, dst_width: nat, src: ImageView, x_offset: nat) -> Seq<u8> {
    Seq::new(
        dst.len(),
        |i: int|
            if covers(src, x_offset, column_of(dst_width, i), row_of(dst_width, i)) {
                src.channel(column_of(dst_width, i) - x_offset, row_of(dst_width, i), i % 4)
            } else {
                dst[i]
            },
    )
}

/// `placed`, when only the rows above `rows` and the first `cols` columns of
/// row `rows` have been copied.
spec fn placed_upto(
    dst: Seq<u8>,
    dst_width: nat,
    src: ImageView,
    x_offset: nat,
    rows: int,
    cols: int,
) -> Seq<u8> {
    Seq::new(
        dst.len(),
        |i: int|
            if covers(src, x_offset, column_of(dst_width, i), row_of(dst_width, i)) && (row_of(
                dst_width,
                i,
            ) < rows || (row_of(dst_width, i) == rows && column_of(dst_width, i) - x_offset
                < cols)) {
                src.channel(column_of(dst_width, i) - x_offset, row_of(dst_width, i), i % 4)
            } else {
                dst[i]
            },
    )
}

/// Copying one more pixel of `src` changes the four bytes of that pixel and
/// nothing else.
proof fn lemma_place_pixel(
    before: Seq<u8>,
    dst_width: nat,
    src: ImageView,
    x_offset: nat,
    y: int,
    x: int,
)
    requires
        src.wf(),
        x_offset + src.width <= dst_width,
        4 * dst_width * src.height <= before.len(),
        0 <= y < src.height,
        0 <= x < src.width,
    ensures
        0 <= (y * dst_width + x_offset + x) * 4,
        (y * dst_width + x_offset + x) * 4 + 3 < before.len(),
        0 <= (y * src.width + x) * 4,
        (y * src.width + x) * 4 + 3 < src.pixels.len(),
        placed_upto(before, dst_width, src, x_offset, y, x + 1) == placed_upto(
            before,
            dst_width,
            src,
            x_offset,
            y,
            x,
        ).update((y * dst_width + x_offset + x) * 4, src.pixels[(y * src.width + x) * 4]).update(
            (y * dst_width + x_offset + x) * 4 + 1,
            src.pixels[(y * src.width + x) * 4 + 1],
        ).update(
            (y * dst_width + x_offset + x) * 4 + 2,
            src.pixels[(y * src.width + x) * 4 + 2],
        ).update(
            (y * dst_width + x_offset + x) * 4 + 3,
            src.pixels[(y * src.width + x) * 4 + 3],
        ),
{
    let dw = dst_width as int;
    let base = (y * dw + x_offset + x) * 4;
    let sbase = (y * src.width + x) * 4;
    lemma_offset_in_bounds(dw, src.height as int, x_offset + x, y, 0);
    lemma_offset_in_bounds(dw, src.height as int, x_offset + x, y, 1);
    lemma_offset_in_bounds(dw, src.height as int, x_offset + x, y, 2);
    lemma_offset_in_bounds(dw, src.height as int, x_offset + x, y, 3);
    lemma_offset_in_bounds(src.width as int, src.height as int, x, y, 3);
    let one = placed_upto(before, dst_width, src, x_offset, y, x);
    let two = placed_upto(before, dst_width, src, x_offset, y, x + 1);
    let upd = one.update(base, src.pixels[sbase]).update(base + 1, src.pixels[sbase + 1]).update(
        base + 2,
        src.pixels[sbase + 2],
    ).update(base + 3, src.pixels[sbase + 3]);
    assert forall|i: int| 0 <= i < before.len() implies two[i] == upd[i] by {
        if base <= i <= base + 3 {
            let c = i - base;
            lemma_offset_in_bounds(dw, src.height as int, x_offset + x, y, c);
            assert(column_of(dst_width, i) == x_offset + x);
            assert(row_of(dst_width, i) == y);
            assert(i % 4 == c);
            assert(src.channel(x, y, c) == src.pixels[sbase + c]);
        } else {
            assert(4 * dw * (before.len() as int + 1) > i) by (nonlinear_arith)
                requires
                    dw >= 1,
                    0 <= i < before.len(),
            ;
            lemma_offset_coordinates(dw, before.len() as int + 1, i);
            if row_of(dst_width, i) == y && column_of(dst_width, i) == x_offset + x {
                assert(i == base + i % 4);
            }
        }
    }
    assert(two =~= upd);
}

/// Copies `src` into `dst`, read as rows of `dst_width` pixels, with the left
/// edge of `src` at column `x_offset` and its top at row 0. Every pixel of
/// `src` lands at offset `((y * dst_width + x_offset + x) * 4) + channel`;
/// no other byte of `dst` changes.
pub fn copy_into(dst: &mut [u8], dst_width: u32, src: &PixelBuffer, x_offset: u32)
    requires
        x_offset + src@.width <= dst_width,
        4 * dst_width * src@.height <= old(dst)@.len(),
    ensures
        final(dst)@ == placed(old(dst)@, dst_width as nat, src@, x_offset as nat),
{
    let src_pixels = src.pixels();
    let src_width = src.width();
    let src_height = src.height();
    let ghost before = dst@;
    assert(dst@ =~= placed_upto(before, dst_width as nat, src@, x_offset as nat, 0, 0));
    let mut y: u32 = 0;
    while y < src_height
        invariant
            y <= src_height,
            src@.wf(),
            src_width == src@.width,
            src_height == src@.height,
            src_pixels@ == src@.pixels,
            x_offset + src_width <= dst_width,
            4 * dst_width * src_height <= before.len() == dst.len(),
            dst@ == placed_upto(before, dst_width as nat, src@, x_offset as nat, y as int, 0),
        decreases src_height - y,
    {
        let mut x: u32 = 0;
        while x < src_width
            invariant
                y < src_height,
                x <= src_width,
                src@.wf(),
                src_width == src@.width,
                src_height == src@.height,
                src_pixels@ == src@.pixels,
                x_offset + src_width <= dst_width,
                4 * dst_width * src_height <= before.len() == dst.len(),
                dst@ == placed_upto(
                    before,
                    dst_width as nat,
                    src@,
                    x_offset as nat,
                    y as int,
                    x as int,
                ),
            decreases src_width - x,
        {
            proof {
                lemma_place_pixel(before, dst_width as nat, src@, x_offset as nat, y as int, x as int);
                assert(y * dst_width <= (y * dst_width + x_offset + x) * 4) by (nonlinear_arith)
                    requires
                        0 <= y,
                        0 <= dst_width,
                        0 <= x_offset,
                        0 <= x,
                ;
                assert(y * src_width <= (y * src_width + x) * 4) by (nonlinear_arith)
                    requires
                        0 <= y,
                        0 <= src_width,
                        0 <= x,
                ;
            }
            let src_idx: usize = (y as usize * src_width as usize + x as usize) * 4;
            let dst_idx: usize = (y as usize * dst_width as usize + x_offset as usize + x as usize)
                * 4;
            dst[dst_idx] = src_pixels[src_idx];
            dst[dst_idx + 1] = src_pixels[src_idx + 1];
            dst[dst_idx + 2] = src_pixels[src_idx + 2];
            dst[dst_idx + 3] = src_pixels[src_idx + 3];
            x += 1;
        }
        assert(dst@ =~= placed_upto(
            before,
            dst_width as nat,
            src@,
            x_offset as nat,
            y as int + 1,
            0,
        ));
        y += 1;
    }
    assert(dst@ =~= placed(before, dst_width as nat, src@, x_offset as nat));
}

/// The taller of two heights.
pub open spec fn taller(a: nat, b: nat) -> nat {
    if a >= b {
        a
    } else {
        b
    }
}

/// Channel `c` of column `x` and row `y` of `left` and `right` side by side:
/// `left` fills the columns before `left.width`, `right` those from there on,
/// and below the shorter of the two the channel is white.
pub open spec fn stitched_channel(left: ImageView, right: ImageView, x: int, y: int, c: int) -> u8 {
    if x < left.width {
        if y < left.height {
            left.channel(x, y, c)
        } else {
            FILL
        }
    } else {
        if y < right.height {
            right.channel(x - left.width, y, c)
        } else {
            FILL
        }
    }
}

/// `left` and `right` side by side, tops aligned, on a white background as
/// wide as both and as tall as the taller.
pub open spec fn stitched(left: ImageView, right: ImageView) -> ImageView {
    let width = left.width + right.width;
    let height = taller(left.height, right.height);
    ImageView {
        width,
        height,
        pixels: Seq::new(
            4 * width * height,
            |i: int| stitched_channel(left, right, column_of(width, i), row_of(width, i), i % 4),
        ),
    }
}

/// What stitching `left` and `right` gives: the stitched image, or the
/// reason why there is none.
pub open spec fn stitch_result(left: ImageView, right: ImageView) -> Result<
    ImageView,
    PipelineError,
> {
    if left.width == 0 || right.width == 0 {
        Err(PipelineError::EmptyImage)
    } else if !stitched(left, right).wf() {
        Err(PipelineError::InvalidDimensions)
    } else {
        Ok(stitched(left, right))
    }
}

/// Read by coordinates, a stitched image is what `stitched_channel` says.
pub proof fn lemma_stitched_channel(left: ImageView, right: ImageView, x: int, y: int, c: int)
    requires
        stitched(left, right).contains(x, y, c),
    ensures
        stitched(left, right).channel(x, y, c) == stitched_channel(left, right, x, y, c),
{
    let out = stitched(left, right);
    lemma_offset_in_bounds(out.width as int, out.height as int, x, y, c);
}

/// A white background with `left` copied to column 0 and `right` copied to
/// column `left.width` holds the bytes of the stitched image.
proof fn lemma_stitched_by_placing(left: ImageView, right: ImageView, white: Seq<u8>)
    requires
        left.wf(),
        right.wf(),
        0 < left.width,
        white.len() == 4 * (left.width + right.width) * taller(left.height, right.height),
        forall|i: int| 0 <= i < white.len() ==> white[i] == FILL,
    ensures
        placed(
            placed(white, left.width + right.width, left, 0),
            left.width + right.width,
            right,
            left.width,
        ) == stitched(left, right).pixels,
{
    let width = left.width + right.width;
    let height = taller(left.height, right.height);
    let one = placed(white, width, left, 0);
    let two = placed(one, width, right, left.width);
    let want = stitched(left, right).pixels;
    assert forall|i: int| 0 <= i < white.len() implies two[i] == want[i] by {
        lemma_offset_coordinates(width as int, height as int, i);
    }
    assert(two =~= want);
}

/// Stitches two images side by side, `left` first. The result is as wide as
/// both together and as tall as the taller; below the shorter image it is
/// white. Fails with `EmptyImage` when either image has no columns, and with
/// `InvalidDimensions` when the result would be larger than a buffer.
pub fn stitch_horizontal(left: &PixelBuffer, right: &PixelBuffer) -> (out: Result<
    PixelBuffer,
    PipelineError,
>)
    ensures
        outcome(out) == stitch_result(left@, right@),
        match out {
            Ok(buf) => {
                &&& left@.width > 0 && right@.width > 0
                &&& buf@ == stitched(left@, right@)
                &&& buf@.wf()
                &&& buf@.width == left@.width + right@.width
                &&& buf@.height == taller(left@.height, right@.height)
            },
            Err(PipelineError::EmptyImage) => left@.width == 0 || right@.width == 0,
            Err(PipelineError::InvalidDimensions) => {
                &&& left@.width > 0 && right@.width > 0
                &&& !stitched(left@, right@).wf()
            },
            Err(PipelineError::UnknownFilter(_)) => false,
        },
{
    let left_width = left.width();
    let right_width = right.width();
    if left_width == 0 || right_width == 0 {
        return Err(PipelineError::EmptyImage);
    }
    let left_height = left.height();
    let right_height = right.height();
    let new_height = if left_height >= right_height {
        left_height
    } else {
        right_height
    };
    if right_width > u32::MAX - left_width {
        return Err(PipelineError::InvalidDimensions);
    }
    let new_width = left_width + right_width;
    match byte_length(new_width, new_height) {
        None => Err(PipelineError::InvalidDimensions),
        Some(len) => {
            let mut pixels = vec![FILL; len];
            let ghost white = pixels@;
            proof {
                assert(4 * new_width * left_height <= 4 * new_width * new_height)
                    by (nonlinear_arith)
                    requires
                        left_height <= new_height,
                        0 <= new_width,
                ;
                assert(4 * new_width * right_height <= 4 * new_width * new_height)
                    by (nonlinear_arith)
                    requires
                        right_height <= new_height,
                        0 <= new_width,
                ;
            }
            copy_into(pixels.as_mut_slice(), new_width, left, 0);
            copy_into(pixels.as_mut_slice(), new_width, right, left_width);
            proof {
                lemma_stitched_by_placing(left@, right@, white);
            }
            Ok(PixelBuffer::from_parts(new_width, new_height, pixels))
        },
    }
}

/// Below the shorter of two stitched images the result is white: a pixel in
/// the columns of one image, in a row that this image does not have, holds
/// 255 in every channel.
pub proof fn lemma_stitched_fill_is_white(
    left: ImageView,
    right: ImageView,
    x: int,
    y: int,
    c: int,
)
    requires
        stitched(left, right).contains(x, y, c),
        (x < left.width && y >= left.height) || (x >= left.width && y >= right.height),
    ensures
        stitched(left, right).channel(x, y, c) == 255,
{
    lemma_stitched_channel(left, right, x, y, c);
}

/// Inside each of two stitched images the result is that image: `left` from
/// column 0, `right` from column `left.width`.
pub proof fn lemma_stitched_keeps_both(left: ImageView, right: ImageView, x: int, y: int, c: int)
    requires
        0 <= c < 4,
    ensures
        left.contains(x, y, c) ==> stitched(left, right).channel(x, y, c) == left.channel(x, y, c),
        right.contains(x, y, c) ==> stitched(left, right).channel(left.width + x, y, c)
            == right.channel(x, y, c),
{
    if left.contains(x, y, c) {
        lemma_stitched_channel(left, right, x, y, c);
    }
    if right.contains(x, y, c) {
        lemma_stitched_channel(left, right, left.width + x, y, c);
    }
}

/// Whichever of two images comes first, the stitched image has the same
/// size.
pub proof fn lemma_stitch_orders_same_size(a: ImageView, b: ImageView)
    ensures
        stitched(a, b).width == stitched(b, a).width,
        stitched(a, b).height == stitched(b, a).height,
        stitched(a, b).pixels.len() == stitched(b, a).pixels.len(),
        stitched(a, b).wf() == stitched(b, a).wf(),
{
}

/// Stitching is not commutative. The two orders give the same image only
/// where they agree on every channel of every pixel; a single channel on
/// which `a` before `b` and `b` before `a` disagree makes the two stitched
/// images differ.
pub proof fn lemma_stitch_commutes_only_if_equal_everywhere(a: ImageView, b: ImageView)
    ensures
        stitched(a, b) == stitched(b, a) <==> (forall|x: int, y: int, c: int|
            stitched(a, b).contains(x, y, c) ==> #[trigger] stitched_channel(a, b, x, y, c)
                == stitched_channel(b, a, x, y, c)),
{
    let ab = stitched(a, b);
    let ba = stitched(b, a);
    if ab == ba {
        assert forall|x: int, y: int, c: int| ab.contains(x, y, c) implies #[trigger] stitched_channel(
            a,
            b,
            x,
            y,
            c,
        ) == stitched_channel(b, a, x, y, c) by {
            lemma_stitched_channel(a, b, x, y, c);
            lemma_stitched_channel(b, a, x, y, c);
        }
    }
    if forall|x: int, y: int, c: int|
        ab.contains(x, y, c) ==> #[trigger] stitched_channel(a, b, x, y, c) == stitched_channel(
            b,
            a,
            x,
            y,
            c,
        ) {
        assert forall|i: int| 0 <= i < ab.pixels.len() implies ab.pixels[i] == ba.pixels[i] by {
            if ab.width > 0 {
                lemma_offset_coordinates(ab.width as int, ab.height as int, i);
                let x = column_of(ab.width, i);
                let y = row_of(ab.width, i);
                assert(ab.contains(x, y, i % 4));
                assert(stitched_channel(a, b, x, y, i % 4) == stitched_channel(b, a, x, y, i % 4));
            } else {
                assert(4 * ab.width * ab.height == 0) by (nonlinear_arith)
                    requires
                        ab.width == 0,
                ;
            }
        }
        assert(ab.pixels =~= ba.pixels);
    }
}

/// Two different images of one size never commute: with the first on the
/// left, the left part of the result is the first, with the second on the
/// left it is the second.
pub proof fn lemma_stitch_order_matters(a: ImageView, b: ImageView)
    requires
        a.wf(),
        b.wf(),
        a.width == b.width,
        a.height == b.height,
        a.pixels != b.pixels,
    ensures
        stitched(a, b) != stitched(b, a),
        stitched(a, b).width == stitched(b, a).width,
        stitched(a, b).height == stitched(b, a).height,
{
    if stitched(a, b) == stitched(b, a) {
        assert forall|i: int| 0 <= i < a.pixels.len() implies a.pixels[i] == b.pixels[i] by {
            if a.width > 0 {
                lemma_offset_coordinates(a.width as int, a.height as int, i);
                let x = column_of(a.width, i);
                let y = row_of(a.width, i);
                let c = i % 4;
                lemma_stitched_keeps_both(a, b, x, y, c);
                lemma_stitched_keeps_both(b, a, x, y, c);
                assert(a.channel(x, y, c) == a.pixels[i]);
                assert(b.channel(x, y, c) == b.pixels[i]);
            } else {
                assert(4 * a.width * a.height == 0) by (nonlinear_arith)
                    requires
                        a.width == 0,
                ;
            }
        }
        assert(a.pixels =~= b.pixels);
    }
}

} // verus!
