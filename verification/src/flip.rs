//! Turning an image upside down.

use vstd::prelude::*;
use crate::buffer::{lemma_offset_coordinates, lemma_offset_in_bounds, ImageView, PixelBuffer};
use crate::compose::{column_of, row_of};
use crate::filters::filterable;

verus! {

/// The bytes of a `width` by `height` image upside down: row `y` of the
/// result is row `height - 1 - y` of the image.
pub open spec fn flipped_pixels(pixels: Seq<u8>, width: nat, height: nat) -> Seq<u8> {
    Seq::new(
        pixels.len(),
        |i: int|
            pixels[((height - 1 - row_of(width, i)) * width + column_of(width, i)) * 4 + i % 4],
    )
}

/// `image` upside down.
pub open spec fn flipped(image: ImageView) -> ImageView {
    ImageView {
        width: image.width,
        height: image.height,
        pixels: flipped_pixels(image.pixels, image.width, image.height),
    }
}

/// Calls `photon_rs::transform::flipv` on a copy of the bytes. Trusted: the
/// pixel of column `x` and row `y` goes to column `x` and row
/// `height - 1 - y`, all four channels.
#[verifier::external_body]
fn photon_flipv(pixels: &Vec<u8>, width: u32, height: u32) -> (out: Vec<u8>)
    requires
        filterable(pixels@, width, height),
    ensures
        out@ == flipped_pixels(pixels@, width as nat, height as nat),
{
    let mut image = photon_rs::PhotonImage::new(pixels.clone(), width, height);
    photon_rs::transform::flipv(&mut image);
    image.get_raw_pixels()
}

/// Turns the image upside down, in place: the top row becomes the bottom
/// row. The size stays.
pub fn flip_vertical(buffer: &mut PixelBuffer)
    ensures
        final(buffer)@ == flipped(old(buffer)@),
        final(buffer)@.wf(),
{
    let width = buffer.width();
    let height = buffer.height();
    if buffer.pixels().len() == 0 {
        assert(buffer@.pixels =~= flipped_pixels(buffer@.pixels, buffer@.width, buffer@.height));
        return ;
    }
    let turned = photon_flipv(buffer.pixels(), width, height);
    buffer.replace_pixels(turned);
}

/// Read by coordinates, the flipped image holds in row `y` what the image
/// holds in row `height - 1 - y`.
pub proof fn lemma_flipped_channel(image: ImageView, x: int, y: int, c: int)
    requires
        image.wf(),
        image.contains(x, y, c),
    ensures
        flipped(image).channel(x, y, c) == image.channel(x, image.height - 1 - y, c),
{
    lemma_offset_in_bounds(image.width as int, image.height as int, x, y, c);
}

/// Flipping twice gives the image back.
pub proof fn lemma_flip_twice(image: ImageView)
    requires
        image.wf(),
    ensures
        flipped(flipped(image)) == image,
{
    let once = flipped(image);
    let twice = flipped(once);
    assert forall|i: int| 0 <= i < image.pixels.len() implies twice.pixels[i] == image.pixels[i] by {
        let w = image.width as int;
        let h = image.height as int;
        if w > 0 {
            lemma_offset_coordinates(w, h, i);
            let x = column_of(image.width, i);
            let y = row_of(image.width, i);
            lemma_offset_in_bounds(w, h, x, h - 1 - y, i % 4);
        } else {
            assert(4 * w * h == 0) by (nonlinear_arith)
                requires
                    w == 0,
            ;
        }
    }
    assert(twice.pixels =~= image.pixels);
}

} // verus!
