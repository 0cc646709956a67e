//! The in-memory image and its mathematical model.

use vstd::prelude::*;
use crate::error::PipelineError;

verus! {

/// The largest byte length of a pixel buffer. Offsets into a buffer are
/// 32-bit, so a buffer holds at most this many bytes.
pub const MAX_BYTES: u64 = 0xffff_ffff;

/// The mathematical model of an image: its size and its bytes, four per
/// pixel (red, green, blue, alpha), row after row from the top.
pub struct ImageView {
    pub width: nat,
    pub height: nat,
    pub pixels: Seq<u8>,
}

impl ImageView {
    /// The image has exactly the bytes that its size asks for, and no more
    /// than a buffer can hold.
    pub open spec fn wf(self) -> bool {
        &&& self.width <= u32::MAX
        &&& self.height <= u32::MAX
        &&& self.pixels.len() == 4 * self.width * self.height
        &&& 4 * self.width * self.height <= MAX_BYTES
    }

    /// Where channel `c` of the pixel in column `x` and row `y` lies.
    pub open spec fn offset(self, x: int, y: int, c: int) -> int {
        (y * self.width + x) * 4 + c
    }

    /// `(x, y, c)` names a channel of a pixel of this image.
    pub open spec fn contains(self, x: int, y: int, c: int) -> bool {
        0 <= x < self.width && 0 <= y < self.height && 0 <= c < 4
    }

    /// Channel `c` of the pixel in column `x` and row `y`.
    pub open spec fn channel(self, x: int, y: int, c: int) -> u8 {
        self.pixels[self.offset(x, y, c)]
    }
}

/// The offset of a channel inside an image of the given size lies inside
/// the image's bytes, and tells the channel's coordinates apart from all
/// others: dividing it gives them back.
pub proof fn lemma_offset_in_bounds(width: int, height: int, x: int, y: int, c: int)
    requires
        0 <= x < width,
        0 <= y < height,
        0 <= c < 4,
    ensures
        0 <= (y * width + x) * 4 + c < 4 * width * height,
        0 <= y * width + x < width * height,
        ((y * width + x) * 4 + c) / 4 == y * width + x,
        ((y * width + x) * 4 + c) % 4 == c,
        (y * width + x) / width == y,
        (y * width + x) % width == x,
{
    assert(0 <= y * width && y * width + width <= height * width) by (nonlinear_arith)
        requires
            0 <= y < height,
            0 < width,
    ;
    assert(width * height == height * width) by (nonlinear_arith);
    assert(4 * width * height == 4 * (width * height)) by (nonlinear_arith);
    vstd::arithmetic::div_mod::lemma_fundamental_div_mod_converse(y * width + x, width, y, x);
}

/// Every offset into an image of the given size is the offset of exactly
/// one channel: that of column `(i / 4) % width` and row `(i / 4) / width`.
pub proof fn lemma_offset_coordinates(width: int, height: int, i: int)
    requires
        0 < width,
        0 <= i < 4 * width * height,
    ensures
        0 <= (i / 4) % width < width,
        0 <= (i / 4) / width < height,
        0 <= i % 4 < 4,
        i == (((i / 4) / width) * width + (i / 4) % width) * 4 + i % 4,
{
    let p = i / 4;
    vstd::arithmetic::div_mod::lemma_fundamental_div_mod(p, width);
    vstd::arithmetic::div_mod::lemma_div_pos_is_pos(p, width);
    vstd::arithmetic::div_mod::lemma_mod_pos_bound(p, width);
    assert(width * (p / width) == (p / width) * width) by (nonlinear_arith);
    assert(4 * width * height == 4 * (width * height)) by (nonlinear_arith);
    if p / width >= height {
        assert((p / width) * width >= height * width) by (nonlinear_arith)
            requires
                p / width >= height,
                0 < width,
        ;
        assert(height * width == width * height) by (nonlinear_arith);
    }
}

/// An image in memory. Its bytes always match its size: no other buffer can
/// be built.
#[derive(Debug, PartialEq, Eq)]
pub struct PixelBuffer {
    width: u32,
    height: u32,
    pixels: Vec<u8>,
}

impl View for PixelBuffer {
    type V = ImageView;

    closed spec fn view(&self) -> ImageView {
        ImageView {
            width: self.width as nat,
            height: self.height as nat,
            pixels: self.pixels@,
        }
    }
}

impl Clone for PixelBuffer {
    /// A buffer of its own with the same size and bytes.
    fn clone(&self) -> (out: Self)
        ensures
            out@ == self@,
            out@.wf(),
    {
        proof {
            use_type_invariant(self);
        }
        let pixels = self.pixels.clone();
        assert(pixels@ =~= self.pixels@);
        PixelBuffer { width: self.width, height: self.height, pixels }
    }
}

impl PixelBuffer {
    /// What holds of every buffer: it holds a well-formed image.
    #[verifier::type_invariant]
    pub open spec fn inv(self) -> bool {
        self@.wf()
    }

    /// Builds a buffer from its parts, or refuses them when the bytes do not
    /// match the size or are more than a buffer holds.
    pub fn new(width: u32, height: u32, pixels: Vec<u8>) -> (out: Result<PixelBuffer, PipelineError>)
        ensures
            match out {
                Ok(buf) => buf@ == (ImageView { width: width as nat, height: height as nat, pixels: pixels@ })
                    && buf@.wf(),
                Err(e) => e == PipelineError::InvalidDimensions
                    && !(ImageView { width: width as nat, height: height as nat, pixels: pixels@ }).wf(),
            },
    {
        match byte_length(width, height) {
            Some(bytes) => {
                if pixels.len() == bytes {
                    Ok(PixelBuffer { width, height, pixels })
                } else {
                    Err(PipelineError::InvalidDimensions)
                }
            },
            None => Err(PipelineError::InvalidDimensions),
        }
    }

    /// Builds a buffer from parts that are known to match.
    pub(crate) fn from_parts(width: u32, height: u32, pixels: Vec<u8>) -> (out: PixelBuffer)
        requires
            (ImageView { width: width as nat, height: height as nat, pixels: pixels@ }).wf(),
        ensures
            out@ == (ImageView { width: width as nat, height: height as nat, pixels: pixels@ }),
    {
        PixelBuffer { width, height, pixels }
    }

    /// Puts other bytes of the same length in place of the buffer's own.
    pub(crate) fn replace_pixels(&mut self, pixels: Vec<u8>)
        requires
            pixels@.len() == old(self)@.pixels.len(),
        ensures
            final(self)@ == (ImageView {
                width: old(self)@.width,
                height: old(self)@.height,
                pixels: pixels@,
            }),
    {
        proof {
            use_type_invariant(&*self);
        }
        self.pixels = pixels;
    }

    /// The number of pixels in a row.
    pub fn width(&self) -> (w: u32)
        ensures
            w == self@.width,
            self@.wf(),
    {
        proof {
            use_type_invariant(self);
        }
        self.width
    }

    /// The number of rows.
    pub fn height(&self) -> (h: u32)
        ensures
            h == self@.height,
            self@.wf(),
    {
        proof {
            use_type_invariant(self);
        }
        self.height
    }

    /// The bytes, four per pixel, row after row.
    pub fn pixels(&self) -> (p: &Vec<u8>)
        ensures
            p@ == self@.pixels,
            self@.wf(),
    {
        proof {
            use_type_invariant(self);
        }
        &self.pixels
    }

    /// Gives the bytes away.
    pub fn into_pixels(self) -> (p: Vec<u8>)
        ensures
            p@ == self@.pixels,
    {
        self.pixels
    }

    /// Channel `c` of the pixel in column `x` and row `y`, or `None` when
    /// the image has no such channel.
    pub fn get(&self, x: u32, y: u32, c: u32) -> (out: Option<u8>)
        ensures
            out == if self@.contains(x as int, y as int, c as int) {
                Some(self@.channel(x as int, y as int, c as int))
            } else {
                None
            },
    {
        proof {
            use_type_invariant(self);
        }
        if x < self.width && y < self.height && c < 4 {
            proof {
                lemma_offset_in_bounds(self.width as int, self.height as int, x as int, y as int, c as int);
            }
            let at: usize = (y as usize * self.width as usize + x as usize) * 4 + c as usize;
            Some(self.pixels[at])
        } else {
            None
        }
    }
}

/// What a stage returned, with the buffer read as the image it holds.
pub open spec fn outcome(result: Result<PixelBuffer, PipelineError>) -> Result<
    ImageView,
    PipelineError,
> {
    match result {
        Ok(buf) => Ok(buf@),
        Err(e) => Err(e),
    }
}

/// The byte length of an image of the given size, when a buffer can hold it.
pub fn byte_length(width: u32, height: u32) -> (out: Option<usize>)
    ensures
        out == if 4 * width * height <= MAX_BYTES {
            Some((4 * width * height) as usize)
        } else {
            None::<usize>
        },
{
    assert((width as u64) * (height as u64) <= 0xffff_ffff * 0xffff_ffff) by (nonlinear_arith)
        requires
            width <= 0xffff_ffff,
            height <= 0xffff_ffff,
    ;
    let area: u64 = (width as u64) * (height as u64);
    assert(4 * width * height == 4 * (width * height)) by (nonlinear_arith);
    if area <= MAX_BYTES / 4 {
        Some((4 * area) as usize)
    } else {
        None
    }
}

} // verus!
