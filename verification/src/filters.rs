//! The catalog of named colour filters.

use vstd::prelude::*;
use crate::buffer::{ImageView, PixelBuffer, MAX_BYTES};
use crate::error::PipelineError;

verus! {

/// A filter of the catalog. The catalog is closed: these are all.
#[derive(Copy, Clone, Debug, PartialEq, Eq, Structural)]
pub enum Filter {
    /// `cali`: a red tint with raised contrast.
    Cali,
    /// `dramatic`: greyscale with strongly raised contrast.
    Dramatic,
    /// `duotone_horizon`: a duotone of sand and purple.
    DuotoneHorizon,
    /// `duotone_lilac`: a duotone of dark red and lilac.
    DuotoneLilac,
    /// `duotone_ochre`: a duotone of navy and ochre.
    DuotoneOchre,
    /// `duotone_violette`: a duotone of cyan and violet.
    DuotoneViolette,
    /// `firenze`: a red tint with raised brightness and contrast.
    Firenze,
    /// `golden`: a golden tint with raised contrast.
    Golden,
    /// `lix`: the complement of red and green.
    Lix,
    /// `lofi`: raised contrast and saturation.
    Lofi,
    /// `neue`: the complement of blue.
    Neue,
    /// `obsidian`: greyscale with raised contrast.
    Obsidian,
    /// `pastel_pink`: a rose tint with raised contrast.
    PastelPink,
    /// `ryo`: the complement of red and blue.
    Ryo,
}

impl Filter {
    /// The name under which the catalog holds the filter.
    pub open spec fn name(self) -> Seq<char> {
        match self {
            Filter::Cali => "cali"@,
            Filter::Dramatic => "dramatic"@,
            Filter::DuotoneHorizon => "duotone_horizon"@,
            Filter::DuotoneLilac => "duotone_lilac"@,
            Filter::DuotoneOchre => "duotone_ochre"@,
            Filter::DuotoneViolette => "duotone_violette"@,
            Filter::Firenze => "firenze"@,
            Filter::Golden => "golden"@,
            Filter::Lix => "lix"@,
            Filter::Lofi => "lofi"@,
            Filter::Neue => "neue"@,
            Filter::Obsidian => "obsidian"@,
            Filter::PastelPink => "pastel_pink"@,
            Filter::Ryo => "ryo"@,
        }
    }

    /// The name under which the catalog holds the filter.
    pub fn as_str(&self) -> (s: &'static str)
        ensures
            s@ == self.name(),
    {
        match self {
            Filter::Cali => "cali",
            Filter::Dramatic => "dramatic",
            Filter::DuotoneHorizon => "duotone_horizon",
            Filter::DuotoneLilac => "duotone_lilac",
            Filter::DuotoneOchre => "duotone_ochre",
            Filter::DuotoneViolette => "duotone_violette",
            Filter::Firenze => "firenze",
            Filter::Golden => "golden",
            Filter::Lix => "lix",
            Filter::Lofi => "lofi",
            Filter::Neue => "neue",
            Filter::Obsidian => "obsidian",
            Filter::PastelPink => "pastel_pink",
            Filter::Ryo => "ryo",
        }
    }
}

/// The filter that the catalog holds under `name`, if any.
pub open spec fn filter_named(name: Seq<char>) -> Option<Filter> {
    if name == "cali"@ {
        Some(Filter::Cali)
    } else if name == "dramatic"@ {
        Some(Filter::Dramatic)
    } else if name == "duotone_horizon"@ {
        Some(Filter::DuotoneHorizon)
    } else if name == "duotone_lilac"@ {
        Some(Filter::DuotoneLilac)
    } else if name == "duotone_ochre"@ {
        Some(Filter::DuotoneOchre)
    } else if name == "duotone_violette"@ {
        Some(Filter::DuotoneViolette)
    } else if name == "firenze"@ {
        Some(Filter::Firenze)
    } else if name == "golden"@ {
        Some(Filter::Golden)
    } else if name == "lix"@ {
        Some(Filter::Lix)
    } else if name == "lofi"@ {
        Some(Filter::Lofi)
    } else if name == "neue"@ {
        Some(Filter::Neue)
    } else if name == "obsidian"@ {
        Some(Filter::Obsidian)
    } else if name == "pastel_pink"@ {
        Some(Filter::PastelPink)
    } else if name == "ryo"@ {
        Some(Filter::Ryo)
    } else {
        None
    }
}

/// Whether two strings hold the same characters.
fn same_text(a: &str, b: &str) -> (same: bool)
    ensures
        same == (a@ == b@),
{
    let len = a.unicode_len();
    if len != b.unicode_len() {
        return false;
    }
    let mut i: usize = 0;
    while i < len
        invariant
            i <= len,
            len == a@.len(),
            len == b@.len(),
            forall|k: int| 0 <= k < i ==> a@[k] == b@[k],
        decreases len - i,
    {
        if a.get_char(i) != b.get_char(i) {
            return false;
        }
        i += 1;
    }
    assert(a@ =~= b@);
    true
}

/// Looks a name up in the catalog.
pub fn find_filter(name: &str) -> (out: Option<Filter>)
    ensures
        out == filter_named(name@),
{
    if same_text(name, "cali") {
        Some(Filter::Cali)
    } else if same_text(name, "dramatic") {
        Some(Filter::Dramatic)
    } else if same_text(name, "duotone_horizon") {
        Some(Filter::DuotoneHorizon)
    } else if same_text(name, "duotone_lilac") {
        Some(Filter::DuotoneLilac)
    } else if same_text(name, "duotone_ochre") {
        Some(Filter::DuotoneOchre)
    } else if same_text(name, "duotone_violette") {
        Some(Filter::DuotoneViolette)
    } else if same_text(name, "firenze") {
        Some(Filter::Firenze)
    } else if same_text(name, "golden") {
        Some(Filter::Golden)
    } else if same_text(name, "lix") {
        Some(Filter::Lix)
    } else if same_text(name, "lofi") {
        Some(Filter::Lofi)
    } else if same_text(name, "neue") {
        Some(Filter::Neue)
    } else if same_text(name, "obsidian") {
        Some(Filter::Obsidian)
    } else if same_text(name, "pastel_pink") {
        Some(Filter::PastelPink)
    } else if same_text(name, "ryo") {
        Some(Filter::Ryo)
    } else {
        None
    }
}

/// The bytes are those of a `width` by `height` image that is not empty.
pub open spec fn filterable(pixels: Seq<u8>, width: u32, height: u32) -> bool {
    &&& pixels.len() == 4 * width * height
    &&& 0 < 4 * width * height <= MAX_BYTES
}

/// Every pixel is opaque: its alpha channel is 255.
pub open spec fn opaque(pixels: Seq<u8>) -> bool {
    forall|i: int| 0 <= i < pixels.len() && i % 4 == 3 ==> #[trigger] pixels[i] == 255
}

/// `after` has the alpha channel of `before` in every pixel.
pub open spec fn same_alpha(before: Seq<u8>, after: Seq<u8>) -> bool {
    forall|i: int| 0 <= i < before.len() && i % 4 == 3 ==> #[trigger] after[i] == before[i]
}

/// The brightness of a colour, from 0 to 255:
/// `(2126 red + 7152 green + 722 blue) / 10000`, rounded down.
pub open spec fn luma(red: u8, green: u8, blue: u8) -> int {
    (red * 2126 + green * 7152 + blue * 722) / 10000
}

/// The value that lies `at` 256ths of the way from `dark` to `light`,
/// rounded down.
pub open spec fn blend(dark: u8, light: u8, at: int) -> u8 {
    ((dark * (256 - at) + light * at) / 256) as u8
}

/// The bytes with the colour of every pixel mapped onto the way from the
/// colour `dark` to the colour `light`, each given as red, green and blue: a
/// pixel of brightness `b` gets the blend of the two colours at `b`. Alpha
/// is kept.
pub open spec fn duotone(pixels: Seq<u8>, dark: (u8, u8, u8), light: (u8, u8, u8)) -> Seq<u8> {
    Seq::new(
        pixels.len(),
        |i: int|
            {
                let first = i - i % 4;
                let at = luma(pixels[first], pixels[first + 1], pixels[first + 2]);
                if i % 4 == 0 {
                    blend(dark.0, light.0, at)
                } else if i % 4 == 1 {
                    blend(dark.1, light.1, at)
                } else if i % 4 == 2 {
                    blend(dark.2, light.2, at)
                } else {
                    pixels[i]
                }
            },
    )
}

/// The bytes with the chosen colour channels of every pixel turned into
/// their complements, `255 - value`; alpha is kept.
pub open spec fn solarized(pixels: Seq<u8>, red: bool, green: bool, blue: bool) -> Seq<u8> {
    Seq::new(
        pixels.len(),
        |i: int|
            if (i % 4 == 0 && red) || (i % 4 == 1 && green) || (i % 4 == 2 && blue) {
                (255 - pixels[i]) as u8
            } else {
                pixels[i]
            },
    )
}

/// The bytes with the blue channel of every pixel turned into its
/// complement, except that a blue of 255 stays; alpha is kept.
pub open spec fn blue_solarized(pixels: Seq<u8>) -> Seq<u8> {
    Seq::new(
        pixels.len(),
        |i: int|
            if i % 4 == 2 && pixels[i] < 255 {
                (255 - pixels[i]) as u8
            } else {
                pixels[i]
            },
    )
}

/// The bytes that `photon_rs::filters::cali` leaves in an image of `width` by
/// `height` pixels that had the bytes `pixels`.
pub uninterp spec fn cali_pixels(pixels: Seq<u8>, width: u32, height: u32) -> Seq<u8>;

/// The bytes that `photon_rs::filters::dramatic` leaves in an image of `width` by
/// `height` pixels that had the bytes `pixels`.
pub uninterp spec fn dramatic_pixels(pixels: Seq<u8>, width: u32, height: u32) -> Seq<u8>;

/// The bytes that `photon_rs::filters::firenze` leaves in an image of `width` by
/// `height` pixels that had the bytes `pixels`.
pub uninterp spec fn firenze_pixels(pixels: Seq<u8>, width: u32, height: u32) -> Seq<u8>;

/// The bytes that `photon_rs::filters::golden` leaves in an image of `width` by
/// `height` pixels that had the bytes `pixels`.
pub uninterp spec fn golden_pixels(pixels: Seq<u8>, width: u32, height: u32) -> Seq<u8>;

/// The bytes that `photon_rs::filters::lofi` leaves in an image of `width` by
/// `height` pixels that had the bytes `pixels`.
pub uninterp spec fn lofi_pixels(pixels: Seq<u8>, width: u32, height: u32) -> Seq<u8>;

/// The bytes that `photon_rs::filters::obsidian` leaves in an image of `width` by
/// `height` pixels that had the bytes `pixels`.
pub uninterp spec fn obsidian_pixels(pixels: Seq<u8>, width: u32, height: u32) -> Seq<u8>;

/// The bytes that `photon_rs::filters::pastel_pink` leaves in an image of `width` by
/// `height` pixels that had the bytes `pixels`.
pub uninterp spec fn pastel_pink_pixels(pixels: Seq<u8>, width: u32, height: u32) -> Seq<u8>;

/// Calls `photon_rs::filters::cali` on a copy of the bytes. Trusted: it
/// leaves as many bytes as before, and every pixel opaque.
#[verifier::external_body]
fn photon_cali(pixels: &Vec<u8>, width: u32, height: u32) -> (out: Vec<u8>)
    requires
        filterable(pixels@, width, height),
    ensures
        out@ == cali_pixels(pixels@, width, height),
        out@.len() == pixels@.len(),
        opaque(out@),
{
    let mut image = photon_rs::PhotonImage::new(pixels.clone(), width, height);
    photon_rs::filters::cali(&mut image);
    image.get_raw_pixels()
}

/// Calls `photon_rs::filters::dramatic` on a copy of the bytes. Trusted: it
/// leaves as many bytes as before, and every pixel opaque.
#[verifier::external_body]
fn photon_dramatic(pixels: &Vec<u8>, width: u32, height: u32) -> (out: Vec<u8>)
    requires
        filterable(pixels@, width, height),
    ensures
        out@ == dramatic_pixels(pixels@, width, height),
        out@.len() == pixels@.len(),
        opaque(out@),
{
    let mut image = photon_rs::PhotonImage::new(pixels.clone(), width, height);
    photon_rs::filters::dramatic(&mut image);
    image.get_raw_pixels()
}

/// Calls `photon_rs::filters::duotone_horizon` on a copy of the bytes. Trusted:
/// the colour of every pixel becomes the blend of sand (169, 167, 132) and
/// purple (150, 24, 149) at the pixel's brightness, and alpha stays.
#[verifier::external_body]
fn photon_duotone_horizon(pixels: &Vec<u8>, width: u32, height: u32) -> (out: Vec<u8>)
    requires
        filterable(pixels@, width, height),
    ensures
        out@ == duotone(pixels@, (169, 167, 132), (150, 24, 149)),
{
    let mut image = photon_rs::PhotonImage::new(pixels.clone(), width, height);
    photon_rs::filters::duotone_horizon(&mut image);
    image.get_raw_pixels()
}

/// Calls `photon_rs::filters::duotone_lilac` on a copy of the bytes. Trusted:
/// the colour of every pixel becomes the blend of dark red (45, 3, 3) and
/// lilac (163, 134, 224) at the pixel's brightness, and alpha stays.
#[verifier::external_body]
fn photon_duotone_lilac(pixels: &Vec<u8>, width: u32, height: u32) -> (out: Vec<u8>)
    requires
        filterable(pixels@, width, height),
    ensures
        out@ == duotone(pixels@, (45, 3, 3), (163, 134, 224)),
{
    let mut image = photon_rs::PhotonImage::new(pixels.clone(), width, height);
    photon_rs::filters::duotone_lilac(&mut image);
    image.get_raw_pixels()
}

/// Calls `photon_rs::filters::duotone_ochre` on a copy of the bytes. Trusted:
/// the colour of every pixel becomes the blend of navy (25, 36, 88) and
/// ochre (236, 119, 0) at the pixel's brightness, and alpha stays.
#[verifier::external_body]
fn photon_duotone_ochre(pixels: &Vec<u8>, width: u32, height: u32) -> (out: Vec<u8>)
    requires
        filterable(pixels@, width, height),
    ensures
        out@ == duotone(pixels@, (25, 36, 88), (236, 119, 0)),
{
    let mut image = photon_rs::PhotonImage::new(pixels.clone(), width, height);
    photon_rs::filters::duotone_ochre(&mut image);
    image.get_raw_pixels()
}

/// Calls `photon_rs::filters::duotone_violette` on a copy of the bytes. Trusted:
/// the colour of every pixel becomes the blend of cyan (16, 228, 248) and
/// violet (116, 54, 221) at the pixel's brightness, and alpha stays.
#[verifier::external_body]
fn photon_duotone_violette(pixels: &Vec<u8>, width: u32, height: u32) -> (out: Vec<u8>)
    requires
        filterable(pixels@, width, height),
    ensures
        out@ == duotone(pixels@, (16, 228, 248), (116, 54, 221)),
{
    let mut image = photon_rs::PhotonImage::new(pixels.clone(), width, height);
    photon_rs::filters::duotone_violette(&mut image);
    image.get_raw_pixels()
}

/// Calls `photon_rs::filters::firenze` on a copy of the bytes. Trusted: it
/// leaves as many bytes as before, and every pixel opaque.
#[verifier::external_body]
fn photon_firenze(pixels: &Vec<u8>, width: u32, height: u32) -> (out: Vec<u8>)
    requires
        filterable(pixels@, width, height),
    ensures
        out@ == firenze_pixels(pixels@, width, height),
        out@.len() == pixels@.len(),
        opaque(out@),
{
    let mut image = photon_rs::PhotonImage::new(pixels.clone(), width, height);
    photon_rs::filters::firenze(&mut image);
    image.get_raw_pixels()
}

/// Calls `photon_rs::filters::golden` on a copy of the bytes. Trusted: it
/// leaves as many bytes as before, and every pixel opaque.
#[verifier::external_body]
fn photon_golden(pixels: &Vec<u8>, width: u32, height: u32) -> (out: Vec<u8>)
    requires
        filterable(pixels@, width, height),
    ensures
        out@ == golden_pixels(pixels@, width, height),
        out@.len() == pixels@.len(),
        opaque(out@),
{
    let mut image = photon_rs::PhotonImage::new(pixels.clone(), width, height);
    photon_rs::filters::golden(&mut image);
    image.get_raw_pixels()
}

/// Calls `photon_rs::filters::lofi` on a copy of the bytes. Trusted: it
/// leaves as many bytes as before.
#[verifier::external_body]
fn photon_lofi(pixels: &Vec<u8>, width: u32, height: u32) -> (out: Vec<u8>)
    requires
        filterable(pixels@, width, height),
    ensures
        out@ == lofi_pixels(pixels@, width, height),
        out@.len() == pixels@.len(),
{
    let mut image = photon_rs::PhotonImage::new(pixels.clone(), width, height);
    photon_rs::filters::lofi(&mut image);
    image.get_raw_pixels()
}

/// Calls `photon_rs::filters::obsidian` on a copy of the bytes. Trusted: it
/// leaves as many bytes as before, and every pixel opaque.
#[verifier::external_body]
fn photon_obsidian(pixels: &Vec<u8>, width: u32, height: u32) -> (out: Vec<u8>)
    requires
        filterable(pixels@, width, height),
    ensures
        out@ == obsidian_pixels(pixels@, width, height),
        out@.len() == pixels@.len(),
        opaque(out@),
{
    let mut image = photon_rs::PhotonImage::new(pixels.clone(), width, height);
    photon_rs::filters::obsidian(&mut image);
    image.get_raw_pixels()
}

/// Calls `photon_rs::filters::pastel_pink` on a copy of the bytes. Trusted: it
/// leaves as many bytes as before, and every pixel opaque.
#[verifier::external_body]
fn photon_pastel_pink(pixels: &Vec<u8>, width: u32, height: u32) -> (out: Vec<u8>)
    requires
        filterable(pixels@, width, height),
    ensures
        out@ == pastel_pink_pixels(pixels@, width, height),
        out@.len() == pixels@.len(),
        opaque(out@),
{
    let mut image = photon_rs::PhotonImage::new(pixels.clone(), width, height);
    photon_rs::filters::pastel_pink(&mut image);
    image.get_raw_pixels()
}

/// Calls `photon_rs::filters::lix` on a copy of the bytes. Trusted:
/// the red and green channels of every pixel are turned into their complements, and nothing else changes.
#[verifier::external_body]
fn photon_lix(pixels: &Vec<u8>, width: u32, height: u32) -> (out: Vec<u8>)
    requires
        filterable(pixels@, width, height),
    ensures
        out@ == solarized(pixels@, true, true, false),
{
    let mut image = photon_rs::PhotonImage::new(pixels.clone(), width, height);
    photon_rs::filters::lix(&mut image);
    image.get_raw_pixels()
}

/// Calls `photon_rs::filters::neue` on a copy of the bytes. Trusted:
/// the blue channel of every pixel is turned into its complement, except that full blue stays, and nothing else changes.
#[verifier::external_body]
fn photon_neue(pixels: &Vec<u8>, width: u32, height: u32) -> (out: Vec<u8>)
    requires
        filterable(pixels@, width, height),
    ensures
        out@ == blue_solarized(pixels@),
{
    let mut image = photon_rs::PhotonImage::new(pixels.clone(), width, height);
    photon_rs::filters::neue(&mut image);
    image.get_raw_pixels()
}

/// Calls `photon_rs::filters::ryo` on a copy of the bytes. Trusted:
/// the red and blue channels of every pixel are turned into their complements, and nothing else changes.
#[verifier::external_body]
fn photon_ryo(pixels: &Vec<u8>, width: u32, height: u32) -> (out: Vec<u8>)
    requires
        filterable(pixels@, width, height),
    ensures
        out@ == solarized(pixels@, true, false, true),
{
    let mut image = photon_rs::PhotonImage::new(pixels.clone(), width, height);
    photon_rs::filters::ryo(&mut image);
    image.get_raw_pixels()
}

/// The bytes of `image` after `filter`. An image without pixels has nothing
/// to change.
pub open spec fn filtered_pixels(filter: Filter, image: ImageView) -> Seq<u8> {
    let pixels = image.pixels;
    let width = image.width as u32;
    let height = image.height as u32;
    if pixels.len() == 0 {
        pixels
    } else {
        match filter {
            Filter::Cali => cali_pixels(pixels, width, height),
            Filter::Dramatic => dramatic_pixels(pixels, width, height),
            Filter::DuotoneHorizon => duotone(pixels, (169, 167, 132), (150, 24, 149)),
            Filter::DuotoneLilac => duotone(pixels, (45, 3, 3), (163, 134, 224)),
            Filter::DuotoneOchre => duotone(pixels, (25, 36, 88), (236, 119, 0)),
            Filter::DuotoneViolette => duotone(pixels, (16, 228, 248), (116, 54, 221)),
            Filter::Firenze => firenze_pixels(pixels, width, height),
            Filter::Golden => golden_pixels(pixels, width, height),
            Filter::Lix => solarized(pixels, true, true, false),
            Filter::Lofi => lofi_pixels(pixels, width, height),
            Filter::Neue => blue_solarized(pixels),
            Filter::Obsidian => obsidian_pixels(pixels, width, height),
            Filter::PastelPink => pastel_pink_pixels(pixels, width, height),
            Filter::Ryo => solarized(pixels, true, false, true),
        }
    }
}

/// `image` after `filter`: the same size, other bytes.
pub open spec fn filtered(filter: Filter, image: ImageView) -> ImageView {
    ImageView { width: image.width, height: image.height, pixels: filtered_pixels(filter, image) }
}

/// The filter leaves the alpha channel of every pixel as it was: the
/// solarizations and the duotones do.
pub open spec fn keeps_alpha(filter: Filter) -> bool {
    match filter {
        Filter::DuotoneHorizon
        | Filter::DuotoneLilac
        | Filter::DuotoneOchre
        | Filter::DuotoneViolette
        | Filter::Lix
        | Filter::Neue
        | Filter::Ryo => true,
        _ => false,
    }
}

/// The filter makes every pixel opaque: those that end by raising the
/// contrast do, but for `lofi`, of whose alpha nothing is said.
pub open spec fn makes_opaque(filter: Filter) -> bool {
    match filter {
        Filter::Cali
        | Filter::Dramatic
        | Filter::Firenze
        | Filter::Golden
        | Filter::Obsidian
        | Filter::PastelPink => true,
        _ => false,
    }
}

/// Applies a filter of the catalog to the buffer, in place. The size stays;
/// alpha stays too unless the filter makes every pixel opaque.
pub fn apply(filter: Filter, buffer: &mut PixelBuffer)
    ensures
        final(buffer)@ == filtered(filter, old(buffer)@),
        final(buffer)@.wf(),
        keeps_alpha(filter) ==> same_alpha(old(buffer)@.pixels, final(buffer)@.pixels),
        makes_opaque(filter) ==> opaque(final(buffer)@.pixels),
{
    let width = buffer.width();
    let height = buffer.height();
    if buffer.pixels().len() == 0 {
        assert(buffer@ == filtered(filter, buffer@));
        return ;
    }
    let changed = match filter {
        Filter::Cali => photon_cali(buffer.pixels(), width, height),
        Filter::Dramatic => photon_dramatic(buffer.pixels(), width, height),
        Filter::DuotoneHorizon => photon_duotone_horizon(buffer.pixels(), width, height),
        Filter::DuotoneLilac => photon_duotone_lilac(buffer.pixels(), width, height),
        Filter::DuotoneOchre => photon_duotone_ochre(buffer.pixels(), width, height),
        Filter::DuotoneViolette => photon_duotone_violette(buffer.pixels(), width, height),
        Filter::Firenze => photon_firenze(buffer.pixels(), width, height),
        Filter::Golden => photon_golden(buffer.pixels(), width, height),
        Filter::Lix => photon_lix(buffer.pixels(), width, height),
        Filter::Lofi => photon_lofi(buffer.pixels(), width, height),
        Filter::Neue => photon_neue(buffer.pixels(), width, height),
        Filter::Obsidian => photon_obsidian(buffer.pixels(), width, height),
        Filter::PastelPink => photon_pastel_pink(buffer.pixels(), width, height),
        Filter::Ryo => photon_ryo(buffer.pixels(), width, height),
    };
    buffer.replace_pixels(changed);
}

/// Applies the filter that the catalog holds under `name` to the buffer, in
/// place. A name that the catalog does not hold fails with `UnknownFilter`
/// of that name, and the buffer stays as it was.
pub fn apply_filter(buffer: &mut PixelBuffer, name: &str) -> (out: Result<(), PipelineError>)
    ensures
        match filter_named(name@) {
            Some(filter) => {
                &&& out is Ok
                &&& final(buffer)@ == filtered(filter, old(buffer)@)
                &&& keeps_alpha(filter) ==> same_alpha(old(buffer)@.pixels, final(buffer)@.pixels)
                &&& makes_opaque(filter) ==> opaque(final(buffer)@.pixels)
            },
            None => {
                &&& out matches Err(PipelineError::UnknownFilter(unknown))
                &&& unknown@ == name@
                &&& final(buffer)@ == old(buffer)@
            },
        },
        final(buffer)@.wf(),
{
    match find_filter(name) {
        Some(filter) => {
            apply(filter, buffer);
            Ok(())
        },
        None => {
            proof {
                use_type_invariant(&*buffer);
            }
            Err(PipelineError::UnknownFilter(name.to_owned()))
        },
    }
}

/// Complementing the same channels twice gives the bytes back: `lix` and
/// `ryo` undo themselves.
pub proof fn lemma_solarized_twice(pixels: Seq<u8>, red: bool, green: bool, blue: bool)
    ensures
        solarized(solarized(pixels, red, green, blue), red, green, blue) == pixels,
{
    assert(solarized(solarized(pixels, red, green, blue), red, green, blue) =~= pixels);
}

} // verus!
