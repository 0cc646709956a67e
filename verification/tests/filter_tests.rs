use pixel_pipeline::buffer::PixelBuffer;
use pixel_pipeline::error::PipelineError;
use pixel_pipeline::filters::{apply, apply_filter, find_filter, Filter};

const SAMPLE: [u8; 16] = [10, 20, 30, 40, 200, 100, 50, 255, 0, 0, 0, 0, 255, 255, 255, 128];

fn sample() -> PixelBuffer {
    PixelBuffer::new(2, 2, SAMPLE.to_vec()).unwrap()
}

fn filtered_sample(name: &str) -> Vec<u8> {
    let mut buf = sample();
    assert_eq!(apply_filter(&mut buf, name), Ok(()));
    assert_eq!(buf.width(), 2);
    assert_eq!(buf.height(), 2);
    buf.into_pixels()
}

const ALL: [(&str, Filter); 14] = [
    ("cali", Filter::Cali),
    ("dramatic", Filter::Dramatic),
    ("duotone_horizon", Filter::DuotoneHorizon),
    ("duotone_lilac", Filter::DuotoneLilac),
    ("duotone_ochre", Filter::DuotoneOchre),
    ("duotone_violette", Filter::DuotoneViolette),
    ("firenze", Filter::Firenze),
    ("golden", Filter::Golden),
    ("lix", Filter::Lix),
    ("lofi", Filter::Lofi),
    ("neue", Filter::Neue),
    ("obsidian", Filter::Obsidian),
    ("pastel_pink", Filter::PastelPink),
    ("ryo", Filter::Ryo),
];

#[test]
fn unknown_filter_fails_and_leaves_the_buffer() {
    let mut buf = sample();
    assert_eq!(
        apply_filter(&mut buf, "nonexistent"),
        Err(PipelineError::UnknownFilter("nonexistent".to_string()))
    );
    assert_eq!(buf, sample());
}

#[test]
fn unknown_filter_names_are_told_apart_exactly() {
    for name in ["", "Cali", "cali ", " cali", "calif", "cal", "duotone", "lix\0", "vintage", "oceanic"] {
        let mut buf = sample();
        assert_eq!(
            apply_filter(&mut buf, name),
            Err(PipelineError::UnknownFilter(name.to_string())),
            "{:?}",
            name
        );
        assert_eq!(buf, sample());
        assert_eq!(find_filter(name), None);
    }
}

#[test]
fn find_filter_knows_every_name_of_the_catalog() {
    for (name, filter) in ALL {
        assert_eq!(find_filter(name), Some(filter));
        assert_eq!(filter.as_str(), name);
    }
}

#[test]
fn every_filter_changes_the_sample() {
    for (name, _) in ALL {
        assert_ne!(filtered_sample(name), SAMPLE.to_vec(), "{}", name);
    }
}

#[test]
fn every_filter_keeps_the_size() {
    for (name, filter) in ALL {
        let mut buf = PixelBuffer::new(3, 1, vec![9, 8, 7, 6, 5, 4, 3, 2, 1, 0, 255, 254]).unwrap();
        apply(filter, &mut buf);
        assert_eq!((buf.width(), buf.height()), (3, 1), "{}", name);
        assert_eq!(buf.pixels().len(), 12, "{}", name);
    }
}

#[test]
fn apply_and_apply_filter_agree() {
    for (name, filter) in ALL {
        let mut by_value = sample();
        apply(filter, &mut by_value);
        assert_eq!(by_value.into_pixels(), filtered_sample(name), "{}", name);
    }
}

#[test]
fn filters_leave_an_image_without_pixels() {
    for (name, _) in ALL {
        for (w, h) in [(0u32, 0u32), (0, 4), (4, 0)] {
            let mut buf = PixelBuffer::new(w, h, Vec::new()).unwrap();
            assert_eq!(apply_filter(&mut buf, name), Ok(()));
            assert_eq!(buf, PixelBuffer::new(w, h, Vec::new()).unwrap());
        }
    }
}

#[test]
fn filters_work_on_a_single_pixel() {
    for (name, _) in ALL {
        let mut buf = PixelBuffer::new(1, 1, vec![10, 20, 30, 40]).unwrap();
        assert_eq!(apply_filter(&mut buf, name), Ok(()), "{}", name);
        assert_eq!(buf.pixels().len(), 4);
    }
}

#[test]
fn lix_complements_red_and_green() {
    assert_eq!(
        filtered_sample("lix"),
        vec![245, 235, 30, 40, 55, 155, 50, 255, 255, 255, 0, 0, 0, 0, 255, 128]
    );
}

#[test]
fn lix_twice_gives_the_image_back() {
    let mut buf = sample();
    apply(Filter::Lix, &mut buf);
    apply(Filter::Lix, &mut buf);
    assert_eq!(buf, sample());
}

#[test]
fn ryo_complements_red_and_blue() {
    assert_eq!(
        filtered_sample("ryo"),
        vec![245, 20, 225, 40, 55, 100, 205, 255, 255, 0, 255, 0, 0, 255, 0, 128]
    );
}

#[test]
fn neue_complements_blue_but_keeps_full_blue() {
    assert_eq!(
        filtered_sample("neue"),
        vec![10, 20, 225, 40, 200, 100, 205, 255, 0, 0, 255, 0, 255, 255, 255, 128]
    );
}

#[test]
fn neue_turns_no_blue_into_full_blue_and_stays_there() {
    let mut buf = PixelBuffer::new(1, 1, vec![1, 2, 0, 3]).unwrap();
    apply(Filter::Neue, &mut buf);
    assert_eq!(buf.pixels(), &vec![1, 2, 255, 3]);
    apply(Filter::Neue, &mut buf);
    assert_eq!(buf.pixels(), &vec![1, 2, 255, 3]);
}

#[test]
fn cali_on_the_sample() {
    assert_eq!(
        filtered_sample("cali"),
        vec![0, 0, 0, 255, 242, 77, 15, 255, 0, 0, 0, 255, 255, 255, 255, 255]
    );
}

#[test]
fn dramatic_on_the_sample() {
    assert_eq!(
        filtered_sample("dramatic"),
        vec![0, 0, 0, 255, 108, 108, 108, 255, 0, 0, 0, 255, 255, 255, 255, 255]
    );
}

#[test]
fn duotone_horizon_on_the_sample() {
    assert_eq!(
        filtered_sample("duotone_horizon"),
        vec![167, 156, 133, 40, 160, 101, 139, 255, 169, 167, 132, 0, 150, 24, 148, 128]
    );
}

#[test]
fn duotone_lilac_on_the_sample() {
    assert_eq!(
        filtered_sample("duotone_lilac"),
        vec![53, 12, 18, 40, 98, 62, 104, 255, 45, 3, 3, 0, 162, 133, 223, 128]
    );
}

#[test]
fn duotone_ochre_on_the_sample() {
    assert_eq!(
        filtered_sample("duotone_ochre"),
        vec![39, 41, 81, 40, 121, 73, 47, 255, 25, 36, 88, 0, 235, 118, 0, 128]
    );
}

#[test]
fn duotone_violette_on_the_sample() {
    assert_eq!(
        filtered_sample("duotone_violette"),
        vec![23, 215, 246, 40, 61, 148, 235, 255, 16, 228, 248, 0, 115, 54, 221, 128]
    );
}

#[test]
fn firenze_on_the_sample() {
    assert_eq!(
        filtered_sample("firenze"),
        vec![33, 15, 33, 255, 255, 122, 59, 255, 19, 0, 0, 255, 255, 255, 255, 255]
    );
}

#[test]
fn golden_on_the_sample() {
    assert_eq!(
        filtered_sample("golden"),
        vec![35, 23, 9, 255, 227, 103, 29, 255, 25, 2, 0, 255, 255, 255, 236, 255]
    );
}

#[test]
fn lofi_on_the_sample() {
    assert_eq!(
        filtered_sample("lofi"),
        vec![0, 0, 3, 255, 224, 90, 23, 255, 0, 0, 0, 255, 255, 255, 255, 255]
    );
}

#[test]
fn obsidian_on_the_sample() {
    assert_eq!(
        filtered_sample("obsidian"),
        vec![0, 0, 0, 255, 113, 113, 113, 255, 0, 0, 0, 255, 255, 255, 255, 255]
    );
}

#[test]
fn pastel_pink_on_the_sample() {
    assert_eq!(
        filtered_sample("pastel_pink"),
        vec![79, 6, 29, 255, 255, 107, 54, 255, 67, 0, 0, 255, 255, 255, 255, 255]
    );
}

#[test]
fn duotones_and_solarizations_keep_alpha() {
    for name in [
        "duotone_horizon",
        "duotone_lilac",
        "duotone_ochre",
        "duotone_violette",
        "lix",
        "neue",
        "ryo",
    ] {
        let out = filtered_sample(name);
        let alphas: Vec<u8> = out.iter().skip(3).step_by(4).copied().collect();
        assert_eq!(alphas, vec![40, 255, 0, 128], "{}", name);
    }
}

#[test]
fn contrast_filters_make_every_pixel_opaque() {
    for name in ["cali", "dramatic", "firenze", "golden", "obsidian", "pastel_pink"] {
        let out = filtered_sample(name);
        let alphas: Vec<u8> = out.iter().skip(3).step_by(4).copied().collect();
        assert_eq!(alphas, vec![255, 255, 255, 255], "{}", name);
    }
}

#[test]
fn filters_agree_with_the_outside_crate() {
    let mut pixels = Vec::new();
    for i in 0..(5 * 3) {
        pixels.extend_from_slice(&[(i * 17) as u8, (i * 29 + 3) as u8, (255 - i * 11) as u8, (i * 5) as u8]);
    }
    for (name, filter) in ALL {
        let mut ours = PixelBuffer::new(5, 3, pixels.clone()).unwrap();
        apply(filter, &mut ours);
        let mut theirs = photon_rs::PhotonImage::new(pixels.clone(), 5, 3);
        match filter {
            Filter::Cali => photon_rs::filters::cali(&mut theirs),
            Filter::Dramatic => photon_rs::filters::dramatic(&mut theirs),
            Filter::DuotoneHorizon => photon_rs::filters::duotone_horizon(&mut theirs),
            Filter::DuotoneLilac => photon_rs::filters::duotone_lilac(&mut theirs),
            Filter::DuotoneOchre => photon_rs::filters::duotone_ochre(&mut theirs),
            Filter::DuotoneViolette => photon_rs::filters::duotone_violette(&mut theirs),
            Filter::Firenze => photon_rs::filters::firenze(&mut theirs),
            Filter::Golden => photon_rs::filters::golden(&mut theirs),
            Filter::Lix => photon_rs::filters::lix(&mut theirs),
            Filter::Lofi => photon_rs::filters::lofi(&mut theirs),
            Filter::Neue => photon_rs::filters::neue(&mut theirs),
            Filter::Obsidian => photon_rs::filters::obsidian(&mut theirs),
            Filter::PastelPink => photon_rs::filters::pastel_pink(&mut theirs),
            Filter::Ryo => photon_rs::filters::ryo(&mut theirs),
        }
        assert_eq!(ours.into_pixels(), theirs.get_raw_pixels(), "{}", name);
    }
}

fn luma(r: u8, g: u8, b: u8) -> u32 {
    (r as u32 * 2126 + g as u32 * 7152 + b as u32 * 722) / 10000
}

fn blend(dark: u8, light: u8, at: u32) -> u8 {
    ((dark as u32 * (256 - at) + light as u32 * at) / 256) as u8
}

fn varied(count: u32) -> Vec<u8> {
    let mut pixels = Vec::new();
    for i in 0..count {
        pixels.extend_from_slice(&[(i * 37) as u8, (i * 101 + 5) as u8, (255 - i * 3) as u8, (i * 7) as u8]);
    }
    pixels
}

#[test]
fn duotones_blend_two_colours_by_brightness() {
    let cases = [
        ("duotone_horizon", (169u8, 167u8, 132u8), (150u8, 24u8, 149u8)),
        ("duotone_lilac", (45, 3, 3), (163, 134, 224)),
        ("duotone_ochre", (25, 36, 88), (236, 119, 0)),
        ("duotone_violette", (16, 228, 248), (116, 54, 221)),
    ];
    let pixels = varied(32 * 16);
    for (name, dark, light) in cases {
        let mut buf = PixelBuffer::new(32, 16, pixels.clone()).unwrap();
        assert_eq!(apply_filter(&mut buf, name), Ok(()));
        for (before, after) in pixels.chunks(4).zip(buf.pixels().chunks(4)) {
            let at = luma(before[0], before[1], before[2]);
            let expected = [
                blend(dark.0, light.0, at),
                blend(dark.1, light.1, at),
                blend(dark.2, light.2, at),
                before[3],
            ];
            assert_eq!(after, &expected, "{}", name);
        }
    }
}

#[test]
fn duotones_map_black_to_the_dark_colour_and_white_near_the_light() {
    let mut buf = PixelBuffer::new(2, 1, vec![0, 0, 0, 9, 255, 255, 255, 9]).unwrap();
    assert_eq!(apply_filter(&mut buf, "duotone_ochre"), Ok(()));
    // Brightness 0 is the dark colour; brightness 255 is 255/256 of the way.
    assert_eq!(buf.pixels(), &vec![25, 36, 88, 9, 235, 118, 0, 9]);
}

#[test]
fn solarizations_complement_every_value() {
    let mut pixels = Vec::new();
    for v in 0..=255u8 {
        pixels.extend_from_slice(&[v, v, v, v]);
    }
    let mut lix = PixelBuffer::new(16, 16, pixels.clone()).unwrap();
    let mut ryo = PixelBuffer::new(16, 16, pixels.clone()).unwrap();
    let mut neue = PixelBuffer::new(16, 16, pixels.clone()).unwrap();
    apply(Filter::Lix, &mut lix);
    apply(Filter::Ryo, &mut ryo);
    apply(Filter::Neue, &mut neue);
    for v in 0..=255u8 {
        let at = v as usize * 4;
        assert_eq!(&lix.pixels()[at..at + 4], &[255 - v, 255 - v, v, v]);
        assert_eq!(&ryo.pixels()[at..at + 4], &[255 - v, v, 255 - v, v]);
        let blue = if v < 255 { 255 - v } else { 255 };
        assert_eq!(&neue.pixels()[at..at + 4], &[v, v, blue, v]);
    }
}

#[test]
fn error_messages() {
    assert_eq!(PipelineError::InvalidDimensions.message(), "invalid dimensions");
    assert_eq!(PipelineError::EmptyImage.message(), "empty image");
    assert_eq!(
        PipelineError::UnknownFilter("sepia".to_string()).message(),
        "no such filter: sepia"
    );
}
