use pixel_pipeline::buffer::PixelBuffer;
use pixel_pipeline::compose::{copy_into, stitch_horizontal};
use pixel_pipeline::error::PipelineError;

fn solid(width: u32, height: u32, rgba: [u8; 4]) -> PixelBuffer {
    let mut pixels = Vec::new();
    for _ in 0..(width * height) {
        pixels.extend_from_slice(&rgba);
    }
    PixelBuffer::new(width, height, pixels).unwrap()
}

/// An image whose every byte tells where it lies: red is the column, green
/// the row, blue a tag, alpha 200.
fn tagged(width: u32, height: u32, tag: u8) -> PixelBuffer {
    let mut pixels = Vec::new();
    for y in 0..height {
        for x in 0..width {
            pixels.extend_from_slice(&[x as u8, y as u8, tag, 200]);
        }
    }
    PixelBuffer::new(width, height, pixels).unwrap()
}

fn pixel(buf: &PixelBuffer, x: u32, y: u32) -> [u8; 4] {
    [
        buf.get(x, y, 0).unwrap(),
        buf.get(x, y, 1).unwrap(),
        buf.get(x, y, 2).unwrap(),
        buf.get(x, y, 3).unwrap(),
    ]
}

#[test]
fn stitch_black_and_white_squares() {
    let black = solid(2, 2, [0, 0, 0, 255]);
    let white = solid(2, 2, [255, 255, 255, 255]);
    let out = stitch_horizontal(&black, &white).unwrap();
    assert_eq!(out.width(), 4);
    assert_eq!(out.height(), 2);
    assert_eq!(
        out.pixels(),
        &vec![
            0, 0, 0, 255, 0, 0, 0, 255, 255, 255, 255, 255, 255, 255, 255, 255, //
            0, 0, 0, 255, 0, 0, 0, 255, 255, 255, 255, 255, 255, 255, 255, 255,
        ]
    );
}

#[test]
fn stitch_adds_widths_and_takes_the_taller_height() {
    let left = tagged(3, 2, 1);
    let right = tagged(5, 7, 2);
    let out = stitch_horizontal(&left, &right).unwrap();
    assert_eq!(out.width(), 8);
    assert_eq!(out.height(), 7);
    assert_eq!(out.pixels().len(), 8 * 7 * 4);
    let out = stitch_horizontal(&right, &left).unwrap();
    assert_eq!(out.width(), 8);
    assert_eq!(out.height(), 7);
}

#[test]
fn stitch_places_each_image_at_its_offset() {
    let left = tagged(3, 2, 1);
    let right = tagged(2, 4, 2);
    let out = stitch_horizontal(&left, &right).unwrap();
    for y in 0..4 {
        for x in 0..5 {
            let expected = if x < 3 {
                if y < 2 { [x as u8, y as u8, 1, 200] } else { [255, 255, 255, 255] }
            } else {
                [(x - 3) as u8, y as u8, 2, 200]
            };
            assert_eq!(pixel(&out, x, y), expected, "column {} row {}", x, y);
        }
    }
}

#[test]
fn stitch_fills_below_the_shorter_image_with_white() {
    let short = solid(2, 1, [1, 2, 3, 4]);
    let tall = solid(1, 3, [9, 9, 9, 9]);
    let out = stitch_horizontal(&short, &tall).unwrap();
    for y in 1..3 {
        for x in 0..2 {
            assert_eq!(pixel(&out, x, y), [255, 255, 255, 255]);
        }
    }
    let out = stitch_horizontal(&tall, &short).unwrap();
    for y in 1..3 {
        for x in 1..3 {
            assert_eq!(pixel(&out, x, y), [255, 255, 255, 255]);
        }
        assert_eq!(pixel(&out, 0, y), [9, 9, 9, 9]);
    }
}

#[test]
fn stitch_is_not_commutative() {
    let a = solid(1, 1, [1, 1, 1, 1]);
    let b = solid(2, 1, [2, 2, 2, 2]);
    let ab = stitch_horizontal(&a, &b).unwrap();
    let ba = stitch_horizontal(&b, &a).unwrap();
    assert_ne!(ab, ba);
    assert_eq!(ab.width(), ba.width());
    assert_eq!(ab.height(), ba.height());
    assert_eq!(ab.pixels(), &vec![1, 1, 1, 1, 2, 2, 2, 2, 2, 2, 2, 2]);
    assert_eq!(ba.pixels(), &vec![2, 2, 2, 2, 2, 2, 2, 2, 1, 1, 1, 1]);
}

#[test]
fn stitch_of_equal_content_commutes_whatever_the_widths() {
    let a = solid(1, 1, [255, 255, 255, 255]);
    let b = solid(2, 1, [255, 255, 255, 255]);
    assert_eq!(stitch_horizontal(&a, &b).unwrap(), stitch_horizontal(&b, &a).unwrap());
}

#[test]
fn stitch_refuses_an_image_without_columns() {
    let empty = PixelBuffer::new(0, 3, Vec::new()).unwrap();
    let white = solid(2, 2, [255, 255, 255, 255]);
    assert_eq!(stitch_horizontal(&empty, &white), Err(PipelineError::EmptyImage));
    assert_eq!(stitch_horizontal(&white, &empty), Err(PipelineError::EmptyImage));
    assert_eq!(stitch_horizontal(&empty, &empty), Err(PipelineError::EmptyImage));
}

#[test]
fn stitch_accepts_images_without_rows() {
    let flat = PixelBuffer::new(3, 0, Vec::new()).unwrap();
    let out = stitch_horizontal(&flat, &flat).unwrap();
    assert_eq!(out.width(), 6);
    assert_eq!(out.height(), 0);
    assert_eq!(out.pixels().len(), 0);
    let dot = solid(1, 1, [5, 6, 7, 8]);
    let out = stitch_horizontal(&flat, &dot).unwrap();
    assert_eq!(out.width(), 4);
    assert_eq!(out.height(), 1);
    assert_eq!(
        out.pixels(),
        &vec![255, 255, 255, 255, 255, 255, 255, 255, 255, 255, 255, 255, 5, 6, 7, 8]
    );
}

#[test]
fn stitch_refuses_a_result_wider_than_a_width_can_be() {
    let wide = PixelBuffer::new(u32::MAX, 0, Vec::new()).unwrap();
    let flat = PixelBuffer::new(1, 0, Vec::new()).unwrap();
    assert_eq!(stitch_horizontal(&wide, &flat), Err(PipelineError::InvalidDimensions));
    let nearly = PixelBuffer::new(u32::MAX - 1, 0, Vec::new()).unwrap();
    let out = stitch_horizontal(&nearly, &flat).unwrap();
    assert_eq!(out.width(), u32::MAX);
}

#[test]
fn stitch_refuses_a_result_larger_than_a_buffer() {
    // 1073741823 columns of no rows beside one pixel: 1073741824 pixels.
    let wide = PixelBuffer::new(1073741823, 0, Vec::new()).unwrap();
    let dot = solid(1, 1, [0, 0, 0, 0]);
    assert_eq!(stitch_horizontal(&wide, &dot), Err(PipelineError::InvalidDimensions));
}

#[test]
fn copy_into_writes_at_the_offset_and_nowhere_else() {
    // A 4 by 3 destination of zeros, a 2 by 2 source at column 1.
    let mut dst = vec![0u8; 4 * 3 * 4];
    let src = tagged(2, 2, 9);
    copy_into(&mut dst, 4, &src, 1);
    for y in 0..3u32 {
        for x in 0..4u32 {
            let at = ((y * 4 + x) * 4) as usize;
            let expected = if (1..3).contains(&x) && y < 2 {
                [(x - 1) as u8, y as u8, 9, 200]
            } else {
                [0, 0, 0, 0]
            };
            assert_eq!(&dst[at..at + 4], &expected, "column {} row {}", x, y);
        }
    }
}

#[test]
fn copy_into_uses_the_destination_index_formula() {
    let mut dst = vec![7u8; 5 * 2 * 4];
    let src = PixelBuffer::new(1, 2, vec![1, 2, 3, 4, 5, 6, 7, 8]).unwrap();
    copy_into(&mut dst, 5, &src, 3);
    // ((y * dst_width + x_offset + x) * 4) + channel
    assert_eq!(&dst[12..16], &[1, 2, 3, 4]);
    assert_eq!(&dst[32..36], &[5, 6, 7, 8]);
    let untouched = dst.iter().filter(|b| **b == 7).count();
    assert_eq!(untouched, 40 - 8 + 1);
}
