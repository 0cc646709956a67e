use pixel_pipeline::buffer::PixelBuffer;
use pixel_pipeline::flip::flip_vertical;

#[test]
fn flip_swaps_top_and_bottom() {
    // 2 columns, 3 rows.
    let pixels: Vec<u8> = (0..24).collect();
    let mut buf = PixelBuffer::new(2, 3, pixels).unwrap();
    flip_vertical(&mut buf);
    assert_eq!(buf.width(), 2);
    assert_eq!(buf.height(), 3);
    assert_eq!(
        buf.pixels(),
        &vec![
            16, 17, 18, 19, 20, 21, 22, 23, //
            8, 9, 10, 11, 12, 13, 14, 15, //
            0, 1, 2, 3, 4, 5, 6, 7,
        ]
    );
}

#[test]
fn flip_twice_gives_the_image_back() {
    let pixels: Vec<u8> = (0..(5 * 4 * 4)).map(|i| (i * 7) as u8).collect();
    let mut buf = PixelBuffer::new(5, 4, pixels.clone()).unwrap();
    flip_vertical(&mut buf);
    assert_ne!(buf.pixels(), &pixels);
    flip_vertical(&mut buf);
    assert_eq!(buf.pixels(), &pixels);
}

#[test]
fn flip_leaves_one_row_and_no_row() {
    let mut row = PixelBuffer::new(2, 1, vec![1, 2, 3, 4, 5, 6, 7, 8]).unwrap();
    flip_vertical(&mut row);
    assert_eq!(row.pixels(), &vec![1, 2, 3, 4, 5, 6, 7, 8]);
    let mut none = PixelBuffer::new(3, 0, Vec::new()).unwrap();
    flip_vertical(&mut none);
    assert_eq!(none, PixelBuffer::new(3, 0, Vec::new()).unwrap());
}
