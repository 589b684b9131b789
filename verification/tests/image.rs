use gl_capture::{capture_into, Bgra, ImageData, Rgb, RgbImageData, Rgba};

#[test]
fn new_fills_with_the_clear_value() {
    let img: ImageData<Rgb> = ImageData::new((3, 2));
    assert_eq!(img.size, (3, 2));
    assert_eq!(img.data.len(), 6);
    assert!(img.data.iter().all(|&p| p == Rgb([0, 0, 0])));

    let img: ImageData<Rgba> = ImageData::new((2, 2));
    assert_eq!(img.data.len(), 4);
    assert!(img.data.iter().all(|&p| p == Rgba([0, 0, 0, 255])));

    let img: ImageData<Bgra> = ImageData::new((4, 0));
    assert_eq!(img.data.len(), 0);
}

#[test]
fn try_new_allocates_like_new() {
    let img: ImageData<Rgb> = ImageData::try_new((2, 3)).unwrap();
    assert_eq!(img.size, (2, 3));
    assert_eq!(img.data.len(), 6);
    assert!(img.data.iter().all(|&p| p == Rgb([0, 0, 0])));
}

#[test]
fn resize_truncates_or_extends_with_clear_values() {
    let mut img: ImageData<Rgba> = ImageData::new((2, 2));
    for (i, p) in img.data.iter_mut().enumerate() {
        *p = Rgba([i as u8, 0, 0, 1]);
    }

    img.resize((1, 2));
    assert_eq!(img.size, (1, 2));
    assert_eq!(img.data.len(), 2);
    assert_eq!(img.data[0], Rgba([0, 0, 0, 1]));
    assert_eq!(img.data[1], Rgba([1, 0, 0, 1]));

    img.resize((2, 2));
    assert_eq!(img.data.len(), 4);
    assert_eq!(img.data[0], Rgba([0, 0, 0, 1]));
    assert_eq!(img.data[1], Rgba([1, 0, 0, 1]));
    assert_eq!(img.data[2], Rgba([0, 0, 0, 255]));
    assert_eq!(img.data[3], Rgba([0, 0, 0, 255]));
}

#[test]
fn resize_round_trip_restores_the_length() {
    let (w, h) = (4u32, 3u32);
    let mut img: ImageData<Rgb> = ImageData::new((w, h));
    img.resize((2, 2));
    img.resize((w, h));
    assert_eq!(img.data.len(), (w * h) as usize);
}

#[test]
fn flip_swaps_rows_top_to_bottom() {
    let mut img: ImageData<Rgb> = ImageData::new((2, 3));
    for (i, p) in img.data.iter_mut().enumerate() {
        *p = Rgb([i as u8, 0, 0]);
    }
    img.flip_vertically();
    let rows: Vec<Vec<u8>> = img.data.chunks(2).map(|r| r.iter().map(|p| p.r()).collect()).collect();
    assert_eq!(rows, vec![vec![4, 5], vec![2, 3], vec![0, 1]]);
}

#[test]
fn flip_twice_is_identity() {
    for &(w, h) in &[(4u32, 2u32), (3, 3), (1, 5), (5, 1), (0, 4), (4, 0), (0, 0)] {
        let mut img: ImageData<Rgb> = ImageData::new((w, h));
        for (i, p) in img.data.iter_mut().enumerate() {
            *p = Rgb([(i % 251) as u8, (i / 251) as u8, 7]);
        }
        let before = img.data.clone();
        img.flip_vertically();
        img.flip_vertically();
        assert_eq!(img.data, before);
        assert_eq!(img.size, (w, h));
    }
}

#[test]
fn flip_leaves_the_middle_row_of_an_odd_image() {
    let mut img: ImageData<Rgb> = ImageData::new((2, 3));
    for (i, p) in img.data.iter_mut().enumerate() {
        *p = Rgb([i as u8, 0, 0]);
    }
    img.flip_vertically();
    assert_eq!(img.data[2], Rgb([2, 0, 0]));
    assert_eq!(img.data[3], Rgb([3, 0, 0]));
}

#[test]
fn clone_copies_size_and_pixels() {
    let mut img: RgbImageData = ImageData::new((2, 1));
    img.data[0] = Rgb([1, 2, 3]);
    img.data[1] = Rgb([4, 5, 6]);
    let copy = img.clone();
    assert_eq!(copy.size, img.size);
    assert_eq!(copy.data, img.data);
}

#[test]
fn capture_into_decodes_and_flips_a_synthetic_viewport() {
    // A 4 x 2 viewport: the driver hands back 8 RGB pixels bottom-up.
    let mut raw = Vec::new();
    for i in 0..8u8 {
        raw.extend_from_slice(&[3 * i, 3 * i + 1, 3 * i + 2]);
    }
    let mut img: ImageData<Rgb> = ImageData::new((4, 2));
    capture_into(&mut img, &raw);

    // Every pixel was overwritten; hardware row 0 is now the last row.
    assert_eq!(img.data.len(), 8);
    for x in 0..4u8 {
        let hw_row0 = Rgb([3 * x, 3 * x + 1, 3 * x + 2]);
        let hw_row1 = Rgb([3 * (x + 4), 3 * (x + 4) + 1, 3 * (x + 4) + 2]);
        assert_eq!(img.data[x as usize], hw_row1, "hardware row 1 becomes logical row 0");
        assert_eq!(img.data[4 + x as usize], hw_row0, "hardware row 0 becomes logical row 1");
    }
}

#[test]
fn capture_into_bgra_reads_four_byte_pixels() {
    let raw = vec![1, 2, 3, 4, 5, 6, 7, 8];
    let mut img: ImageData<Bgra> = ImageData::new((2, 1));
    capture_into(&mut img, &raw);
    assert_eq!(img.data[0], Bgra([1, 2, 3, 4]));
    assert_eq!(img.data[1], Bgra([5, 6, 7, 8]));
}
