use gl_capture::CaptureFormat;

#[test]
fn channel_count_matches_pixel_size_for_every_format() {
    let formats = [
        CaptureFormat::Rgb,
        CaptureFormat::Rgba,
        CaptureFormat::Bgr,
        CaptureFormat::Bgra,
    ];
    for format in formats {
        assert_eq!(format.channel_count(), format.pixel_size());
    }
    assert_eq!(CaptureFormat::Rgb.channel_count(), 3);
    assert_eq!(CaptureFormat::Bgr.channel_count(), 3);
    assert_eq!(CaptureFormat::Rgba.channel_count(), 4);
    assert_eq!(CaptureFormat::Bgra.channel_count(), 4);
}

#[test]
fn gl_format_codes_match_the_registry() {
    assert_eq!(CaptureFormat::Rgba.to_gl_format(), 0x1908);
    assert_eq!(CaptureFormat::Rgb.to_gl_format(), 0x1907);
    assert_eq!(CaptureFormat::Bgra.to_gl_format(), 0x80E1);
    assert_eq!(CaptureFormat::Bgr.to_gl_format(), 0x80E0);
}

#[test]
fn allocate_pixel_data_is_zero_filled_bgra() {
    let data = CaptureFormat::Bgra.allocate_pixel_data((5, 3));
    assert_eq!(data.len(), 5 * 3 * 4);
    assert!(data.iter().all(|&b| b == 0));
}

#[test]
fn allocate_pixel_data_three_channel_and_empty() {
    let data = CaptureFormat::Rgb.allocate_pixel_data((2, 2));
    assert_eq!(data.len(), 12);
    assert!(data.iter().all(|&b| b == 0));

    let empty = CaptureFormat::Rgba.allocate_pixel_data((0, 7));
    assert_eq!(empty.len(), 0);
}

#[test]
fn check_read_pixels_rejects_short_destinations() {
    // 2 x 2 RGB needs 12 bytes: 10 is rejected, 12 accepted.
    let size = (2, 2);
    assert!(!gl_capture::check_read_pixels(size, CaptureFormat::Rgb, 10));
    assert!(gl_capture::check_read_pixels(size, CaptureFormat::Rgb, 12));
    assert!(gl_capture::check_read_pixels(size, CaptureFormat::Rgb, 13));
}

#[test]
fn check_read_pixels_rejects_oversized_dimensions() {
    let too_wide = (0x8000_0000u32, 1u32);
    assert!(!gl_capture::check_read_pixels(
        too_wide,
        CaptureFormat::Rgb,
        usize::MAX
    ));
    let too_tall = (1u32, 0x8000_0000u32);
    assert!(!gl_capture::check_read_pixels(
        too_tall,
        CaptureFormat::Rgb,
        usize::MAX
    ));
    assert!(gl_capture::check_read_pixels(
        (0x7fff_ffff, 0),
        CaptureFormat::Rgb,
        0
    ));
}

#[test]
fn viewport_size_takes_width_and_height_entries() {
    assert_eq!(gl_capture::viewport_size([7, 9, 640, 480]), (640, 480));
    assert_eq!(gl_capture::viewport_size([0, 0, 0, 0]), (0, 0));
}
