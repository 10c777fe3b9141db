use semantic_image_browser::image_ops::{
    choose_resize_filter, decode_image_bytes, fast_resize_rgb, ResizeFilter,
};

fn png_bytes(width: u32, height: u32, color: png::ColorType, data: &[u8]) -> Vec<u8> {
    let mut out = Vec::new();
    {
        let mut encoder = png::Encoder::new(&mut out, width, height);
        encoder.set_color(color);
        encoder.set_depth(png::BitDepth::Eight);
        let mut writer = encoder.write_header().unwrap();
        writer.write_image_data(data).unwrap();
    }
    out
}

#[test]
fn decodes_png_rgba_to_rgb() {
    let bytes = png_bytes(2, 1, png::ColorType::Rgba, &[1, 2, 3, 255, 4, 5, 6, 128]);
    let (rgb, w, h) = decode_image_bytes("PNG", &bytes, "a.png").unwrap().unwrap();
    assert_eq!((w, h), (2, 1));
    assert_eq!(rgb, vec![1, 2, 3, 4, 5, 6]);
}

#[test]
fn decodes_png_gray_to_rgb() {
    let bytes = png_bytes(3, 1, png::ColorType::Grayscale, &[7, 8, 9]);
    let (rgb, w, h) = decode_image_bytes("png", &bytes, "g.png").unwrap().unwrap();
    assert_eq!((w, h), (3, 1));
    assert_eq!(rgb, vec![7, 7, 7, 8, 8, 8, 9, 9, 9]);
}

#[test]
fn broken_png_reports_its_path() {
    let m = decode_image_bytes("png", b"not a png", "bad.png").unwrap().unwrap_err();
    assert!(m.starts_with("Failed to read PNG info bad.png: "));
}

#[test]
fn other_formats_go_through_the_image_crate() {
    let img = image::RgbImage::from_raw(2, 2, vec![10, 20, 30, 40, 50, 60, 70, 80, 90, 100, 110, 120]).unwrap();
    let mut bytes = std::io::Cursor::new(Vec::new());
    img.write_to(&mut bytes, image::ImageFormat::Bmp).unwrap();
    let (rgb, w, h) = decode_image_bytes("bmp", bytes.get_ref(), "a.bmp").unwrap().unwrap();
    assert_eq!((w, h), (2, 2));
    assert_eq!(rgb.len(), 12);
    assert_eq!(rgb, img.into_raw());
    let m = decode_image_bytes("gif", b"nope", "x.gif").unwrap().unwrap_err();
    assert!(m.starts_with("Failed to open image x.gif: "));
}

#[test]
fn jpeg_is_left_to_the_scaled_decoder() {
    assert!(decode_image_bytes("JPEG", b"whatever", "a.jpeg").is_none());
    assert!(decode_image_bytes("jfif", b"", "a.jfif").is_none());
}

#[test]
fn resize_filter_choice() {
    assert_eq!(choose_resize_filter(1024, 1024, 256, 256), ResizeFilter::Bilinear);
    assert_eq!(choose_resize_filter(1025, 800, 256, 256), ResizeFilter::Box);
    assert_eq!(choose_resize_filter(100, 2000, 256, 256), ResizeFilter::Box);
    assert_eq!(choose_resize_filter(100, 100, 256, 256), ResizeFilter::Bilinear);
}

#[test]
fn resize_does_not_depend_on_the_resizer() {
    let src: Vec<u8> = (0..(40 * 30 * 3)).map(|i| (i * 7 % 251) as u8).collect();
    let mut resizer = fast_image_resize::Resizer::new();
    for (dw, dh) in [(8u32, 6u32), (20, 15), (64, 48)] {
        let a = fast_resize_rgb(&src, 40, 30, dw, dh, None).unwrap();
        let b = fast_resize_rgb(&src, 40, 30, dw, dh, Some(&mut resizer)).unwrap();
        assert_eq!(a, b);
        assert_eq!(a.len(), (dw * dh * 3) as usize);
    }
}

#[test]
fn short_buffer_error_is_the_same_with_or_without_a_resizer() {
    let mut resizer = fast_image_resize::Resizer::new();
    let a = fast_resize_rgb(&[0u8; 5], 4, 4, 2, 2, None).unwrap_err();
    let b = fast_resize_rgb(&[0u8; 5], 4, 4, 2, 2, Some(&mut resizer)).unwrap_err();
    assert_eq!(a, "Failed to create source image: Size of buffer is smaller than required");
    assert_eq!(a, b);
}
