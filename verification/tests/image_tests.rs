use semantic_image_browser::embedding::{fail_valid, initial_batch_results};
use semantic_image_browser::embedding::batch_output_ranges;
use semantic_image_browser::embedding::{fit_token_ids, MAX_SEQ_LENGTH};
use semantic_image_browser::image_ops::{
    choose_jpeg_scale, decoder_for_extension, fast_resize_rgb, png_to_rgb, DecoderKind, JpegScale, PngColor,
};
use semantic_image_browser::thumbnail::thumbnail_file_name;

#[test]
fn decoders_by_extension() {
    assert_eq!(decoder_for_extension("JPG"), DecoderKind::Jpeg);
    assert_eq!(decoder_for_extension("jfif"), DecoderKind::Jpeg);
    assert_eq!(decoder_for_extension("Png"), DecoderKind::Png);
    assert_eq!(decoder_for_extension("webp"), DecoderKind::Other);
    assert_eq!(decoder_for_extension(""), DecoderKind::Other);
}

#[test]
fn jpeg_scales() {
    assert_eq!(choose_jpeg_scale(4000, 3000, 256), JpegScale::OneEighth);
    assert_eq!(choose_jpeg_scale(1500, 2000, 256), JpegScale::OneQuarter);
    assert_eq!(choose_jpeg_scale(600, 512, 256), JpegScale::OneHalf);
    assert_eq!(choose_jpeg_scale(300, 511, 256), JpegScale::One);
}

#[test]
fn png_layouts() {
    assert_eq!(png_to_rgb(&[1, 2, 3, 4, 5, 6], PngColor::Rgb, 2, 1, "p").unwrap(), vec![1, 2, 3, 4, 5, 6]);
    assert_eq!(png_to_rgb(&[1, 2, 3, 9, 4, 5, 6, 9], PngColor::Rgba, 2, 1, "p").unwrap(), vec![1, 2, 3, 4, 5, 6]);
    assert_eq!(png_to_rgb(&[7, 8, 99], PngColor::Grayscale, 2, 1, "p").unwrap(), vec![7, 7, 7, 8, 8, 8]);
    assert_eq!(png_to_rgb(&[7, 0, 8, 0], PngColor::GrayscaleAlpha, 2, 1, "p").unwrap(), vec![7, 7, 7, 8, 8, 8]);
    assert_eq!(
        png_to_rgb(&[0], PngColor::Indexed, 1, 1, "x.png").unwrap_err(),
        "Unexpected indexed color type after expansion in x.png"
    );
}

#[test]
fn resizing() {
    assert_eq!(fast_resize_rgb(&[1, 2, 3], 0, 1, 1, 1, None).unwrap_err(), "Invalid image dimensions");
    assert_eq!(fast_resize_rgb(&[1, 2, 3], 1, 1, 1, 1, None).unwrap(), vec![1, 2, 3]);
    let src = vec![200u8; 4 * 4 * 3];
    let out = fast_resize_rgb(&src, 4, 4, 2, 2, None).unwrap();
    assert_eq!(out.len(), 2 * 2 * 3);
    assert!(out.iter().all(|&b| b == 200));
    let mut resizer = fast_image_resize::Resizer::new();
    let up = fast_resize_rgb(&src, 4, 4, 8, 6, Some(&mut resizer)).unwrap();
    assert_eq!(up.len(), 8 * 6 * 3);
    let short = fast_resize_rgb(&[0u8; 5], 4, 4, 2, 2, None).unwrap_err();
    assert!(short.starts_with("Failed to create source image: "));
}

#[test]
fn thumbnail_names() {
    assert_eq!(
        thumbnail_file_name("abc"),
        "ba7816bf8f01cfea414140de5dae2223b00361a396177a9cb410ff61f20015ad.webp"
    );
    assert_eq!(thumbnail_file_name("/photos/cat.jpg").len(), 69);
}

#[test]
fn token_ids_are_fitted() {
    let short = fit_token_ids(&[5, 6, 7]);
    assert_eq!(short.len(), MAX_SEQ_LENGTH);
    assert_eq!(&short[..4], &[5, 6, 7, 0]);
    let long: Vec<u32> = (0..100).collect();
    let cut = fit_token_ids(&long);
    assert_eq!(cut.len(), 64);
    assert_eq!(cut[63], 63);
}

#[test]
fn batch_output_slots() {
    let r = batch_output_ranges(3, 4, 10);
    assert_eq!(r[0], Ok((0, 4)));
    assert_eq!(r[1], Ok((4, 8)));
    assert_eq!(r[2], Err("Embedding index out of bounds: expected 8..12, got len 10".to_string()));
}

#[test]
fn batch_result_bookkeeping() {
    let errors = vec![None, Some("bad decode".to_string()), None];
    let mut results: Vec<Result<u8, String>> = initial_batch_results(&errors, 3);
    assert_eq!(results[0], Err("Not processed".to_string()));
    assert_eq!(results[1], Err("bad decode".to_string()));
    fail_valid(&mut results, &vec![0, 2], "inference failed");
    assert_eq!(results[0], Err("inference failed".to_string()));
    assert_eq!(results[1], Err("bad decode".to_string()));
    assert_eq!(results[2], Err("inference failed".to_string()));
}
