//! Image primitives shared by embedding and thumbnails: the choice of decoder and
//! of JPEG decode scale, decoding of PNG and other image bytes to RGB (with the
//! png and image crates), and resizing of RGB pixel data with
//! `fast_image_resize`, with the resampling filter chosen from the scale factor.

use vstd::prelude::*;
use fast_image_resize::{images::Image, FilterType, PixelType, ResizeAlg, ResizeOptions, Resizer};
use crate::text::{ascii_lower, ascii_lowercase_chars, chars_equal, push_str};

verus! {

// ── Decoder choice ──────────────────────────────────────────────────

/// Which decoder reads a file.
#[derive(Clone, Copy, Debug, PartialEq, Eq, Structural)]
pub enum DecoderKind {
    /// JPEG via a scaled decode.
    Jpeg,
    /// PNG via the png crate, normalised to 8-bit samples.
    Png,
    /// Any other format via the image crate.
    Other,
}

/// The decoder for a (lowercased) file extension.
pub open spec fn decoder_for(ext_lower: Seq<char>) -> DecoderKind {
    if ext_lower == "jpg"@ || ext_lower == "jpeg"@ || ext_lower == "jfif"@ {
        DecoderKind::Jpeg
    } else if ext_lower == "png"@ {
        DecoderKind::Png
    } else {
        DecoderKind::Other
    }
}

/// Chooses the decoder from a file's extension, ignoring ASCII case (a file
/// without extension passes the empty text).
pub fn decoder_for_extension(ext: &str) -> (r: DecoderKind)
    ensures
        r == decoder_for(ascii_lower(ext@)),
{
    let lower = ascii_lowercase_chars(ext);
    if chars_equal(&lower, "jpg") || chars_equal(&lower, "jpeg") || chars_equal(&lower, "jfif") {
        DecoderKind::Jpeg
    } else if chars_equal(&lower, "png") {
        DecoderKind::Png
    } else {
        DecoderKind::Other
    }
}

/// A JPEG decode scale.
#[derive(Clone, Copy, Debug, PartialEq, Eq, Structural)]
pub enum JpegScale {
    One,
    OneHalf,
    OneQuarter,
    OneEighth,
}

/// The denominator of a decode scale.
pub open spec fn scale_denominator(s: JpegScale) -> nat {
    match s {
        JpegScale::One => 1,
        JpegScale::OneHalf => 2,
        JpegScale::OneQuarter => 4,
        JpegScale::OneEighth => 8,
    }
}

/// Chooses the smallest JPEG decode scale (1/8, 1/4, 1/2 or 1) that still keeps
/// the shorter side at least `target_size` pixels.
pub fn choose_jpeg_scale(width: usize, height: usize, target_size: usize) -> (r: JpegScale)
    ensures
        ({
            let min_dim = if width < height { width } else { height };
            &&& min_dim / 8 >= target_size ==> r == JpegScale::OneEighth
            &&& (min_dim / 8 < target_size && min_dim / 4 >= target_size) ==> r == JpegScale::OneQuarter
            &&& (min_dim / 4 < target_size && min_dim / 2 >= target_size) ==> r == JpegScale::OneHalf
            &&& min_dim / 2 < target_size ==> r == JpegScale::One
        }),
{
    let min_dim = if width < height { width } else { height };
    if min_dim / 8 >= target_size {
        JpegScale::OneEighth
    } else if min_dim / 4 >= target_size {
        JpegScale::OneQuarter
    } else if min_dim / 2 >= target_size {
        JpegScale::OneHalf
    } else {
        JpegScale::One
    }
}

// ── PNG pixels to RGB ───────────────────────────────────────────────

/// The colour layout of decoded 8-bit PNG samples.
#[derive(Clone, Copy, Debug, PartialEq, Eq, Structural)]
pub enum PngColor {
    Grayscale,
    Rgb,
    Indexed,
    GrayscaleAlpha,
    Rgba,
}

/// RGB from RGBA: the first three bytes of every whole 4-byte pixel.
pub open spec fn rgb_from_rgba(raw: Seq<u8>) -> Seq<u8> {
    Seq::new(3 * (raw.len() / 4), |i: int| raw[(i / 3) * 4 + i % 3])
}

/// RGB from gray-alpha: the gray byte of every whole 2-byte pixel, three times.
pub open spec fn rgb_from_gray_alpha(raw: Seq<u8>) -> Seq<u8> {
    Seq::new(3 * (raw.len() / 2), |i: int| raw[(i / 3) * 2])
}

/// RGB from gray: each of the first `n` gray bytes three times.
pub open spec fn rgb_from_gray(raw: Seq<u8>, n: nat) -> Seq<u8> {
    Seq::new(3 * n, |i: int| raw[i / 3])
}

/// `(3j + t) / 3 == j` and `(3j + t) % 3 == t` for `t < 3`.
proof fn lemma_div3(j: int, t: int)
    requires
        0 <= j,
        0 <= t < 3,
    ensures
        (3 * j + t) / 3 == j,
        (3 * j + t) % 3 == t,
{
    assert((3 * j + t) / 3 == j && (3 * j + t) % 3 == t) by (nonlinear_arith)
        requires 0 <= j, 0 <= t < 3;
}

/// Converts decoded 8-bit PNG samples to packed RGB. Palette images are expanded
/// by the decoder, so an indexed layout is refused.
pub fn png_to_rgb(raw: &[u8], color: PngColor, width: u32, height: u32, path: &str) -> (r: Result<Vec<u8>, String>)
    requires
        color == PngColor::Grayscale ==> raw@.len() >= width * height,
    ensures
        r is Err <==> color == PngColor::Indexed,
        r matches Err(m) ==> m@ == "Unexpected indexed color type after expansion in "@ + path@,
        r matches Ok(v) ==> v@ == match color {
            PngColor::Rgb => raw@,
            PngColor::Rgba => rgb_from_rgba(raw@),
            PngColor::GrayscaleAlpha => rgb_from_gray_alpha(raw@),
            _ => rgb_from_gray(raw@, (width * height) as nat),
        },
{
    match color {
        PngColor::Rgb => {
            let mut v: Vec<u8> = Vec::new();
            let mut i: usize = 0;
            while i < raw.len()
                invariant
                    i <= raw@.len(),
                    v@ == raw@.take(i as int),
                decreases raw.len() - i,
            {
                v.push(raw[i]);
                assert(v@ =~= raw@.take(i + 1));
                i = i + 1;
            }
            assert(raw@.take(raw@.len() as int) == raw@);
            Ok(v)
        },
        PngColor::Rgba => {
            let rl = raw.len();
            let n = rl / 4;
            let mut v: Vec<u8> = Vec::new();
            let mut j: usize = 0;
            while j < n
                invariant
                    rl == raw@.len(),
                    n == rl / 4,
                    j <= n,
                    v@ == Seq::new(3 * j as nat, |i: int| raw@[(i / 3) * 4 + i % 3]),
                decreases n - j,
            {
                assert(4 * j + 3 < rl) by (nonlinear_arith)
                    requires j < n, n == rl / 4;
                let b = 4 * j;
                v.push(raw[b]);
                v.push(raw[b + 1]);
                v.push(raw[b + 2]);
                proof {
                    lemma_div3(j as int, 0);
                    lemma_div3(j as int, 1);
                    lemma_div3(j as int, 2);
                }
                assert(v@ =~= Seq::new(3 * (j + 1) as nat, |i: int| raw@[(i / 3) * 4 + i % 3]));
                j = j + 1;
            }
            Ok(v)
        },
        PngColor::Grayscale => {
            let rl = raw.len();
            assert(width * height <= usize::MAX) by (nonlinear_arith)
                requires rl >= width * height, rl <= usize::MAX;
            let n = width as usize * height as usize;
            let mut v: Vec<u8> = Vec::new();
            let mut j: usize = 0;
            while j < n
                invariant
                    n == width * height,
                    n <= raw@.len(),
                    j <= n,
                    v@ == Seq::new(3 * j as nat, |i: int| raw@[i / 3]),
                decreases n - j,
            {
                let g = raw[j];
                v.push(g);
                v.push(g);
                v.push(g);
                proof {
                    lemma_div3(j as int, 0);
                    lemma_div3(j as int, 1);
                    lemma_div3(j as int, 2);
                }
                assert(v@ =~= Seq::new(3 * (j + 1) as nat, |i: int| raw@[i / 3]));
                j = j + 1;
            }
            Ok(v)
        },
        PngColor::GrayscaleAlpha => {
            let rl = raw.len();
            let n = rl / 2;
            let mut v: Vec<u8> = Vec::new();
            let mut j: usize = 0;
            while j < n
                invariant
                    rl == raw@.len(),
                    n == rl / 2,
                    j <= n,
                    v@ == Seq::new(3 * j as nat, |i: int| raw@[(i / 3) * 2]),
                decreases n - j,
            {
                assert(2 * j + 1 < rl) by (nonlinear_arith)
                    requires j < n, n == rl / 2;
                let g = raw[2 * j];
                v.push(g);
                v.push(g);
                v.push(g);
                proof {
                    lemma_div3(j as int, 0);
                    lemma_div3(j as int, 1);
                    lemma_div3(j as int, 2);
                }
                assert(v@ =~= Seq::new(3 * (j + 1) as nat, |i: int| raw@[(i / 3) * 2]));
                j = j + 1;
            }
            Ok(v)
        },
        PngColor::Indexed => {
            let mut m = String::from_str("Unexpected indexed color type after expansion in ");
            push_str(&mut m, path);
            Err(m)
        },
    }
}

// ── Resizing ────────────────────────────────────────────────────────

#[verifier::external_type_specification]
#[verifier::external_body]
pub struct ExResizer(Resizer);

/// Why the resizing library refused a resize.
pub enum ResizeFailure {
    /// The source buffer does not hold the stated image; the library's message.
    Source(String),
    /// The resize itself failed; the library's message.
    Resize(String),
}

/// The resampling filter of a resize (both by convolution).
#[derive(Clone, Copy, Debug, PartialEq, Eq, Structural)]
pub enum ResizeFilter {
    /// Area average, for large downscales.
    Box,
    /// Bilinear, for everything else.
    Bilinear,
}

/// The filter for a resize: `Box` when the image shrinks by more than four
/// times in width or in height, `Bilinear` otherwise.
pub open spec fn filter_for(src_width: nat, src_height: nat, dst_width: nat, dst_height: nat) -> ResizeFilter {
    if src_width > 4 * dst_width || src_height > 4 * dst_height {
        ResizeFilter::Box
    } else {
        ResizeFilter::Bilinear
    }
}

/// Chooses the resampling filter from the source and target sizes.
pub fn choose_resize_filter(src_width: u32, src_height: u32, dst_width: u32, dst_height: u32) -> (r: ResizeFilter)
    ensures
        r == filter_for(src_width as nat, src_height as nat, dst_width as nat, dst_height as nat),
{
    if src_width as u64 > 4 * (dst_width as u64) || src_height as u64 > 4 * (dst_height as u64) {
        ResizeFilter::Box
    } else {
        ResizeFilter::Bilinear
    }
}

/// The packed RGB pixels (`dst_width * dst_height * 3` bytes) that
/// `fast_image_resize` computes when it resizes the `src_width x src_height` RGB
/// image held at the start of `src` by convolution with the box filter
/// (`box_filter`) or the bilinear filter.
pub uninterp spec fn resized_rgb(
    src: Seq<u8>,
    src_width: u32,
    src_height: u32,
    dst_width: u32,
    dst_height: u32,
    box_filter: bool,
) -> Seq<u8>;

/// A fresh `fast_image_resize::Resizer` (`Resizer::new`), using the best CPU
/// extensions the machine offers.
#[verifier::external_body]
fn new_resizer() -> Resizer {
    Resizer::new()
}

/// Resizes packed RGB pixels by convolution with the given filter
/// (`Resizer::resize` of `fast_image_resize`, on images built with
/// `Image::from_vec_u8` and `Image::new`, pixel type `U8x3`). Claimed:
/// `from_vec_u8` refuses the source exactly when its buffer is shorter than
/// `src_width * src_height * 3` bytes, with `ImageBufferError::InvalidBufferSize`
/// (whose text is fixed; the alignment check never fails for `U8x3`); otherwise
/// the resize succeeds (it fails only on differing pixel types) and yields the named pixels, which depend on
/// the arguments alone: the resizer's scratch buffers do not affect them, and the
/// library's tests hold `U8x3` convolution results equal under every CPU
/// extension.
#[verifier::external_body]
fn resize_rgb(
    resizer: &mut Resizer,
    src: Vec<u8>,
    src_width: u32,
    src_height: u32,
    dst_width: u32,
    dst_height: u32,
    filter: ResizeFilter,
) -> (r: Result<Vec<u8>, ResizeFailure>)
    requires
        src_width * src_height * 3 <= usize::MAX,
        dst_width * dst_height * 3 <= usize::MAX,
    ensures
        src@.len() < src_width * src_height * 3 <==> r matches Err(ResizeFailure::Source(_)),
        r matches Err(ResizeFailure::Source(m)) ==> m@ == "Size of buffer is smaller than required"@,
        src@.len() >= src_width * src_height * 3 ==> r is Ok,
        r matches Ok(v) ==> v@ == resized_rgb(src@, src_width, src_height, dst_width, dst_height, filter == ResizeFilter::Box)
            && v@.len() == dst_width * dst_height * 3,
{
    let src_image = Image::from_vec_u8(src_width, src_height, src, PixelType::U8x3)
        .map_err(|e| ResizeFailure::Source(e.to_string()))?;
    let mut dst_image = Image::new(dst_width, dst_height, PixelType::U8x3);
    let filter_type = match filter {
        ResizeFilter::Box => FilterType::Box,
        ResizeFilter::Bilinear => FilterType::Bilinear,
    };
    let options = ResizeOptions::new().resize_alg(ResizeAlg::Convolution(filter_type));
    resizer.resize(&src_image, &mut dst_image, Some(&options)).map_err(|e| ResizeFailure::Resize(e.to_string()))?;
    Ok(dst_image.into_vec())
}

/// `prefix` followed by `detail`.
fn message(prefix: &str, detail: String) -> (r: String)
    ensures
        r@ == prefix@ + detail@,
{
    let mut m = String::from_str(prefix);
    push_str(&mut m, detail.as_str());
    m
}

/// Resizes packed RGB pixel data to the given size, with the box filter for a
/// downscale of more than four times and bilinear otherwise. Zero dimensions are
/// refused; equal sizes return a copy. A reusable resizer may be passed to avoid
/// allocating one per image; the result does not depend on it.
pub fn fast_resize_rgb(
    rgb_data: &[u8],
    src_width: u32,
    src_height: u32,
    dst_width: u32,
    dst_height: u32,
    resizer: Option<&mut Resizer>,
) -> (r: Result<Vec<u8>, String>)
    requires
        src_width * src_height * 3 <= usize::MAX,
        dst_width * dst_height * 3 <= usize::MAX,
    ensures
        (src_width == 0 || src_height == 0 || dst_width == 0 || dst_height == 0) ==> (r matches Err(m) && m@
            == "Invalid image dimensions"@),
        (src_width > 0 && src_height > 0 && src_width == dst_width && src_height == dst_height) ==> (r matches Ok(v)
            && v@ == rgb_data@),
        (src_width > 0 && src_height > 0 && dst_width > 0 && dst_height > 0 && !(src_width == dst_width
            && src_height == dst_height)) ==> {
            &&& rgb_data@.len() < src_width * src_height * 3 ==> (r matches Err(m) && m@
                == "Failed to create source image: "@ + "Size of buffer is smaller than required"@)
            &&& rgb_data@.len() >= src_width * src_height * 3 ==> (r matches Ok(v) && v@ == resized_rgb(
                rgb_data@,
                src_width,
                src_height,
                dst_width,
                dst_height,
                filter_for(src_width as nat, src_height as nat, dst_width as nat, dst_height as nat)
                    == ResizeFilter::Box,
            ) && v@.len() == dst_width * dst_height * 3)
        },
{
    if src_width == 0 || src_height == 0 || dst_width == 0 || dst_height == 0 {
        return Err(String::from_str("Invalid image dimensions"));
    }
    let copy = slice_to_vec(rgb_data);
    if src_width == dst_width && src_height == dst_height {
        return Ok(copy);
    }
    let filter = choose_resize_filter(src_width, src_height, dst_width, dst_height);
    let result = match resizer {
        Some(r) => resize_rgb(r, copy, src_width, src_height, dst_width, dst_height, filter),
        None => {
            let mut fallback = new_resizer();
            resize_rgb(&mut fallback, copy, src_width, src_height, dst_width, dst_height, filter)
        },
    };
    match result {
        Ok(v) => Ok(v),
        Err(ResizeFailure::Source(e)) => {
            let m = message("Failed to create source image: ", e);
            proof {
                reveal_strlit("Failed to create source image: ");
                assert("Failed to create source image: "@.is_prefix_of(m@)) by {
                    assert(m@.subrange(0, "Failed to create source image: "@.len() as int) =~= "Failed to create source image: "@);
                }
            }
            Err(m)
        },
        Err(ResizeFailure::Resize(e)) => Err(message("Failed to resize image: ", e)),
    }
}

// ── Decoding bytes ──────────────────────────────────────────────────

/// What the png crate decodes from a file's bytes with its samples normalised
/// to 8 bits (`Transformations::normalize_to_color8`): the first frame's samples,
/// the output colour type's code (`png::ColorType as u8`), width and height.
pub uninterp spec fn png_decoded(bytes: Seq<u8>) -> Option<(Seq<u8>, u8, u32, u32)>;

/// What the image crate decodes from a file's bytes, read in the format named by
/// the file extension (`ImageFormat::from_extension`) and converted to packed
/// RGB8: pixels, width and height.
pub uninterp spec fn image_decoded(ext: Seq<char>, bytes: Seq<u8>) -> Option<(Seq<u8>, u32, u32)>;

/// Samples per pixel of an 8-bit PNG output colour type code.
pub open spec fn png_channels(code: u8) -> nat {
    if code == 0 { 1 } else if code == 2 { 3 } else if code == 4 { 2 } else { 4 }
}

/// Where decoding a PNG failed.
pub enum PngFailure {
    /// Reading the header; the library's message.
    Info(String),
    /// The output buffer size does not fit in memory.
    BufferSize,
    /// Decoding the first frame; the library's message.
    Frame(String),
}

/// Decodes PNG bytes with the png crate (`Decoder::new`, `set_transformations`
/// with `normalize_to_color8`, `read_info`, `output_buffer_size`, `next_frame`,
/// keeping `OutputInfo::buffer_size` bytes). Claimed: the result is the named
/// decoding; with that transformation the output is 8-bit grayscale (0), RGB
/// (2), gray-alpha (4) or RGBA (6), never indexed, and a frame holds
/// `width * height * channels` bytes.
#[verifier::external_body]
fn decode_png_samples(bytes: &[u8]) -> (r: Result<(Vec<u8>, u8, u32, u32), PngFailure>)
    ensures
        r matches Ok((s, c, w, h)) ==> png_decoded(bytes@) == Some((s@, c, w, h)) && (c == 0 || c == 2 || c == 4
            || c == 6) && s@.len() == w * h * png_channels(c),
        r is Err ==> png_decoded(bytes@) is None,
{
    let mut decoder = png::Decoder::new(std::io::Cursor::new(bytes));
    decoder.set_transformations(png::Transformations::normalize_to_color8());
    let mut reader = decoder.read_info().map_err(|e| PngFailure::Info(e.to_string()))?;
    let size = reader.output_buffer_size().ok_or(PngFailure::BufferSize)?;
    let mut buf = vec![0u8; size];
    let info = reader.next_frame(&mut buf).map_err(|e| PngFailure::Frame(e.to_string()))?;
    buf.truncate(info.buffer_size());
    Ok((buf, info.color_type as u8, info.width, info.height))
}

/// Decodes image bytes with the image crate (`ImageReader::new` over the bytes,
/// `set_format` with `ImageFormat::from_extension(ext)` when the extension names
/// a format, `decode`, `to_rgb8`, `into_raw`). Claimed: the result is the named
/// decoding, and the pixels are packed RGB8 (`width * height * 3` bytes).
#[verifier::external_body]
fn decode_with_image_crate(ext: &str, bytes: &[u8]) -> (r: Result<(Vec<u8>, u32, u32), String>)
    ensures
        r matches Ok((d, w, h)) ==> image_decoded(ext@, bytes@) == Some((d@, w, h)) && d@.len() == w * h * 3,
        r is Err ==> image_decoded(ext@, bytes@) is None,
{
    let mut reader = image::ImageReader::new(std::io::Cursor::new(bytes));
    if let Some(format) = image::ImageFormat::from_extension(ext) {
        reader.set_format(format);
    }
    let rgb = reader.decode().map_err(|e| e.to_string())?.to_rgb8();
    let (width, height) = rgb.dimensions();
    Ok((rgb.into_raw(), width, height))
}

/// The colour layout of a PNG output colour type code.
pub open spec fn png_color_of(code: u8) -> PngColor {
    if code == 0 {
        PngColor::Grayscale
    } else if code == 2 {
        PngColor::Rgb
    } else if code == 3 {
        PngColor::Indexed
    } else if code == 4 {
        PngColor::GrayscaleAlpha
    } else {
        PngColor::Rgba
    }
}

/// Packed RGB from decoded 8-bit PNG samples of the given colour type code.
pub open spec fn png_rgb(samples: Seq<u8>, code: u8, width: u32, height: u32) -> Seq<u8> {
    match png_color_of(code) {
        PngColor::Rgb => samples,
        PngColor::Rgba => rgb_from_rgba(samples),
        PngColor::GrayscaleAlpha => rgb_from_gray_alpha(samples),
        _ => rgb_from_gray(samples, (width * height) as nat),
    }
}

/// The RGB pixels a decoding reports for a file, when it succeeds: PNG through the
/// png crate then the sample conversion, anything else through the image crate.
pub open spec fn decoded_rgb(kind: DecoderKind, ext: Seq<char>, bytes: Seq<u8>) -> Option<(Seq<u8>, u32, u32)> {
    if kind == DecoderKind::Png {
        match png_decoded(bytes) {
            Some((s, c, w, h)) => Some((png_rgb(s, c, w, h), w, h)),
            None => None,
        }
    } else {
        image_decoded(ext, bytes)
    }
}

fn png_color(code: u8) -> (c: PngColor)
    ensures
        c == png_color_of(code),
{
    if code == 0 {
        PngColor::Grayscale
    } else if code == 2 {
        PngColor::Rgb
    } else if code == 3 {
        PngColor::Indexed
    } else if code == 4 {
        PngColor::GrayscaleAlpha
    } else {
        PngColor::Rgba
    }
}

/// `prefix`, then `path`, then `suffix`.
fn framed(prefix: &str, path: &str, suffix: &str) -> (r: String)
    ensures
        r@ == prefix@ + path@ + suffix@,
{
    let mut m = String::from_str(prefix);
    push_str(&mut m, path);
    push_str(&mut m, suffix);
    m
}

/// Decodes the bytes of an image file to packed RGB, with the decoder that its
/// extension selects: `None` for JPEG files, which the scaled JPEG decoder
/// reads; PNG through the png crate; anything else through the image crate.
/// `path` only appears in error messages.
pub fn decode_image_bytes(ext: &str, bytes: &[u8], path: &str) -> (r: Option<Result<(Vec<u8>, u32, u32), String>>)
    ensures
        r is None <==> decoder_for(ascii_lower(ext@)) == DecoderKind::Jpeg,
        r matches Some(res) ==> {
            let kind = decoder_for(ascii_lower(ext@));
            &&& res is Ok <==> decoded_rgb(kind, ext@, bytes@) is Some
            &&& res matches Ok((d, w, h)) ==> decoded_rgb(kind, ext@, bytes@) == Some((d@, w, h)) && d@.len() == w
                * h * 3
            &&& res matches Err(m) ==> {
                &&& kind == DecoderKind::Png ==> (("Failed to read PNG info "@ + path@ + ": "@).is_prefix_of(m@)
                    || m@ == "PNG buffer size overflow: "@ + path@ || ("Failed to decode PNG frame "@ + path@
                    + ": "@).is_prefix_of(m@))
                &&& kind == DecoderKind::Other ==> ("Failed to open image "@ + path@ + ": "@).is_prefix_of(m@)
            }
        },
{
    match decoder_for_extension(ext) {
        DecoderKind::Jpeg => None,
        DecoderKind::Png => {
            match decode_png_samples(bytes) {
                Ok((samples, code, width, height)) => {
                    let color = png_color(code);
                    proof {
                        if code == 0 {
                            assert(samples@.len() == width * height) by (nonlinear_arith)
                                requires samples@.len() == width * height * 1;
                        }
                    }
                    let rgb = png_to_rgb(samples.as_slice(), color, width, height, path);
                    match rgb {
                        Ok(d) => {
                            proof {
                                let n = width * height;
                                if code == 6 {
                                    assert((n * 4) / 4 == n) by (nonlinear_arith);
                                } else if code == 4 {
                                    assert((n * 2) / 2 == n) by (nonlinear_arith);
                                }
                                assert(d@.len() == width * height * 3) by (nonlinear_arith)
                                    requires d@.len() == 3 * n, n == width * height;
                            }
                            Some(Ok((d, width, height)))
                        },
                        Err(m) => Some(Err(m)),
                    }
                },
                Err(PngFailure::Info(e)) => {
                    let ghost ev = e@;
                    let m = message(framed("Failed to read PNG info ", path, ": ").as_str(), e);
                    proof { lemma_prefix_of_concat("Failed to read PNG info "@ + path@ + ": "@, ev); }
                    Some(Err(m))
                },
                Err(PngFailure::BufferSize) => {
                    let m = framed("PNG buffer size overflow: ", path, "");
                    proof {
                        reveal_strlit("");
                        assert(m@ =~= "PNG buffer size overflow: "@ + path@);
                    }
                    Some(Err(m))
                },
                Err(PngFailure::Frame(e)) => {
                    let ghost ev = e@;
                    let m = message(framed("Failed to decode PNG frame ", path, ": ").as_str(), e);
                    proof { lemma_prefix_of_concat("Failed to decode PNG frame "@ + path@ + ": "@, ev); }
                    Some(Err(m))
                },
            }
        },
        DecoderKind::Other => {
            match decode_with_image_crate(ext, bytes) {
                Ok((d, width, height)) => Some(Ok((d, width, height))),
                Err(e) => {
                    let ghost ev = e@;
                    let m = message(framed("Failed to open image ", path, ": ").as_str(), e);
                    proof { lemma_prefix_of_concat("Failed to open image "@ + path@ + ": "@, ev); }
                    Some(Err(m))
                },
            }
        },
    }
}

/// `p` is a prefix of `p` followed by anything.
proof fn lemma_prefix_of_concat(p: Seq<char>, e: Seq<char>)
    ensures
        p.is_prefix_of(p + e),
{
    assert((p + e).subrange(0, p.len() as int) =~= p);
}

/// A copy of a byte slice.
fn slice_to_vec(s: &[u8]) -> (v: Vec<u8>)
    ensures
        v@ == s@,
{
    let mut v: Vec<u8> = Vec::new();
    let mut i: usize = 0;
    while i < s.len()
        invariant
            i <= s@.len(),
            v@ == s@.take(i as int),
        decreases s.len() - i,
    {
        v.push(s[i]);
        assert(v@ =~= s@.take(i + 1));
        i = i + 1;
    }
    assert(s@.take(s@.len() as int) == s@);
    v
}

} // verus!
