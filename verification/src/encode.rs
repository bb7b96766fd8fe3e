//! Image files in and out: decoding the PNG files a theme ships (its
//! background and the weather icons) into pixels, and turning a rendered
//! preview into what the settings app's web view shows: a PNG file, carried
//! in a `data:` URL in base64.
use vstd::prelude::*;
use crate::frame::Frame;
use crate::text::{append_str, chars_of, string_from_chars};

verus! {

/// The base64 digit for `n < 64` in the standard alphabet (RFC 4648).
pub open spec fn b64_digit(n: int) -> char {
    if n < 26 {
        (n + 65) as char
    } else if n < 52 {
        (n - 26 + 97) as char
    } else if n < 62 {
        (n - 52 + 48) as char
    } else if n == 62 {
        '+'
    } else {
        '/'
    }
}

/// `data` in standard base64 with padding: every three bytes give four digits,
/// and a last group of one or two bytes is padded with `=`.
pub open spec fn base64_text(data: Seq<u8>) -> Seq<char>
    decreases data.len(),
{
    if data.len() == 0 {
        seq![]
    } else if data.len() == 1 {
        seq![b64_digit(data[0] as int / 4), b64_digit((data[0] as int % 4) * 16), '=', '=']
    } else if data.len() == 2 {
        seq![
            b64_digit(data[0] as int / 4),
            b64_digit((data[0] as int % 4) * 16 + data[1] as int / 16),
            b64_digit((data[1] as int % 16) * 4),
            '=',
        ]
    } else {
        seq![
            b64_digit(data[0] as int / 4),
            b64_digit((data[0] as int % 4) * 16 + data[1] as int / 16),
            b64_digit((data[1] as int % 16) * 4 + data[2] as int / 64),
            b64_digit(data[2] as int % 64),
        ] + base64_text(data.skip(3))
    }
}

/// Standard base64 with padding writes four digits for every started group of
/// three bytes.
pub proof fn base64_length(data: Seq<u8>)
    ensures
        base64_text(data).len() == (data.len() + 2) / 3 * 4,
    decreases data.len(),
{
    if data.len() > 2 {
        base64_length(data.skip(3));
    }
}

/// `base64`'s `general_purpose::STANDARD.encode`: the standard alphabet with
/// padding, as its documentation and RFC 4648 section 4 describe. It panics
/// only when the output length overflows `usize`, which `requires` rules out.
#[verifier::external_body]
fn base64_standard(data: &[u8]) -> (s: String)
    requires
        data@.len() / 3 * 4 + 4 <= usize::MAX,
    ensures
        s@ == base64_text(data@),
{
    base64::Engine::encode(&base64::engine::general_purpose::STANDARD, data)
}

/// The `data:` URL of a PNG file, as the preview pane loads it.
pub fn png_data_url(png: &Vec<u8>) -> (url: String)
    requires
        png@.len() / 3 * 4 + 4 <= usize::MAX,
    ensures
        url@ == "data:image/png;base64,"@ + base64_text(png@),
{
    let b64 = base64_standard(png.as_slice());
    let mut out = chars_of("data:image/png;base64,");
    append_str(&mut out, b64.as_str());
    string_from_chars(&out)
}

#[verifier::external_type_specification]
#[verifier::external_body]
pub struct ExImageError(image::ImageError);

/// The PNG file that `image`'s `PngEncoder` (default compression and filter)
/// writes for an RGB image of `width` x `height` pixels with bytes `data`, or
/// none where it reports an error.
pub uninterp spec fn png_rgb8(width: u32, height: u32, data: Seq<u8>) -> Option<Seq<u8>>;

/// `PngEncoder::new(..).write_image(data, width, height, Rgb8)` into a buffer.
/// Its result is named, not stated: it is a function of the arguments alone.
/// It asserts that `data` holds exactly `width * height * 3` bytes, which
/// `requires` demands.
#[verifier::external_body]
fn png_encode_rgb8(data: &[u8], width: u32, height: u32) -> (r: Result<Vec<u8>, image::ImageError>)
    requires
        data@.len() == width as int * height as int * 3,
    ensures
        r is Ok <==> png_rgb8(width, height, data@) is Some,
        r matches Ok(b) ==> png_rgb8(width, height, data@) == Some(b@),
{
    let mut bytes: Vec<u8> = Vec::new();
    let encoder = image::codecs::png::PngEncoder::new(&mut bytes);
    match image::ImageEncoder::write_image(encoder, data, width, height, image::ExtendedColorType::Rgb8) {
        Ok(()) => Ok(bytes),
        Err(e) => Err(e),
    }
}

/// The message `image` gives for an error (its `Display`).
#[verifier::external_body]
fn image_error_text(e: &image::ImageError) -> (s: String) {
    e.to_string()
}

/// Encodes a rendered image as a PNG file; an encoder error is reported as
/// `PNG encode error: ` and the encoder's message.
pub fn encode_png(img: &Frame) -> (r: Result<Vec<u8>, String>)
    requires
        img.wf(),
    ensures
        r is Ok <==> png_rgb8(img.w() as u32, img.h() as u32, img.bytes()) is Some,
        r matches Ok(b) ==> png_rgb8(img.w() as u32, img.h() as u32, img.bytes()) == Some(b@),
        r matches Err(e) ==> e@.take(18) == "PNG encode error: "@,
{
    proof {
        crate::frame::lemma_wf_len(*img);
    }
    match png_encode_rgb8(img.as_raw().as_slice(), img.width(), img.height()) {
        Ok(b) => Ok(b),
        Err(e) => {
            let mut out = chars_of("PNG encode error: ");
            let msg = image_error_text(&e);
            append_str(&mut out, msg.as_str());
            proof {
                reveal_strlit("PNG encode error: ");
                assert(out@.take(18) =~= "PNG encode error: "@);
            }
            Err(string_from_chars(&out))
        },
    }
}

/// What `image` decodes from the file contents `bytes`, its format chosen by
/// the file-name extension `ext` (`ImageFormat::from_extension`), converted to
/// 8-bit RGB: width, height and the pixel bytes; none where the extension
/// names no format this build reads or the decoder reports an error.
pub uninterp spec fn decoded_rgb8(bytes: Seq<u8>, ext: Seq<char>) -> Option<(u32, u32, Seq<u8>)>;

/// The same decode, converted to 8-bit RGBA.
pub uninterp spec fn decoded_rgba8(bytes: Seq<u8>, ext: Seq<char>) -> Option<(u32, u32, Seq<u8>)>;

/// `ImageFormat::from_extension(ext)`, then `load_from_memory_with_format`
/// and `to_rgb8`: the same steps `image::open` takes for a file with that
/// extension. Its result is named: a function of the bytes and the extension
/// alone. An RGB buffer holds three bytes per pixel.
#[verifier::external_body]
fn decode_rgb8(bytes: &[u8], ext: &str) -> (r: Option<(u32, u32, Vec<u8>)>)
    ensures
        r is None <==> decoded_rgb8(bytes@, ext@) is None,
        r matches Some((w, h, d)) ==> decoded_rgb8(bytes@, ext@) == Some((w, h, d@)) && d@.len() == w * h * 3,
{
    let format = image::ImageFormat::from_extension(ext)?;
    let img = image::load_from_memory_with_format(bytes, format).ok()?.to_rgb8();
    let (w, h) = img.dimensions();
    Some((w, h, img.into_raw()))
}

/// As `decode_rgb8`, with `to_rgba8`: four bytes per pixel.
#[verifier::external_body]
fn decode_rgba8(bytes: &[u8], ext: &str) -> (r: Option<(u32, u32, Vec<u8>)>)
    ensures
        r is None <==> decoded_rgba8(bytes@, ext@) is None,
        r matches Some((w, h, d)) ==> decoded_rgba8(bytes@, ext@) == Some((w, h, d@)) && d@.len() == w * h * 4,
{
    let format = image::ImageFormat::from_extension(ext)?;
    let img = image::load_from_memory_with_format(bytes, format).ok()?.to_rgba8();
    let (w, h) = img.dimensions();
    Some((w, h, img.into_raw()))
}

/// Decodes an image file (a theme's background) into a raster: `bytes` is the
/// file's contents and `ext` its file-name extension. `None` where the file
/// cannot be decoded.
pub fn load_image(bytes: &[u8], ext: &str) -> (f: Option<Frame>)
    ensures
        f is None <==> decoded_rgb8(bytes@, ext@) is None,
        f matches Some(fr) ==> fr.wf() && decoded_rgb8(bytes@, ext@) == Some(
            (fr.w() as u32, fr.h() as u32, fr.bytes()),
        ),
{
    match decode_rgb8(bytes, ext) {
        Some((w, h, d)) => Frame::from_raw(w, h, d),
        None => None,
    }
}

/// A decoded image with an alpha channel: `data` holds four bytes per pixel,
/// `[r, g, b, a]`, row-major.
pub struct RgbaPixels {
    pub width: u32,
    pub height: u32,
    pub data: Vec<u8>,
}

/// Decodes an icon file (a weather icon) with its transparency: `bytes` is
/// the file's contents and `ext` its file-name extension. `None` where the
/// file cannot be decoded.
pub fn load_icon(bytes: &[u8], ext: &str) -> (r: Option<RgbaPixels>)
    ensures
        r is None <==> decoded_rgba8(bytes@, ext@) is None,
        r matches Some(i) ==> decoded_rgba8(bytes@, ext@) == Some((i.width, i.height, i.data@))
            && i.data@.len() == i.width * i.height * 4,
{
    match decode_rgba8(bytes, ext) {
        Some((width, height, data)) => Some(RgbaPixels { width, height, data }),
        None => None,
    }
}

} // verus!
