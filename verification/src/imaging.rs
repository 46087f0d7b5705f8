use vstd::prelude::*;

verus! {

/// What `image`'s `PngEncoder::write_image` writes for an RGBA image;
/// `None` when it fails.
pub uninterp spec fn png_encoding(width: u32, height: u32, rgba: Seq<u8>) -> Option<Seq<u8>>;

/// What `image`'s `JpegEncoder::new_with_quality(.., quality).encode_image`
/// writes for an RGBA image; `None` when it fails.
pub uninterp spec fn jpeg_encoding(width: u32, height: u32, rgba: Seq<u8>, quality: u8) -> Option<Seq<u8>>;

/// What `DynamicImage::thumbnail(max, max)` gives for an RGBA image: its
/// width, height and pixels.
pub uninterp spec fn thumbnail_of(width: u32, height: u32, rgba: Seq<u8>, max: u32) -> (u32, u32, Seq<u8>);

/// A digit of the standard base64 alphabet.
pub open spec fn base64_digit(v: int) -> char {
    if v < 26 {
        (('A' as int) + v) as char
    } else if v < 52 {
        (('a' as int) + v - 26) as char
    } else if v < 62 {
        (('0' as int) + v - 52) as char
    } else if v == 62 {
        '+'
    } else {
        '/'
    }
}

/// What `base64`'s standard engine encodes a byte string as: each group of
/// three bytes as four digits of six bits, most significant first, and a
/// last group of one or two bytes padded with `=` to four characters.
pub open spec fn base64_of(bytes: Seq<u8>) -> Seq<char>
    decreases bytes.len(),
{
    if bytes.len() == 0 {
        Seq::empty()
    } else if bytes.len() == 1 {
        seq![base64_digit(bytes[0] as int / 4), base64_digit((bytes[0] as int % 4) * 16), '=', '=']
    } else if bytes.len() == 2 {
        seq![
            base64_digit(bytes[0] as int / 4),
            base64_digit((bytes[0] as int % 4) * 16 + bytes[1] as int / 16),
            base64_digit((bytes[1] as int % 16) * 4),
            '=',
        ]
    } else {
        seq![
            base64_digit(bytes[0] as int / 4),
            base64_digit((bytes[0] as int % 4) * 16 + bytes[1] as int / 16),
            base64_digit((bytes[1] as int % 16) * 4 + bytes[2] as int / 64),
            base64_digit(bytes[2] as int % 64),
        ] + base64_of(bytes.skip(3))
    }
}

/// Whether `rgba` holds exactly `width` by `height` RGBA pixels.
pub open spec fn is_rgba_image(width: u32, height: u32, rgba: Seq<u8>) -> bool {
    rgba.len() == width as nat * height as nat * 4
}

/// Encodes RGBA pixels as PNG with `image::codecs::png::PngEncoder::write_image`.
/// The bytes are named by `png_encoding`; the error text is the encoder's message.
#[verifier::external_body]
pub(crate) fn encode_png_rgba(width: u32, height: u32, rgba: &[u8]) -> (r: Result<Vec<u8>, String>)
    requires
        is_rgba_image(width, height, rgba@),
    ensures
        match r {
            Ok(b) => png_encoding(width, height, rgba@) == Some(b@),
            Err(_) => png_encoding(width, height, rgba@) is None,
        },
{
    let mut bytes = Vec::new();
    let encoder = image::codecs::png::PngEncoder::new(&mut bytes);
    let result = image::ImageEncoder::write_image(encoder, rgba, width, height, image::ExtendedColorType::Rgba8);
    match result {
        Ok(()) => Ok(bytes),
        Err(e) => Err(e.to_string()),
    }
}

/// Encodes RGBA pixels as JPEG at `quality` with
/// `image::codecs::jpeg::JpegEncoder::new_with_quality(..).encode_image`.
/// The bytes are named by `jpeg_encoding`; the error text is the encoder's message.
#[verifier::external_body]
pub(crate) fn encode_jpeg_rgba(width: u32, height: u32, rgba: &[u8], quality: u8) -> (r: Result<Vec<u8>, String>)
    requires
        is_rgba_image(width, height, rgba@),
    ensures
        match r {
            Ok(b) => jpeg_encoding(width, height, rgba@, quality) == Some(b@),
            Err(_) => jpeg_encoding(width, height, rgba@, quality) is None,
        },
{
    let image = image::DynamicImage::ImageRgba8(image::RgbaImage::from_raw(width, height, rgba.to_vec()).unwrap());
    let mut bytes = Vec::new();
    let result = image::codecs::jpeg::JpegEncoder::new_with_quality(&mut bytes, quality).encode_image(&image);
    match result {
        Ok(()) => Ok(bytes),
        Err(e) => Err(e.to_string()),
    }
}

/// Scales an RGBA image down to fit in `max` by `max` with
/// `image::DynamicImage::thumbnail`, keeping its aspect ratio. The result is
/// named by `thumbnail_of`; the image crate gives back a whole RGBA image.
#[verifier::external_body]
pub(crate) fn thumbnail_rgba(width: u32, height: u32, rgba: &[u8], max: u32) -> (r: (u32, u32, Vec<u8>))
    requires
        is_rgba_image(width, height, rgba@),
    ensures
        (r.0, r.1, r.2@) == thumbnail_of(width, height, rgba@, max),
        is_rgba_image(r.0, r.1, r.2@),
{
    let image = image::DynamicImage::ImageRgba8(image::RgbaImage::from_raw(width, height, rgba.to_vec()).unwrap());
    let small = image.thumbnail(max, max).to_rgba8();
    (small.width(), small.height(), small.into_raw())
}

/// Encodes bytes with `base64::engine::general_purpose::STANDARD`, the
/// standard alphabet with padding; the text is `base64_of`.
#[verifier::external_body]
pub(crate) fn base64_standard(bytes: &[u8]) -> (r: String)
    ensures
        r@ == base64_of(bytes@),
{
    base64::Engine::encode(&base64::engine::general_purpose::STANDARD, bytes)
}

/// What `image::ImageReader` decodes from `bytes` in the format that
/// `extension` names (as `image::open` takes it from a path's extension),
/// converted with `DynamicImage::to_rgba8`: width, height and RGBA pixels;
/// `None` when decoding fails.
pub uninterp spec fn decoded_rgba(bytes: Seq<u8>, extension: Option<Seq<char>>) -> Option<(u32, u32, Seq<u8>)>;

/// Decodes an image file's bytes with `image::ImageReader` (the format from
/// `ImageFormat::from_extension`, none without a known extension, which the
/// reader refuses as `image::open` does) and converts it with `to_rgba8`,
/// whose buffer holds four bytes per pixel. The result is named by
/// `decoded_rgba`; the error text is the decoder's message.
#[verifier::external_body]
pub(crate) fn decode_image_rgba(bytes: &[u8], extension: &Option<String>) -> (r: Result<(u32, u32, Vec<u8>), String>)
    ensures
        match r {
            Ok((w, h, px)) => decoded_rgba(bytes@, crate::database::opt_text(*extension)) == Some((w, h, px@))
                && px@.len() == w as nat * h as nat * 4,
            Err(_) => decoded_rgba(bytes@, crate::database::opt_text(*extension)) is None,
        },
{
    let cursor = std::io::Cursor::new(bytes);
    let reader = match extension.as_deref().and_then(image::ImageFormat::from_extension) {
        Some(format) => image::ImageReader::with_format(cursor, format),
        None => image::ImageReader::new(cursor),
    };
    match reader.decode() {
        Ok(img) => {
            let rgba = img.to_rgba8();
            Ok((rgba.width(), rgba.height(), rgba.into_raw()))
        },
        Err(e) => Err(e.to_string()),
    }
}

} // verus!
