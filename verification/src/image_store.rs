use vstd::prelude::*;
use vstd::string::StringSliceAdditionalSpecFns;
use crate::hashing::{sha256_hex, sha256_hex_string, utf8_bytes};
use crate::imaging::{encode_png_rgba, png_encoding};
use crate::models::ClipboardDataSeed;
use crate::text::{chars_of, decimal, decimal_chars, extend_chars, own, string_of};

verus! {

/// The directory, under the data directory, of history images.
pub const CLIPBOARD_IMAGE_DIRECTORY: &'static str = "clipboard_images";
/// The directory, under the data directory, of pinned images.
pub const PIN_IMAGE_DIRECTORY: &'static str = "pin_images";
/// The length of a content-addressed image identifier.
pub const IMAGE_ID_LENGTH: usize = 16;
/// The raw format under which a history image's relative path is stored.
pub const INTERNAL_IMAGE_PATH_FORMAT: &'static str = "__QC_IMAGE_PNG_PATH__";

/// A screenshot stored as a content-addressed PNG.
#[derive(Debug, Clone, PartialEq, Eq)]
pub struct StoredScreenshot {
    pub relative_path: String,
    pub absolute_path: String,
    pub image_id: String,
    pub width: u32,
    pub height: u32,
    pub png_bytes: usize,
}

/// Why storing a screenshot failed.
#[derive(Debug, Clone, PartialEq, Eq)]
pub enum ImageStoreError {
    InvalidDimensions,
    InvalidRgbaLength { expected: usize, actual: usize },
    DataDirectory(String),
    CreateDirectory(String),
    Read(String),
    Encode(String),
    AtomicWrite(String),
}

fn concat(a: &str, b: &str) -> (r: String)
    ensures
        r@ == a@ + b@,
{
    let mut v = chars_of(a);
    let w = chars_of(b);
    extend_chars(&mut v, w.as_slice());
    string_of(v.as_slice())
}

fn usize_text(n: usize) -> (r: String)
    ensures
        r@ == decimal(n as nat),
{
    let d = decimal_chars(n as u64);
    string_of(d.as_slice())
}

/// The message shown for an error.
pub open spec fn store_error_message(e: ImageStoreError) -> Seq<char> {
    match e {
        ImageStoreError::InvalidDimensions => "截图尺寸无效"@,
        ImageStoreError::InvalidRgbaLength { expected, actual } => "截图像素数据长度无效: expected="@ + decimal(
            expected as nat,
        ) + ", actual="@ + decimal(actual as nat),
        ImageStoreError::DataDirectory(m) => "获取截图数据目录失败: "@ + m@,
        ImageStoreError::CreateDirectory(m) => "创建截图目录失败: "@ + m@,
        ImageStoreError::Read(m) => "读取截图文件失败: "@ + m@,
        ImageStoreError::Encode(m) => "编码截图 PNG 失败: "@ + m@,
        ImageStoreError::AtomicWrite(m) => "原子写入截图 PNG 失败: "@ + m@,
    }
}

impl ImageStoreError {
    /// The message shown for this error.
    pub fn message(&self) -> (r: String)
        ensures
            r@ == store_error_message(*self),
    {
        match self {
            ImageStoreError::InvalidDimensions => own("截图尺寸无效"),
            ImageStoreError::InvalidRgbaLength { expected, actual } => {
                let e = usize_text(*expected);
                let a = usize_text(*actual);
                let m1 = concat("截图像素数据长度无效: expected=", e.as_str());
                let m2 = concat(m1.as_str(), ", actual=");
                concat(m2.as_str(), a.as_str())
            },
            ImageStoreError::DataDirectory(m) => concat("获取截图数据目录失败: ", m.as_str()),
            ImageStoreError::CreateDirectory(m) => concat("创建截图目录失败: ", m.as_str()),
            ImageStoreError::Read(m) => concat("读取截图文件失败: ", m.as_str()),
            ImageStoreError::Encode(m) => concat("编码截图 PNG 失败: ", m.as_str()),
            ImageStoreError::AtomicWrite(m) => concat("原子写入截图 PNG 失败: ", m.as_str()),
        }
    }
}

/// Encodes RGBA pixels as PNG after checking the size: no empty side, and
/// exactly `width * height * 4` bytes, a count that must fit in `usize`.
pub fn encode_png(width: u32, height: u32, rgba: &[u8]) -> (r: Result<Vec<u8>, ImageStoreError>)
    ensures
        (width == 0 || height == 0) ==> r == Err::<Vec<u8>, ImageStoreError>(ImageStoreError::InvalidDimensions),
        width != 0 && height != 0 && width as nat * height as nat * 4 > usize::MAX ==> r == Err::<Vec<u8>, ImageStoreError>(
            ImageStoreError::InvalidDimensions,
        ),
        width != 0 && height != 0 && width as nat * height as nat * 4 <= usize::MAX && rgba@.len() != width as nat * height as nat * 4
            ==> r == Err::<Vec<u8>, ImageStoreError>(
            ImageStoreError::InvalidRgbaLength { expected: (width as nat * height as nat * 4) as usize, actual: rgba@.len() as usize },
        ),
        width != 0 && height != 0 && rgba@.len() == width as nat * height as nat * 4 ==> match png_encoding(width, height, rgba@) {
            Some(b) => r is Ok && r->Ok_0@ == b,
            None => r is Err && r->Err_0 is Encode,
        },
{
    let n = rgba.len();
    if width == 0 || height == 0 {
        return Err(ImageStoreError::InvalidDimensions);
    }
    let pixels = (width as usize).checked_mul(height as usize);
    let expected = match pixels {
        Some(p) => p.checked_mul(4),
        None => None,
    };
    let expected = match expected {
        Some(e) => e,
        None => {
            proof {
                if width as nat * height as nat <= usize::MAX {
                    assert(width as nat * height as nat * 4 > usize::MAX);
                } else {
                    assert(width as nat * height as nat * 4 > usize::MAX) by (nonlinear_arith)
                        requires width as nat * height as nat > usize::MAX;
                }
            }
            assert(n <= usize::MAX);
            return Err(ImageStoreError::InvalidDimensions);
        },
    };
    if rgba.len() != expected {
        return Err(ImageStoreError::InvalidRgbaLength { expected, actual: rgba.len() });
    }
    match encode_png_rgba(width, height, rgba) {
        Ok(b) => Ok(b),
        Err(e) => Err(ImageStoreError::Encode(e)),
    }
}

/// The content-addressed identifier of a PNG: the first sixteen hex digits
/// of its SHA-256 digest.
pub open spec fn content_image_id_of(png: Seq<u8>) -> Seq<char> {
    sha256_hex(png).take(IMAGE_ID_LENGTH as int)
}

/// The identifier under which a PNG is stored.
pub fn content_image_id(png_bytes: &[u8]) -> (r: String)
    ensures
        r@ == content_image_id_of(png_bytes@),
        r@.len() == IMAGE_ID_LENGTH,
{
    let digest = sha256_hex_string(png_bytes);
    let cs = chars_of(digest.as_str());
    crate::text::string_of_range(cs.as_slice(), 0, IMAGE_ID_LENGTH)
}

/// Where a PNG of `png_len` bytes with identifier `image_id` is stored:
/// `clipboard_images/<id>.png` under the data directory.
pub open spec fn stored_screenshot_of(
    width: u32,
    height: u32,
    png_len: usize,
    image_id: Seq<char>,
    images_directory: Seq<char>,
) -> (Seq<char>, Seq<char>) {
    let file = image_id + ".png"@;
    ("clipboard_images/"@ + file, crate::paths::join_path(images_directory, file))
}

/// Describes the stored form of an encoded screenshot: its identifier, its
/// relative path, and its absolute path in `images_directory`.
pub fn stored_screenshot(width: u32, height: u32, png_bytes: &[u8], images_directory: &str) -> (r: StoredScreenshot)
    ensures
        r.image_id@ == content_image_id_of(png_bytes@),
        (r.relative_path@, r.absolute_path@) == stored_screenshot_of(width, height, png_bytes@.len() as usize, r.image_id@, images_directory@),
        r.width == width,
        r.height == height,
        r.png_bytes == png_bytes@.len(),
{
    let image_id = content_image_id(png_bytes);
    let file = concat(image_id.as_str(), ".png");
    let relative_path = concat("clipboard_images/", file.as_str());
    let fc = chars_of(file.as_str());
    let absolute_path = crate::paths::join_path_str(images_directory, fc.as_slice());
    StoredScreenshot { relative_path, absolute_path, image_id, width, height, png_bytes: png_bytes.len() }
}

/// The file name of a screenshot pinned to the screen, or offered when saving it.
pub fn pin_file_name(image_id: &str) -> (r: String)
    ensures
        r@ == "QC_"@ + image_id@ + ".png"@,
{
    let a = concat("QC_", image_id);
    concat(a.as_str(), ".png")
}

/// The raw format that records a history image by its relative path only.
pub fn image_raw_format(relative_path: &str) -> (r: ClipboardDataSeed)
    ensures
        r.format_name@ == INTERNAL_IMAGE_PATH_FORMAT@,
        r.raw_data@ == relative_path.spec_bytes(),
        !r.is_primary,
        r.format_order == 0,
{
    ClipboardDataSeed {
        format_name: own(INTERNAL_IMAGE_PATH_FORMAT),
        raw_data: utf8_bytes(relative_path),
        is_primary: false,
        format_order: 0,
    }
}

} // verus!
