use vstd::prelude::*;
use crate::image_store::{image_raw_format, StoredScreenshot, INTERNAL_IMAGE_PATH_FORMAT};
use crate::models::ClipboardDataSeed;
use crate::text::{chars_of, decimal, decimal_chars, extend_chars, is_blank, own, str_is_blank, string_of};

verus! {

/// Why a screenshot action failed.
#[derive(Debug, Clone, PartialEq, Eq)]
pub enum ScreenshotActionError {
    Clipboard(String),
    Save(String),
    Pin(String),
    InvalidAction(String),
}

fn concat(a: &str, b: &str) -> (r: String)
    ensures
        r@ == a@ + b@,
{
    let mut v = chars_of(a);
    let w = chars_of(b);
    extend_chars(&mut v, w.as_slice());
    string_of(v.as_slice())
}

impl ScreenshotActionError {
    /// The message shown for this error.
    pub fn message(&self) -> (r: String)
        ensures
            match self {
                ScreenshotActionError::Clipboard(m) => r@ == "复制截图失败: "@ + m@,
                ScreenshotActionError::Save(m) => r@ == "保存截图失败: "@ + m@,
                ScreenshotActionError::Pin(m) => r@ == "贴图失败: "@ + m@,
                ScreenshotActionError::InvalidAction(m) => r@ == "不支持的截图动作: "@ + m@,
            },
    {
        match self {
            ScreenshotActionError::Clipboard(m) => concat("复制截图失败: ", m.as_str()),
            ScreenshotActionError::Save(m) => concat("保存截图失败: ", m.as_str()),
            ScreenshotActionError::Pin(m) => concat("贴图失败: ", m.as_str()),
            ScreenshotActionError::InvalidAction(m) => concat("不支持的截图动作: ", m.as_str()),
        }
    }
}

/// A captured clipboard content, ready to be stored in the history.
pub struct ProcessedContent {
    pub content: String,
    pub html_content: Option<String>,
    pub content_type: String,
    pub image_id: Option<String>,
    pub source_app: Option<String>,
    pub source_icon_hash: Option<String>,
    pub raw_formats: Vec<ClipboardDataSeed>,
}

/// The history text of a stored screenshot: a one-file list naming its
/// relative path, its `<id>.png` name and its size.
pub open spec fn screenshot_files_content(relative_path: Seq<char>, image_id: Seq<char>, png_bytes: nat) -> Seq<char> {
    "files:[{\"path\":\""@ + relative_path + "\",\"name\":\""@ + image_id + ".png\",\"size\":"@ + decimal(png_bytes)
        + ",\"is_directory\":false,\"file_type\":\"image/png\"}]"@
}

/// The history entry of a stored screenshot: an image entry whose text
/// lists the PNG and whose only raw format is its relative path.
pub fn prepare_clipboard_content(stored: &StoredScreenshot) -> (r: ProcessedContent)
    ensures
        r.content@ == screenshot_files_content(stored.relative_path@, stored.image_id@, stored.png_bytes as nat),
        r.html_content is None,
        r.content_type@ == "image"@,
        r.image_id is Some && r.image_id->0@ == stored.image_id@,
        r.source_app is Some && r.source_app->0@ == "QuickClipboard Screenshot"@,
        r.source_icon_hash is None,
        r.raw_formats@.len() == 1,
        r.raw_formats@[0].format_name@ == INTERNAL_IMAGE_PATH_FORMAT@,
        r.raw_formats@[0].raw_data@ == vstd::utf8::encode_utf8(stored.relative_path@),
{
    let a = concat("files:[{\"path\":\"", stored.relative_path.as_str());
    let b = concat(a.as_str(), "\",\"name\":\"");
    let c = concat(b.as_str(), stored.image_id.as_str());
    let d = concat(c.as_str(), ".png\",\"size\":");
    let n = decimal_chars(stored.png_bytes as u64);
    let ns = string_of(n.as_slice());
    let e = concat(d.as_str(), ns.as_str());
    let content = concat(e.as_str(), ",\"is_directory\":false,\"file_type\":\"image/png\"}]");
    let mut raw_formats: Vec<ClipboardDataSeed> = Vec::new();
    raw_formats.push(image_raw_format(stored.relative_path.as_str()));
    ProcessedContent {
        content,
        html_content: None,
        content_type: own("image"),
        image_id: Some(stored.image_id.clone()),
        source_app: Some(own("QuickClipboard Screenshot")),
        source_icon_hash: None,
        raw_formats,
    }
}

/// Refuses to save a screenshot to an empty path, before any file is touched.
pub fn check_save_destination(destination: &str) -> (r: Result<(), ScreenshotActionError>)
    ensures
        destination@.len() == 0 ==> r is Err && r->Err_0 is Save && r->Err_0->Save_0@ == "目标路径为空"@,
        destination@.len() != 0 ==> r is Ok,
{
    let cs = chars_of(destination);
    if cs.len() == 0 {
        return Err(ScreenshotActionError::Save(own("目标路径为空")));
    }
    Ok(())
}

/// The history entry of text recognised in a screenshot; blank text is refused.
pub fn recognized_text_content(text: &str) -> (r: Result<ProcessedContent, ScreenshotActionError>)
    ensures
        is_blank(text@) ==> r is Err && r->Err_0 is Clipboard && r->Err_0->Clipboard_0@ == "AI 未识别出文本"@,
        !is_blank(text@) ==> r is Ok && r->Ok_0.content@ == text@ && r->Ok_0.html_content is None
            && r->Ok_0.content_type@ == "text"@ && r->Ok_0.image_id is None && r->Ok_0.source_app is Some
            && r->Ok_0.source_app->0@ == "QuickClipboard Screenshot AI"@ && r->Ok_0.source_icon_hash is None
            && r->Ok_0.raw_formats@.len() == 0,
{
    if str_is_blank(text) {
        return Err(ScreenshotActionError::Clipboard(own("AI 未识别出文本")));
    }
    Ok(ProcessedContent {
        content: own(text),
        html_content: None,
        content_type: own("text"),
        image_id: None,
        source_app: Some(own("QuickClipboard Screenshot AI")),
        source_icon_hash: None,
        raw_formats: Vec::new(),
    })
}

} // verus!
