use vstd::prelude::*;
use crate::imaging::{
    base64_of, base64_standard, encode_jpeg_rgba, encode_png_rgba, is_rgba_image, jpeg_encoding, png_encoding,
    thumbnail_of, thumbnail_rgba,
};
use crate::text::{
    ascii_lowercase, chars_ascii_lowercase, chars_contains, chars_ends_with, chars_of, chars_starts_with, contains,
    ends_with, extend_chars, is_blank, own, starts_with, str_is_blank, string_of, string_of_range, trim, trim_chars,
};

verus! {

/// The longest side an uploaded image keeps.
pub const MAX_IMAGE_DIMENSION: u32 = 4096;
/// The largest upload, in bytes.
pub const MAX_IMAGE_BYTES: usize = 8388608;
/// The first JPEG quality tried.
pub const JPEG_QUALITY: u8 = 90;
/// The lowest JPEG quality tried.
pub const JPEG_MIN_QUALITY: u8 = 45;
/// The step between two JPEG qualities tried.
pub const JPEG_QUALITY_STEP: u8 = 15;
/// How many requests a recognition makes at most.
pub const MAX_RECOGNITION_ATTEMPTS: usize = 2;

/// Why a recognition failed. No variant's message carries a credential or
/// the service's raw reply.
#[derive(Debug, Clone, PartialEq, Eq)]
pub enum AiVisionError {
    NotConfigured,
    InvalidImage(String),
    Encode(String),
    UnsupportedVisionModel,
    Request(String),
    Timeout,
    HttpStatus(u16),
    Unauthorized,
    RateLimited,
    Server(u16),
    InvalidResponse(String),
}

/// One block of recognised text.
#[derive(Debug, Clone, PartialEq, Eq)]
pub struct AiVisionBlock {
    pub block_type: String,
    pub text: String,
}

/// The recognised text of an image.
#[derive(Debug, Clone, PartialEq, Eq)]
pub struct AiVisionResult {
    pub text: String,
    pub blocks: Vec<AiVisionBlock>,
}

/// The message shown for an error.
pub open spec fn error_message(e: AiVisionError) -> Seq<char> {
    match e {
        AiVisionError::NotConfigured => "AI 视觉识别尚未完成配置"@,
        AiVisionError::InvalidImage(m) => "AI 图片无效: "@ + m@,
        AiVisionError::Encode(m) => "AI 图片编码失败: "@ + m@,
        AiVisionError::UnsupportedVisionModel => "当前 AI 模型不支持图片识别"@,
        AiVisionError::Request(_) => "AI 视觉识别请求失败"@,
        AiVisionError::Timeout => "AI 视觉识别请求超时"@,
        AiVisionError::HttpStatus(s) => "AI 服务返回 HTTP "@ + crate::text::decimal(s as nat),
        AiVisionError::Unauthorized => "AI 视觉服务认证失败"@,
        AiVisionError::RateLimited => "AI 视觉服务请求过于频繁"@,
        AiVisionError::Server(s) => "AI 视觉服务暂时不可用 (HTTP "@ + crate::text::decimal(s as nat) + ")"@,
        AiVisionError::InvalidResponse(m) => "AI 返回内容无法解析: "@ + m@,
    }
}

fn concat(a: &str, b: &str) -> (r: String)
    ensures
        r@ == a@ + b@,
{
    let mut v = chars_of(a);
    let w = chars_of(b);
    extend_chars(&mut v, w.as_slice());
    string_of(v.as_slice())
}

fn status_text(s: u16) -> (r: String)
    ensures
        r@ == crate::text::decimal(s as nat),
{
    let d = crate::text::decimal_chars(s as u64);
    string_of(d.as_slice())
}

impl AiVisionError {
    /// The message shown for this error.
    pub fn message(&self) -> (r: String)
        ensures
            r@ == error_message(*self),
    {
        match self {
            AiVisionError::NotConfigured => own("AI 视觉识别尚未完成配置"),
            AiVisionError::InvalidImage(m) => concat("AI 图片无效: ", m.as_str()),
            AiVisionError::Encode(m) => concat("AI 图片编码失败: ", m.as_str()),
            AiVisionError::UnsupportedVisionModel => own("当前 AI 模型不支持图片识别"),
            AiVisionError::Request(_) => own("AI 视觉识别请求失败"),
            AiVisionError::Timeout => own("AI 视觉识别请求超时"),
            AiVisionError::HttpStatus(s) => {
                let t = status_text(*s);
                concat("AI 服务返回 HTTP ", t.as_str())
            },
            AiVisionError::Unauthorized => own("AI 视觉服务认证失败"),
            AiVisionError::RateLimited => own("AI 视觉服务请求过于频繁"),
            AiVisionError::Server(s) => {
                let t = status_text(*s);
                let a = concat("AI 视觉服务暂时不可用 (HTTP ", t.as_str());
                concat(a.as_str(), ")")
            },
            AiVisionError::InvalidResponse(m) => concat("AI 返回内容无法解析: ", m.as_str()),
        }
    }
}

/// The text without the trailing `c` characters.
pub open spec fn strip_trailing(s: Seq<char>, c: char) -> Seq<char>
    decreases s.len(),
{
    if s.len() > 0 && s.last() == c {
        strip_trailing(s.drop_last(), c)
    } else {
        s
    }
}

/// The OpenAI-compatible base address of a configured endpoint: trimmed,
/// without trailing slashes, HTTPS only, ending in `/v1`.
pub open spec fn normalized_base_url_of(base_url: Seq<char>) -> Result<Seq<char>, AiVisionError> {
    let t = strip_trailing(trim(base_url), '/');
    if t.len() == 0 || !starts_with(t, "https://"@) {
        Err(AiVisionError::NotConfigured)
    } else if ends_with(t, "/v1"@) {
        Ok(t)
    } else {
        Ok(t + "/v1"@)
    }
}

/// Normalises the configured endpoint address.
pub fn normalized_base_url(base_url: &str) -> (r: Result<String, AiVisionError>)
    ensures
        match normalized_base_url_of(base_url@) {
            Ok(u) => r is Ok && r->Ok_0@ == u,
            Err(e) => r == Err::<String, AiVisionError>(e),
        },
{
    let cs = chars_of(base_url);
    let mut t = trim_chars(cs.as_slice());
    while t.len() > 0 && t[t.len() - 1] == '/'
        invariant
            strip_trailing(t@, '/') == strip_trailing(trim(base_url@), '/'),
        decreases t.len(),
    {
        t.pop();
    }
    assert(t@ == strip_trailing(t@, '/'));
    let https = chars_of("https://");
    if t.len() == 0 || !chars_starts_with(t.as_slice(), https.as_slice()) {
        return Err(AiVisionError::NotConfigured);
    }
    let v1 = chars_of("/v1");
    if chars_ends_with(t.as_slice(), v1.as_slice()) {
        Ok(string_of(t.as_slice()))
    } else {
        extend_chars(&mut t, v1.as_slice());
        Ok(string_of(t.as_slice()))
    }
}

/// Whether a model name is clearly for text only: an instruction-tuned model
/// whose name does not mark it as a vision model.
pub open spec fn clearly_text_only(normalized: Seq<char>) -> bool {
    contains(normalized, "instruct"@) && !contains(normalized, "vision"@) && !contains(normalized, "vl"@)
        && !contains(normalized, "qwen2.5-vl"@)
}

/// The check of a model name: configured, and not clearly text-only.
pub open spec fn vision_model_check(model: Seq<char>) -> Result<(), AiVisionError> {
    let n = ascii_lowercase(trim(model));
    if n.len() == 0 {
        Err(AiVisionError::NotConfigured)
    } else if clearly_text_only(n) {
        Err(AiVisionError::UnsupportedVisionModel)
    } else {
        Ok(())
    }
}

fn mentions(s: &[char], p: &str) -> (r: bool)
    ensures
        r == contains(s@, p@),
{
    let pc = chars_of(p);
    chars_contains(s, pc.as_slice())
}

/// Rejects a model that cannot read images, before any request.
pub fn ensure_vision_model(model: &str) -> (r: Result<(), AiVisionError>)
    ensures
        r == vision_model_check(model@),
{
    let cs = chars_of(model);
    let t = trim_chars(cs.as_slice());
    let n = chars_ascii_lowercase(t.as_slice());
    if n.len() == 0 {
        return Err(AiVisionError::NotConfigured);
    }
    let text_only = mentions(n.as_slice(), "instruct") && !mentions(n.as_slice(), "vision") && !mentions(n.as_slice(), "vl")
        && !mentions(n.as_slice(), "qwen2.5-vl");
    if text_only {
        return Err(AiVisionError::UnsupportedVisionModel);
    }
    Ok(())
}

/// The check of a whole configuration: a key, an HTTPS endpoint and a vision model.
pub open spec fn configuration_check(api_key: Seq<char>, base_url: Seq<char>, model: Seq<char>) -> Result<(), AiVisionError> {
    if is_blank(api_key) {
        Err(AiVisionError::NotConfigured)
    } else if normalized_base_url_of(base_url) is Err {
        Err(normalized_base_url_of(base_url)->Err_0)
    } else {
        vision_model_check(model)
    }
}

/// Checks the recognition settings without any request.
pub fn validate_configuration(api_key: &str, base_url: &str, model: &str) -> (r: Result<(), AiVisionError>)
    ensures
        r == configuration_check(api_key@, base_url@, model@),
{
    if str_is_blank(api_key) {
        return Err(AiVisionError::NotConfigured);
    }
    match normalized_base_url(base_url) {
        Err(e) => return Err(e),
        Ok(_) => {},
    }
    ensure_vision_model(model)
}

/// The chat-completions address for a recognition, after the checks that
/// precede any request: a key and a model, a vision model, an HTTPS endpoint.
pub open spec fn recognition_endpoint_of(api_key: Seq<char>, base_url: Seq<char>, model: Seq<char>) -> Result<Seq<char>, AiVisionError> {
    if is_blank(api_key) || is_blank(model) {
        Err(AiVisionError::NotConfigured)
    } else if vision_model_check(model) is Err {
        Err(vision_model_check(model)->Err_0)
    } else {
        match normalized_base_url_of(base_url) {
            Ok(u) => Ok(u + "/chat/completions"@),
            Err(e) => Err(e),
        }
    }
}

/// The address a recognition posts to.
pub fn recognition_endpoint(api_key: &str, base_url: &str, model: &str) -> (r: Result<String, AiVisionError>)
    ensures
        match recognition_endpoint_of(api_key@, base_url@, model@) {
            Ok(u) => r is Ok && r->Ok_0@ == u,
            Err(e) => r == Err::<String, AiVisionError>(e),
        },
{
    if str_is_blank(api_key) || str_is_blank(model) {
        return Err(AiVisionError::NotConfigured);
    }
    match ensure_vision_model(model) {
        Err(e) => return Err(e),
        Ok(()) => {},
    }
    match normalized_base_url(base_url) {
        Ok(u) => Ok(concat(u.as_str(), "/chat/completions")),
        Err(e) => Err(e),
    }
}

/// The error for a reply whose HTTP status is not a success; the body is
/// never part of it.
pub open spec fn http_status_error(status: u16) -> AiVisionError {
    if status == 401 || status == 403 {
        AiVisionError::Unauthorized
    } else if status == 429 {
        AiVisionError::RateLimited
    } else if 500 <= status <= 599 {
        AiVisionError::Server(status)
    } else {
        AiVisionError::HttpStatus(status)
    }
}

/// Classifies a failed HTTP status.
pub fn classify_http_status(status: u16) -> (r: AiVisionError)
    ensures
        r == http_status_error(status),
{
    if status == 401 || status == 403 {
        AiVisionError::Unauthorized
    } else if status == 429 {
        AiVisionError::RateLimited
    } else if 500 <= status && status <= 599 {
        AiVisionError::Server(status)
    } else {
        AiVisionError::HttpStatus(status)
    }
}

/// The first position of `c` in `s`.
pub open spec fn first_pos(s: Seq<char>, c: char, i: int) -> bool {
    0 <= i < s.len() && s[i] == c && forall|j: int| 0 <= j < i ==> s[j] != c
}

/// The last position of `c` in `s`.
pub open spec fn last_pos(s: Seq<char>, c: char, i: int) -> bool {
    0 <= i < s.len() && s[i] == c && forall|j: int| i < j < s.len() ==> s[j] != c
}

fn find_char(s: &[char], c: char) -> (r: Option<usize>)
    ensures
        match r {
            Some(i) => first_pos(s@, c, i as int),
            None => !s@.contains(c),
        },
{
    let mut i: usize = 0;
    while i < s.len()
        invariant
            i <= s@.len(),
            forall|j: int| 0 <= j < i ==> s@[j] != c,
        decreases s.len() - i,
    {
        if s[i] == c {
            return Some(i);
        }
        i = i + 1;
    }
    None
}

fn rfind_char(s: &[char], c: char) -> (r: Option<usize>)
    ensures
        match r {
            Some(i) => last_pos(s@, c, i as int),
            None => !s@.contains(c),
        },
{
    let mut i: usize = s.len();
    while i > 0
        invariant
            i <= s@.len(),
            forall|j: int| i <= j < s@.len() ==> s@[j] != c,
        decreases i,
    {
        if s[i - 1] == c {
            return Some(i - 1);
        }
        i = i - 1;
    }
    None
}

/// The candidate JSON object of a reply that is not JSON as a whole: from
/// its first `{` to its last `}`; otherwise the message of the failure.
pub open spec fn json_object_candidate(content: Seq<char>) -> Result<Seq<char>, Seq<char>> {
    if !content.contains('{') {
        Err("缺少 JSON 对象"@)
    } else if !content.contains('}') {
        Err("JSON 对象不完整"@)
    } else {
        let start = choose|i: int| first_pos(content, '{', i);
        let end = choose|i: int| last_pos(content, '}', i);
        Ok(content.subrange(start, end + 1))
    }
}

/// Whether the first `{` of a reply does not come after its last `}` by
/// more than one place, so that the text between them can be cut out.
pub open spec fn braces_ordered(content: Seq<char>) -> bool {
    forall|s: int, e: int| first_pos(content, '{', s) && last_pos(content, '}', e) ==> s <= e + 1
}

/// Cuts the candidate JSON object out of a reply that did not parse as a whole.
pub fn extract_json_object(content: &str) -> (r: Result<String, AiVisionError>)
    requires
        braces_ordered(content@),
    ensures
        match json_object_candidate(content@) {
            Ok(t) => r is Ok && r->Ok_0@ == t,
            Err(m) => r is Err && r->Err_0 is InvalidResponse && r->Err_0->InvalidResponse_0@ == m,
        },
{
    let cs = chars_of(content);
    let start = match find_char(cs.as_slice(), '{') {
        Some(i) => i,
        None => return Err(AiVisionError::InvalidResponse(own("缺少 JSON 对象"))),
    };
    let end = match rfind_char(cs.as_slice(), '}') {
        Some(i) => i,
        None => {
            assert(cs@[start as int] == '{');
            return Err(AiVisionError::InvalidResponse(own("JSON 对象不完整")));
        },
    };
    proof {
        assert(cs@.contains('{'));
        assert(cs@.contains('}'));
        let s0 = choose|i: int| first_pos(content@, '{', i);
        let e0 = choose|i: int| last_pos(content@, '}', i);
        assert(first_pos(content@, '{', start as int));
        assert(last_pos(content@, '}', end as int));
        if s0 != start as int {
            if s0 < start as int {
                assert(cs@[s0] != '{');
            } else {
                assert(content@[start as int] != '{');
            }
        }
        if e0 != end as int {
            if e0 > end as int {
                assert(cs@[e0] != '}');
            } else {
                assert(content@[end as int] != '}');
            }
        }
    }
    let n = cs.len();
    assert(end < n);
    Ok(string_of_range(cs.as_slice(), start, end + 1))
}

/// The instruction added to the second request after a reply that was not JSON.
pub open spec fn retry_hint_of(attempt: nat) -> Seq<char> {
    if attempt == 0 {
        Seq::empty()
    } else {
        "上一条回复不是合法 JSON。请重新识别，并且只返回合法 JSON 对象，不要添加 Markdown、解释或代码围栏。"@
    }
}

/// The format correction sent with a request: none on the first attempt.
pub fn retry_hint(attempt: usize) -> (r: String)
    ensures
        r@ == retry_hint_of(attempt as nat),
{
    if attempt == 0 {
        String::new()
    } else {
        own("上一条回复不是合法 JSON。请重新识别，并且只返回合法 JSON 对象，不要添加 Markdown、解释或代码围栏。")
    }
}

/// Whether a reply that could not be parsed is retried: only before the last attempt.
pub fn retry_after_invalid_reply(attempt: usize) -> (r: bool)
    ensures
        r == (attempt + 1 < MAX_RECOGNITION_ATTEMPTS),
{
    attempt < MAX_RECOGNITION_ATTEMPTS - 1
}

/// The instruction sent when the caller gives none.
pub const DEFAULT_PROMPT: &'static str = "请完整转写图片中的文字，保留段落、换行和原有顺序；不要翻译、总结或补充图片中没有的信息；无法辨认的位置使用 [无法辨认] 标记。只返回 JSON，格式为 {\"text\":\"完整识别文本\",\"blocks\":[{\"type\":\"paragraph\",\"text\":\"段落文本\"}]}。";

/// The instruction of a recognition: the caller's when it is not blank.
pub fn effective_prompt(prompt: Option<&str>) -> (r: String)
    ensures
        prompt is Some && !is_blank(prompt->0@) ==> r@ == prompt->0@,
        !(prompt is Some && !is_blank(prompt->0@)) ==> r@ == DEFAULT_PROMPT@,
{
    match prompt {
        Some(p) => {
            if !str_is_blank(p) {
                return own(p);
            }
        },
        None => {},
    }
    own(DEFAULT_PROMPT)
}

/// The data address of an encoded image.
pub fn image_data_url(mime: &str, encoded: &str) -> (r: String)
    ensures
        r@ == "data:"@ + mime@ + ";base64,"@ + encoded@,
{
    let a = concat("data:", mime);
    let b = concat(a.as_str(), ";base64,");
    concat(b.as_str(), encoded)
}

/// How an image is sent: as PNG when that is small enough, else as JPEG at
/// the first quality of 90, 75, 60, 45 that is small enough.
pub enum UploadEncoding {
    Png(Seq<u8>),
    Jpeg(Seq<u8>),
    TooLarge,
    EncodeFailed,
}

/// The JPEG fallback from quality `q` down.
pub open spec fn jpeg_fallback(width: u32, height: u32, rgba: Seq<u8>, q: u8) -> UploadEncoding
    decreases q,
{
    if q < JPEG_MIN_QUALITY {
        UploadEncoding::TooLarge
    } else {
        match jpeg_encoding(width, height, rgba, q) {
            None => UploadEncoding::EncodeFailed,
            Some(b) => if b.len() <= MAX_IMAGE_BYTES {
                UploadEncoding::Jpeg(b)
            } else {
                jpeg_fallback(width, height, rgba, (q - JPEG_QUALITY_STEP) as u8)
            },
        }
    }
}

/// The encoding of an image for upload, after scaling it down to fit in
/// 4096 by 4096 when it is larger.
pub open spec fn upload_encoding(width: u32, height: u32, rgba: Seq<u8>) -> UploadEncoding {
    let (w, h, px) = if width > MAX_IMAGE_DIMENSION || height > MAX_IMAGE_DIMENSION {
        thumbnail_of(width, height, rgba, MAX_IMAGE_DIMENSION)
    } else {
        (width, height, rgba)
    };
    match png_encoding(w, h, px) {
        None => UploadEncoding::EncodeFailed,
        Some(b) => if b.len() <= MAX_IMAGE_BYTES {
            UploadEncoding::Png(b)
        } else {
            jpeg_fallback(w, h, px, JPEG_QUALITY)
        },
    }
}

/// Encodes an image for upload: its MIME type and its base64 text.
pub fn encode_image_for_upload(width: u32, height: u32, rgba: &[u8]) -> (r: Result<(String, String), AiVisionError>)
    requires
        is_rgba_image(width, height, rgba@),
    ensures
        match upload_encoding(width, height, rgba@) {
            UploadEncoding::Png(b) => r is Ok && r->Ok_0.0@ == "image/png"@ && r->Ok_0.1@ == base64_of(b),
            UploadEncoding::Jpeg(b) => r is Ok && r->Ok_0.0@ == "image/jpeg"@ && r->Ok_0.1@ == base64_of(b),
            UploadEncoding::TooLarge => r is Err && r->Err_0 is InvalidImage && r->Err_0->InvalidImage_0@ == "图片超过 8 MB 限制"@,
            UploadEncoding::EncodeFailed => r is Err && r->Err_0 is Encode,
        },
{
    let (w, h, px) = if width > MAX_IMAGE_DIMENSION || height > MAX_IMAGE_DIMENSION {
        thumbnail_rgba(width, height, rgba, MAX_IMAGE_DIMENSION)
    } else {
        let mut copy: Vec<u8> = Vec::new();
        let mut i: usize = 0;
        while i < rgba.len()
            invariant
                i <= rgba@.len(),
                copy@ == rgba@.take(i as int),
            decreases rgba.len() - i,
        {
            copy.push(rgba[i]);
            i = i + 1;
            assert(copy@ =~= rgba@.take(i as int));
        }
        assert(rgba@.take(rgba@.len() as int) =~= rgba@);
        (width, height, copy)
    };
    let png = match encode_png_rgba(w, h, px.as_slice()) {
        Ok(b) => b,
        Err(e) => return Err(AiVisionError::Encode(e)),
    };
    if png.len() <= MAX_IMAGE_BYTES {
        return Ok((own("image/png"), base64_standard(png.as_slice())));
    }
    let mut quality: u8 = JPEG_QUALITY;
    while quality >= JPEG_MIN_QUALITY
        invariant
            is_rgba_image(w, h, px@),
            jpeg_fallback(w, h, px@, quality) == upload_encoding(width, height, rgba@),
        decreases quality,
    {
        let jpeg = match encode_jpeg_rgba(w, h, px.as_slice(), quality) {
            Ok(b) => b,
            Err(e) => return Err(AiVisionError::Encode(e)),
        };
        if jpeg.len() <= MAX_IMAGE_BYTES {
            return Ok((own("image/jpeg"), base64_standard(jpeg.as_slice())));
        }
        quality = quality - JPEG_QUALITY_STEP;
    }
    Err(AiVisionError::InvalidImage(own("图片超过 8 MB 限制")))
}

} // verus!
