use vstd::prelude::*;
use crate::text::{
    chars_of, ends_with, extend_chars, own, split_char, split_chars, starts_with, string_of, string_of_range,
    to_lowercase, unicode_lowercase, chars_ends_with, chars_starts_with,
};

verus! {

/// One file of a file-list clipboard entry.
#[derive(Debug, Clone)]
pub struct FileInfo {
    pub path: String,
    pub name: String,
    pub size: u64,
    pub is_directory: bool,
    pub icon_data: Option<String>,
    pub file_type: String,
    pub exists: bool,
    pub actual_path: Option<String>,
    pub width: Option<u32>,
    pub height: Option<u32>,
}

/// A file-list clipboard entry.
#[derive(Debug, Clone)]
pub struct FilesData {
    pub files: Vec<FileInfo>,
    pub operation: String,
}

/// The prefix that marks a file-list entry's text.
pub open spec fn files_prefix() -> Seq<char> {
    "files:"@
}

/// The JSON part of a file-list entry's text, or the error for other text.
pub fn files_json(content: &str) -> (r: Result<String, String>)
    ensures
        starts_with(content@, files_prefix()) ==> r is Ok && r->Ok_0@ == content@.skip(6),
        !starts_with(content@, files_prefix()) ==> r is Err && r->Err_0@ == "无效的文件内容格式"@,
{
    let cs = chars_of(content);
    let p = chars_of("files:");
    if !chars_starts_with(cs.as_slice(), p.as_slice()) {
        return Err(own("无效的文件内容格式"));
    }
    proof { reveal_strlit("files:"); }
    assert(p@.len() == 6);
    let r = string_of_range(cs.as_slice(), 6, cs.len());
    assert(r@ =~= content@.skip(6));
    Ok(r)
}

/// The files of a list that a peer may name: those inside the managed
/// data sub-directories, in order.
pub open spec fn managed_files(files: Seq<FileInfo>) -> Seq<FileInfo>
    decreases files.len(),
{
    if files.len() == 0 {
        Seq::empty()
    } else {
        let r = managed_files(files.drop_last());
        if crate::paths::is_managed_relative_path(files.last().path@) { r.push(files.last()) } else { r }
    }
}

/// Law: every file a sanitised list keeps is inside the managed
/// directories, and sanitising again changes nothing.
pub proof fn lemma_sanitize_idempotent(files: Seq<FileInfo>)
    ensures
        forall|i: int| 0 <= i < managed_files(files).len() ==> crate::paths::is_managed_relative_path(#[trigger] managed_files(files)[i].path@),
        managed_files(managed_files(files)) == managed_files(files),
    decreases files.len(),
{
    if files.len() > 0 {
        let prev = files.drop_last();
        lemma_sanitize_idempotent(prev);
        let r = managed_files(prev);
        if crate::paths::is_managed_relative_path(files.last().path@) {
            let pushed = r.push(files.last());
            assert(pushed.drop_last() =~= r);
            assert(managed_files(pushed) == managed_files(r).push(files.last()));
        }
    }
}

/// Drops from a file list received from a peer every file outside the
/// managed data sub-directories (absolute paths, parent segments, other
/// folders); the operation is kept.
pub fn sanitize_remote_files(data: FilesData) -> (r: FilesData)
    ensures
        r.files@ == managed_files(data.files@),
        r.operation@ == data.operation@,
{
    let FilesData { files, operation } = data;
    let ghost all = files@;
    let mut rest = files;
    let mut kept: Vec<FileInfo> = Vec::new();
    let n = rest.len();
    let mut k: usize = 0;
    while k < n
        invariant
            n == all.len(),
            k <= n,
            rest@ == all.skip(k as int),
            kept@ == managed_files(all.take(k as int)),
        decreases n - k,
    {
        let ghost r0 = rest@;
        let f = rest.remove(0);
        assert(rest@ =~= all.skip(k + 1));
        assert(all.take(k + 1).drop_last() =~= all.take(k as int));
        assert(all.take(k + 1).last() == f);
        if crate::paths::is_managed_relative(f.path.as_str()) {
            kept.push(f);
        }
        k = k + 1;
    }
    assert(all.take(n as int) =~= all);
    FilesData { files: kept, operation }
}

/// The paths of a file list that exist, in order.
pub open spec fn existing_paths(paths: Seq<String>, exists: Seq<bool>) -> Seq<Seq<char>>
    decreases paths.len(),
{
    if paths.len() == 0 {
        Seq::empty()
    } else {
        let r = existing_paths(paths.drop_last(), exists.take(paths.len() - 1));
        if exists[paths.len() - 1] { r.push(paths.last()@) } else { r }
    }
}

/// Keeps the resolved paths of a file-list entry whose files exist
/// (`exists[i]` tells whether `paths[i]` does); none existing is an error.
pub fn parse_files_content_existing(paths: &Vec<String>, exists: &Vec<bool>) -> (r: Result<Vec<String>, String>)
    requires
        paths@.len() == exists@.len(),
    ensures
        existing_paths(paths@, exists@).len() == 0 ==> r is Err && r->Err_0@ == "所有文件都不存在"@,
        existing_paths(paths@, exists@).len() > 0 ==> r is Ok && r->Ok_0@.map_values(|p: String| p@) == existing_paths(paths@, exists@),
{
    let mut kept: Vec<String> = Vec::new();
    let mut i: usize = 0;
    while i < paths.len()
        invariant
            paths@.len() == exists@.len(),
            i <= paths@.len(),
            kept@.map_values(|p: String| p@) == existing_paths(paths@.take(i as int), exists@.take(i as int)),
        decreases paths.len() - i,
    {
        proof {
            let pt = paths@.take(i + 1);
            let et = exists@.take(i + 1);
            assert(pt.drop_last() =~= paths@.take(i as int));
            assert(et.take(pt.len() - 1) =~= exists@.take(i as int));
        }
        let ghost before = kept@;
        if exists[i] {
            kept.push(paths[i].clone());
            assert(kept@.map_values(|p: String| p@) =~= before.map_values(|p: String| p@).push(paths@[i as int]@));
        }
        i = i + 1;
    }
    assert(paths@.take(paths@.len() as int) =~= paths@);
    assert(exists@.take(exists@.len() as int) =~= exists@);
    if kept.len() == 0 {
        return Err(own("所有文件都不存在"));
    }
    Ok(kept)
}

/// How an entry is written to the system clipboard when it is copied.
#[derive(Debug, Clone, PartialEq, Eq)]
pub enum ClipboardWritePlan {
    /// The entry's file list is written as files.
    Files,
    /// Plain text.
    Text { text: String },
    /// Text with its HTML.
    RichText { text: String, html: String },
}

/// The entry's main type: the part of its type before the first comma.
pub open spec fn primary_type(content_type: Seq<char>) -> Seq<char> {
    split_char(content_type, ',')[0]
}

/// The text written for a text entry: without a `files:` prefix.
pub open spec fn entry_text(content: Seq<char>) -> Seq<char> {
    if starts_with(content, files_prefix()) { content.skip(6) } else { content }
}

/// Decides how an entry is written to the clipboard: images and files as
/// files, anything else as text, with its HTML when it has one.
pub fn clipboard_write_plan(content_type: &str, content: &str, html_content: &Option<String>) -> (r: ClipboardWritePlan)
    ensures
        (primary_type(content_type@) == "image"@ || primary_type(content_type@) == "file"@) ==> r == ClipboardWritePlan::Files,
        !(primary_type(content_type@) == "image"@ || primary_type(content_type@) == "file"@) ==> match html_content {
            Some(h) => r is RichText && r->RichText_text@ == entry_text(content@) && r->RichText_html@ == h@,
            None => r is Text && r->Text_text@ == entry_text(content@),
        },
{
    let ct = chars_of(content_type);
    let pieces = split_chars(ct.as_slice(), ',');
    proof { crate::text::lemma_split_nonempty(content_type@, ','); }
    let primary = string_of(pieces[0].as_slice());
    if crate::text::str_eq(primary.as_str(), "image") || crate::text::str_eq(primary.as_str(), "file") {
        return ClipboardWritePlan::Files;
    }
    let cs = chars_of(content);
    let p = chars_of("files:");
    proof { reveal_strlit("files:"); }
    let text = if chars_starts_with(cs.as_slice(), p.as_slice()) {
        let t = string_of_range(cs.as_slice(), 6, cs.len());
        assert(t@ =~= content@.skip(6));
        t
    } else {
        own(content)
    };
    match html_content {
        Some(h) => ClipboardWritePlan::RichText { text, html: h.clone() },
        None => ClipboardWritePlan::Text { text },
    }
}

/// The file list of an image or file entry, refused when it is empty.
pub fn require_file_paths(paths: Vec<String>) -> (r: Result<Vec<String>, String>)
    ensures
        paths@.len() == 0 ==> r is Err && r->Err_0@ == "无法解析文件内容"@,
        paths@.len() > 0 ==> r is Ok && r->Ok_0@ == paths@,
{
    if paths.len() == 0 {
        return Err(own("无法解析文件内容"));
    }
    Ok(paths)
}

/// What writing an image file to the clipboard does: which file, and whether
/// the clipboard monitor is paused so that the write is not recorded.
#[derive(Debug, Clone, PartialEq, Eq)]
pub struct ImageClipboardWrite {
    pub path: String,
    pub pause_monitor: bool,
}

fn image_file_write(resolved_path: &str, exists: bool, pause_monitor: bool) -> (r: Result<ImageClipboardWrite, String>)
    ensures
        exists ==> r is Ok && r->Ok_0.path@ == resolved_path@ && r->Ok_0.pause_monitor == pause_monitor,
        !exists ==> r is Err && r->Err_0@ == "图片文件不存在: "@ + resolved_path@,
{
    if !exists {
        let mut m = chars_of("图片文件不存在: ");
        let pc = chars_of(resolved_path);
        extend_chars(&mut m, pc.as_slice());
        return Err(string_of(m.as_slice()));
    }
    Ok(ImageClipboardWrite { path: own(resolved_path), pause_monitor })
}

/// Decides the clipboard write of an image file (given its resolved path
/// and whether it exists); the monitor is paused so the copy is not recorded.
pub fn set_clipboard_image_file(resolved_path: &str, exists: bool) -> (r: Result<ImageClipboardWrite, String>)
    ensures
        exists ==> r is Ok && r->Ok_0.path@ == resolved_path@ && r->Ok_0.pause_monitor,
        !exists ==> r is Err && r->Err_0@ == "图片文件不存在: "@ + resolved_path@,
{
    image_file_write(resolved_path, exists, true)
}

/// Decides the clipboard write of a new image file that the monitor must record.
pub fn set_clipboard_image_file_recordable(resolved_path: &str, exists: bool) -> (r: Result<ImageClipboardWrite, String>)
    ensures
        exists ==> r is Ok && r->Ok_0.path@ == resolved_path@ && !r->Ok_0.pause_monitor,
        !exists ==> r is Err && r->Err_0@ == "图片文件不存在: "@ + resolved_path@,
{
    image_file_write(resolved_path, exists, false)
}

/// The UTF-16 code units of a character.
pub open spec fn utf16_char(c: char) -> Seq<u16> {
    let u = c as u32;
    if u < 0x10000 {
        seq![u as u16]
    } else {
        seq![(0xD800 + (u - 0x10000) / 0x400) as u16, (0xDC00 + (u - 0x10000) % 0x400) as u16]
    }
}

/// The UTF-16 encoding of a text.
pub open spec fn utf16_of(s: Seq<char>) -> Seq<u16>
    decreases s.len(),
{
    if s.len() == 0 {
        Seq::empty()
    } else {
        utf16_of(s.drop_last()) + utf16_char(s.last())
    }
}

/// A 16-bit value as two little-endian bytes.
pub open spec fn le16(v: u16) -> Seq<u8> {
    seq![(v & 0xff) as u8, ((v >> 8u16) & 0xff) as u8]
}

/// A 32-bit value as four little-endian bytes.
pub open spec fn le32(v: u32) -> Seq<u8> {
    seq![(v & 0xff) as u8, ((v >> 8u32) & 0xff) as u8, ((v >> 16u32) & 0xff) as u8, ((v >> 24u32) & 0xff) as u8]
}

/// Code units as little-endian bytes.
pub open spec fn le16s(units: Seq<u16>) -> Seq<u8>
    decreases units.len(),
{
    if units.len() == 0 {
        Seq::empty()
    } else {
        le16s(units.drop_last()) + le16(units.last())
    }
}

/// The `DROPFILES` header that precedes a wide file list: list offset 20, no
/// drop point, client coordinates off, wide characters on.
pub open spec fn dropfiles_header() -> Seq<u8> {
    le32(20) + le32(0) + le32(0) + le32(0) + le32(1)
}

/// The `CF_HDROP` data naming one file: the header, then the path in UTF-16
/// with two terminating zero units.
pub open spec fn hdrop_bytes(path: Seq<char>) -> Seq<u8> {
    dropfiles_header() + le16s(utf16_of(path) + seq![0u16, 0u16])
}

fn push_le16(v: &mut Vec<u8>, x: u16)
    ensures
        final(v)@ == old(v)@ + le16(x),
{
    v.push((x & 0xff) as u8);
    v.push(((x >> 8u16) & 0xff) as u8);
    assert(final(v)@ =~= old(v)@ + le16(x));
}

fn push_le32(v: &mut Vec<u8>, x: u32)
    ensures
        final(v)@ == old(v)@ + le32(x),
{
    v.push((x & 0xff) as u8);
    v.push(((x >> 8u32) & 0xff) as u8);
    v.push(((x >> 16u32) & 0xff) as u8);
    v.push(((x >> 24u32) & 0xff) as u8);
    assert(final(v)@ =~= old(v)@ + le32(x));
}

proof fn lemma_le16s_append(a: Seq<u16>, b: Seq<u16>)
    ensures
        le16s(a + b) == le16s(a) + le16s(b),
    decreases b.len(),
{
    if b.len() == 0 {
        assert(a + b =~= a);
        assert(le16s(b) =~= Seq::<u8>::empty());
        assert(le16s(a) + le16s(b) =~= le16s(a));
    } else {
        lemma_le16s_append(a, b.drop_last());
        assert((a + b).drop_last() =~= a + b.drop_last());
        assert((a + b).last() == b.last());
        assert(le16s(a) + le16s(b) =~= le16s(a) + le16s(b.drop_last()) + le16(b.last()));
    }
}

proof fn lemma_le16s_single(x: u16)
    ensures
        le16s(seq![x]) == le16(x),
{
    assert(seq![x].drop_last() =~= Seq::<u16>::empty());
    assert(seq![x].last() == x);
    assert(le16s(Seq::<u16>::empty()) =~= Seq::<u8>::empty());
    assert(le16s(seq![x]) == le16s(seq![x].drop_last()) + le16(x));
    assert(le16s(seq![x]) =~= le16(x));
}

/// Builds the `CF_HDROP` data that names one file.
pub fn build_hdrop_data(path: &str) -> (r: Vec<u8>)
    ensures
        r@ == hdrop_bytes(path@),
{
    let mut data: Vec<u8> = Vec::new();
    push_le32(&mut data, 20);
    push_le32(&mut data, 0);
    push_le32(&mut data, 0);
    push_le32(&mut data, 0);
    push_le32(&mut data, 1);
    assert(data@ =~= dropfiles_header());
    let cs = chars_of(path);
    let mut i: usize = 0;
    while i < cs.len()
        invariant
            i <= cs@.len(),
            cs@ == path@,
            data@ == dropfiles_header() + le16s(utf16_of(cs@.take(i as int))),
        decreases cs.len() - i,
    {
        let c = cs[i];
        let u = c as u32;
        let ghost before = data@;
        if u < 0x10000 {
            push_le16(&mut data, u as u16);
            assert(seq![u as u16] == utf16_char(c));
        } else {
            let v = u - 0x10000;
            let hi = (0xD800 + v / 0x400) as u16;
            let lo = (0xDC00 + v % 0x400) as u16;
            push_le16(&mut data, hi);
            push_le16(&mut data, lo);
            assert(seq![hi, lo] == utf16_char(c));
            proof { lemma_le16s_append(seq![hi], seq![lo]); assert(seq![hi] + seq![lo] =~= seq![hi, lo]); }
            proof { lemma_le16s_single(hi); lemma_le16s_single(lo); }
        }
        proof {
            let t = cs@.take(i + 1);
            assert(t.drop_last() =~= cs@.take(i as int));
            assert(t.last() == c);
            lemma_le16s_append(utf16_of(cs@.take(i as int)), utf16_char(c));
            if u < 0x10000 {
                lemma_le16s_single(u as u16);
            }
        }
        i = i + 1;
        assert(data@ =~= dropfiles_header() + le16s(utf16_of(cs@.take(i as int))));
    }
    push_le16(&mut data, 0);
    push_le16(&mut data, 0);
    proof {
        assert(cs@.take(cs@.len() as int) =~= cs@);
        lemma_le16s_append(utf16_of(path@), seq![0u16, 0u16]);
        lemma_le16s_append(seq![0u16], seq![0u16]);
        assert(seq![0u16] + seq![0u16] =~= seq![0u16, 0u16]);
        lemma_le16s_single(0u16);
    }
    assert(data@ =~= hdrop_bytes(path@));
    data
}

/// The `BITMAPINFOHEADER` of a top-down 32-bit image of `width` by `height`.
pub open spec fn dib_header(width: u32, height: u32) -> Seq<u8> {
    le32(40) + le32(width) + le32(if height == 0 { 0 } else { (0x1_0000_0000 - height) as u32 }) + le16(1) + le16(32)
        + le32(0) + le32((width * height * 4) as u32) + le32(0) + le32(0) + le32(0) + le32(0)
}

/// The pixels of an RGBA image in BGRA order.
pub open spec fn bgra_of_rgba(rgba: Seq<u8>) -> Seq<u8> {
    Seq::new(rgba.len(), |i: int| {
        let c = i % 4;
        if c == 0 { rgba[i + 2] } else if c == 2 { rgba[i - 2] } else { rgba[i] }
    })
}

/// Builds the `CF_DIB` data of an RGBA image: a top-down 32-bit bitmap
/// header, then the pixels in BGRA order. Sides or a pixel size that do not
/// fit a signed 32-bit header field are refused.
pub fn build_dib_data(width: u32, height: u32, rgba: &[u8]) -> (r: Result<Vec<u8>, String>)
    requires
        rgba@.len() == width as nat * height as nat * 4,
    ensures
        (width > i32::MAX || height > i32::MAX || width as nat * height as nat * 4 > u32::MAX) ==> r is Err
            && r->Err_0@ == "图片尺寸过大，无法生成 DIB 数据"@,
        !(width > i32::MAX || height > i32::MAX || width as nat * height as nat * 4 > u32::MAX) ==> r is Ok
            && r->Ok_0@ == dib_header(width, height) + bgra_of_rgba(rgba@),
{
    if height > 0x7fff_ffff || width > 0x7fff_ffff {
        return Err(own("图片尺寸过大，无法生成 DIB 数据"));
    }
    let size = match width.checked_mul(height) {
        Some(p) => p.checked_mul(4),
        None => None,
    };
    let size = match size {
        Some(s) => s,
        None => {
            proof {
                if width as nat * height as nat <= u32::MAX {
                } else {
                    assert(width as nat * height as nat * 4 > u32::MAX) by (nonlinear_arith)
                        requires width as nat * height as nat > u32::MAX;
                }
            }
            return Err(own("图片尺寸过大，无法生成 DIB 数据"));
        },
    };
    let mut data: Vec<u8> = Vec::new();
    push_le32(&mut data, 40);
    push_le32(&mut data, width);
    let neg: u32 = if height == 0 { 0 } else { u32::MAX - height + 1 };
    push_le32(&mut data, neg);
    push_le16(&mut data, 1);
    push_le16(&mut data, 32);
    push_le32(&mut data, 0);
    push_le32(&mut data, size);
    push_le32(&mut data, 0);
    push_le32(&mut data, 0);
    push_le32(&mut data, 0);
    push_le32(&mut data, 0);
    assert(data@ =~= dib_header(width, height));
    let ghost header = data@;
    let mut i: usize = 0;
    assert(rgba@.len() % 4 == 0);
    while i < rgba.len()
        invariant
            header == dib_header(width, height),
            rgba@.len() % 4 == 0,
            i % 4 == 0,
            i <= rgba@.len(),
            data@ == header + bgra_of_rgba(rgba@).take(i as int),
        decreases rgba.len() - i,
    {
        let ghost before = data@;
        data.push(rgba[i + 2]);
        data.push(rgba[i + 1]);
        data.push(rgba[i]);
        data.push(rgba[i + 3]);
        proof {
            let b = bgra_of_rgba(rgba@);
            assert(b[i as int] == rgba@[i + 2]);
            assert((i + 1) % 4 == 1);
            assert(b[i + 1] == rgba@[i + 1]);
            assert((i + 2) % 4 == 2);
            assert(b[i + 2] == rgba@[i as int]);
            assert((i + 3) % 4 == 3);
            assert(b[i + 3] == rgba@[i + 3]);
            assert(b.take(i + 4) =~= b.take(i as int) + seq![b[i as int], b[i + 1], b[i + 2], b[i + 3]]);
        }
        i = i + 4;
        assert(data@ =~= header + bgra_of_rgba(rgba@).take(i as int));
    }
    assert(bgra_of_rgba(rgba@).take(rgba@.len() as int) =~= bgra_of_rgba(rgba@));
    Ok(data)
}

/// Whether a lower-cased path ends with a picture file extension.
pub open spec fn has_image_extension(lower: Seq<char>) -> bool {
    ends_with(lower, ".jpg"@) || ends_with(lower, ".jpeg"@) || ends_with(lower, ".png"@) || ends_with(lower, ".gif"@)
        || ends_with(lower, ".bmp"@) || ends_with(lower, ".webp"@)
}

fn ends(v: &[char], suffix: &str) -> (r: bool)
    ensures
        r == ends_with(v@, suffix@),
{
    let s = chars_of(suffix);
    chars_ends_with(v, s.as_slice())
}

/// Whether a path names a picture, by its extension in any letter case.
pub fn is_image_file(path: &str) -> (r: bool)
    ensures
        r == has_image_extension(unicode_lowercase(path@)),
{
    let lower = to_lowercase(path);
    let l = chars_of(lower.as_str());
    ends(l.as_slice(), ".jpg") || ends(l.as_slice(), ".jpeg") || ends(l.as_slice(), ".png")
        || ends(l.as_slice(), ".gif") || ends(l.as_slice(), ".bmp") || ends(l.as_slice(), ".webp")
}

/// The extension the decoder is told about: that of the path's file name,
/// when it has a non-empty one.
pub open spec fn image_extension_of(path: Seq<char>) -> Option<Seq<char>> {
    match crate::lan_files::path_extension_of(path) {
        Some(e) => if e.len() > 0 { Some(e) } else { None },
        None => None,
    }
}

/// Whether an image is too large for a `CF_DIB` header.
pub open spec fn dib_too_large(width: u32, height: u32) -> bool {
    width > i32::MAX || height > i32::MAX || width as nat * height as nat * 4 > u32::MAX
}

/// The three clipboard formats an image file is put on the clipboard in.
#[derive(Debug, Clone)]
pub struct ImageClipboardData {
    /// The image as PNG, for the registered `PNG` format.
    pub png: Vec<u8>,
    /// The image as a `CF_DIB` bitmap.
    pub dib: Vec<u8>,
    /// The file itself, as `CF_HDROP`.
    pub hdrop: Vec<u8>,
}

fn prefixed(prefix: &str, e: &str) -> (r: String)
    ensures
        r@ == prefix@ + e@,
        starts_with(r@, prefix@),
{
    let mut m = chars_of(prefix);
    let ghost p = m@;
    let ec = chars_of(e);
    extend_chars(&mut m, ec.as_slice());
    let out = string_of(m.as_slice());
    assert(out@.subrange(0, p.len() as int) =~= p);
    out
}

/// Builds the clipboard data of an image file from its path and its bytes:
/// the bytes are decoded in the format the path's extension names, then
/// written as PNG, as a `CF_DIB` bitmap and as a `CF_HDROP` file list.
pub fn image_clipboard_data(path: &str, file_bytes: &[u8]) -> (r: Result<ImageClipboardData, String>)
    ensures
        match crate::imaging::decoded_rgba(file_bytes@, image_extension_of(path@)) {
            None => r is Err && starts_with(r->Err_0@, "读取图片失败: "@),
            Some((w, h, px)) => match crate::imaging::png_encoding(w, h, px) {
                None => r is Err && starts_with(r->Err_0@, "编码 PNG 失败: "@),
                Some(png) => if dib_too_large(w, h) {
                    r is Err && r->Err_0@ == "图片尺寸过大，无法生成 DIB 数据"@
                } else {
                    r is Ok
                        && r->Ok_0.png@ == png
                        && r->Ok_0.dib@ == dib_header(w, h) + bgra_of_rgba(px)
                        && r->Ok_0.hdrop@ == hdrop_bytes(path@)
                },
            },
        },
{
    let ext = match crate::lan_files::path_extension(path) {
        Some(e) => if e.as_str().unicode_len() > 0 { Some(e) } else { None },
        None => None,
    };
    assert(crate::database::opt_text(ext) == image_extension_of(path@));
    let (w, h, px) = match crate::imaging::decode_image_rgba(file_bytes, &ext) {
        Ok(d) => d,
        Err(e) => return Err(prefixed("读取图片失败: ", e.as_str())),
    };
    let png = match crate::imaging::encode_png_rgba(w, h, px.as_slice()) {
        Ok(b) => b,
        Err(e) => return Err(prefixed("编码 PNG 失败: ", e.as_str())),
    };
    let dib = match build_dib_data(w, h, px.as_slice()) {
        Ok(d) => d,
        Err(e) => return Err(e),
    };
    let hdrop = build_hdrop_data(path);
    Ok(ImageClipboardData { png, dib, hdrop })
}

} // verus!
