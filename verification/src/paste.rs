use vstd::prelude::*;
use crate::clipboard_content::{files_prefix, primary_type};
use crate::database::{image_ids_of, split_image_ids, texts};
use crate::image_id::{is_valid_image_id, valid_image_id_bytes};
use crate::image_store::INTERNAL_IMAGE_PATH_FORMAT;
use crate::lan_files::{strip_prefix_chars, utf8_of};
use crate::models::{ClipboardDataItem, ClipboardItem};
use crate::paths::{join_path, join_path_str};
use crate::text::{
    chars_of, chars_starts_with, extend_chars, is_blank, own, split_char, split_chars, starts_with,
    str_eq, str_is_blank, string_of, trim, trim_chars,
};

verus! {

/// How an entry is put on the clipboard.
#[derive(Debug, Clone, Copy, PartialEq, Eq, Structural)]
pub enum PasteAction {
    PlainText,
    Html,
    Rtf,
    AllFormats,
    ImageBundle,
    File,
}

/// One format written to the system clipboard.
#[derive(Debug, Clone)]
pub enum PayloadEntry {
    /// Unicode text.
    Text(String),
    /// An HTML fragment.
    Html(String),
    /// Rich text.
    Rtf(String),
    /// A list of files.
    Files(Vec<String>),
    /// A raw format, by its name, with its bytes.
    Other(String, Vec<u8>),
}

/// The value of a clipboard format, as the contracts see it.
pub enum PayloadView {
    Text(Seq<char>),
    Html(Seq<char>),
    Rtf(Seq<char>),
    Files(Seq<Seq<char>>),
    Other(Seq<char>, Seq<u8>),
}

impl View for PayloadEntry {
    type V = PayloadView;

    open spec fn view(&self) -> PayloadView {
        match self {
            PayloadEntry::Text(t) => PayloadView::Text(t@),
            PayloadEntry::Html(t) => PayloadView::Html(t@),
            PayloadEntry::Rtf(t) => PayloadView::Rtf(t@),
            PayloadEntry::Files(p) => PayloadView::Files(texts(p@)),
            PayloadEntry::Other(n, b) => PayloadView::Other(n@, b@),
        }
    }
}

/// The formats of a payload, as the contracts see them.
pub open spec fn payload_view(p: Seq<PayloadEntry>) -> Seq<PayloadView> {
    p.map_values(|e: PayloadEntry| e@)
}

/// Whether a raw format name is one of the two text formats.
pub open spec fn is_text_format_name(n: Seq<char>) -> bool {
    n == "CF_UNICODETEXT"@ || n == "CF_TEXT"@
}

/// The first row from position `k` on whose format is `name`.
pub open spec fn first_named_from(rows: Seq<ClipboardDataItem>, name: Seq<char>, k: int) -> Option<int>
    decreases rows.len() - k,
{
    if k < 0 || k >= rows.len() {
        None
    } else if rows[k].format_name@ == name {
        Some(k)
    } else {
        first_named_from(rows, name, k + 1)
    }
}

/// The first row whose format is `name`.
pub open spec fn first_named(rows: Seq<ClipboardDataItem>, name: Seq<char>) -> Option<int> {
    first_named_from(rows, name, 0)
}

/// The first primary text row from position `k` on.
pub open spec fn first_primary_text_from(rows: Seq<ClipboardDataItem>, k: int) -> Option<int>
    decreases rows.len() - k,
{
    if k < 0 || k >= rows.len() {
        None
    } else if rows[k].is_primary && is_text_format_name(rows[k].format_name@) {
        Some(k)
    } else {
        first_primary_text_from(rows, k + 1)
    }
}

/// The row whose text an entry pastes as plain text: the first primary
/// text row, else the first Unicode text row, else the first ANSI text row.
pub open spec fn preferred_text_row(rows: Seq<ClipboardDataItem>) -> Option<int> {
    if first_primary_text_from(rows, 0) is Some {
        first_primary_text_from(rows, 0)
    } else if first_named(rows, "CF_UNICODETEXT"@) is Some {
        first_named(rows, "CF_UNICODETEXT"@)
    } else {
        first_named(rows, "CF_TEXT"@)
    }
}

proof fn lemma_first_named_from(rows: Seq<ClipboardDataItem>, name: Seq<char>, k: int)
    requires
        0 <= k,
    ensures
        first_named_from(rows, name, k) matches Some(i) ==> k <= i < rows.len() && rows[i].format_name@ == name,
    decreases rows.len() - k,
{
    if k < rows.len() && rows[k].format_name@ != name {
        lemma_first_named_from(rows, name, k + 1);
    }
}

proof fn lemma_first_primary_text_from(rows: Seq<ClipboardDataItem>, k: int)
    requires
        0 <= k,
    ensures
        first_primary_text_from(rows, k) matches Some(i) ==> k <= i < rows.len() && rows[i].is_primary
            && is_text_format_name(rows[i].format_name@),
    decreases rows.len() - k,
{
    if k < rows.len() && !(rows[k].is_primary && is_text_format_name(rows[k].format_name@)) {
        lemma_first_primary_text_from(rows, k + 1);
    }
}

/// The preferred text row is a text row of the list.
pub proof fn lemma_preferred_text_row(rows: Seq<ClipboardDataItem>)
    ensures
        preferred_text_row(rows) matches Some(i) ==> 0 <= i < rows.len() && is_text_format_name(rows[i].format_name@),
{
    lemma_first_primary_text_from(rows, 0);
    lemma_first_named_from(rows, "CF_UNICODETEXT"@, 0);
    lemma_first_named_from(rows, "CF_TEXT"@, 0);
    reveal_strlit("CF_UNICODETEXT");
    reveal_strlit("CF_TEXT");
}

/// What `String::from_utf16_lossy` makes of a list of UTF-16 code units.
pub uninterp spec fn utf16_lossy(units: Seq<u16>) -> Seq<char>;

/// What `String::from_utf8_lossy` makes of a list of bytes.
pub uninterp spec fn utf8_lossy(bytes: Seq<u8>) -> Seq<char>;

/// Whether no code unit is a surrogate half.
pub open spec fn no_surrogates(units: Seq<u16>) -> bool {
    forall|i: int| 0 <= i < units.len() ==> (units[i] < 0xD800 || units[i] >= 0xE000)
}

/// Whether every byte is ASCII.
pub open spec fn ascii_bytes(bytes: Seq<u8>) -> bool {
    forall|i: int| 0 <= i < bytes.len() ==> bytes[i] < 0x80
}

/// Decodes UTF-16 text, replacing what is not valid by U+FFFD
/// (`String::from_utf16_lossy`). Code units outside the surrogate range
/// each decode to the character of that value.
#[verifier::external_body]
fn decode_utf16_lossy(units: &[u16]) -> (r: String)
    ensures
        r@ == utf16_lossy(units@),
        no_surrogates(units@) ==> r@ == units@.map_values(|u: u16| u as char),
{
    String::from_utf16_lossy(units)
}

/// Decodes UTF-8 text, replacing what is not valid by U+FFFD
/// (`String::from_utf8_lossy`). ASCII bytes each decode to their character.
#[verifier::external_body]
fn decode_utf8_lossy(bytes: &[u8]) -> (r: String)
    ensures
        r@ == utf8_lossy(bytes@),
        ascii_bytes(bytes@) ==> r@ == bytes@.map_values(|b: u8| b as char),
{
    String::from_utf8_lossy(bytes).into_owned()
}

/// The little-endian 16-bit units of a byte list; an odd last byte is dropped.
pub open spec fn le_units(bytes: Seq<u8>) -> Seq<u16> {
    Seq::new(bytes.len() / 2, |i: int| (bytes[2 * i] + 256 * bytes[2 * i + 1]) as u16)
}

/// The text of a stored text row: Unicode rows are UTF-16LE, the others
/// are bytes in the system code page, read as UTF-8 with replacements.
pub open spec fn row_text(row: ClipboardDataItem) -> Seq<char> {
    if row.format_name@ == "CF_UNICODETEXT"@ {
        utf16_lossy(le_units(row.raw_data@))
    } else {
        utf8_lossy(row.raw_data@)
    }
}

fn le_units_of(bytes: &[u8]) -> (r: Vec<u16>)
    ensures
        r@ == le_units(bytes@),
{
    let mut r: Vec<u16> = Vec::new();
    let len = bytes.len();
    let n = len / 2;
    let mut i: usize = 0;
    while i < n
        invariant
            len == bytes@.len(),
            n == len / 2,
            i <= n,
            r@ == le_units(bytes@).take(i as int),
        decreases n - i,
    {
        assert(i + i + 1 < len) by (nonlinear_arith)
            requires
                i < n,
                n == len / 2,
        ;
        let j: usize = i + i;
        let lo = bytes[j] as u16;
        let hi = bytes[j + 1] as u16;
        let u: u16 = lo + 256 * hi;
        r.push(u);
        i = i + 1;
        assert(r@ =~= le_units(bytes@).take(i as int));
    }
    assert(le_units(bytes@).take(n as int) =~= le_units(bytes@));
    r
}

/// Decodes a stored text row into text.
pub fn text_row_to_string(row: &ClipboardDataItem) -> (r: String)
    ensures
        r@ == row_text(*row),
{
    if str_eq(row.format_name.as_str(), "CF_UNICODETEXT") {
        let units = le_units_of(row.raw_data.as_slice());
        decode_utf16_lossy(units.as_slice())
    } else {
        decode_utf8_lossy(row.raw_data.as_slice())
    }
}

/// Finds the first row of a raw format.
pub fn find_raw_row(rows: &[ClipboardDataItem], format_name: &str) -> (r: Option<usize>)
    ensures
        match first_named(rows@, format_name@) {
            Some(i) => r == Some(i as usize),
            None => r is None,
        },
{
    let mut i: usize = 0;
    while i < rows.len()
        invariant
            i <= rows@.len(),
            first_named(rows@, format_name@) == first_named_from(rows@, format_name@, i as int),
        decreases rows.len() - i,
    {
        if str_eq(rows[i].format_name.as_str(), format_name) {
            return Some(i);
        }
        i = i + 1;
    }
    None
}

fn find_primary_text_row(rows: &[ClipboardDataItem]) -> (r: Option<usize>)
    ensures
        match first_primary_text_from(rows@, 0) {
            Some(i) => r == Some(i as usize),
            None => r is None,
        },
{
    proof { reveal_strlit("CF_UNICODETEXT"); reveal_strlit("CF_TEXT"); }
    let mut i: usize = 0;
    while i < rows.len()
        invariant
            i <= rows@.len(),
            first_primary_text_from(rows@, 0) == first_primary_text_from(rows@, i as int),
        decreases rows.len() - i,
    {
        let name = rows[i].format_name.as_str();
        if rows[i].is_primary && (str_eq(name, "CF_UNICODETEXT") || str_eq(name, "CF_TEXT")) {
            return Some(i);
        }
        i = i + 1;
    }
    None
}

/// Finds the row whose text an entry pastes as plain text.
pub fn find_preferred_text_row(rows: &[ClipboardDataItem]) -> (r: Option<usize>)
    ensures
        match preferred_text_row(rows@) {
            Some(i) => r == Some(i as usize),
            None => r is None,
        },
{
    match find_primary_text_row(rows) {
        Some(i) => Some(i),
        None => match find_raw_row(rows, "CF_UNICODETEXT") {
            Some(i) => Some(i),
            None => find_raw_row(rows, "CF_TEXT"),
        },
    }
}

/// The plain text an entry pastes: its preferred text row, else its own
/// text, unless that is a file list or blank.
pub open spec fn plain_text_of(item: ClipboardItem, rows: Seq<ClipboardDataItem>) -> Result<Seq<char>, Seq<char>> {
    match preferred_text_row(rows) {
        Some(i) => Ok(row_text(rows[i])),
        None => if starts_with(item.content@, files_prefix()) || is_blank(item.content@) {
            Err("当前条目没有可用的纯文本内容"@)
        } else {
            Ok(item.content@)
        },
    }
}

/// Builds the plain-text payload of an entry: one text format.
pub fn build_plain_text_payload(item: &ClipboardItem, raw_formats: &[ClipboardDataItem]) -> (r: Result<Vec<PayloadEntry>, String>)
    ensures
        match plain_text_of(*item, raw_formats@) {
            Ok(t) => r is Ok && payload_view(r->Ok_0@) == seq![PayloadView::Text(t)],
            Err(m) => r is Err && r->Err_0@ == m,
        },
{
    proof { lemma_preferred_text_row(raw_formats@); }
    if let Some(i) = find_preferred_text_row(raw_formats) {
        let t = text_row_to_string(&raw_formats[i]);
        let v = vec![PayloadEntry::Text(t)];
        assert(payload_view(v@) =~= seq![PayloadView::Text(row_text(raw_formats@[i as int]))]);
        return Ok(v);
    }
    let cs = chars_of(item.content.as_str());
    let p = chars_of("files:");
    if chars_starts_with(cs.as_slice(), p.as_slice()) || str_is_blank(item.content.as_str()) {
        return Err(own("当前条目没有可用的纯文本内容"));
    }
    let v = vec![PayloadEntry::Text(item.content.clone())];
    assert(payload_view(v@) =~= seq![PayloadView::Text(item.content@)]);
    Ok(v)
}

/// The plain-text formats that an HTML or RTF payload starts with.
pub open spec fn plain_base(item: ClipboardItem, rows: Seq<ClipboardDataItem>) -> Seq<PayloadView> {
    match plain_text_of(item, rows) {
        Ok(t) => seq![PayloadView::Text(t)],
        Err(_) => Seq::empty(),
    }
}

/// The entry's HTML, when it has one that is not blank.
pub open spec fn usable_html(item: ClipboardItem) -> Option<Seq<char>> {
    match item.html_content {
        Some(h) => if is_blank(h@) { None } else { Some(h@) },
        None => None,
    }
}

/// The HTML payload of an entry: its plain text, then its stored HTML
/// format, else its HTML.
pub open spec fn html_payload_of(item: ClipboardItem, rows: Seq<ClipboardDataItem>) -> Result<Seq<PayloadView>, Seq<char>> {
    let base = plain_base(item, rows);
    match first_named(rows, "HTML Format"@) {
        Some(i) => Ok(base.push(PayloadView::Other(rows[i].format_name@, rows[i].raw_data@))),
        None => match usable_html(item) {
            Some(h) => Ok(base.push(PayloadView::Html(h))),
            None => if base.len() == 0 { Err("当前条目没有可用的 HTML 内容"@) } else { Ok(base) },
        },
    }
}

/// The RTF payload of an entry: its plain text, then its stored RTF format.
pub open spec fn rtf_payload_of(item: ClipboardItem, rows: Seq<ClipboardDataItem>) -> Result<Seq<PayloadView>, Seq<char>> {
    let base = plain_base(item, rows);
    match first_named(rows, "Rich Text Format"@) {
        Some(i) => Ok(base.push(PayloadView::Other(rows[i].format_name@, rows[i].raw_data@))),
        None => if base.len() == 0 { Err("当前条目没有可用的 RTF 内容"@) } else { Ok(base) },
    }
}

fn clone_strings(v: &Vec<String>) -> (r: Vec<String>)
    ensures
        texts(r@) == texts(v@),
{
    let mut r: Vec<String> = Vec::new();
    let mut i: usize = 0;
    while i < v.len()
        invariant
            i <= v@.len(),
            texts(r@) == texts(v@.take(i as int)),
        decreases v.len() - i,
    {
        let ghost r0 = r@;
        r.push(v[i].clone());
        assert(texts(r@) =~= texts(r0).push(v@[i as int]@));
        assert(texts(v@.take(i + 1)) =~= texts(v@.take(i as int)).push(v@[i as int]@));
        i = i + 1;
    }
    assert(v@.take(v@.len() as int) =~= v@);
    r
}

fn clone_entry(e: &PayloadEntry) -> (r: PayloadEntry)
    ensures
        r@ == e@,
{
    match e {
        PayloadEntry::Text(t) => PayloadEntry::Text(t.clone()),
        PayloadEntry::Html(t) => PayloadEntry::Html(t.clone()),
        PayloadEntry::Rtf(t) => PayloadEntry::Rtf(t.clone()),
        PayloadEntry::Files(p) => PayloadEntry::Files(clone_strings(p)),
        PayloadEntry::Other(n, b) => PayloadEntry::Other(n.clone(), b.clone()),
    }
}

fn clone_entries(v: &Vec<PayloadEntry>) -> (r: Vec<PayloadEntry>)
    ensures
        payload_view(r@) == payload_view(v@),
{
    let mut r: Vec<PayloadEntry> = Vec::new();
    let mut i: usize = 0;
    while i < v.len()
        invariant
            i <= v@.len(),
            payload_view(r@) == payload_view(v@.take(i as int)),
        decreases v.len() - i,
    {
        let ghost r0 = r@;
        r.push(clone_entry(&v[i]));
        assert(payload_view(r@) =~= payload_view(r0).push(v@[i as int]@));
        assert(payload_view(v@.take(i + 1)) =~= payload_view(v@.take(i as int)).push(v@[i as int]@));
        i = i + 1;
    }
    assert(v@.take(v@.len() as int) =~= v@);
    r
}

fn plain_base_payload(item: &ClipboardItem, raw_formats: &[ClipboardDataItem]) -> (r: Vec<PayloadEntry>)
    ensures
        payload_view(r@) == plain_base(*item, raw_formats@),
{
    match build_plain_text_payload(item, raw_formats) {
        Ok(v) => v,
        Err(_) => {
            let v: Vec<PayloadEntry> = Vec::new();
            assert(payload_view(v@) =~= Seq::<PayloadView>::empty());
            v
        },
    }
}

fn push_raw_row(payload: &mut Vec<PayloadEntry>, row: &ClipboardDataItem)
    ensures
        payload_view(final(payload)@) == payload_view(old(payload)@).push(PayloadView::Other(row.format_name@, row.raw_data@)),
{
    let ghost p0 = payload@;
    payload.push(PayloadEntry::Other(row.format_name.clone(), row.raw_data.clone()));
    assert(payload_view(payload@) =~= payload_view(p0).push(PayloadView::Other(row.format_name@, row.raw_data@)));
}

fn push_entry(payload: &mut Vec<PayloadEntry>, e: PayloadEntry)
    ensures
        payload_view(final(payload)@) == payload_view(old(payload)@).push(e@),
{
    let ghost p0 = payload@;
    let ghost ev = e@;
    payload.push(e);
    assert(payload_view(payload@) =~= payload_view(p0).push(ev));
}

fn usable_html_of(item: &ClipboardItem) -> (r: Option<String>)
    ensures
        match usable_html(*item) {
            Some(h) => r is Some && r->0@ == h,
            None => r is None,
        },
{
    match &item.html_content {
        Some(h) => if str_is_blank(h.as_str()) { None } else { Some(h.clone()) },
        None => None,
    }
}

/// Builds the HTML payload of an entry.
pub fn build_html_payload(item: &ClipboardItem, raw_formats: &[ClipboardDataItem]) -> (r: Result<Vec<PayloadEntry>, String>)
    ensures
        match html_payload_of(*item, raw_formats@) {
            Ok(p) => r is Ok && payload_view(r->Ok_0@) == p,
            Err(m) => r is Err && r->Err_0@ == m,
        },
{
    let mut payload = plain_base_payload(item, raw_formats);
    proof { lemma_first_named_from(raw_formats@, "HTML Format"@, 0); }
    if let Some(i) = find_raw_row(raw_formats, "HTML Format") {
        push_raw_row(&mut payload, &raw_formats[i]);
        return Ok(payload);
    }
    if let Some(h) = usable_html_of(item) {
        push_entry(&mut payload, PayloadEntry::Html(h));
        return Ok(payload);
    }
    if payload.len() == 0 {
        return Err(own("当前条目没有可用的 HTML 内容"));
    }
    Ok(payload)
}

/// Builds the RTF payload of an entry.
pub fn build_rtf_payload(item: &ClipboardItem, raw_formats: &[ClipboardDataItem]) -> (r: Result<Vec<PayloadEntry>, String>)
    ensures
        match rtf_payload_of(*item, raw_formats@) {
            Ok(p) => r is Ok && payload_view(r->Ok_0@) == p,
            Err(m) => r is Err && r->Err_0@ == m,
        },
{
    let mut payload = plain_base_payload(item, raw_formats);
    proof { lemma_first_named_from(raw_formats@, "Rich Text Format"@, 0); }
    if let Some(i) = find_raw_row(raw_formats, "Rich Text Format") {
        push_raw_row(&mut payload, &raw_formats[i]);
        return Ok(payload);
    }
    if payload.len() == 0 {
        return Err(own("当前条目没有可用的 RTF 内容"));
    }
    Ok(payload)
}

/// Whether two formats are of one kind: both text, both HTML, both RTF,
/// both file lists, or raw formats of one name.
pub open spec fn same_kind(a: PayloadView, b: PayloadView) -> bool {
    match (a, b) {
        (PayloadView::Text(_), PayloadView::Text(_)) => true,
        (PayloadView::Html(_), PayloadView::Html(_)) => true,
        (PayloadView::Rtf(_), PayloadView::Rtf(_)) => true,
        (PayloadView::Files(_), PayloadView::Files(_)) => true,
        (PayloadView::Other(x, _), PayloadView::Other(y, _)) => x == y,
        _ => false,
    }
}

/// Whether a payload already has a format of the kind of `e`.
pub open spec fn has_kind(p: Seq<PayloadView>, e: PayloadView) -> bool {
    exists|i: int| 0 <= i < p.len() && same_kind(#[trigger] p[i], e)
}

/// `p` with each format of `extra` added, in order, unless the payload
/// has one of its kind by then.
pub open spec fn append_unique(p: Seq<PayloadView>, extra: Seq<PayloadView>) -> Seq<PayloadView>
    decreases extra.len(),
{
    if extra.len() == 0 {
        p
    } else {
        let q = append_unique(p, extra.drop_last());
        if has_kind(q, extra.last()) { q } else { q.push(extra.last()) }
    }
}

/// Whether two formats are of one kind.
pub fn same_payload_kind(left: &PayloadEntry, right: &PayloadEntry) -> (r: bool)
    ensures
        r == same_kind(left@, right@),
{
    match (left, right) {
        (PayloadEntry::Text(_), PayloadEntry::Text(_)) => true,
        (PayloadEntry::Html(_), PayloadEntry::Html(_)) => true,
        (PayloadEntry::Rtf(_), PayloadEntry::Rtf(_)) => true,
        (PayloadEntry::Files(_), PayloadEntry::Files(_)) => true,
        (PayloadEntry::Other(x, _), PayloadEntry::Other(y, _)) => str_eq(x.as_str(), y.as_str()),
        _ => false,
    }
}

fn payload_has_kind(payload: &Vec<PayloadEntry>, e: &PayloadEntry) -> (r: bool)
    ensures
        r == has_kind(payload_view(payload@), e@),
{
    let mut j: usize = 0;
    while j < payload.len()
        invariant
            j <= payload@.len(),
            forall|k: int| 0 <= k < j ==> !same_kind(#[trigger] payload_view(payload@)[k], e@),
        decreases payload.len() - j,
    {
        if same_payload_kind(&payload[j], e) {
            assert(same_kind(payload_view(payload@)[j as int], e@));
            return true;
        }
        j = j + 1;
    }
    false
}

/// Adds the formats of `extra` that the payload has no format of the kind of.
pub fn append_unique_payload(payload: &mut Vec<PayloadEntry>, extra: Vec<PayloadEntry>)
    ensures
        payload_view(final(payload)@) == append_unique(payload_view(old(payload)@), payload_view(extra@)),
{
    let ghost start = payload_view(payload@);
    let ghost all = payload_view(extra@);
    let mut rest = extra;
    let mut k: usize = 0;
    let n = rest.len();
    while k < n
        invariant
            n == all.len(),
            k <= n,
            payload_view(rest@) == all.skip(k as int),
            payload_view(payload@) == append_unique(start, all.take(k as int)),
        decreases n - k,
    {
        let ghost r0 = rest@;
        assert(payload_view(r0).len() == r0.len());
        assert(payload_view(r0)[0] == r0[0]@);
        let e = rest.remove(0);
        assert(payload_view(rest@) =~= payload_view(r0).skip(1));
        assert(all.skip(k as int).skip(1) =~= all.skip(k + 1));
        assert(e@ == all[k as int]);
        assert(all.take(k + 1).drop_last() =~= all.take(k as int));
        if !payload_has_kind(payload, &e) {
            push_entry(payload, e);
        }
        k = k + 1;
    }
    assert(all.take(n as int) =~= all);
}

/// Whether no two formats of a payload are of one kind.
pub open spec fn kinds_distinct(p: Seq<PayloadView>) -> bool {
    forall|i: int, j: int| 0 <= i < j < p.len() ==> !same_kind(#[trigger] p[i], #[trigger] p[j])
}

/// Law: adding formats with `append_unique_payload` to a payload whose
/// kinds are distinct keeps them distinct, and keeps every format it had.
pub proof fn lemma_append_unique_keeps_kinds_distinct(p: Seq<PayloadView>, extra: Seq<PayloadView>)
    requires
        kinds_distinct(p),
    ensures
        kinds_distinct(append_unique(p, extra)),
        append_unique(p, extra).take(p.len() as int) == p,
        append_unique(p, extra).len() >= p.len(),
    decreases extra.len(),
{
    if extra.len() > 0 {
        lemma_append_unique_keeps_kinds_distinct(p, extra.drop_last());
        let q = append_unique(p, extra.drop_last());
        let e = extra.last();
        if !has_kind(q, e) {
            let n = q.push(e);
            assert forall|i: int, j: int| 0 <= i < j < n.len() implies !same_kind(#[trigger] n[i], #[trigger] n[j]) by {
                if j == n.len() - 1 {
                    assert(n[i] == q[i]);
                    if same_kind(q[i], e) {
                        assert(has_kind(q, e));
                    }
                }
            }
            assert(n.take(p.len() as int) =~= q.take(p.len() as int));
        }
    }
}

/// Law: a stored text row is always written as decoded text, never as its
/// raw bytes, and the internal image-path row is never written at all.
pub proof fn lemma_rows_written_as_text(rows: Seq<ClipboardDataItem>)
    ensures
        forall|i: int| 0 <= i < row_entries(rows).len() ==> !(#[trigger] row_entries(rows)[i] matches PayloadView::Other(n, _) && is_text_format_name(n)),
        forall|i: int| 0 <= i < row_entries(rows).len() ==> !(#[trigger] row_entries(rows)[i] matches PayloadView::Other(n, _) && n == INTERNAL_IMAGE_PATH_FORMAT@),
    decreases rows.len(),
{
    if rows.len() > 0 {
        lemma_rows_written_as_text(rows.drop_last());
    }
}

/// Whether a format carries plain text: a text format, or a raw text row.
pub open spec fn is_plain_text_entry(e: PayloadView) -> bool {
    match e {
        PayloadView::Text(_) => true,
        PayloadView::Other(n, _) => is_text_format_name(n),
        _ => false,
    }
}

/// Whether a payload carries plain text.
pub open spec fn has_plain_text(p: Seq<PayloadView>) -> bool {
    exists|i: int| 0 <= i < p.len() && is_plain_text_entry(#[trigger] p[i])
}

/// Whether a payload carries plain text.
pub fn payload_has_plain_text(payload: &Vec<PayloadEntry>) -> (r: bool)
    ensures
        r == has_plain_text(payload_view(payload@)),
{
    proof { reveal_strlit("CF_UNICODETEXT"); reveal_strlit("CF_TEXT"); }
    let mut j: usize = 0;
    while j < payload.len()
        invariant
            j <= payload@.len(),
            forall|k: int| 0 <= k < j ==> !is_plain_text_entry(#[trigger] payload_view(payload@)[k]),
        decreases payload.len() - j,
    {
        let hit = match &payload[j] {
            PayloadEntry::Text(_) => true,
            PayloadEntry::Other(n, _) => str_eq(n.as_str(), "CF_UNICODETEXT") || str_eq(n.as_str(), "CF_TEXT"),
            _ => false,
        };
        if hit {
            assert(is_plain_text_entry(payload_view(payload@)[j as int]));
            return true;
        }
        j = j + 1;
    }
    false
}

/// The format a stored row is written as: text rows as decoded text,
/// the others as raw bytes.
pub open spec fn row_entry(row: ClipboardDataItem) -> PayloadView {
    if is_text_format_name(row.format_name@) {
        PayloadView::Text(row_text(row))
    } else {
        PayloadView::Other(row.format_name@, row.raw_data@)
    }
}

/// The formats of stored rows, leaving out the internal image-path row.
pub open spec fn row_entries(rows: Seq<ClipboardDataItem>) -> Seq<PayloadView>
    decreases rows.len(),
{
    if rows.len() == 0 {
        Seq::empty()
    } else {
        let r = row_entries(rows.drop_last());
        if rows.last().format_name@ == INTERNAL_IMAGE_PATH_FORMAT@ { r } else { r.push(row_entry(rows.last())) }
    }
}

/// Whether one of the entry's comma-separated types is `image`.
pub open spec fn types_include_image(content_type: Seq<char>) -> bool {
    exists|i: int| 0 <= i < split_char(content_type, ',').len() && trim(#[trigger] split_char(content_type, ',')[i]) == "image"@
}

fn content_types_include_image(content_type: &str) -> (r: bool)
    ensures
        r == types_include_image(content_type@),
{
    let cs = chars_of(content_type);
    let pieces = split_chars(cs.as_slice(), ',');
    let mut i: usize = 0;
    while i < pieces.len()
        invariant
            i <= pieces@.len(),
            pieces@.len() == split_char(content_type@, ',').len(),
            forall|k: int| 0 <= k < pieces@.len() ==> (#[trigger] pieces@[k])@ == split_char(content_type@, ',')[k],
            forall|k: int| 0 <= k < i ==> trim(#[trigger] split_char(content_type@, ',')[k]) != "image"@,
        decreases pieces.len() - i,
    {
        let t = trim_chars(pieces[i].as_slice());
        let ts = string_of(t.as_slice());
        if str_eq(ts.as_str(), "image") {
            assert(trim(split_char(content_type@, ',')[i as int]) == "image"@);
            return true;
        }
        i = i + 1;
    }
    false
}

fn primary_type_is(content_type: &str, name: &str) -> (r: bool)
    ensures
        r == (primary_type(content_type@) == name@),
{
    let cs = chars_of(content_type);
    let pieces = split_chars(cs.as_slice(), ',');
    proof { crate::text::lemma_split_nonempty(content_type@, ','); }
    let primary = string_of(pieces[0].as_slice());
    str_eq(primary.as_str(), name)
}

fn is_files_content(content: &str) -> (r: bool)
    ensures
        r == starts_with(content@, files_prefix()),
{
    let cs = chars_of(content);
    let p = chars_of("files:");
    chars_starts_with(cs.as_slice(), p.as_slice())
}

/// The image identifier an entry reads its cached image by: the first
/// non-blank identifier of its list, which must be safe to use in a path.
pub open spec fn item_image_id_of(image_id: Option<String>) -> Result<Seq<char>, Seq<char>> {
    match image_id {
        None => Err("当前条目没有可用的图片缓存"@),
        Some(ids) => if image_ids_of(ids@).len() == 0 {
            Err("当前条目没有可用的图片缓存"@)
        } else if !valid_image_id_bytes(utf8_of(image_ids_of(ids@)[0])) {
            Err("图片 ID 不合法,已拒绝访问: "@ + image_ids_of(ids@)[0])
        } else {
            Ok(image_ids_of(ids@)[0])
        },
    }
}

fn refused_image_id(id: &str) -> (r: String)
    ensures
        r@ == "图片 ID 不合法,已拒绝访问: "@ + id@,
{
    let mut m = chars_of("图片 ID 不合法,已拒绝访问: ");
    let ic = chars_of(id);
    extend_chars(&mut m, ic.as_slice());
    string_of(m.as_slice())
}

/// Picks the image identifier of an entry's cached image.
pub fn item_image_id(image_id: &Option<String>) -> (r: Result<String, String>)
    ensures
        match item_image_id_of(*image_id) {
            Ok(id) => r is Ok && r->Ok_0@ == id,
            Err(m) => r is Err && r->Err_0@ == m,
        },
{
    let ids = match image_id {
        None => return Err(own("当前条目没有可用的图片缓存")),
        Some(s) => split_image_ids(s.as_str()),
    };
    if ids.len() == 0 {
        return Err(own("当前条目没有可用的图片缓存"));
    }
    assert(ids@[0]@ == texts(ids@)[0]);
    let id = ids[0].clone();
    if !is_valid_image_id(id.as_str()) {
        return Err(refused_image_id(id.as_str()));
    }
    Ok(id)
}

/// Where the cached image of an identifier lives under the data directory.
pub open spec fn image_cache_path_of(data_dir: Seq<char>, image_id: Seq<char>) -> Seq<char> {
    join_path(join_path(data_dir, "clipboard_images"@), image_id + ".png"@)
}

/// The path of the cached image of an identifier.
pub fn image_cache_path(data_dir: &str, image_id: &str) -> (r: String)
    ensures
        r@ == image_cache_path_of(data_dir@, image_id@),
{
    let sub = chars_of("clipboard_images");
    let dir = join_path_str(data_dir, sub.as_slice());
    let mut name = chars_of(image_id);
    let ext = chars_of(".png");
    extend_chars(&mut name, ext.as_slice());
    join_path_str(dir.as_str(), name.as_slice())
}

/// The missing-file error of an image path.
pub open spec fn missing_image_message(path: Seq<char>) -> Seq<char> {
    "图片文件不存在: "@ + path
}

fn missing_image(path: &str) -> (r: String)
    ensures
        r@ == missing_image_message(path@),
{
    let mut m = chars_of("图片文件不存在: ");
    let pc = chars_of(path);
    extend_chars(&mut m, pc.as_slice());
    string_of(m.as_slice())
}

/// The cached image file of an entry, given the data directory (or the
/// error of finding it) and whether the file at that path exists.
pub open spec fn cached_image_path_of(image_id: Option<String>, data_dir: Result<Seq<char>, Seq<char>>, file_exists: bool) -> Result<Seq<char>, Seq<char>> {
    match item_image_id_of(image_id) {
        Err(m) => Err(m),
        Ok(id) => match data_dir {
            Err(e) => Err(e),
            Ok(d) => if file_exists {
                Ok(image_cache_path_of(d, id))
            } else {
                Err(missing_image_message(image_cache_path_of(d, id)))
            },
        },
    }
}

/// The plain view of a text result.
pub open spec fn text_result(r: Result<String, String>) -> Result<Seq<char>, Seq<char>> {
    match r {
        Ok(s) => Ok(s@),
        Err(e) => Err(e@),
    }
}

/// Resolves the cached image file of an entry; `file_exists` tells whether
/// the file at the identifier's cache path exists.
pub fn cached_image_path(item: &ClipboardItem, data_dir: &Result<String, String>, file_exists: bool) -> (r: Result<String, String>)
    ensures
        text_result(r) == cached_image_path_of(item.image_id, text_result(*data_dir), file_exists),
{
    let id = match item_image_id(&item.image_id) {
        Err(m) => return Err(m),
        Ok(id) => id,
    };
    let dir = match data_dir {
        Err(e) => return Err(e.clone()),
        Ok(d) => d,
    };
    let path = image_cache_path(dir.as_str(), id.as_str());
    if !file_exists {
        return Err(missing_image(path.as_str()));
    }
    Ok(path)
}

/// The image file an entry stands for: the first existing file of its
/// file list, else its cached image.
pub open spec fn item_image_path_of(item: ClipboardItem, listed: Result<Seq<Seq<char>>, Seq<char>>, cached: Result<Seq<char>, Seq<char>>) -> Result<Seq<char>, Seq<char>> {
    if starts_with(item.content@, files_prefix()) {
        match listed {
            Err(e) => Err(e),
            Ok(paths) => if paths.len() > 0 { Ok(paths[0]) } else { cached },
        }
    } else {
        cached
    }
}

/// The plain view of a path-list result.
pub open spec fn paths_result(r: Result<Vec<String>, String>) -> Result<Seq<Seq<char>>, Seq<char>> {
    match r {
        Ok(v) => Ok(texts(v@)),
        Err(e) => Err(e@),
    }
}

/// Resolves the image file of an entry: `listed` is its existing listed
/// files (or the error of reading them), `cached` its cached image.
pub fn resolve_item_image_path(item: &ClipboardItem, listed: &Result<Vec<String>, String>, cached: &Result<String, String>) -> (r: Result<String, String>)
    ensures
        text_result(r) == item_image_path_of(*item, paths_result(*listed), text_result(*cached)),
{
    if is_files_content(item.content.as_str()) {
        match listed {
            Err(e) => return Err(e.clone()),
            Ok(paths) => {
                if paths.len() > 0 {
                    assert(texts(paths@)[0] == paths@[0]@);
                    return Ok(paths[0].clone());
                }
            },
        }
    }
    match cached {
        Ok(p) => Ok(p.clone()),
        Err(e) => Err(e.clone()),
    }
}

/// The file payload of an entry: its listed files, or its image file.
pub open spec fn file_payload_of(item: ClipboardItem, listed: Result<Seq<Seq<char>>, Seq<char>>, image_path: Result<Seq<char>, Seq<char>>) -> Result<Seq<PayloadView>, Seq<char>> {
    if starts_with(item.content@, files_prefix()) {
        match listed {
            Err(e) => Err(e),
            Ok(paths) => Ok(seq![PayloadView::Files(paths)]),
        }
    } else {
        match image_path {
            Err(e) => Err(e),
            Ok(p) => Ok(seq![PayloadView::Files(seq![p])]),
        }
    }
}

/// The plain view of a payload result.
pub open spec fn payload_result(r: Result<Vec<PayloadEntry>, String>) -> Result<Seq<PayloadView>, Seq<char>> {
    match r {
        Ok(v) => Ok(payload_view(v@)),
        Err(e) => Err(e@),
    }
}

/// Builds the file payload of an entry from its existing listed files (or
/// the error of reading them) and its resolved image file.
pub fn build_file_payload(item: &ClipboardItem, listed: &Result<Vec<String>, String>, image_path: &Result<String, String>) -> (r: Result<Vec<PayloadEntry>, String>)
    ensures
        payload_result(r) == file_payload_of(*item, paths_result(*listed), text_result(*image_path)),
{
    if is_files_content(item.content.as_str()) {
        return match listed {
            Err(e) => Err(e.clone()),
            Ok(paths) => {
                let v = vec![PayloadEntry::Files(clone_strings(paths))];
                assert(payload_view(v@) =~= seq![PayloadView::Files(texts(paths@))]);
                Ok(v)
            },
        };
    }
    match image_path {
        Err(e) => Err(e.clone()),
        Ok(p) => {
            let one = vec![p.clone()];
            assert(texts(one@) =~= seq![p@]);
            let v = vec![PayloadEntry::Files(one)];
            assert(payload_view(v@) =~= seq![PayloadView::Files(seq![p@])]);
            Ok(v)
        },
    }
}

/// The error of an entry with nothing to put on the clipboard.
pub open spec fn no_data_message() -> Seq<char> {
    "没有可写入剪贴板的数据"@
}

/// The payload of an entry with no stored formats: images and files as
/// their file payload; other entries as their text and HTML, with their
/// image file when one of their types is an image.
pub open spec fn legacy_payload_of(item: ClipboardItem, files: Result<Seq<PayloadView>, Seq<char>>) -> Result<Seq<PayloadView>, Seq<char>> {
    let p = primary_type(item.content_type@);
    if p == "image"@ || p == "file"@ {
        files
    } else {
        let a = if !starts_with(item.content@, files_prefix()) && !is_blank(item.content@) {
            seq![PayloadView::Text(item.content@)]
        } else {
            Seq::empty()
        };
        let b = match usable_html(item) {
            Some(h) => a.push(PayloadView::Html(h)),
            None => a,
        };
        if types_include_image(item.content_type@) {
            match files {
                Err(e) => Err(e),
                Ok(f) => {
                    let c = append_unique(b, f);
                    if c.len() == 0 { Err(no_data_message()) } else { Ok(c) }
                },
            }
        } else if b.len() == 0 {
            Err(no_data_message())
        } else {
            Ok(b)
        }
    }
}

/// The payload of every stored format of an entry: its rows (without the
/// internal one), its own text when none carries plain text, and its image
/// file when one of its types is an image; with no rows, or nothing
/// gathered, the entry's legacy payload.
pub open spec fn all_formats_payload_of(item: ClipboardItem, rows: Seq<ClipboardDataItem>, files: Result<Seq<PayloadView>, Seq<char>>) -> Result<Seq<PayloadView>, Seq<char>> {
    if rows.len() == 0 {
        legacy_payload_of(item, files)
    } else {
        let p1 = row_entries(rows);
        let p2 = if !starts_with(item.content@, files_prefix()) && !is_blank(item.content@) && !has_plain_text(p1) {
            p1.push(PayloadView::Text(item.content@))
        } else {
            p1
        };
        if types_include_image(item.content_type@) {
            match files {
                Err(e) => Err(e),
                Ok(f) => {
                    let p3 = append_unique(p2, f);
                    if p3.len() == 0 { legacy_payload_of(item, files) } else { Ok(p3) }
                },
            }
        } else if p2.len() == 0 {
            legacy_payload_of(item, files)
        } else {
            Ok(p2)
        }
    }
}

fn clone_payload_result(r: &Result<Vec<PayloadEntry>, String>) -> (c: Result<Vec<PayloadEntry>, String>)
    ensures
        payload_result(c) == payload_result(*r),
{
    match r {
        Ok(v) => Ok(clone_entries(v)),
        Err(e) => Err(e.clone()),
    }
}

/// Builds the payload of an entry with no stored formats; `file_payload`
/// is its file payload (or the error of building it).
pub fn build_legacy_all_formats_payload(item: &ClipboardItem, file_payload: &Result<Vec<PayloadEntry>, String>) -> (r: Result<Vec<PayloadEntry>, String>)
    ensures
        payload_result(r) == legacy_payload_of(*item, payload_result(*file_payload)),
{
    if primary_type_is(item.content_type.as_str(), "image") || primary_type_is(item.content_type.as_str(), "file") {
        return clone_payload_result(file_payload);
    }
    let mut payload: Vec<PayloadEntry> = Vec::new();
    assert(payload_view(payload@) =~= Seq::<PayloadView>::empty());
    if !is_files_content(item.content.as_str()) && !str_is_blank(item.content.as_str()) {
        push_entry(&mut payload, PayloadEntry::Text(item.content.clone()));
        assert(payload_view(payload@) =~= seq![PayloadView::Text(item.content@)]);
    }
    if let Some(h) = usable_html_of(item) {
        push_entry(&mut payload, PayloadEntry::Html(h));
    }
    if content_types_include_image(item.content_type.as_str()) {
        match file_payload {
            Err(e) => return Err(e.clone()),
            Ok(f) => append_unique_payload(&mut payload, clone_entries(f)),
        }
    }
    if payload.len() == 0 {
        return Err(own("没有可写入剪贴板的数据"));
    }
    Ok(payload)
}

fn push_row_entry(payload: &mut Vec<PayloadEntry>, row: &ClipboardDataItem)
    ensures
        payload_view(final(payload)@) == payload_view(old(payload)@).push(row_entry(*row)),
{
    proof { reveal_strlit("CF_UNICODETEXT"); reveal_strlit("CF_TEXT"); }
    let name = row.format_name.as_str();
    if str_eq(name, "CF_UNICODETEXT") || str_eq(name, "CF_TEXT") {
        push_entry(payload, PayloadEntry::Text(text_row_to_string(row)));
    } else {
        push_raw_row(payload, row);
    }
}

fn row_entries_payload(rows: &[ClipboardDataItem]) -> (r: Vec<PayloadEntry>)
    ensures
        payload_view(r@) == row_entries(rows@),
{
    let mut payload: Vec<PayloadEntry> = Vec::new();
    assert(payload_view(payload@) =~= Seq::<PayloadView>::empty());
    let mut i: usize = 0;
    while i < rows.len()
        invariant
            i <= rows@.len(),
            payload_view(payload@) == row_entries(rows@.take(i as int)),
        decreases rows.len() - i,
    {
        proof {
            assert(rows@.take(i + 1).drop_last() =~= rows@.take(i as int));
            assert(rows@.take(i + 1).last() == rows@[i as int]);
        }
        if !str_eq(rows[i].format_name.as_str(), INTERNAL_IMAGE_PATH_FORMAT) {
            push_row_entry(&mut payload, &rows[i]);
        }
        i = i + 1;
    }
    assert(rows@.take(rows@.len() as int) =~= rows@);
    payload
}

/// Builds the payload of every stored format of an entry; `file_payload`
/// is its file payload (or the error of building it).
pub fn build_all_formats_payload(item: &ClipboardItem, raw_formats: &[ClipboardDataItem], file_payload: &Result<Vec<PayloadEntry>, String>) -> (r: Result<Vec<PayloadEntry>, String>)
    ensures
        payload_result(r) == all_formats_payload_of(*item, raw_formats@, payload_result(*file_payload)),
{
    if raw_formats.len() == 0 {
        return build_legacy_all_formats_payload(item, file_payload);
    }
    let mut payload = row_entries_payload(raw_formats);
    if !is_files_content(item.content.as_str()) && !str_is_blank(item.content.as_str()) && !payload_has_plain_text(&payload) {
        push_entry(&mut payload, PayloadEntry::Text(item.content.clone()));
    }
    if content_types_include_image(item.content_type.as_str()) {
        match file_payload {
            Err(e) => return Err(e.clone()),
            Ok(f) => append_unique_payload(&mut payload, clone_entries(f)),
        }
    }
    if payload.len() == 0 {
        return build_legacy_all_formats_payload(item, file_payload);
    }
    Ok(payload)
}

/// The payload of an entry for an action; the image and file actions put
/// the entry's file payload.
pub open spec fn payload_of_action(item: ClipboardItem, rows: Seq<ClipboardDataItem>, action: PasteAction, files: Result<Seq<PayloadView>, Seq<char>>) -> Result<Seq<PayloadView>, Seq<char>> {
    match action {
        PasteAction::PlainText => match plain_text_of(item, rows) {
            Ok(t) => Ok(seq![PayloadView::Text(t)]),
            Err(m) => Err(m),
        },
        PasteAction::Html => html_payload_of(item, rows),
        PasteAction::Rtf => rtf_payload_of(item, rows),
        PasteAction::AllFormats => all_formats_payload_of(item, rows, files),
        PasteAction::ImageBundle => files,
        PasteAction::File => files,
    }
}

proof fn lemma_first_named_absent(rows: Seq<ClipboardDataItem>, name: Seq<char>, k: int)
    requires
        forall|i: int| 0 <= i < rows.len() ==> (#[trigger] rows[i]).format_name@ != name,
    ensures
        first_named_from(rows, name, k) is None,
    decreases rows.len() - k,
{
    if 0 <= k < rows.len() {
        lemma_first_named_absent(rows, name, k + 1);
    }
}

/// Law (paste as HTML): pasting an entry that has HTML as HTML, when no
/// HTML format of its own was stored, puts that HTML on the clipboard as
/// the last format, after its plain text when it has any; a stored HTML
/// format is put there as it was stored instead.
pub proof fn lemma_html_action_keeps_html(
    item: ClipboardItem,
    rows: Seq<ClipboardDataItem>,
    files: Result<Seq<PayloadView>, Seq<char>>,
)
    ensures
        (forall|i: int| 0 <= i < rows.len() ==> (#[trigger] rows[i]).format_name@ != "HTML Format"@)
            && item.html_content is Some && !is_blank(item.html_content->0@) ==> ({
            let p = payload_of_action(item, rows, PasteAction::Html, files);
            &&& p is Ok
            &&& p->Ok_0.len() > 0
            &&& p->Ok_0.last() == PayloadView::Html(item.html_content->0@)
            &&& p->Ok_0.contains(PayloadView::Html(item.html_content->0@))
            &&& (plain_text_of(item, rows) matches Ok(t) ==> p->Ok_0 == seq![
                PayloadView::Text(t),
                PayloadView::Html(item.html_content->0@),
            ])
        }),
        first_named(rows, "HTML Format"@) matches Some(i) ==> ({
            let p = payload_of_action(item, rows, PasteAction::Html, files);
            &&& p is Ok
            &&& p->Ok_0.last() == PayloadView::Other(rows[i].format_name@, rows[i].raw_data@)
        }),
{
    if (forall|i: int| 0 <= i < rows.len() ==> (#[trigger] rows[i]).format_name@ != "HTML Format"@)
        && item.html_content is Some && !is_blank(item.html_content->0@) {
        lemma_first_named_absent(rows, "HTML Format"@, 0);
        let p = payload_of_action(item, rows, PasteAction::Html, files)->Ok_0;
        assert(p[p.len() - 1] == PayloadView::Html(item.html_content->0@));
        match plain_text_of(item, rows) {
            Ok(t) => {
                assert(p =~= seq![PayloadView::Text(t), PayloadView::Html(item.html_content->0@)]);
            },
            Err(_) => {},
        }
    }
}

/// Builds the payload of an entry for an action.
pub fn build_payload_from_action(item: &ClipboardItem, raw_formats: &[ClipboardDataItem], action: PasteAction, file_payload: &Result<Vec<PayloadEntry>, String>) -> (r: Result<Vec<PayloadEntry>, String>)
    ensures
        payload_result(r) == payload_of_action(*item, raw_formats@, action, payload_result(*file_payload)),
{
    match action {
        PasteAction::PlainText => build_plain_text_payload(item, raw_formats),
        PasteAction::Html => build_html_payload(item, raw_formats),
        PasteAction::Rtf => build_rtf_payload(item, raw_formats),
        PasteAction::AllFormats => build_all_formats_payload(item, raw_formats, file_payload),
        PasteAction::ImageBundle => clone_payload_result(file_payload),
        PasteAction::File => clone_payload_result(file_payload),
    }
}

/// The action that copying an entry uses: images as their image, files as
/// files, entries with stored formats as all of them, entries with HTML as
/// HTML, the rest as plain text.
pub open spec fn copy_action_of(item: ClipboardItem, rows: Seq<ClipboardDataItem>) -> PasteAction {
    let p = primary_type(item.content_type@);
    if p == "image"@ {
        PasteAction::ImageBundle
    } else if p == "file"@ {
        PasteAction::File
    } else if rows.len() > 0 {
        PasteAction::AllFormats
    } else if usable_html(item) is Some {
        PasteAction::Html
    } else {
        PasteAction::PlainText
    }
}

/// Chooses the action that copying an entry uses.
pub fn resolve_copy_action(item: &ClipboardItem, raw_formats: &[ClipboardDataItem]) -> (r: PasteAction)
    ensures
        r == copy_action_of(*item, raw_formats@),
{
    if primary_type_is(item.content_type.as_str(), "image") {
        PasteAction::ImageBundle
    } else if primary_type_is(item.content_type.as_str(), "file") {
        PasteAction::File
    } else if raw_formats.len() > 0 {
        PasteAction::AllFormats
    } else if usable_html_of(item).is_some() {
        PasteAction::Html
    } else {
        PasteAction::PlainText
    }
}

/// The action of a paste or copy: the one asked for, else the default
/// paste action when pasting, else the copy action.
pub fn resolve_paste_action(requested: Option<PasteAction>, simulate: bool, default_paste_action: PasteAction, item: &ClipboardItem, raw_formats: &[ClipboardDataItem]) -> (r: PasteAction)
    ensures
        requested is Some ==> r == requested->0,
        requested is None && simulate ==> r == default_paste_action,
        requested is None && !simulate ==> r == copy_action_of(*item, raw_formats@),
{
    match requested {
        Some(a) => a,
        None => if simulate { default_paste_action } else { resolve_copy_action(item, raw_formats) },
    }
}

/// How a payload is written to the system clipboard.
#[derive(Debug, Clone)]
pub enum ClipboardWrite {
    /// The entry's image file is written as an image.
    ImageFile,
    /// A single file-list format is written as files.
    Files(Vec<String>),
    /// The formats are written together.
    Contents(Vec<PayloadEntry>),
}

/// Decides how a payload is written: nothing to write is an error; the
/// image action writes the image file; a lone file list is written as
/// files; anything else as formats.
pub fn plan_clipboard_write(action: PasteAction, payload: Vec<PayloadEntry>) -> (r: Result<ClipboardWrite, String>)
    ensures
        payload@.len() == 0 ==> r is Err && r->Err_0@ == no_data_message(),
        payload@.len() > 0 && action == PasteAction::ImageBundle ==> r is Ok && r->Ok_0 is ImageFile,
        payload@.len() == 1 && action != PasteAction::ImageBundle && payload@[0] is Files ==> r is Ok
            && r->Ok_0 is Files && texts(r->Ok_0->Files_0@) == texts(payload@[0]->Files_0@),
        payload@.len() > 0 && action != PasteAction::ImageBundle && !(payload@.len() == 1 && payload@[0] is Files) ==> r is Ok
            && r->Ok_0 is Contents && payload_view(r->Ok_0->Contents_0@) == payload_view(payload@),
{
    if payload.len() == 0 {
        return Err(own("没有可写入剪贴板的数据"));
    }
    if action == PasteAction::ImageBundle {
        return Ok(ClipboardWrite::ImageFile);
    }
    if payload.len() == 1 {
        let is_files = match &payload[0] {
            PayloadEntry::Files(_) => true,
            _ => false,
        };
        if is_files {
            let mut payload = payload;
            let ghost p0 = payload@;
            let e = payload.pop().unwrap();
            assert(e == p0[0]);
            return match e {
                PayloadEntry::Files(paths) => Ok(ClipboardWrite::Files(paths)),
                other => Ok(ClipboardWrite::Contents(vec![other])),
            };
        }
    }
    Ok(ClipboardWrite::Contents(payload))
}

/// Whether pasting an entry rewrites it to the file-list form: an image
/// entry still stored the old way.
pub open spec fn needs_legacy_conversion_of(item: ClipboardItem) -> bool {
    primary_type(item.content_type@) == "image"@ && !starts_with(item.content@, files_prefix())
}

/// Whether pasting an entry rewrites it to the file-list form.
pub fn needs_legacy_conversion(item: &ClipboardItem) -> (r: bool)
    ensures
        r == needs_legacy_conversion_of(*item),
{
    primary_type_is(item.content_type.as_str(), "image") && !is_files_content(item.content.as_str())
}

/// The image identifier of an entry stored the old way: its identifier
/// list as written, else its text after `image:`; it must be safe to use
/// in a path.
pub open spec fn legacy_image_id_of(item: ClipboardItem) -> Result<Seq<char>, Seq<char>> {
    let id = match item.image_id {
        Some(s) => Some(s@),
        None => if starts_with(item.content@, "image:"@) { Some(item.content@.skip(6)) } else { None },
    };
    match id {
        None => Err("无法获取图片ID"@),
        Some(i) => if valid_image_id_bytes(utf8_of(i)) {
            Ok(i)
        } else {
            Err("图片 ID 不合法,已拒绝访问: "@ + i)
        },
    }
}

/// Picks the image identifier of an entry stored the old way.
pub fn legacy_image_id(item: &ClipboardItem) -> (r: Result<String, String>)
    ensures
        text_result(r) == legacy_image_id_of(*item),
{
    let id = match &item.image_id {
        Some(s) => s.clone(),
        None => {
            let cs = chars_of(item.content.as_str());
            proof { reveal_strlit("image:"); }
            match strip_prefix_chars(&cs, "image:") {
                Some(rest) => string_of(rest.as_slice()),
                None => return Err(own("无法获取图片ID")),
            }
        },
    };
    if !is_valid_image_id(id.as_str()) {
        return Err(refused_image_id(id.as_str()));
    }
    Ok(id)
}

/// The statement that rewrites an entry's content and refreshes its update
/// time (never its creation time), for a history entry or else a favourite.
pub fn item_content_update_sql(clipboard_id: Option<i64>, favorite_id: &Option<String>) -> (r: Option<String>)
    ensures
        clipboard_id is Some ==> r is Some && r->0@ == "UPDATE clipboard SET content = ?, updated_at = ? WHERE id = ?"@,
        clipboard_id is None && favorite_id is Some ==> r is Some && r->0@ == "UPDATE favorites SET content = ?, updated_at = ? WHERE id = ?"@,
        clipboard_id is None && favorite_id is None ==> r is None,
{
    if clipboard_id.is_some() {
        Some(own("UPDATE clipboard SET content = ?, updated_at = ? WHERE id = ?"))
    } else if favorite_id.is_some() {
        Some(own("UPDATE favorites SET content = ?, updated_at = ? WHERE id = ?"))
    } else {
        None
    }
}

} // verus!
