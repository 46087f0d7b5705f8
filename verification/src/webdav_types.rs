use vstd::prelude::*;
use crate::text::{chars_of, is_blank, string_of, trim, trim_chars};

verus! {

/// Records per stored chunk.
pub const CHUNK_RECORD_LIMIT: usize = 500;

/// Connection settings of a WebDAV server.
#[derive(Debug, Clone)]
pub struct WebdavConfig {
    pub url: String,
    pub username: String,
    pub password: String,
    pub root_path: String,
}

/// The WebDAV synchronisation status.
#[derive(Debug, Clone)]
pub struct WebdavStatus {
    pub enabled: bool,
    pub configured: bool,
    pub auto_push: bool,
    pub auto_pull: bool,
    pub running: bool,
}

/// One record reported by a synchronisation run.
#[derive(Debug, Clone)]
pub struct SyncReportItem {
    pub category: String,
    pub id: String,
    pub summary: String,
    pub source_device_id: String,
    pub updated_at: i64,
}

/// The outcome of a synchronisation run.
#[derive(Debug, Clone)]
pub struct SyncReport {
    pub pushed: u32,
    pub pulled: u32,
    pub errors: Vec<String>,
    pub pushed_clipboard: u32,
    pub pushed_favorites: u32,
    pub pushed_groups: u32,
    pub pulled_clipboard: u32,
    pub pulled_favorites: u32,
    pub pulled_groups: u32,
    pub pushed_items: Vec<SyncReportItem>,
    pub pulled_items: Vec<SyncReportItem>,
}

/// Where a record lives among the stored chunks.
#[derive(Debug, Clone)]
pub struct SyncIndexEntry {
    pub chunk: u32,
    pub updated_at: i64,
    pub source_device_id: String,
}

/// The index of stored chunks, by record identifier.
#[derive(Debug, Clone)]
pub struct SyncIndex {
    pub entries: Vec<(String, SyncIndexEntry)>,
    pub next_chunk: u32,
}

/// A synchronised clipboard or favourite record.
#[derive(Debug, Clone)]
pub struct CloudRecord {
    pub uuid: String,
    pub source_device_id: String,
    pub is_remote: bool,
    pub content: String,
    pub html_content: Option<String>,
    pub content_type: String,
    pub image_id: Option<String>,
    pub source_app: Option<String>,
    pub source_icon_hash: Option<String>,
    pub char_count: Option<i64>,
    pub title: String,
    pub group_name: String,
    pub item_order: i64,
    pub paste_count: i64,
    pub created_at: i64,
    pub updated_at: i64,
}

/// A chunk of records, by identifier.
#[derive(Debug, Clone)]
pub struct RecordChunk {
    pub records: Vec<(String, CloudRecord)>,
}

/// The identifying part of a record.
#[derive(Debug, Clone)]
pub struct CloudRecordMeta {
    pub uuid: String,
    pub updated_at: i64,
    pub image_id: Option<String>,
}

/// A synchronised favourites group.
#[derive(Debug, Clone)]
pub struct CloudGroup {
    pub name: String,
    pub icon: String,
    pub color: String,
    pub order: i32,
    pub source_device_id: String,
    pub created_at: i64,
    pub updated_at: i64,
}

/// The synchronised groups.
#[derive(Debug, Clone)]
pub struct GroupList {
    pub groups: Vec<CloudGroup>,
}

/// A deletion that synchronisation propagates.
#[derive(Debug, Clone)]
pub struct SyncTombstone {
    pub collection: String,
    pub item_id: String,
    pub source_device_id: String,
    pub deleted_at: i64,
}

/// The synchronised deletions.
#[derive(Debug, Clone)]
pub struct TombstoneList {
    pub tombstones: Vec<SyncTombstone>,
}

/// When an image file was uploaded.
#[derive(Debug, Clone)]
pub struct ImageFileIndexEntry {
    pub uploaded_at: i64,
}

/// The uploaded image files, by image identifier.
#[derive(Debug, Clone)]
pub struct ImageFileIndex {
    pub images: Vec<(String, ImageFileIndexEntry)>,
}

/// The two record collections that are synchronised.
#[derive(Debug, Clone, Copy, PartialEq, Eq, Structural)]
pub enum SyncCollection {
    History,
    Favorites,
}

/// The number of UTF-8 bytes a report summary keeps.
pub open spec fn summary_limit() -> int {
    40
}

/// The number of bytes a character takes in UTF-8.
pub open spec fn utf8_width(c: char) -> int {
    let v = c as u32;
    if v < 0x80 {
        1
    } else if v < 0x800 {
        2
    } else if v < 0x10000 {
        3
    } else {
        4
    }
}

/// How many leading characters of `s` fit in `budget` bytes of UTF-8.
pub open spec fn fitting_prefix_len(s: Seq<char>, budget: int) -> nat
    decreases s.len(),
{
    if s.len() == 0 || utf8_width(s[0]) > budget {
        0
    } else {
        1 + fitting_prefix_len(s.skip(1), budget - utf8_width(s[0]))
    }
}

/// A record's summary: its trimmed title, or its trimmed content when the
/// title is blank; when that is longer than forty bytes of UTF-8, the
/// characters that fit in forty bytes followed by `…`.
pub open spec fn summary_of(title: Seq<char>, content: Seq<char>) -> Seq<char> {
    let raw = if !is_blank(title) { trim(title) } else { trim(content) };
    let n = fitting_prefix_len(raw, summary_limit());
    if n < raw.len() {
        raw.take(n as int).push('…')
    } else {
        raw
    }
}

fn char_utf8_width(c: char) -> (w: i64)
    ensures
        w == utf8_width(c),
{
    let v = c as u32;
    if v < 0x80 {
        1
    } else if v < 0x800 {
        2
    } else if v < 0x10000 {
        3
    } else {
        4
    }
}

fn summarize_record(record: &CloudRecord) -> (s: String)
    ensures
        s@ == summary_of(record.title@, record.content@),
{
    let title = chars_of(record.title.as_str());
    let t = trim_chars(title.as_slice());
    let raw = if t.len() > 0 {
        t
    } else {
        let content = chars_of(record.content.as_str());
        trim_chars(content.as_slice())
    };
    let mut i: usize = 0;
    let mut budget: i64 = 40;
    assert(raw@.skip(0) =~= raw@);
    while i < raw.len() && char_utf8_width(raw[i]) <= budget
        invariant
            i <= raw@.len(),
            0 <= budget <= 40,
            fitting_prefix_len(raw@, 40) == i + fitting_prefix_len(raw@.skip(i as int), budget as int),
        decreases raw@.len() - i,
    {
        let w = char_utf8_width(raw[i]);
        proof {
            assert(raw@.skip(i as int)[0] == raw@[i as int]);
            assert(raw@.skip(i as int).skip(1) =~= raw@.skip(i + 1));
        }
        budget = budget - w;
        i = i + 1;
    }
    proof {
        if i < raw@.len() {
            assert(raw@.skip(i as int)[0] == raw@[i as int]);
        } else {
            assert(raw@.skip(i as int).len() == 0);
        }
    }
    if i < raw.len() {
        let mut cut: Vec<char> = Vec::new();
        let mut k: usize = 0;
        while k < i
            invariant
                i < raw@.len(),
                k <= i,
                cut@ == raw@.take(k as int),
            decreases i - k,
        {
            cut.push(raw[k]);
            k = k + 1;
            assert(cut@ =~= raw@.take(k as int));
        }
        cut.push('…');
        string_of(cut.as_slice())
    } else {
        string_of(raw.as_slice())
    }
}

impl CloudRecord {
    /// The report line of this record under `category`.
    pub fn report_item(&self, category: &str) -> (r: SyncReportItem)
        ensures
            r.category@ == category@,
            r.id@ == self.uuid@,
            r.summary@ == summary_of(self.title@, self.content@),
            r.source_device_id@ == self.source_device_id@,
            r.updated_at == self.updated_at,
    {
        SyncReportItem {
            category: category.to_owned(),
            id: self.uuid.clone(),
            summary: summarize_record(self),
            source_device_id: self.source_device_id.clone(),
            updated_at: self.updated_at,
        }
    }
}

/// The directory name of a collection.
pub open spec fn collection_dir(c: SyncCollection) -> Seq<char> {
    match c {
        SyncCollection::History => "history"@,
        SyncCollection::Favorites => "favorites"@,
    }
}

impl SyncCollection {
    /// The stable directory name under which a collection is stored.
    pub fn dir(self) -> (r: &'static str)
        ensures
            r@ == collection_dir(self),
    {
        match self {
            SyncCollection::History => "history",
            SyncCollection::Favorites => "favorites",
        }
    }
}

} // verus!
