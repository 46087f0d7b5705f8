use vstd::prelude::*;
use crate::database::{i64_to_string, opt_text, signed_decimal};
use crate::text::{is_blank, str_eq, str_is_blank};
use crate::webdav_types::CloudRecord;
use vstd::string::StrSliceExecFns;

verus! {

/// The columns of a stored history row that a synchronised record is
/// compared with.
pub struct StoredHistoryRow {
    pub source_device_id: String,
    pub updated_at: i64,
    pub content: String,
    pub html_content: Option<String>,
    pub content_type: String,
    pub image_id: Option<String>,
    pub item_order: i64,
    pub paste_count: i64,
    pub source_app: Option<String>,
    pub source_icon_hash: Option<String>,
    pub char_count: Option<i64>,
    pub created_at: i64,
}

/// What merging one synchronised record into the history does.
#[derive(Debug, Clone, Copy, PartialEq, Eq, Structural)]
pub enum HistoryUpsertAction {
    /// Nothing is written: the record has no uuid, or a tombstone at least as new deletes it.
    Skip,
    /// The stored row is kept: it is as new as the record, or identical to it.
    KeepExisting { clear_tombstone: bool },
    /// The stored row takes the record's values, stamped `updated_at`.
    Update { updated_at: i64, clear_tombstone: bool },
    /// The record is inserted as a new row, stamped `updated_at`.
    Insert { updated_at: i64, clear_tombstone: bool },
}

/// Whether a stored row already holds exactly the record's values, with the
/// record stamped `updated_at`.
pub open spec fn row_same_as_record(row: StoredHistoryRow, rec: CloudRecord, updated_at: i64) -> bool {
    &&& row.source_device_id@ == rec.source_device_id@
    &&& row.updated_at == updated_at
    &&& row.content@ == rec.content@
    &&& opt_text(row.html_content) == opt_text(rec.html_content)
    &&& row.content_type@ == rec.content_type@
    &&& opt_text(row.image_id) == opt_text(rec.image_id)
    &&& row.item_order == rec.item_order
    &&& row.paste_count == rec.paste_count
    &&& opt_text(row.source_app) == opt_text(rec.source_app)
    &&& opt_text(row.source_icon_hash) == opt_text(rec.source_icon_hash)
    &&& row.char_count == rec.char_count
    &&& row.created_at == rec.created_at
}

/// Whether a tombstone deleted at `deleted_at` is older than `t`, and is then
/// removed because the record lives again.
pub open spec fn tombstone_older(tombstone_deleted_at: Option<i64>, t: i64) -> bool {
    tombstone_deleted_at is Some && tombstone_deleted_at->0 < t
}

/// The merge of one synchronised record, last writer wins. `existing` is the
/// stored row with the record's key, `tombstone_deleted_at` the time of its
/// tombstone. A repair (`ignore_tombstones`) ignores tombstones and stamps
/// the record `restored_updated_at`.
pub open spec fn history_upsert_action(
    rec: CloudRecord,
    existing: Option<StoredHistoryRow>,
    tombstone_deleted_at: Option<i64>,
    ignore_tombstones: bool,
    restored_updated_at: i64,
) -> HistoryUpsertAction {
    let stamp = if ignore_tombstones { restored_updated_at } else { rec.updated_at };
    if is_blank(rec.uuid@) {
        HistoryUpsertAction::Skip
    } else if !ignore_tombstones && tombstone_deleted_at is Some && tombstone_deleted_at->0 >= rec.updated_at {
        HistoryUpsertAction::Skip
    } else {
        match existing {
            Some(row) => {
                if row.updated_at >= stamp || row_same_as_record(row, rec, stamp) {
                    HistoryUpsertAction::KeepExisting {
                        clear_tombstone: tombstone_older(tombstone_deleted_at, row.updated_at),
                    }
                } else {
                    HistoryUpsertAction::Update {
                        updated_at: stamp,
                        clear_tombstone: tombstone_older(tombstone_deleted_at, stamp),
                    }
                }
            },
            None => HistoryUpsertAction::Insert {
                updated_at: stamp,
                clear_tombstone: tombstone_older(tombstone_deleted_at, stamp),
            },
        }
    }
}

fn opt_str_eq(a: &Option<String>, b: &Option<String>) -> (r: bool)
    ensures
        r == (opt_text(*a) == opt_text(*b)),
{
    match (a, b) {
        (Some(x), Some(y)) => str_eq(x.as_str(), y.as_str()),
        (None, None) => true,
        _ => false,
    }
}

fn row_same(row: &StoredHistoryRow, rec: &CloudRecord, updated_at: i64) -> (r: bool)
    ensures
        r == row_same_as_record(*row, *rec, updated_at),
{
    str_eq(row.source_device_id.as_str(), rec.source_device_id.as_str())
        && row.updated_at == updated_at
        && str_eq(row.content.as_str(), rec.content.as_str())
        && opt_str_eq(&row.html_content, &rec.html_content)
        && str_eq(row.content_type.as_str(), rec.content_type.as_str())
        && opt_str_eq(&row.image_id, &rec.image_id)
        && row.item_order == rec.item_order
        && row.paste_count == rec.paste_count
        && opt_str_eq(&row.source_app, &rec.source_app)
        && opt_str_eq(&row.source_icon_hash, &rec.source_icon_hash)
        && row.char_count == rec.char_count
        && row.created_at == rec.created_at
}

fn older(tombstone_deleted_at: Option<i64>, t: i64) -> (r: bool)
    ensures
        r == tombstone_older(tombstone_deleted_at, t),
{
    match tombstone_deleted_at {
        Some(d) => d < t,
        None => false,
    }
}

/// Decides how one synchronised record (its file list already sanitised)
/// merges into the stored history.
pub fn decide_history_upsert(
    record: &CloudRecord,
    existing: &Option<StoredHistoryRow>,
    tombstone_deleted_at: Option<i64>,
    ignore_tombstones: bool,
    restored_updated_at: i64,
) -> (r: HistoryUpsertAction)
    ensures
        r == history_upsert_action(*record, *existing, tombstone_deleted_at, ignore_tombstones, restored_updated_at),
{
    if str_is_blank(record.uuid.as_str()) {
        return HistoryUpsertAction::Skip;
    }
    if !ignore_tombstones {
        match tombstone_deleted_at {
            Some(d) => {
                if d >= record.updated_at {
                    return HistoryUpsertAction::Skip;
                }
            },
            None => {},
        }
    }
    let stamp = if ignore_tombstones { restored_updated_at } else { record.updated_at };
    match existing {
        Some(row) => {
            if row.updated_at >= stamp || row_same(row, record, stamp) {
                HistoryUpsertAction::KeepExisting { clear_tombstone: older(tombstone_deleted_at, row.updated_at) }
            } else {
                HistoryUpsertAction::Update { updated_at: stamp, clear_tombstone: older(tombstone_deleted_at, stamp) }
            }
        },
        None => HistoryUpsertAction::Insert { updated_at: stamp, clear_tombstone: older(tombstone_deleted_at, stamp) },
    }
}

/// Whether the stored row `(row_id, row_uuid)` carries the record key
/// `uuid`: its uuid equals it, or it has no uuid and its id written in
/// decimal equals it.
pub open spec fn row_has_record_key(row_id: i64, row_uuid: Option<Seq<char>>, uuid: Seq<char>) -> bool {
    (row_uuid is Some && row_uuid->0 == uuid) || ((row_uuid is None || row_uuid->0.len() == 0)
        && signed_decimal(row_id as int) == uuid)
}

/// Whether a stored row is the one a synchronised record with key `uuid` names.
pub fn row_matches_record_key(row_id: i64, row_uuid: &Option<String>, uuid: &str) -> (r: bool)
    ensures
        r == row_has_record_key(row_id, opt_text(*row_uuid), uuid@),
{
    let no_uuid = match row_uuid {
        Some(u) => {
            if str_eq(u.as_str(), uuid) {
                return true;
            }
            u.as_str().unicode_len() == 0
        },
        None => true,
    };
    if no_uuid {
        let id_text = i64_to_string(row_id);
        str_eq(id_text.as_str(), uuid)
    } else {
        false
    }
}

fn copy_opt(o: &Option<String>) -> (r: Option<String>)
    ensures
        opt_text(r) == opt_text(*o),
{
    match o {
        Some(s) => Some(s.clone()),
        None => None,
    }
}

/// Whether two records hold the same values but for their timestamp.
pub open spec fn same_record_but_stamp(a: CloudRecord, b: CloudRecord) -> bool {
    &&& a.uuid@ == b.uuid@
    &&& a.source_device_id@ == b.source_device_id@
    &&& a.is_remote == b.is_remote
    &&& a.content@ == b.content@
    &&& opt_text(a.html_content) == opt_text(b.html_content)
    &&& a.content_type@ == b.content_type@
    &&& opt_text(a.image_id) == opt_text(b.image_id)
    &&& opt_text(a.source_app) == opt_text(b.source_app)
    &&& opt_text(a.source_icon_hash) == opt_text(b.source_icon_hash)
    &&& a.char_count == b.char_count
    &&& a.title@ == b.title@
    &&& a.group_name@ == b.group_name@
    &&& a.item_order == b.item_order
    &&& a.paste_count == b.paste_count
    &&& a.created_at == b.created_at
}

/// The record reported as changed by a merge that wrote it: the record,
/// stamped with the time it was written with.
pub fn changed_record(record: &CloudRecord, action: HistoryUpsertAction) -> (r: Option<CloudRecord>)
    ensures
        match action {
            HistoryUpsertAction::Update { updated_at, .. } | HistoryUpsertAction::Insert { updated_at, .. } => r is Some
                && same_record_but_stamp(r->0, *record) && r->0.updated_at == updated_at,
            _ => r is None,
        },
{
    let stamp = match action {
        HistoryUpsertAction::Update { updated_at, .. } => updated_at,
        HistoryUpsertAction::Insert { updated_at, .. } => updated_at,
        _ => return None,
    };
    Some(CloudRecord {
        uuid: record.uuid.clone(),
        source_device_id: record.source_device_id.clone(),
        is_remote: record.is_remote,
        content: record.content.clone(),
        html_content: copy_opt(&record.html_content),
        content_type: record.content_type.clone(),
        image_id: copy_opt(&record.image_id),
        source_app: copy_opt(&record.source_app),
        source_icon_hash: copy_opt(&record.source_icon_hash),
        char_count: record.char_count,
        title: record.title.clone(),
        group_name: record.group_name.clone(),
        item_order: record.item_order,
        paste_count: record.paste_count,
        created_at: record.created_at,
        updated_at: stamp,
    })
}

/// Law (last writer wins): a record never replaces a stored row that is at
/// least as new, and a record no newer than its tombstone is never written,
/// unless a repair ignores tombstones.
pub proof fn lemma_upsert_last_writer_wins(
    rec: CloudRecord,
    row: StoredHistoryRow,
    tombstone_deleted_at: Option<i64>,
    ignore_tombstones: bool,
    restored_updated_at: i64,
)
    ensures
        ({
            let stamp = if ignore_tombstones { restored_updated_at } else { rec.updated_at };
            row.updated_at >= stamp ==> !(history_upsert_action(rec, Some(row), tombstone_deleted_at, ignore_tombstones, restored_updated_at) is Update)
        }),
        !ignore_tombstones && tombstone_deleted_at is Some && tombstone_deleted_at->0 >= rec.updated_at ==>
            history_upsert_action(rec, Some(row), tombstone_deleted_at, false, restored_updated_at) == HistoryUpsertAction::Skip
            && history_upsert_action(rec, None, tombstone_deleted_at, false, restored_updated_at) == HistoryUpsertAction::Skip,
{
}

/// Law: merging the same record again after it was written keeps the row.
pub proof fn lemma_upsert_idempotent(
    rec: CloudRecord,
    row: StoredHistoryRow,
    tombstone_deleted_at: Option<i64>,
    ignore_tombstones: bool,
    restored_updated_at: i64,
)
    requires
        ({
            let stamp = if ignore_tombstones { restored_updated_at } else { rec.updated_at };
            row_same_as_record(row, rec, stamp)
        }),
    ensures
        !(history_upsert_action(rec, Some(row), tombstone_deleted_at, ignore_tombstones, restored_updated_at) is Update),
        !(history_upsert_action(rec, Some(row), tombstone_deleted_at, ignore_tombstones, restored_updated_at) is Insert),
{
}

/// Whether a synchronised record of this type carries a file list whose
/// paths are sanitised before anything is stored.
pub open spec fn sanitizes_files(content_type: Seq<char>) -> bool {
    content_type == "file"@ || content_type == "image"@
}

/// Whether a record of this content type has its file list sanitised.
pub fn needs_files_sanitizing(content_type: &str) -> (r: bool)
    ensures
        r == sanitizes_files(content_type@),
{
    str_eq(content_type, "file") || str_eq(content_type, "image")
}

/// Whether `p` is `rec` as it is merged: the same values, except that the
/// content of a file or image record is the sanitised content when there is
/// one (a content that is no file list stays as it came).
pub open spec fn prepared_from(p: CloudRecord, rec: CloudRecord, sanitized: Option<Seq<char>>) -> bool {
    &&& same_record_but_stamp(CloudRecord { content: rec.content, ..p }, rec)
    &&& p.updated_at == rec.updated_at
    &&& p.content@ == (if sanitizes_files(rec.content_type@) && sanitized is Some { sanitized->0 } else { rec.content@ })
}

/// The record as it is merged: a file or image record takes
/// `sanitized_content`, the text of its file list after
/// `clipboard_content::sanitize_remote_files` (`None` when the content is
/// not a readable file list, which is then kept as it is).
pub fn prepare_synced_record(record: &CloudRecord, sanitized_content: Option<String>) -> (p: CloudRecord)
    ensures
        prepared_from(p, *record, opt_text(sanitized_content)),
{
    let content = if needs_files_sanitizing(record.content_type.as_str()) {
        match sanitized_content {
            Some(c) => c,
            None => record.content.clone(),
        }
    } else {
        record.content.clone()
    };
    CloudRecord {
        uuid: record.uuid.clone(),
        source_device_id: record.source_device_id.clone(),
        is_remote: record.is_remote,
        content,
        html_content: copy_opt(&record.html_content),
        content_type: record.content_type.clone(),
        image_id: copy_opt(&record.image_id),
        source_app: copy_opt(&record.source_app),
        source_icon_hash: copy_opt(&record.source_icon_hash),
        char_count: record.char_count,
        title: record.title.clone(),
        group_name: record.group_name.clone(),
        item_order: record.item_order,
        paste_count: record.paste_count,
        created_at: record.created_at,
        updated_at: record.updated_at,
    }
}

/// The records a batch wrote, with the time each was written with, in the
/// order they were handled.
pub open spec fn written_entries(handled: Seq<(CloudRecord, HistoryUpsertAction)>) -> Seq<(CloudRecord, i64)>
    decreases handled.len(),
{
    if handled.len() == 0 {
        Seq::empty()
    } else {
        let before = written_entries(handled.drop_last());
        match handled.last().1 {
            HistoryUpsertAction::Update { updated_at, .. } => before.push((handled.last().0, updated_at)),
            HistoryUpsertAction::Insert { updated_at, .. } => before.push((handled.last().0, updated_at)),
            _ => before,
        }
    }
}

/// Whether `changed` lists the `written` records, each stamped with the
/// time it was written with.
pub open spec fn reports_written(changed: Seq<CloudRecord>, written: Seq<(CloudRecord, i64)>) -> bool {
    &&& changed.len() == written.len()
    &&& forall|i: int| 0 <= i < changed.len() ==> same_record_but_stamp(#[trigger] changed[i], written[i].0)
        && changed[i].updated_at == written[i].1
}

/// A merge of a batch of synchronised history records, one record at a
/// time: the caller looks up each record's stored row and tombstone just
/// before handing it over, and applies the action it gets back.
pub struct HistoryUpsertRun {
    changed: Vec<CloudRecord>,
    handled: Ghost<Seq<(CloudRecord, HistoryUpsertAction)>>,
}

impl HistoryUpsertRun {
    #[verifier::type_invariant]
    closed spec fn inv(self) -> bool {
        reports_written(self.changed@, written_entries(self.handled@))
    }

    /// The records handed over so far, as merged, with what was done with each.
    pub closed spec fn handled(self) -> Seq<(CloudRecord, HistoryUpsertAction)> {
        self.handled@
    }

    /// A run that has handled nothing.
    pub fn new() -> (s: Self)
        ensures
            s.handled() == Seq::<(CloudRecord, HistoryUpsertAction)>::empty(),
    {
        HistoryUpsertRun { changed: Vec::new(), handled: Ghost(Seq::empty()) }
    }

    /// Merges the next record, already prepared with `prepare_synced_record`:
    /// `existing` and `tombstone_deleted_at` are its stored row and tombstone
    /// as they are now. Returns what to write.
    pub fn step(
        &mut self,
        record: &CloudRecord,
        existing: &Option<StoredHistoryRow>,
        tombstone_deleted_at: Option<i64>,
        ignore_tombstones: bool,
        restored_updated_at: i64,
    ) -> (r: HistoryUpsertAction)
        ensures
            r == history_upsert_action(*record, *existing, tombstone_deleted_at, ignore_tombstones, restored_updated_at),
            final(self).handled() == old(self).handled().push((*record, r)),
    {
        let mut taken = HistoryUpsertRun::new();
        std::mem::swap(&mut taken, self);
        proof { use_type_invariant(&taken); }
        let action = decide_history_upsert(record, existing, tombstone_deleted_at, ignore_tombstones, restored_updated_at);
        let ghost before = taken.handled@;
        let ghost after = before.push((*record, action));
        assert(after.drop_last() =~= before);
        let HistoryUpsertRun { changed, handled: _ } = taken;
        let mut changed = changed;
        match changed_record(record, action) {
            Some(c) => {
                changed.push(c);
                assert(written_entries(after) == written_entries(before).push((*record, c.updated_at)));
            },
            None => {
                assert(written_entries(after) == written_entries(before));
            },
        }
        *self = HistoryUpsertRun { changed, handled: Ghost(after) };
        action
    }

    /// The records the batch wrote, in the order they were handed over, each
    /// stamped with the time it was written with; what the merge reports.
    pub fn finish(self) -> (r: Vec<CloudRecord>)
        ensures
            reports_written(r@, written_entries(self.handled())),
    {
        proof { use_type_invariant(&self); }
        self.changed
    }
}

} // verus!
