use vstd::prelude::*;
use crate::text::own;
use crate::webdav_types::{summary_of, CloudGroup, CloudRecord, SyncReport, SyncReportItem, SyncTombstone};

verus! {

/// What a device tells a peer about its data: the version of each record
/// and tombstone by identifier, and its groups.
pub struct LanSyncSnapshot {
    pub device_id: String,
    pub history_states: Vec<(String, i64)>,
    pub favorite_states: Vec<(String, i64)>,
    pub groups: Vec<CloudGroup>,
    pub tombstone_states: Vec<(String, i64)>,
}

/// Records of one collection sent to a peer.
pub struct LanRecordBatch {
    pub collection: String,
    pub records: Vec<CloudRecord>,
}

/// Groups sent to a peer.
pub struct LanGroupBatch {
    pub groups: Vec<CloudGroup>,
}

/// Tombstones sent to a peer.
pub struct LanTombstoneBatch {
    pub tombstones: Vec<SyncTombstone>,
}

/// The snapshot a device serves, from its identifier and its stored states.
pub fn snapshot(
    device_id: String,
    history_states: Vec<(String, i64)>,
    favorite_states: Vec<(String, i64)>,
    groups: Vec<CloudGroup>,
    tombstone_states: Vec<(String, i64)>,
) -> (r: LanSyncSnapshot)
    ensures
        r.device_id@ == device_id@,
        r.history_states@ == history_states@,
        r.favorite_states@ == favorite_states@,
        r.groups@ == groups@,
        r.tombstone_states@ == tombstone_states@,
{
    LanSyncSnapshot { device_id, history_states, favorite_states, groups, tombstone_states }
}

/// The records updated at or after `since`, in order; all of them without
/// `since`. The bound is inclusive: a peer asks from its own latest time,
/// and records of that very second must not be missed.
pub open spec fn records_since(records: Seq<CloudRecord>, since: Option<i64>) -> Seq<CloudRecord>
    decreases records.len(),
{
    if records.len() == 0 {
        Seq::empty()
    } else {
        let r = records_since(records.drop_last(), since);
        let e = records.last();
        if since is None || e.updated_at >= since->0 { r.push(e) } else { r }
    }
}

fn filter_since(records: Vec<CloudRecord>, since: Option<i64>) -> (r: Vec<CloudRecord>)
    ensures
        r@ == records_since(records@, since),
{
    let ghost start = records@;
    let n = records.len();
    let mut rest = records;
    let mut kept: Vec<CloudRecord> = Vec::new();
    let mut consumed: usize = 0;
    while rest.len() > 0
        invariant
            consumed <= start.len(),
            n == start.len(),
            rest@ == start.skip(consumed as int),
            kept@ == records_since(start.take(consumed as int), since),
        decreases rest.len(),
    {
        let e = rest.remove(0);
        proof {
            assert(start.take(consumed + 1).drop_last() =~= start.take(consumed as int));
            assert(start.take(consumed + 1).last() == e);
            assert(rest@ =~= start.skip(consumed + 1));
        }
        let keep = match since {
            Some(s) => e.updated_at >= s,
            None => true,
        };
        if keep {
            kept.push(e);
        }
        consumed = consumed + 1;
    }
    assert(start.take(consumed as int) =~= start);
    kept
}

/// Whether a tombstone of the collection, given as `(identifier, deleted
/// at)`, deletes the item `id` stamped `updated_at`: it names the item and
/// is at least as new, the same rule that keeps a merge from writing it.
pub open spec fn deleted_by(tombstones: Seq<(String, i64)>, id: Seq<char>, updated_at: i64) -> bool {
    exists|i: int| 0 <= i < tombstones.len() && (#[trigger] tombstones[i]).0@ == id && tombstones[i].1 >= updated_at
}

/// The records no tombstone deletes, in order.
pub open spec fn live_records(records: Seq<CloudRecord>, tombstones: Seq<(String, i64)>) -> Seq<CloudRecord>
    decreases records.len(),
{
    if records.len() == 0 {
        Seq::empty()
    } else {
        let r = live_records(records.drop_last(), tombstones);
        let e = records.last();
        if deleted_by(tombstones, e.uuid@, e.updated_at) { r } else { r.push(e) }
    }
}

/// The groups no tombstone deletes, in order; a group is named by its name.
pub open spec fn live_groups(groups: Seq<CloudGroup>, tombstones: Seq<(String, i64)>) -> Seq<CloudGroup>
    decreases groups.len(),
{
    if groups.len() == 0 {
        Seq::empty()
    } else {
        let r = live_groups(groups.drop_last(), tombstones);
        let e = groups.last();
        if deleted_by(tombstones, e.name@, e.updated_at) { r } else { r.push(e) }
    }
}

fn is_deleted(tombstones: &Vec<(String, i64)>, id: &str, updated_at: i64) -> (r: bool)
    ensures
        r == deleted_by(tombstones@, id@, updated_at),
{
    let mut i: usize = 0;
    while i < tombstones.len()
        invariant
            i <= tombstones@.len(),
            forall|j: int| 0 <= j < i ==> !((#[trigger] tombstones@[j]).0@ == id@ && tombstones@[j].1 >= updated_at),
        decreases tombstones.len() - i,
    {
        if crate::text::str_eq(tombstones[i].0.as_str(), id) && tombstones[i].1 >= updated_at {
            return true;
        }
        i = i + 1;
    }
    false
}

fn filter_live(records: Vec<CloudRecord>, tombstones: &Vec<(String, i64)>) -> (r: Vec<CloudRecord>)
    ensures
        r@ == live_records(records@, tombstones@),
{
    let ghost start = records@;
    let n = records.len();
    let mut rest = records;
    let mut kept: Vec<CloudRecord> = Vec::new();
    let mut consumed: usize = 0;
    while rest.len() > 0
        invariant
            consumed <= start.len(),
            n == start.len(),
            rest@ == start.skip(consumed as int),
            kept@ == live_records(start.take(consumed as int), tombstones@),
        decreases rest.len(),
    {
        let e = rest.remove(0);
        proof {
            assert(start.take(consumed + 1).drop_last() =~= start.take(consumed as int));
            assert(start.take(consumed + 1).last() == e);
            assert(rest@ =~= start.skip(consumed + 1));
        }
        if !is_deleted(tombstones, e.uuid.as_str(), e.updated_at) {
            kept.push(e);
        }
        consumed = consumed + 1;
    }
    assert(start.take(consumed as int) =~= start);
    kept
}

fn filter_live_groups(groups: Vec<CloudGroup>, tombstones: &Vec<(String, i64)>) -> (r: Vec<CloudGroup>)
    ensures
        r@ == live_groups(groups@, tombstones@),
{
    let ghost start = groups@;
    let n = groups.len();
    let mut rest = groups;
    let mut kept: Vec<CloudGroup> = Vec::new();
    let mut consumed: usize = 0;
    while rest.len() > 0
        invariant
            consumed <= start.len(),
            n == start.len(),
            rest@ == start.skip(consumed as int),
            kept@ == live_groups(start.take(consumed as int), tombstones@),
        decreases rest.len(),
    {
        let e = rest.remove(0);
        proof {
            assert(start.take(consumed + 1).drop_last() =~= start.take(consumed as int));
            assert(start.take(consumed + 1).last() == e);
            assert(rest@ =~= start.skip(consumed + 1));
        }
        if !is_deleted(tombstones, e.name.as_str(), e.updated_at) {
            kept.push(e);
        }
        consumed = consumed + 1;
    }
    assert(start.take(consumed as int) =~= start);
    kept
}

/// The history records a peer asked for: those updated at or after
/// `since` that no history tombstone (`(uuid, deleted at)`) deletes, in
/// their stored order.
pub fn list_history_records_since(records: Vec<CloudRecord>, tombstones: &Vec<(String, i64)>, since_updated_at: Option<i64>) -> (r: LanRecordBatch)
    ensures
        r.collection@ == "history"@,
        r.records@ == live_records(records_since(records@, since_updated_at), tombstones@),
{
    LanRecordBatch { collection: own("history"), records: filter_live(filter_since(records, since_updated_at), tombstones) }
}

/// The favourite records a peer asked for: those updated at or after
/// `since` that no favourites tombstone deletes, in their stored order.
pub fn list_favorite_records_since(records: Vec<CloudRecord>, tombstones: &Vec<(String, i64)>, since_updated_at: Option<i64>) -> (r: LanRecordBatch)
    ensures
        r.collection@ == "favorites"@,
        r.records@ == live_records(records_since(records@, since_updated_at), tombstones@),
{
    LanRecordBatch { collection: own("favorites"), records: filter_live(filter_since(records, since_updated_at), tombstones) }
}

/// The groups sent to a peer: those no group tombstone (`(name, deleted
/// at)`) deletes, in their stored order.
pub fn list_groups(groups: Vec<CloudGroup>, tombstones: &Vec<(String, i64)>) -> (r: LanGroupBatch)
    ensures
        r.groups@ == live_groups(groups@, tombstones@),
{
    LanGroupBatch { groups: filter_live_groups(groups, tombstones) }
}

/// The tombstones sent to a peer.
pub fn list_tombstones_since(tombstones: Vec<SyncTombstone>) -> (r: LanTombstoneBatch)
    ensures
        r.tombstones@ == tombstones@,
{
    LanTombstoneBatch { tombstones }
}

/// Law (inclusive bound): every record stamped at or after `since`, the
/// bound itself included, is sent, and only such records are.
pub proof fn lemma_since_is_inclusive(records: Seq<CloudRecord>, since: i64)
    ensures
        forall|i: int| 0 <= i < records.len() && records[i].updated_at >= since ==> #[trigger] records_since(records, Some(since)).contains(records[i]),
        forall|k: int| 0 <= k < records_since(records, Some(since)).len() ==> #[trigger] records_since(records, Some(since))[k].updated_at >= since,
    decreases records.len(),
{
    if records.len() > 0 {
        let prev = records.drop_last();
        lemma_since_is_inclusive(prev, since);
        let r = records_since(prev, Some(since));
        assert forall|i: int| 0 <= i < records.len() && records[i].updated_at >= since implies #[trigger] records_since(records, Some(since)).contains(records[i]) by {
            if i < records.len() - 1 {
                assert(prev[i] == records[i]);
                assert(r.contains(prev[i]));
                let k = choose|k: int| 0 <= k < r.len() && r[k] == prev[i];
                assert(records_since(records, Some(since))[k] == records[i]);
            } else {
                assert(records_since(records, Some(since)) == r.push(records.last()));
                assert(records_since(records, Some(since))[r.len() as int] == records[i]);
            }
        }
    }
}

/// The report lines of records pulled into `category`.
pub open spec fn report_lines(records: Seq<CloudRecord>, category: Seq<char>) -> Seq<(Seq<char>, Seq<char>, Seq<char>, Seq<char>, i64)> {
    records.map_values(|r: CloudRecord| (category, r.uuid@, summary_of(r.title@, r.content@), r.source_device_id@, r.updated_at))
}

/// The plain values of report lines.
pub open spec fn line_values(items: Seq<SyncReportItem>) -> Seq<(Seq<char>, Seq<char>, Seq<char>, Seq<char>, i64)> {
    items.map_values(|i: SyncReportItem| (i.category@, i.id@, i.summary@, i.source_device_id@, i.updated_at))
}

fn append_report_lines(items: &mut Vec<SyncReportItem>, records: &Vec<CloudRecord>, category: &str)
    ensures
        line_values(final(items)@) == line_values(old(items)@) + report_lines(records@, category@),
{
    let ghost start = line_values(items@);
    let mut i: usize = 0;
    while i < records.len()
        invariant
            i <= records@.len(),
            line_values(items@) == start + report_lines(records@.take(i as int), category@),
        decreases records.len() - i,
    {
        let ghost before = items@;
        let line = records[i].report_item(category);
        items.push(line);
        proof {
            assert(line_values(items@) =~= line_values(before).push(line_values(items@).last()));
            assert(report_lines(records@.take(i + 1), category@) =~= report_lines(records@.take(i as int), category@).push(
                report_lines(records@, category@)[i as int],
            ));
        }
        i = i + 1;
    }
    assert(records@.take(records@.len() as int) =~= records@);
}

/// Counts the history records a pull changed and adds their report lines.
pub fn record_pulled_history(report: &mut SyncReport, changed: &Vec<CloudRecord>)
    requires
        old(report).pulled + changed@.len() <= u32::MAX,
        old(report).pulled_clipboard + changed@.len() <= u32::MAX,
    ensures
        final(report).pulled == old(report).pulled + changed@.len(),
        final(report).pulled_clipboard == old(report).pulled_clipboard + changed@.len(),
        final(report).pulled_favorites == old(report).pulled_favorites,
        final(report).pulled_groups == old(report).pulled_groups,
        final(report).pushed == old(report).pushed,
        line_values(final(report).pulled_items@) == line_values(old(report).pulled_items@) + report_lines(changed@, "clipboard"@),
{
    let n = changed.len() as u32;
    report.pulled_clipboard = report.pulled_clipboard + n;
    report.pulled = report.pulled + n;
    append_report_lines(&mut report.pulled_items, changed, "clipboard");
}

/// Counts the favourite records a pull changed and adds their report lines.
pub fn record_pulled_favorites(report: &mut SyncReport, changed: &Vec<CloudRecord>)
    requires
        old(report).pulled + changed@.len() <= u32::MAX,
        old(report).pulled_favorites + changed@.len() <= u32::MAX,
    ensures
        final(report).pulled == old(report).pulled + changed@.len(),
        final(report).pulled_favorites == old(report).pulled_favorites + changed@.len(),
        final(report).pulled_clipboard == old(report).pulled_clipboard,
        final(report).pulled_groups == old(report).pulled_groups,
        final(report).pushed == old(report).pushed,
        line_values(final(report).pulled_items@) == line_values(old(report).pulled_items@) + report_lines(changed@, "favorites"@),
{
    let n = changed.len() as u32;
    report.pulled_favorites = report.pulled_favorites + n;
    report.pulled = report.pulled + n;
    append_report_lines(&mut report.pulled_items, changed, "favorites");
}

/// Records the history records a push changed on the peer: their count
/// and report lines.
pub fn record_pushed_history(report: &mut SyncReport, changed: &Vec<CloudRecord>)
    requires
        old(report).pushed + changed@.len() <= u32::MAX,
    ensures
        final(report).pushed_clipboard == changed@.len(),
        final(report).pushed == old(report).pushed + changed@.len(),
        final(report).pushed_favorites == old(report).pushed_favorites,
        final(report).pushed_groups == old(report).pushed_groups,
        final(report).pulled == old(report).pulled,
        line_values(final(report).pulled_items@) == line_values(old(report).pulled_items@),
        line_values(final(report).pushed_items@) == line_values(old(report).pushed_items@) + report_lines(changed@, "clipboard"@),
{
    let n = changed.len() as u32;
    report.pushed_clipboard = n;
    report.pushed = report.pushed + n;
    append_report_lines(&mut report.pushed_items, changed, "clipboard");
}

/// Records the favourite records a push changed on the peer: their count
/// and report lines.
pub fn record_pushed_favorites(report: &mut SyncReport, changed: &Vec<CloudRecord>)
    requires
        old(report).pushed + changed@.len() <= u32::MAX,
    ensures
        final(report).pushed_favorites == changed@.len(),
        final(report).pushed == old(report).pushed + changed@.len(),
        final(report).pushed_clipboard == old(report).pushed_clipboard,
        final(report).pushed_groups == old(report).pushed_groups,
        final(report).pulled == old(report).pulled,
        line_values(final(report).pulled_items@) == line_values(old(report).pulled_items@),
        line_values(final(report).pushed_items@) == line_values(old(report).pushed_items@) + report_lines(changed@, "favorites"@),
{
    let n = changed.len() as u32;
    report.pushed_favorites = n;
    report.pushed = report.pushed + n;
    append_report_lines(&mut report.pushed_items, changed, "favorites");
}

/// The report lines of groups a push changed: each group named by its name.
pub open spec fn group_report_lines(groups: Seq<CloudGroup>) -> Seq<(Seq<char>, Seq<char>, Seq<char>, Seq<char>, i64)> {
    groups.map_values(|g: CloudGroup| ("groups"@, g.name@, g.name@, g.source_device_id@, g.updated_at))
}

/// Records the groups a push changed on the peer: their count and report lines.
pub fn record_pushed_groups(report: &mut SyncReport, changed: &Vec<CloudGroup>)
    requires
        old(report).pushed + changed@.len() <= u32::MAX,
    ensures
        final(report).pushed_groups == changed@.len(),
        final(report).pushed == old(report).pushed + changed@.len(),
        final(report).pushed_clipboard == old(report).pushed_clipboard,
        final(report).pushed_favorites == old(report).pushed_favorites,
        final(report).pulled == old(report).pulled,
        line_values(final(report).pulled_items@) == line_values(old(report).pulled_items@),
        line_values(final(report).pushed_items@) == line_values(old(report).pushed_items@) + group_report_lines(changed@),
{
    let n = changed.len() as u32;
    report.pushed_groups = n;
    report.pushed = report.pushed + n;
    let ghost start = line_values(report.pushed_items@);
    let mut i: usize = 0;
    while i < changed.len()
        invariant
            i <= changed@.len(),
            line_values(report.pushed_items@) == start + group_report_lines(changed@.take(i as int)),
            report.pushed_groups == changed@.len(),
            report.pushed == old(report).pushed + changed@.len(),
            report.pushed_clipboard == old(report).pushed_clipboard,
            report.pushed_favorites == old(report).pushed_favorites,
            report.pulled == old(report).pulled,
            line_values(report.pulled_items@) == line_values(old(report).pulled_items@),
        decreases changed.len() - i,
    {
        let g = &changed[i];
        let line = SyncReportItem {
            category: own("groups"),
            id: g.name.clone(),
            summary: g.name.clone(),
            source_device_id: g.source_device_id.clone(),
            updated_at: g.updated_at,
        };
        let ghost before = report.pushed_items@;
        report.pushed_items.push(line);
        proof {
            assert(line_values(report.pushed_items@) =~= line_values(before).push(line_values(report.pushed_items@).last()));
            assert(group_report_lines(changed@.take(i + 1)) =~= group_report_lines(changed@.take(i as int)).push(
                group_report_lines(changed@)[i as int],
            ));
        }
        i = i + 1;
    }
    assert(changed@.take(changed@.len() as int) =~= changed@);
}

/// Whether a push that started no image upload and changed nothing on the
/// peer still offers it the images of every local record.
pub fn should_push_images_from_metas(image_task_started: bool, pushed: u32) -> (r: bool)
    ensures
        r == (!image_task_started && pushed == 0),
{
    !image_task_started && pushed == 0
}

} // verus!
