use quickclipboard::database::{
    begin_char_count_update, build_history_filter, content_update_error, end_char_count_update,
    get_clipboard_item_position, history_keep_limit, like_pattern, plan_content_update, plan_move_clipboard_item,
    split_image_ids, toggle_pin_change, tombstone_id, unique_item_ids, webdav_local_sync_parts_signature,
    UNLIMITED_HISTORY,
};
use quickclipboard::history_sync::{
    decide_history_upsert, needs_files_sanitizing, prepare_synced_record, row_matches_record_key, HistoryUpsertAction,
    HistoryUpsertRun, StoredHistoryRow,
};
use quickclipboard::lan_sync::{
    list_favorite_records_since, list_groups, list_history_records_since, record_pushed_favorites, record_pushed_groups,
    record_pushed_history, should_push_images_from_metas,
};
use quickclipboard::webdav_types::{CloudGroup, CloudRecord, SyncReport};

#[test]
fn like_pattern_wraps_plain_text() {
    assert_eq!(like_pattern("hello"), "%hello%");
}

#[test]
fn like_pattern_escapes_percent() {
    assert_eq!(like_pattern("100%"), r"%100\%%");
}

#[test]
fn like_pattern_escapes_underscore() {
    assert_eq!(like_pattern("a_b"), r"%a\_b%");
}

#[test]
fn like_pattern_escapes_backslash_first() {
    assert_eq!(like_pattern(r"a\b%c_d"), r"%a\\b\%c\_d%");
}

#[test]
fn char_count_updater_has_in_flight_guard() {
    let mut in_flight = false;
    assert!(!begin_char_count_update(&mut in_flight, 0), "没有待补的条目时不启动");
    assert!(!in_flight);
    assert!(begin_char_count_update(&mut in_flight, 3), "首次请求必须占用守卫并启动");
    assert!(in_flight);
    assert!(!begin_char_count_update(&mut in_flight, 3), "运行中再次请求不得启动第二个");
    end_char_count_update(&mut in_flight);
    assert!(!in_flight, "收尾必须复位守卫");
    assert!(begin_char_count_update(&mut in_flight, 1), "复位后可以再次启动");
}

#[test]
fn limit_zero_clamps_to_one_not_empty_allowlist() {
    assert_eq!(history_keep_limit(0), Some(1), "max_count=0 必须钳制到至少 1");
    assert_eq!(history_keep_limit(20), Some(20));
    assert_eq!(history_keep_limit(UNLIMITED_HISTORY), None);
    assert_eq!(history_keep_limit(UNLIMITED_HISTORY + 5), None);
}

#[test]
fn update_clipboard_item_writes_null_html_when_none() {
    let plan = plan_content_update("old", &Some("<b>old</b>".to_string()), "old", &None);
    assert_eq!(plan.html_content, None, "html_content=None 时必须写 NULL");
    assert!(!plan.clear_raw_formats);
    let plan = plan_content_update("old", &None, "old", &Some("<i>x</i>".to_string()));
    assert_eq!(plan.html_content, Some("<i>x</i>".to_string()));
}

#[test]
fn upsert_existing_query_has_null_uuid_fallback() {
    assert!(row_matches_record_key(42, &None, "42"), "uuid 为 NULL 的行按 id 匹配");
    assert!(row_matches_record_key(42, &Some(String::new()), "42"), "uuid 为空串的行按 id 匹配");
    assert!(row_matches_record_key(42, &Some("abc".to_string()), "abc"));
    assert!(!row_matches_record_key(42, &Some("abc".to_string()), "42"), "有 uuid 的行不按 id 匹配");
    assert!(!row_matches_record_key(-7, &None, "7"));
    assert!(row_matches_record_key(-7, &None, "-7"));
}

fn cloud_record(uuid: &str, updated_at: i64, content: &str) -> CloudRecord {
    CloudRecord {
        uuid: uuid.to_string(),
        source_device_id: "peer".to_string(),
        is_remote: true,
        content: content.to_string(),
        html_content: None,
        content_type: "text".to_string(),
        image_id: None,
        source_app: None,
        source_icon_hash: None,
        char_count: None,
        title: String::new(),
        group_name: "全部".to_string(),
        item_order: 0,
        paste_count: 0,
        created_at: 1,
        updated_at,
    }
}

fn stored_row(updated_at: i64, content: &str) -> StoredHistoryRow {
    StoredHistoryRow {
        source_device_id: "peer".to_string(),
        updated_at,
        content: content.to_string(),
        html_content: None,
        content_type: "text".to_string(),
        image_id: None,
        item_order: 0,
        paste_count: 0,
        source_app: None,
        source_icon_hash: None,
        char_count: None,
        created_at: 1,
    }
}

#[test]
fn upsert_update_where_covers_null_uuid_rows() {
    assert!(row_matches_record_key(9, &Some(String::new()), "9"));
    let record = cloud_record("9", 200, "new");
    let action = decide_history_upsert(&record, &Some(stored_row(100, "old")), None, false, 0);
    assert_eq!(action, HistoryUpsertAction::Update { updated_at: 200, clear_tombstone: false });
}

#[test]
fn history_upsert_follows_last_writer_wins() {
    let record = cloud_record("u", 100, "x");
    assert_eq!(decide_history_upsert(&cloud_record(" ", 100, "x"), &None, None, false, 0), HistoryUpsertAction::Skip);
    assert_eq!(decide_history_upsert(&record, &None, Some(100), false, 0), HistoryUpsertAction::Skip);
    assert_eq!(
        decide_history_upsert(&record, &None, Some(50), false, 0),
        HistoryUpsertAction::Insert { updated_at: 100, clear_tombstone: true }
    );
    assert_eq!(
        decide_history_upsert(&record, &Some(stored_row(150, "y")), None, false, 0),
        HistoryUpsertAction::KeepExisting { clear_tombstone: false }
    );
    assert_eq!(
        decide_history_upsert(&record, &None, Some(500), true, 600),
        HistoryUpsertAction::Insert { updated_at: 600, clear_tombstone: true }
    );
}

#[test]
fn update_clipboard_item_maps_no_rows_to_friendly_message() {
    assert_eq!(content_update_error(7, "Query returned no rows"), "剪贴板项不存在: 7");
    assert_eq!(content_update_error(7, "disk I/O error"), "disk I/O error");
    assert_eq!(content_update_error(7, "QueryReturnedNoRows"), "QueryReturnedNoRows");
}

#[test]
fn limit_clipboard_history_writes_tombstones_for_deleted() {
    assert_eq!(tombstone_id(5, &None), "5");
    assert_eq!(tombstone_id(5, &Some("uuid-5".to_string())), "uuid-5");
}

#[test]
fn delete_clipboard_item_wraps_tombstone_and_delete_in_tx() {
    assert_eq!(tombstone_id(12, &Some("   ".to_string())), "12", "空白 uuid 的墓碑按 id 写");
    assert_eq!(tombstone_id(-3, &None), "-3");
}

#[test]
fn update_clipboard_item_clears_raw_formats_in_same_transaction() {
    assert!(plan_content_update("a", &None, "b", &None).clear_raw_formats, "内容变化必须清掉旧 raw formats");
    assert!(plan_content_update("a", &None, "a", &Some("<p>a</p>".to_string())).clear_raw_formats);
    assert!(!plan_content_update("a", &Some("<p>a</p>".to_string()), "a", &Some("<p>a</p>".to_string())).clear_raw_formats);
}

#[test]
fn count_query_uses_same_params_as_where_clause() {
    let filter = build_history_filter(&Some("x".to_string()), &Some("text,image".to_string()), &Some("pasted".to_string()));
    assert_eq!(
        filter.where_clause,
        r"WHERE content LIKE ? ESCAPE '\' AND (content_type LIKE ? ESCAPE '\' OR content_type LIKE ? ESCAPE '\') AND paste_count > 0"
    );
    assert_eq!(filter.params, vec!["%x%".to_string(), "%text%".to_string(), "%image%".to_string()]);
    assert!(filter.has_filter);
    assert_eq!(filter.count_query(), format!("SELECT COUNT(*) FROM clipboard {}", filter.where_clause));

    let none = build_history_filter(&None, &Some("all".to_string()), &Some("pasted,unpasted".to_string()));
    assert_eq!(none.where_clause, "");
    assert!(none.params.is_empty());
    assert_eq!(none.count_query(), "SELECT COUNT(*) FROM clipboard ");
}

#[test]
fn unfiltered_count_query_has_no_where() {
    let none = build_history_filter(&None, &None, &None);
    assert!(!none.has_filter);
    assert_eq!(none.count_query(), "SELECT COUNT(*) FROM clipboard");
}

#[test]
fn image_id_lists_are_split_and_trimmed() {
    assert_eq!(split_image_ids(" a, ,b ,"), vec!["a".to_string(), "b".to_string()]);
    assert!(split_image_ids("").is_empty());
}

#[test]
fn item_position_and_pin_changes() {
    assert_eq!(get_clipboard_item_position(&vec![5, 3, 9], 9), Some(2));
    assert_eq!(get_clipboard_item_position(&vec![5, 3, 9], 4), None);
    assert_eq!(toggle_pin_change(0, 7, 3), (true, 8));
    assert_eq!(toggle_pin_change(1, 7, 3), (false, 4));
}

#[test]
fn moving_an_item_renumbers_its_section() {
    let items = vec![(10, 3), (11, 2), (12, 1)];
    assert_eq!(plan_move_clipboard_item(10, 12, 0, 0, &items), Ok(vec![(11, 3), (12, 2), (10, 1)]));
    assert_eq!(plan_move_clipboard_item(12, 10, 0, 0, &items), Ok(vec![(10, 2), (11, 1), (12, 3)]));
    assert_eq!(plan_move_clipboard_item(10, 99, 0, 0, &items), Err(99));
    assert_eq!(plan_move_clipboard_item(10, 12, 1, 0, &items), Ok(Vec::new()));
}

#[test]
fn sync_signature_lists_count_and_latest_change() {
    let sig = webdav_local_sync_parts_signature((3, 100), (0, 0), (2, -5), (1, 7));
    assert_eq!(sig.clipboard, "3:100");
    assert_eq!(sig.favorites, "0:0");
    assert_eq!(sig.groups, "2:-5");
    assert_eq!(sig.tombstones, "1:7");
}

#[test]
fn since_filters_are_inclusive_of_local_max() {
    let records = vec![cloud_record("a", 5, "a"), cloud_record("b", 10, "b"), cloud_record("c", 15, "c")];
    let batch = list_history_records_since(records.clone(), &vec![], Some(10));
    assert_eq!(batch.collection, "history");
    let kept: Vec<i64> = batch.records.iter().map(|r| r.updated_at).collect();
    assert_eq!(kept, vec![10, 15], "同秒记录必须被包含");
    let fav = list_favorite_records_since(records.clone(), &vec![], Some(16));
    assert_eq!(fav.collection, "favorites");
    assert!(fav.records.is_empty());
    assert_eq!(list_history_records_since(records, &vec![], None).records.len(), 3);
}

#[test]
fn only_whitelisted_image_ids_are_deleted() {
    let ids = vec!["abc".to_string(), "../../etc".to_string(), "d_1".to_string()];
    assert_eq!(
        quickclipboard::database::image_files_to_delete("D:\\data", &ids),
        vec!["D:\\data\\clipboard_images\\abc.png".to_string(), "D:\\data\\clipboard_images\\d_1.png".to_string()]
    );
}

#[test]
fn batch_deletion_handles_each_identifier_once() {
    assert_eq!(unique_item_ids(&vec![3, 1, 3, 2, 1]), vec![3, 1, 2]);
    assert_eq!(unique_item_ids(&vec![]), Vec::<i64>::new());
}

#[test]
fn peers_are_not_sent_records_their_tombstones_delete() {
    let records = vec![cloud_record("a", 5, "a"), cloud_record("b", 10, "b"), cloud_record("c", 15, "c")];
    let tombstones = vec![("b".to_string(), 10), ("c".to_string(), 12)];
    let batch = list_history_records_since(records.clone(), &tombstones, Some(5));
    let kept: Vec<&str> = batch.records.iter().map(|r| r.uuid.as_str()).collect();
    assert_eq!(kept, vec!["a", "c"], "墓碑不早于记录时该记录不发送；记录更新晚于墓碑则仍发送");
    let fav = list_favorite_records_since(records, &vec![("a".to_string(), 99)], None);
    assert_eq!(fav.records.len(), 2);

    let group = |name: &str, updated_at: i64| CloudGroup {
        name: name.to_string(),
        icon: "ti ti-folder".to_string(),
        color: "#dc2626".to_string(),
        order: 0,
        source_device_id: "me".to_string(),
        created_at: 1,
        updated_at,
    };
    let groups = list_groups(vec![group("工作", 3), group("旧", 3)], &vec![("旧".to_string(), 4)]);
    let names: Vec<&str> = groups.groups.iter().map(|g| g.name.as_str()).collect();
    assert_eq!(names, vec!["工作"]);
}

fn empty_report() -> SyncReport {
    SyncReport {
        pushed: 0,
        pulled: 0,
        errors: vec![],
        pushed_clipboard: 0,
        pushed_favorites: 0,
        pushed_groups: 0,
        pulled_clipboard: 0,
        pulled_favorites: 0,
        pulled_groups: 0,
        pushed_items: vec![],
        pulled_items: vec![],
    }
}

#[test]
fn pushes_are_counted_and_listed_per_collection() {
    let mut report = empty_report();
    record_pushed_history(&mut report, &vec![cloud_record("a", 5, "hello"), cloud_record("b", 6, "x")]);
    record_pushed_favorites(&mut report, &vec![cloud_record("f", 7, "fav")]);
    let g = CloudGroup {
        name: "工作".to_string(),
        icon: String::new(),
        color: String::new(),
        order: 0,
        source_device_id: "me".to_string(),
        created_at: 1,
        updated_at: 9,
    };
    record_pushed_groups(&mut report, &vec![g]);
    assert_eq!((report.pushed, report.pushed_clipboard, report.pushed_favorites, report.pushed_groups), (4, 2, 1, 1));
    let cats: Vec<&str> = report.pushed_items.iter().map(|i| i.category.as_str()).collect();
    assert_eq!(cats, vec!["clipboard", "clipboard", "favorites", "groups"]);
    assert_eq!(report.pushed_items[3].id, "工作");
    assert_eq!(report.pushed_items[3].summary, "工作");
    assert!(report.pulled_items.is_empty());
    assert!(!should_push_images_from_metas(false, report.pushed));
    assert!(should_push_images_from_metas(false, 0));
    assert!(!should_push_images_from_metas(true, 0));
}

#[test]
fn a_synced_batch_reports_the_written_records_in_order_with_sanitised_files() {
    let mut file = cloud_record("f", 20, "files:{\"files\":[{\"path\":\"C:\\\\x.png\"}]}");
    file.content_type = "file".to_string();
    assert!(needs_files_sanitizing("image"));
    assert!(!needs_files_sanitizing("text"));
    let prepared = prepare_synced_record(&file, Some("files:{\"files\":[]}".to_string()));
    assert_eq!(prepared.content, "files:{\"files\":[]}");
    let text = prepare_synced_record(&cloud_record("t", 5, "hi"), Some("ignored".to_string()));
    assert_eq!(text.content, "hi");

    let mut run = HistoryUpsertRun::new();
    assert_eq!(run.step(&prepared, &None, None, false, 0), HistoryUpsertAction::Insert { updated_at: 20, clear_tombstone: false });
    assert_eq!(run.step(&cloud_record("", 9, "no key"), &None, None, false, 0), HistoryUpsertAction::Skip);
    assert_eq!(run.step(&cloud_record("old", 9, "x"), &Some(stored_row(10, "x")), None, false, 0), HistoryUpsertAction::KeepExisting { clear_tombstone: false });
    assert_eq!(run.step(&text, &Some(stored_row(1, "old")), None, false, 0), HistoryUpsertAction::Update { updated_at: 5, clear_tombstone: false });
    let changed = run.finish();
    let ids: Vec<&str> = changed.iter().map(|r| r.uuid.as_str()).collect();
    assert_eq!(ids, vec!["f", "t"]);
    assert_eq!(changed[0].content, "files:{\"files\":[]}");
    assert!(HistoryUpsertRun::new().finish().is_empty());
}
