use quickclipboard::clipboard_content::{
    clipboard_write_plan, is_image_file, parse_files_content_existing, require_file_paths, ClipboardWritePlan,
};
use quickclipboard::device_identity::{device_id, DeviceIdentity, DEVICE_ID_KEY, LEGACY_SYNC_TRANSFER_LAN_DEVICE_ID_KEY};
use quickclipboard::events::{drain, post, set_repaint_hook, AppEvent, EventBus};
use quickclipboard::hashing::calculate_icon_hash;
use quickclipboard::image_id::is_valid_image_id;
use quickclipboard::keyboard::{parse_shortcut_key_vk, set_trigger_key_from_shortcut, take_trigger_key, TriggerKey};
use quickclipboard::models::{FavoritesQueryParams, PaginatedResult, QueryParams};
use quickclipboard::store::{delete, get, has, KvStore};
use quickclipboard::webdav_types::{CloudRecord, SyncCollection};

#[test]
fn events_round_trip_in_order() {
    let mut bus = EventBus::new();
    post(&mut bus, AppEvent::PasteCountUpdated(1));
    post(&mut bus, AppEvent::FavoritePasteCountUpdated("fav".into()));
    let drained = drain(&mut bus);
    assert!(drained.len() >= 2, "投递的事件必须能被排空");
    let p1 = drained
        .iter()
        .position(|e| matches!(e, AppEvent::PasteCountUpdated(1)))
        .expect("必须能找到 PasteCountUpdated(1)");
    let fav = drained
        .iter()
        .position(|e| matches!(e, AppEvent::FavoritePasteCountUpdated(_)))
        .expect("必须能找到 FavoritePasteCountUpdated");
    assert!(p1 < fav, "FIFO:先投递的 PasteCountUpdated(1) 必须先被排空");
}

#[test]
fn drain_empties_queue() {
    let mut bus = EventBus::new();
    post(&mut bus, AppEvent::TrayMenuRefresh);
    let _ = drain(&mut bus);
    assert!(drain(&mut bus).is_empty(), "排空后再次 drain 必须为空");
}

#[test]
fn post_asks_for_repaint_only_with_hook() {
    let mut bus = EventBus::new();
    assert!(!post(&mut bus, AppEvent::TrayMenuRefresh));
    set_repaint_hook(&mut bus);
    assert!(post(&mut bus, AppEvent::PasteCountUpdated(7)));
    let drained = drain(&mut bus);
    assert_eq!(drained.len(), 2);
    assert!(matches!(drained[0], AppEvent::TrayMenuRefresh));
    assert!(matches!(drained[1], AppEvent::PasteCountUpdated(7)));
}

#[test]
fn paginated_has_more_is_true_only_when_more_pages_exist() {
    let r = PaginatedResult::new(5, vec![1i32, 2, 3], 0, 3);
    assert!(r.has_more);
    let r = PaginatedResult::new(5, vec![4i32, 5], 3, 3);
    assert!(!r.has_more, "末页必须 has_more=false");
    let r = PaginatedResult::new(0, Vec::<i32>::new(), 0, 50);
    assert!(!r.has_more);
}

#[test]
fn paginated_result_passthrough_fields() {
    let r = PaginatedResult::new(100, vec!["a".to_string()], 0, 10);
    assert_eq!(r.total_count, 100);
    assert_eq!(r.offset, 0);
    assert_eq!(r.limit, 10);
    assert_eq!(r.items.len(), 1);
}

#[test]
fn query_params_defaults_to_first_page_50() {
    let p = QueryParams::default();
    assert_eq!(p.offset, 0);
    assert_eq!(p.limit, 50);
    assert!(p.search.is_none());
    assert!(p.content_type.is_none());
    assert!(p.paste_status.is_none());
}

#[test]
fn favorites_query_params_defaults_to_all_groups_first_page() {
    let p = FavoritesQueryParams::default();
    assert_eq!(p.offset, 0);
    assert_eq!(p.limit, 50);
    assert!(p.group_name.is_none());
    assert!(p.search.is_none());
    assert!(p.content_type.is_none());
}

#[test]
fn parse_files_content_existing_filters_missing_paths() {
    let paths = vec!["clipboard_images/__missing_path__.png".to_string()];
    assert!(parse_files_content_existing(&paths, &vec![false]).is_err(), "路径不存在应返回错误");
}

#[test]
fn parse_files_content_existing_keeps_existing_paths_in_order() {
    let paths = vec!["a.png".to_string(), "b.png".to_string(), "c.png".to_string()];
    let kept = parse_files_content_existing(&paths, &vec![true, false, true]).unwrap();
    assert_eq!(kept, vec!["a.png".to_string(), "c.png".to_string()]);
    assert_eq!(
        parse_files_content_existing(&paths, &vec![false, false, false]),
        Err("所有文件都不存在".to_string())
    );
}

#[test]
fn set_clipboard_from_item_dispatch_requires_files_content_for_image() {
    let plan = clipboard_write_plan("image", r#"files:{"files":[]}"#, &None);
    assert_eq!(plan, ClipboardWritePlan::Files);
    match require_file_paths(Vec::new()) {
        Err(message) => {
            assert!(
                message.contains("无法解析文件内容"),
                "image 类型 + 空文件列表应报无法解析,实际: {}",
                message
            );
        }
        Ok(_) => panic!("image 类型 + 空文件列表必须返回错误"),
    }
}

#[test]
fn text_entries_are_written_as_text_with_optional_html() {
    assert_eq!(
        clipboard_write_plan("text", "files:abc", &None),
        ClipboardWritePlan::Text { text: "abc".to_string() }
    );
    assert_eq!(
        clipboard_write_plan("text,html", "hello", &Some("<b>hello</b>".to_string())),
        ClipboardWritePlan::RichText { text: "hello".to_string(), html: "<b>hello</b>".to_string() }
    );
    assert_eq!(clipboard_write_plan("file", "files:{}", &None), ClipboardWritePlan::Files);
}

#[test]
fn single_uppercase_letter_maps_to_vk() {
    assert_eq!(parse_shortcut_key_vk("Ctrl+A"), Some(0x41), "Ctrl+A 应解析为 VK_A");
    assert_eq!(parse_shortcut_key_vk("A"), Some(0x41));
    assert_eq!(parse_shortcut_key_vk("Ctrl+Shift+V"), Some(0x56), "多段修饰键取最后一段");
}

#[test]
fn lowercase_letter_is_not_accepted() {
    assert_eq!(parse_shortcut_key_vk("Ctrl+v"), None);
}

#[test]
fn digit_maps_to_vk() {
    assert_eq!(parse_shortcut_key_vk("Ctrl+0"), Some(0x30));
    assert_eq!(parse_shortcut_key_vk("9"), Some(0x39));
}

#[test]
fn named_keys_map_to_vk() {
    assert_eq!(parse_shortcut_key_vk("Shift+Insert"), Some(0x2D), "INSERT 应为 VK_INSERT");
    assert_eq!(parse_shortcut_key_vk("F1"), Some(0x70), "F1 应为 VK_F1");
    assert_eq!(parse_shortcut_key_vk("F12"), Some(0x7B));
    assert_eq!(parse_shortcut_key_vk("F13"), Some(0x7C), "F13 是合法功能键");
    assert_eq!(parse_shortcut_key_vk("F24"), Some(0x87), "F24 是合法功能键上限");
}

#[test]
fn out_of_range_and_unknown_keys_are_rejected() {
    assert_eq!(parse_shortcut_key_vk("F25"), None, "F25 超出功能键范围");
    assert_eq!(parse_shortcut_key_vk("Esc"), None, "Esc 未纳入命名键映射");
    assert_eq!(parse_shortcut_key_vk("Ctrl+"), None, "空尾段应拒绝");
    assert_eq!(parse_shortcut_key_vk(""), None, "空串应拒绝");
    assert_eq!(parse_shortcut_key_vk("INSERT+F1"), Some(0x70), "多段时取最后一段 F1");
    assert_eq!(parse_shortcut_key_vk("F"), Some(0x46), "单字符按字母映射");
}

#[test]
fn trigger_key_setter_writes_only_on_valid_shortcut() {
    let mut state = TriggerKey::new();
    take_trigger_key(&mut state);
    assert_eq!(take_trigger_key(&mut state), None, "入参前不应有触发键残留");

    set_trigger_key_from_shortcut(&mut state, "Ctrl+V");
    assert_eq!(take_trigger_key(&mut state), Some(0x56), "合法快捷键应写入触发键");

    set_trigger_key_from_shortcut(&mut state, "空格键");
    assert_eq!(take_trigger_key(&mut state), None, "非法快捷键不得写入触发键");
}

#[test]
fn set_get_delete_round_trip() {
    let mut store = KvStore::new();
    quickclipboard::store::set(&mut store, "__test_key", "\"hello\"".to_string());
    assert!(has(&store, "__test_key"));
    let value: Option<String> = get(&store, "__test_key");
    assert_eq!(value.as_deref(), Some("\"hello\""));
    delete(&mut store, "__test_key");
    assert!(!has(&store, "__test_key"));
}

#[test]
fn get_missing_key_returns_none() {
    let store = KvStore::new();
    let value: Option<String> = get(&store, "__definitely_missing_key");
    assert!(value.is_none());
}

#[test]
fn store_set_replaces_previous_value() {
    let mut store = KvStore::new();
    quickclipboard::store::set(&mut store, "k", "1".to_string());
    quickclipboard::store::set(&mut store, "k", "2".to_string());
    assert_eq!(get(&store, "k").as_deref(), Some("2"));
    assert_eq!(quickclipboard::store::keys(&store).len(), 1);
}

#[test]
fn device_id_is_stable_uuid_within_process() {
    let mut identity = DeviceIdentity::new();
    let mut store = KvStore::new();
    let first = device_id(&mut identity, &mut store);
    let second = device_id(&mut identity, &mut store);
    assert_eq!(first, second, "进程内 device_id 必须稳定");
    assert_eq!(first.len(), 36, "UUID v4 字符串长度应为 36");
    assert_eq!(first.chars().filter(|c| *c == '-').count(), 4, "UUID 应含 4 个连字符");
    assert!(first.chars().all(|c| c.is_ascii_alphanumeric() || c == '-'), "UUID 应仅含字母数字与连字符");
}

#[test]
fn device_id_is_read_back_from_the_store() {
    let mut store = KvStore::new();
    quickclipboard::store::set(&mut store, DEVICE_ID_KEY, "\"  stored-id  \"".to_string());
    let mut identity = DeviceIdentity::new();
    assert_eq!(device_id(&mut identity, &mut store), "stored-id");

    let mut fresh = DeviceIdentity::new();
    let mut first_run = KvStore::new();
    let created = device_id(&mut fresh, &mut first_run);
    let mut later = DeviceIdentity::new();
    assert_eq!(device_id(&mut later, &mut first_run), created, "新生成的 id 必须写回存储");
}

#[test]
fn device_id_migrates_legacy_key() {
    let mut store = KvStore::new();
    quickclipboard::store::set(&mut store, LEGACY_SYNC_TRANSFER_LAN_DEVICE_ID_KEY, "\"legacy\"".to_string());
    let mut identity = DeviceIdentity::new();
    assert_eq!(device_id(&mut identity, &mut store), "legacy");
    assert_eq!(get(&store, DEVICE_ID_KEY).as_deref(), Some("\"legacy\""));
}

#[test]
fn valid_ids_are_accepted() {
    for id in ["a", "A1", "image_01", "img-123", "aBc-9_"] {
        assert!(is_valid_image_id(id), "合法 id 被拒绝: {}", id);
    }
}

#[test]
fn path_traversal_and_special_chars_are_rejected() {
    for id in ["", "../", "..", "..\\..", "a/b", "a\\b", "a:b", "a b", "a%2fb", "..hidden", "a/../b"] {
        assert!(!is_valid_image_id(id), "非法 id 被放行: {:?}", id);
    }
}

#[test]
fn length_limit_is_128() {
    let ok = "a".repeat(128);
    assert!(is_valid_image_id(&ok));
    let too_long = "a".repeat(129);
    assert!(!is_valid_image_id(&too_long));
}

fn record(uuid: &str, content: &str, title: &str) -> CloudRecord {
    CloudRecord {
        uuid: uuid.to_string(),
        source_device_id: "d1".to_string(),
        is_remote: false,
        content: content.to_string(),
        html_content: None,
        content_type: "text".to_string(),
        image_id: None,
        source_app: None,
        source_icon_hash: None,
        char_count: None,
        title: title.to_string(),
        group_name: "全部".to_string(),
        item_order: 0,
        paste_count: 0,
        created_at: 0,
        updated_at: 0,
    }
}

#[test]
fn report_summary_prefers_title_then_content_with_ellipsis() {
    let record = record("u1", "很长很长很长很长很长很长很长很长很长很长很长很长的内容", "短标题");
    let item = record.report_item("clipboard");
    assert_eq!(item.category, "clipboard");
    assert_eq!(item.id, "u1");
    assert_eq!(item.summary, "短标题", "标题非空必须优先取标题");

    let mut no_title = record;
    no_title.title = String::new();
    let item = no_title.report_item("favorites");
    assert!(item.summary.chars().next().unwrap() != '短', "标题空时摘要取内容");
    assert!(item.summary.chars().count() <= 41, "超长内容摘要必须截断到 40 字符 + 省略号");
    assert!(item.summary.ends_with('…'), "截断后必须带省略号");
}

#[test]
fn report_summary_keeps_short_content_without_ellipsis() {
    let record = record("u2", "短内容", "");
    let item = record.report_item("clipboard");
    assert_eq!(item.summary, "短内容", "40 字符内内容不截断不加省略号");
}

#[test]
fn report_summary_keeps_forty_bytes_of_text() {
    let long: String = "x".repeat(45);
    let item = record("u3", &long, "").report_item("clipboard");
    assert_eq!(item.summary, format!("{}…", "x".repeat(40)));
    let exact: String = "y".repeat(40);
    let item = record("u4", &exact, "").report_item("clipboard");
    assert_eq!(item.summary, exact);
    let wide: String = "很".repeat(14);
    let item = record("u5", &wide, "").report_item("clipboard");
    assert_eq!(item.summary, format!("{}…", "很".repeat(13)));
}

#[test]
fn sync_collection_dir_mapping_is_stable() {
    assert_eq!(SyncCollection::History.dir(), "history");
    assert_eq!(SyncCollection::Favorites.dir(), "favorites");
}

#[test]
fn icon_hash_is_stable_and_16_hex_chars() {
    let data = b"icon-bytes";
    let h1 = calculate_icon_hash(data);
    let h2 = calculate_icon_hash(data);
    assert_eq!(h1, h2, "同一图标数据哈希必须稳定");
    assert_eq!(h1.len(), 16, "哈希取前 16 位十六进制");
    assert!(h1.chars().all(|c| c.is_ascii_hexdigit()), "必须是十六进制字符");
}

#[test]
fn icon_hash_differs_for_different_data() {
    let h1 = calculate_icon_hash(b"first");
    let h2 = calculate_icon_hash(b"second");
    assert_ne!(h1, h2, "不同图标数据必须生成不同哈希");
}

#[test]
fn icon_hash_handles_empty_data() {
    let h = calculate_icon_hash(b"");
    assert_eq!(h.len(), 16);
    assert_eq!(h, "e3b0c44298fc1c14");
}

#[test]
fn is_image_file_covers_common_extensions_case_insensitive() {
    for path in ["a.PNG", "b.jpg", "c.JPEG", "d.gif", "e.BMP", "f.webp", "g.png"] {
        assert!(is_image_file(path), "{} 应为图片", path);
    }
    for path in ["a.txt", "b.pdf", "c.exe", "d.pngx"] {
        assert!(!is_image_file(path), "{} 不应为图片", path);
    }
}

#[test]
fn migrated_device_id_is_written_as_an_escaped_json_literal() {
    let mut store = KvStore::new();
    quickclipboard::store::set(&mut store, LEGACY_SYNC_TRANSFER_LAN_DEVICE_ID_KEY, "\"a\\\"b\\u0001\"".to_string());
    let mut identity = DeviceIdentity::new();
    assert_eq!(device_id(&mut identity, &mut store), "a\"b\u{1}");
    assert_eq!(get(&store, DEVICE_ID_KEY).as_deref(), Some("\"a\\\"b\\u0001\""));
}
