use quickclipboard::app_filter::{get_clipboard_source, source_process_name, ClipboardSourceInfo, ClipboardSourceType};
use quickclipboard::data_management::{
    check_storage_change, is_backup_file_name, parse_import_mode, paths_equal, safe_zip_entry_name, ImportMode,
};
use quickclipboard::lan_files::{
    is_partial_file_name, received_file_name,
    file_name_from_transfer_path, image_id_from_file_path, is_received_file_internal, path_file_name,
    percent_decode_bytes, received_files_dir,
};
use quickclipboard::models::{ClipboardDataItem, ClipboardItem};
use quickclipboard::monitor::{
    handle_clipboard_change, pause_clipboard_monitor_for, release_pause_guard, should_schedule_deferred_capture,
    start_clipboard_monitor, ChangeOutcome, MonitorState,
};
use quickclipboard::paste::{
    append_unique_payload, build_all_formats_payload, build_file_payload, build_html_payload, build_plain_text_payload,
    build_rtf_payload, cached_image_path, find_preferred_text_row, image_cache_path, item_content_update_sql,
    item_image_id, legacy_image_id, needs_legacy_conversion, plan_clipboard_write, resolve_copy_action,
    resolve_item_image_path, resolve_paste_action, text_row_to_string, ClipboardWrite, PasteAction, PayloadEntry,
};
use quickclipboard::paths::{contains_parent_segments, resolve_stored_path};

fn item(content_type: &str, content: &str, html: Option<&str>, image_id: Option<&str>) -> ClipboardItem {
    ClipboardItem {
        id: 1,
        uuid: None,
        favorite_id: None,
        source_device_id: None,
        is_remote: false,
        content: content.to_string(),
        html_content: html.map(|h| h.to_string()),
        content_type: content_type.to_string(),
        image_id: image_id.map(|i| i.to_string()),
        item_order: 0,
        is_pinned: false,
        paste_count: 0,
        source_app: None,
        source_icon_hash: None,
        char_count: None,
        created_at: 0,
        updated_at: 0,
    }
}

fn row(name: &str, raw: &[u8], primary: bool) -> ClipboardDataItem {
    ClipboardDataItem {
        id: 0,
        target_kind: "clipboard".to_string(),
        target_id: "1".to_string(),
        format_name: name.to_string(),
        raw_data: raw.to_vec(),
        is_primary: primary,
        format_order: 0,
        created_at: 0,
        updated_at: 0,
    }
}

fn utf16le(s: &str) -> Vec<u8> {
    s.encode_utf16().flat_map(|u| u.to_le_bytes()).collect()
}

fn texts_of(payload: &[PayloadEntry]) -> Vec<String> {
    payload
        .iter()
        .map(|e| match e {
            PayloadEntry::Text(t) => format!("text:{t}"),
            PayloadEntry::Html(t) => format!("html:{t}"),
            PayloadEntry::Rtf(t) => format!("rtf:{t}"),
            PayloadEntry::Files(p) => format!("files:{}", p.join("|")),
            PayloadEntry::Other(n, b) => format!("other:{n}:{}", b.len()),
        })
        .collect()
}

#[test]
fn image_id_whitelist_covers_image_path_readers() {
    let evil = item("image", "image:../../evil", Some(""), Some("../../evil"));
    assert_eq!(
        item_image_id(&evil.image_id),
        Err("图片 ID 不合法,已拒绝访问: ../../evil".to_string()),
        "resolve_item_image_path 必须白名单校验 image_id"
    );
    assert_eq!(
        legacy_image_id(&evil),
        Err("图片 ID 不合法,已拒绝访问: ../../evil".to_string()),
        "convert_legacy_image_format 必须白名单校验 image_id"
    );
    assert_eq!(
        cached_image_path(&evil, &Ok("D:\\data".to_string()), true),
        Err("图片 ID 不合法,已拒绝访问: ../../evil".to_string())
    );
    assert_eq!(image_cache_path("D:\\data", "abc"), "D:\\data\\clipboard_images\\abc.png");
}

#[test]
fn plain_text_payload_uses_text_variant_for_preferred_text_row() {
    let entry = item("text", "fallback", None, None);
    let rows = vec![row("HTML Format", b"<b>hi</b>", false), row("CF_UNICODETEXT", &utf16le("你好 hi"), true)];
    let plain = build_plain_text_payload(&entry, &rows).unwrap();
    assert_eq!(texts_of(&plain), vec!["text:你好 hi".to_string()], "纯文本路径必须推 Text 形态");
    assert!(!plain.iter().any(|e| matches!(e, PayloadEntry::Other(..))), "纯文本路径不得再用 Other 包装文本格式");

    let all = build_all_formats_payload(&entry, &rows, &Err("unused".to_string())).unwrap();
    assert_eq!(
        texts_of(&all),
        vec!["other:HTML Format:9".to_string(), "text:你好 hi".to_string()],
        "多格式路径的文本行必须解码进 Text 形态"
    );

    let ansi = vec![row("CF_TEXT", b"plain", false)];
    assert_eq!(text_row_to_string(&ansi[0]), "plain", "CF_TEXT 按字节保底解码");
    assert_eq!(text_row_to_string(&row("CF_UNICODETEXT", &utf16le("ab"), false)), "ab", "CF_UNICODETEXT 按 UTF-16 解码");
}

#[test]
fn clipboard_update_keeps_created_at_unchanged() {
    let clip = item_content_update_sql(Some(3), &None).unwrap();
    assert_eq!(clip, "UPDATE clipboard SET content = ?, updated_at = ? WHERE id = ?");
    assert!(!clip.contains("created_at = ?"), "clipboard 分支更新不得触碰 created_at");
    let fav = item_content_update_sql(None, &Some("f".to_string())).unwrap();
    assert_eq!(fav, "UPDATE favorites SET content = ?, updated_at = ? WHERE id = ?");
    assert_eq!(item_content_update_sql(None, &None), None);
}

#[test]
fn preferred_text_row_prefers_primary_then_unicode() {
    let rows = vec![row("CF_TEXT", b"a", false), row("CF_UNICODETEXT", &utf16le("b"), false), row("CF_TEXT", b"c", true)];
    assert_eq!(find_preferred_text_row(&rows), Some(2));
    let rows = vec![row("CF_TEXT", b"a", false), row("CF_UNICODETEXT", &utf16le("b"), false)];
    assert_eq!(find_preferred_text_row(&rows), Some(1));
    let rows = vec![row("HTML Format", b"x", true)];
    assert_eq!(find_preferred_text_row(&rows), None);
}

#[test]
fn plain_text_of_file_list_or_blank_entry_is_refused() {
    let files = item("file", "files:{}", None, None);
    assert_eq!(build_plain_text_payload(&files, &[]).err().unwrap(), "当前条目没有可用的纯文本内容");
    let blank = item("text", "   ", None, None);
    assert!(build_plain_text_payload(&blank, &[]).is_err());
}

#[test]
fn html_and_rtf_payloads_add_their_format_after_the_text() {
    let entry = item("text", "hi", Some("<b>hi</b>"), None);
    assert_eq!(texts_of(&build_html_payload(&entry, &[]).unwrap()), vec!["text:hi", "html:<b>hi</b>"]);
    let rows = vec![row("Rich Text Format", b"{\\rtf1}", false)];
    assert_eq!(texts_of(&build_rtf_payload(&entry, &rows).unwrap()), vec!["text:hi", "other:Rich Text Format:7"]);
    let bare = item("text", "files:x", None, None);
    assert_eq!(build_html_payload(&bare, &[]).err().unwrap(), "当前条目没有可用的 HTML 内容");
    assert_eq!(build_rtf_payload(&bare, &[]).err().unwrap(), "当前条目没有可用的 RTF 内容");
}

#[test]
fn all_formats_adds_image_file_once_and_skips_internal_row() {
    let entry = item("text,image", "caption", None, Some("abc"));
    let rows = vec![row("__QC_IMAGE_PNG_PATH__", b"clipboard_images/abc.png", false), row("PNG", b"1234", false)];
    let files = Ok(vec![PayloadEntry::Files(vec!["D:\\img.png".to_string()])]);
    let payload = build_all_formats_payload(&entry, &rows, &files).unwrap();
    assert_eq!(texts_of(&payload), vec!["other:PNG:4", "text:caption", "files:D:\\img.png"]);
    let failed = build_all_formats_payload(&entry, &rows, &Err("图片文件不存在: x".to_string()));
    assert_eq!(failed.err().unwrap(), "图片文件不存在: x");
}

#[test]
fn legacy_payload_without_rows_uses_text_and_html() {
    let entry = item("text", "hello", Some("<i>hello</i>"), None);
    let payload = build_all_formats_payload(&entry, &[], &Err("unused".to_string())).unwrap();
    assert_eq!(texts_of(&payload), vec!["text:hello", "html:<i>hello</i>"]);
    let empty = item("text", "  ", None, None);
    assert_eq!(build_all_formats_payload(&empty, &[], &Err("x".to_string())).err().unwrap(), "没有可写入剪贴板的数据");
}

#[test]
fn append_unique_payload_keeps_one_format_of_each_kind() {
    let mut payload = vec![PayloadEntry::Text("a".to_string()), PayloadEntry::Other("PNG".to_string(), vec![1])];
    append_unique_payload(
        &mut payload,
        vec![
            PayloadEntry::Text("b".to_string()),
            PayloadEntry::Other("PNG".to_string(), vec![2]),
            PayloadEntry::Other("GIF".to_string(), vec![3]),
            PayloadEntry::Files(vec!["x".to_string()]),
            PayloadEntry::Files(vec!["y".to_string()]),
        ],
    );
    assert_eq!(texts_of(&payload), vec!["text:a", "other:PNG:1", "other:GIF:1", "files:x"]);
}

#[test]
fn copy_action_follows_entry_type() {
    assert_eq!(resolve_copy_action(&item("image", "x", None, None), &[]), PasteAction::ImageBundle);
    assert_eq!(resolve_copy_action(&item("file,text", "x", None, None), &[]), PasteAction::File);
    assert_eq!(resolve_copy_action(&item("text", "x", None, None), &[row("CF_TEXT", b"x", true)]), PasteAction::AllFormats);
    assert_eq!(resolve_copy_action(&item("text", "x", Some("<b>x</b>"), None), &[]), PasteAction::Html);
    assert_eq!(resolve_copy_action(&item("text", "x", Some("  "), None), &[]), PasteAction::PlainText);
    let entry = item("text", "x", None, None);
    assert_eq!(resolve_paste_action(Some(PasteAction::Rtf), true, PasteAction::PlainText, &entry, &[]), PasteAction::Rtf);
    assert_eq!(resolve_paste_action(None, true, PasteAction::AllFormats, &entry, &[]), PasteAction::AllFormats);
    assert_eq!(resolve_paste_action(None, false, PasteAction::AllFormats, &entry, &[]), PasteAction::PlainText);
}

#[test]
fn clipboard_write_plan_distinguishes_files_and_images() {
    assert_eq!(plan_clipboard_write(PasteAction::PlainText, Vec::new()).err().unwrap(), "没有可写入剪贴板的数据");
    assert!(matches!(
        plan_clipboard_write(PasteAction::ImageBundle, vec![PayloadEntry::Files(vec!["a".to_string()])]),
        Ok(ClipboardWrite::ImageFile)
    ));
    match plan_clipboard_write(PasteAction::File, vec![PayloadEntry::Files(vec!["a".to_string()])]) {
        Ok(ClipboardWrite::Files(p)) => assert_eq!(p, vec!["a".to_string()]),
        other => panic!("lone file list must be written as files: {other:?}"),
    }
    assert!(matches!(
        plan_clipboard_write(PasteAction::PlainText, vec![PayloadEntry::Text("t".to_string())]),
        Ok(ClipboardWrite::Contents(_))
    ));
}

#[test]
fn image_paths_resolve_from_file_list_or_cache() {
    let listed = item("image", "files:{...}", None, Some("abc"));
    assert_eq!(
        resolve_item_image_path(&listed, &Ok(vec!["D:\\a.png".to_string()]), &Err("cache".to_string())),
        Ok("D:\\a.png".to_string())
    );
    let cached = item("image", "image:abc", None, Some(" , abc,def"));
    let path = cached_image_path(&cached, &Ok("D:\\data".to_string()), true);
    assert_eq!(path, Ok("D:\\data\\clipboard_images\\abc.png".to_string()));
    assert_eq!(
        cached_image_path(&cached, &Ok("D:\\data".to_string()), false),
        Err("图片文件不存在: D:\\data\\clipboard_images\\abc.png".to_string())
    );
    assert_eq!(item_image_id(&None), Err("当前条目没有可用的图片缓存".to_string()));
    assert_eq!(
        resolve_item_image_path(&cached, &Err("unused".to_string()), &path),
        Ok("D:\\data\\clipboard_images\\abc.png".to_string())
    );
    let payload = build_file_payload(&cached, &Err("unused".to_string()), &path).unwrap();
    assert_eq!(texts_of(&payload), vec!["files:D:\\data\\clipboard_images\\abc.png"]);
}

#[test]
fn legacy_conversion_applies_to_old_image_entries_only() {
    assert!(needs_legacy_conversion(&item("image", "image:abc", None, None)));
    assert!(!needs_legacy_conversion(&item("image", "files:{}", None, None)));
    assert!(!needs_legacy_conversion(&item("text", "image:abc", None, None)));
    assert_eq!(legacy_image_id(&item("image", "image:abc", None, None)), Ok("abc".to_string()));
    assert_eq!(legacy_image_id(&item("image", "zzz", None, None)), Err("无法获取图片ID".to_string()));
}

#[test]
fn resolve_stored_path_guards_against_parent_traversal() {
    assert_eq!(
        resolve_stored_path("clipboard_images/a.png", Some("D:\\data"), &vec![false]),
        "D:\\data\\clipboard_images\\a.png"
    );
    assert_eq!(resolve_stored_path("clipboard_images/a.png", None, &vec![]), "clipboard_images/a.png");
    assert_eq!(
        resolve_stored_path("E:\\old\\pin_images\\p.png", Some("D:\\data"), &vec![true]),
        "D:\\data\\pin_images\\p.png"
    );
    assert_eq!(resolve_stored_path("E:\\old\\pin_images\\p.png", Some("D:\\data"), &vec![false]), "E:\\old\\pin_images\\p.png");
}

#[test]
fn resolve_stored_path_rejects_parent_segments_before_resolving() {
    assert_eq!(resolve_stored_path("clipboard_images\\..\\..\\evil", Some("D:\\data"), &vec![false]), "");
    assert!(contains_parent_segments("a\\..\\b"));
    assert!(contains_parent_segments("./a"));
    assert!(!contains_parent_segments("file..txt"), "不得误伤 file..txt");
}

#[test]
fn safe_zip_entry_name_allows_normal_relative_paths() {
    for name in [
        "quickclipboard.db",
        "clipboard_images/a1b2c3.png",
        "settings.json",
        "image_library/dir/icon.png",
        "pin_images/a1b2c3.png",
    ] {
        assert_eq!(safe_zip_entry_name(name), Some(name.to_string()), "合法路径被拒: {}", name);
    }
}

#[test]
fn safe_zip_entry_name_rejects_traversal_and_absolute() {
    for name in [
        "../escape.db",
        "a/../../b.png",
        "/etc/passwd",
        "\\windows\\system32\\x",
        "C:\\users\\me\\y.png",
        "C:/users/me/y.png",
        "C:evil.png",
        "\\\\server\\share\\z",
    ] {
        assert_eq!(safe_zip_entry_name(name), None, "危险路径被放行: {:?}", name);
    }
}

#[test]
fn safe_zip_entry_name_rejects_empty() {
    assert_eq!(safe_zip_entry_name(""), None);
}

#[test]
fn import_mode_and_storage_checks() {
    assert_eq!(parse_import_mode("replace"), Ok(ImportMode::Replace));
    assert_eq!(parse_import_mode("merge"), Ok(ImportMode::Merge));
    assert_eq!(parse_import_mode("append"), Err("不支持的导入模式".to_string()));
    assert_eq!(check_storage_change(true, "D:\\x", "D:\\y"), Err("便携版不支持更改存储路径".to_string()));
    assert!(paths_equal("C:\\Data\\", "C:/Data"));
    assert!(!paths_equal("C:\\Data", "C:\\Other"));
    assert!(is_backup_file_name("quickclipboard-backup-20240101.zip"));
    assert!(!is_backup_file_name("other.zip"));
}

#[test]
fn deferred_capture_starts_only_after_last_pause_guard() {
    assert!(should_schedule_deferred_capture(1, true, true));
    assert!(!should_schedule_deferred_capture(2, true, true));
    assert!(!should_schedule_deferred_capture(1, false, true));
    assert!(!should_schedule_deferred_capture(1, true, false));
}

#[test]
fn change_during_pause_is_captured_when_the_guard_is_released() {
    let mut state = MonitorState::new();
    assert!(start_clipboard_monitor(&mut state).is_some());
    let guard = pause_clipboard_monitor_for(&mut state, 1000, 0);
    assert_eq!(handle_clipboard_change(&mut state, 1000, true), ChangeOutcome::DeferredWhilePaused);
    assert!(release_pause_guard(&mut state, guard), "最后一个守卫释放后必须补一次捕获");
    assert_eq!(handle_clipboard_change(&mut state, 2000, false), ChangeOutcome::Filtered);
}

#[test]
fn transfer_file_names_are_sanitized() {
    assert_eq!(file_name_from_transfer_path("/qc-transfer/files/a%20b.txt"), Ok("a b.txt".to_string()));
    assert_eq!(file_name_from_transfer_path("/other/a.txt"), Err("无效的局域网传输路径".to_string()));
    assert_eq!(file_name_from_transfer_path("/qc-transfer/files/.hidden"), Err("文件名无效".to_string()));
    assert_eq!(file_name_from_transfer_path("/qc-transfer/files/con.txt"), Err("文件名无效".to_string()));
    assert_eq!(image_id_from_file_path("/qc-sync/files/abc.png"), Ok("abc".to_string()));
    assert_eq!(image_id_from_file_path("/qc-sync/files/abc.jpg"), Err("仅支持 png 图片文件".to_string()));
    assert_eq!(image_id_from_file_path("/qc-sync/files/a..b.png"), Err("无效的图片 ID".to_string()));
    assert_eq!(percent_decode_bytes(b"a%2Fb+c"), Some(b"a/b+c".to_vec()));
    assert_eq!(percent_decode_bytes(b"%zz"), None);
}

#[test]
fn received_file_paths() {
    assert_eq!(path_file_name("C:\\dir\\f.txt"), Some("f.txt".to_string()));
    assert!(is_received_file_internal("D:\\x\\index.json"));
    assert!(is_received_file_internal("D:\\x\\.tmp"));
    assert!(is_received_file_internal("D:\\x\\a.bin.qcpart"));
    assert!(!is_received_file_internal("D:\\x\\a.bin"));
    assert_eq!(received_files_dir("D:\\data"), "D:\\data\\sync_transfer_files");
}

#[test]
fn clipboard_source_prefers_cached_then_owner() {
    let info = |name: &str, t: ClipboardSourceType| ClipboardSourceInfo {
        process_name: name.to_string(),
        process_path: String::new(),
        window_title: String::new(),
        source_type: t,
    };
    let got = get_clipboard_source(
        Some(info("", ClipboardSourceType::ClipboardOwner)),
        Some(info("owner.exe", ClipboardSourceType::ClipboardOwner)),
        Some(info("fg.exe", ClipboardSourceType::ForegroundWindow)),
    );
    assert_eq!(got.process_name, "owner.exe");
    let none = get_clipboard_source(None, None, None);
    assert_eq!(none.process_name, "");
    assert_eq!(source_process_name("ApplicationFrameHost.exe".to_string(), Some("Calc".to_string())), "Calc");
    assert_eq!(source_process_name("notepad.exe".to_string(), Some("Calc".to_string())), "notepad.exe");
}

#[test]
fn partial_downloads_are_recognised_and_received_files_keep_their_names() {
    assert!(is_partial_file_name(".0f8b2c4e-1a2b-4c3d-9e8f-0123456789ab.qcpart"));
    assert!(!is_partial_file_name("report.pdf"));
    assert_eq!(received_file_name("C:\\Users\\me\\Downloads\\report.pdf"), "report.pdf");
    assert_eq!(received_file_name("C:\\"), "file");
    assert_eq!(received_file_name("D:\\in\\   "), "file");
}
