use quickclipboard::settings_storage::{
    field_attempt, RecoveryTally,
    choose_backup_slot, decide_settings_source, incompatible_backup_suffix, BackupSlotAction, BackupSlotProbe,
    SettingsDocument, SettingsLoadDecision,
};
use quickclipboard::clipboard_content::{files_json, sanitize_remote_files, FileInfo, FilesData};
use quickclipboard::data_management::{
    backups_to_remove, clipboard_import_select_sql, favorites_import_sql, groups_import_sql, import_column_expr,
};
use quickclipboard::hashing::hash_plain_text;
use quickclipboard::lan_files::unique_path_candidate;
use quickclipboard::models::ClipboardItem;
use quickclipboard::monitor::{
    dedup_captured_hashes, hash_clipboard_content, is_expected_store_rejection, set_last_hash_contents,
    stored_capture_event, MonitorState,
};
use quickclipboard::paste::PayloadEntry;
use quickclipboard::paths::is_managed_relative;
use quickclipboard::settings::{
    save_quickpaste_window_size, save_window_position, save_window_size, set_auto_start, set_edge_hide_enabled,
    AppSettings, SettingsState,
};
use quickclipboard::settings_commands::{
    plan_run_as_admin, plan_save_settings, toggle_clipboard_monitor, toggle_paste_with_format, RunAsAdminStep,
};

fn file(path: &str) -> FileInfo {
    FileInfo {
        path: path.to_string(),
        name: "n".to_string(),
        size: 1,
        is_directory: false,
        icon_data: None,
        file_type: "PNG".to_string(),
        exists: true,
        actual_path: None,
        width: None,
        height: None,
    }
}

#[test]
fn remote_file_lists_keep_only_managed_relative_paths() {
    let data = FilesData {
        files: vec![
            file("clipboard_images/abc.png"),
            file("C:\\Windows\\system.ini"),
            file("pin_images\\..\\..\\secret.txt"),
            file("image_library/dir/x.png"),
            file("/etc/passwd"),
        ],
        operation: "copy".to_string(),
    };
    let clean = sanitize_remote_files(data);
    let paths: Vec<&str> = clean.files.iter().map(|f| f.path.as_str()).collect();
    assert_eq!(paths, vec!["clipboard_images/abc.png", "image_library/dir/x.png"]);
    assert_eq!(clean.operation, "copy");
    let again = sanitize_remote_files(clean.clone());
    assert_eq!(again.files.len(), clean.files.len(), "净化幂等");
    assert!(is_managed_relative("pin_images\\a.png"));
    assert!(!is_managed_relative("other\\a.png"));
}

#[test]
fn retention_removes_all_but_the_newest_backups() {
    let entries = vec![
        ("quickclipboard-backup-1.zip".to_string(), "p1".to_string(), 10u64),
        ("other.zip".to_string(), "x".to_string(), 99u64),
        ("quickclipboard-backup-2.zip".to_string(), "p2".to_string(), 30u64),
        ("quickclipboard-backup-3.zip".to_string(), "p3".to_string(), 20u64),
        ("quickclipboard-backup-4.zip".to_string(), "p4".to_string(), 30u64),
    ];
    assert_eq!(backups_to_remove(&entries, 2), vec!["p3".to_string(), "p1".to_string()]);
    assert_eq!(backups_to_remove(&entries, 1), vec!["p4".to_string(), "p3".to_string(), "p1".to_string()]);
    assert!(backups_to_remove(&entries, 4).is_empty());
}

#[test]
fn received_file_names_are_numbered_until_free() {
    assert_eq!(unique_path_candidate("D:\\in", "a.txt", 0), "D:\\in\\a.txt");
    assert_eq!(unique_path_candidate("D:\\in", "a.txt", 2), "D:\\in\\a (2).txt");
    assert_eq!(unique_path_candidate("D:\\in", "archive.tar.gz", 1), "D:\\in\\archive.tar (1).gz");
    assert_eq!(unique_path_candidate("D:\\in", ".bashrc", 1), "D:\\in\\.bashrc (1)");
    assert_eq!(unique_path_candidate("D:\\in", "noext", 3), "D:\\in\\noext (3)");
    assert_eq!(unique_path_candidate("D:\\in", "foo.", 1), "D:\\in\\foo (1)");
}

#[test]
fn preset_payload_hashes_suppress_the_own_capture() {
    let payload = vec![
        PayloadEntry::Text("abc".to_string()),
        PayloadEntry::Files(vec!["D:\\a.png".to_string()]),
        PayloadEntry::Other("PNG".to_string(), vec![1, 2]),
    ];
    assert_eq!(hash_clipboard_content(&payload[0]), hash_plain_text("abc"));
    assert_eq!(
        hash_clipboard_content(&payload[0]),
        "ba7816bf8f01cfea414140de5dae2223b00361a396177a9cb410ff61f20015ad"
    );
    let mut state = MonitorState::new();
    set_last_hash_contents(&mut state, &payload);
    let captured: Vec<String> = payload.iter().map(hash_clipboard_content).collect();
    assert!(dedup_captured_hashes(&mut state, captured).is_empty(), "自粘贴必须被去重");
    let fresh = dedup_captured_hashes(&mut state, vec![hash_plain_text("abc"), hash_plain_text("new")]);
    assert_eq!(fresh, vec![1]);
}

#[test]
fn store_outcomes_choose_the_notification() {
    assert!(is_expected_store_rejection("重复内容,已跳过"));
    assert!(is_expected_store_rejection("已禁止保存图片"));
    assert!(!is_expected_store_rejection("database is locked"));
    let unknown = stored_capture_event(None, Some(3), Some(9));
    assert_eq!(unknown.kind, "unknown");
    assert!(unknown.insert_index.is_none() && unknown.total_count.is_none());
    let item = ClipboardItem {
        id: 5,
        uuid: None,
        favorite_id: None,
        source_device_id: None,
        is_remote: false,
        content: "x".to_string(),
        html_content: None,
        content_type: "text".to_string(),
        image_id: None,
        item_order: 0,
        is_pinned: false,
        paste_count: 0,
        source_app: None,
        source_icon_hash: None,
        char_count: None,
        created_at: 0,
        updated_at: 0,
    };
    let created = stored_capture_event(Some(item), Some(0), Some(1));
    assert_eq!(created.kind, "created");
    assert_eq!(created.insert_index, Some(0));
    assert_eq!(created.total_count, Some(1));
}

#[test]
fn saving_settings_plans_side_effects_from_the_changes() {
    let current = AppSettings::default();
    let mut incoming = AppSettings::default();
    incoming.edge.edge_hide_enabled = false;
    incoming.edge.edge_hover_popup_enabled = true;
    incoming.edge.edge_snap_edge = Some("left".to_string());
    incoming.general.clipboard_monitor = !current.general.clipboard_monitor;
    incoming.webdav.webdav_password = "secret".to_string();
    incoming.webdav.webdav_url = "https://dav.example.com".to_string();
    incoming.paste.update_check_interval = "hourly".to_string();
    incoming.settings_migration_version = None;
    incoming.app_filter.app_filter_list = vec!["a.exe".to_string()];
    let plan = plan_save_settings(&current, incoming);
    assert!(!plan.settings.edge.edge_hover_popup_enabled, "hover 必须随 hide 关闭");
    assert!(plan.edge_hide_disabled);
    assert_eq!(plan.settings.edge.edge_snap_edge, None);
    assert_eq!(plan.webdav_password.as_deref(), Some("secret"));
    assert_eq!(plan.settings.webdav.webdav_password, "", "密码不得随设置落盘");
    assert!(plan.clear_crypto_keys);
    assert_eq!(plan.clipboard_monitor, Some(!current.general.clipboard_monitor));
    assert_eq!(plan.quickpaste_enabled, None);
    assert_eq!(plan.settings.paste.update_check_interval, "daily");
    assert_eq!(plan.settings.settings_migration_version, current.settings_migration_version);
    assert_eq!(plan.settings.app_filter.app_filter_blocklist, vec!["a.exe".to_string()]);
    assert!(plan.settings.app_filter.app_filter_list.is_empty());
}

#[test]
fn unchanged_settings_plan_no_side_effects() {
    let current = AppSettings::default();
    let plan = plan_save_settings(&current, AppSettings::default());
    assert!(!plan.edge_hide_disabled && !plan.refresh_edge_hover && !plan.clear_crypto_keys);
    assert!(!plan.capture_window_size && !plan.restore_default_window_size);
    assert_eq!(plan.clipboard_monitor, None);
    assert_eq!(plan.show_tray_icon, None);
    assert_eq!(plan.webdav_password, None);
}

#[test]
fn set_edge_hide_enabled_keeps_hover_behind_hide() {
    let mut state = SettingsState::new(AppSettings::default());
    assert!(state.get_settings().edge.edge_hover_popup_enabled);
    assert!(set_edge_hide_enabled(&mut state, false), "关闭后必须解开贴边形态");
    assert!(!state.get_settings().edge.edge_hide_enabled);
    assert!(!state.get_settings().edge.edge_hover_popup_enabled);
    assert!(!set_edge_hide_enabled(&mut state, true));
    assert!(state.get_settings().edge.edge_hide_enabled);
    assert!(!state.get_settings().edge.edge_hover_popup_enabled, "开启 hide 不强制开启 hover");
}

#[test]
fn recovered_settings_file_wins_over_legacy_candidates() {
    let legacy = vec![SettingsDocument::Recovered { rejected_any_field: false }];
    assert_eq!(
        decide_settings_source(&SettingsDocument::Recovered { rejected_any_field: true }, &legacy),
        SettingsLoadDecision::UseTarget { preserve_and_rewrite: true }
    );
}

#[test]
fn damaged_or_unreadable_settings_file_is_never_replaced() {
    let legacy = vec![SettingsDocument::Recovered { rejected_any_field: false }];
    assert_eq!(
        decide_settings_source(&SettingsDocument::Invalid("bad json".to_string()), &legacy),
        SettingsLoadDecision::Fail("bad json".to_string())
    );
    assert_eq!(
        decide_settings_source(&SettingsDocument::Unreadable("denied".to_string()), &legacy),
        SettingsLoadDecision::Fail("denied".to_string())
    );
}

#[test]
fn first_recovered_legacy_candidate_is_migrated() {
    let legacy = vec![
        SettingsDocument::Missing,
        SettingsDocument::Invalid("x".to_string()),
        SettingsDocument::Recovered { rejected_any_field: true },
        SettingsDocument::Recovered { rejected_any_field: false },
    ];
    assert_eq!(
        decide_settings_source(&SettingsDocument::Missing, &legacy),
        SettingsLoadDecision::UseLegacy { index: 2, preserve: true }
    );
    let failing = vec![SettingsDocument::Unreadable("a".to_string()), SettingsDocument::Invalid("b".to_string())];
    assert_eq!(decide_settings_source(&SettingsDocument::Missing, &failing), SettingsLoadDecision::Fail("b".to_string()));
    assert_eq!(decide_settings_source(&SettingsDocument::Missing, &vec![SettingsDocument::Missing]), SettingsLoadDecision::Defaults);
}

#[test]
fn incompatible_backups_take_a_free_slot_or_the_oldest() {
    assert_eq!(choose_backup_slot(&vec![BackupSlotProbe::Different, BackupSlotProbe::Missing]), BackupSlotAction::WriteAt(1));
    assert_eq!(choose_backup_slot(&vec![BackupSlotProbe::Different, BackupSlotProbe::Same]), BackupSlotAction::AlreadyKept);
    assert_eq!(choose_backup_slot(&vec![BackupSlotProbe::Different; 1000]), BackupSlotAction::OverwriteOldest);
    assert_eq!(
        choose_backup_slot(&vec![BackupSlotProbe::ReadError("io".to_string())]),
        BackupSlotAction::Fail("读取不兼容设置备份失败，已拒绝覆盖原设置: io".to_string())
    );
    assert_eq!(incompatible_backup_suffix(0), "json.incompatible.bak");
    assert_eq!(incompatible_backup_suffix(12), "json.incompatible.12.bak");
}

#[test]
fn legacy_settings_places_skip_the_target_and_repeats() {
    let paths = quickclipboard::settings_storage::legacy_settings_paths(
        "C:\\Local\\quickclipboard\\settings.json",
        Some("D:\\app"),
        Some("C:\\Local"),
    );
    assert_eq!(
        paths,
        vec![
            "D:\\app\\data\\settings.json".to_string(),
            "C:\\Local\\com.quickclipboard.app\\settings.json".to_string(),
        ]
    );
    assert!(quickclipboard::settings_storage::legacy_settings_paths("x", None, None).is_empty());
}

#[test]
fn received_files_get_hidden_partial_names_and_checked_image_paths() {
    let temp = quickclipboard::lan_files::received_temp_path("D:\\recv");
    assert!(temp.starts_with("D:\\recv\\."));
    assert!(temp.ends_with(".qcpart"));
    assert_eq!(temp.len(), "D:\\recv\\.".len() + 36 + ".qcpart".len());
    assert!(quickclipboard::lan_files::is_received_file_internal(&temp));
    assert_eq!(
        quickclipboard::lan_files::sync_image_path("D:\\data", "abc"),
        Ok("D:\\data\\clipboard_images\\abc.png".to_string())
    );
    assert_eq!(
        quickclipboard::lan_files::sync_image_path("D:\\data", "../x"),
        Err("无效的图片 ID".to_string())
    );
}

#[test]
fn toggling_formatted_paste_flips_only_that_flag_and_names_the_result() {
    let settings = AppSettings::default();
    assert!(settings.paste.paste_with_format);
    let (off, message) = toggle_paste_with_format(settings);
    assert!(!off.paste.paste_with_format);
    assert_eq!(message, "格式粘贴已禁用");
    assert_eq!(off.paste.paste_shortcut_mode, "ctrl_v");
    let (on, message) = toggle_paste_with_format(off);
    assert!(on.paste.paste_with_format);
    assert_eq!(message, "格式粘贴已启用");
}

#[test]
fn administrator_start_switch_asks_only_what_the_change_needs() {
    let mut settings = AppSettings::default();
    settings.general.auto_start = true;
    assert_eq!(plan_run_as_admin(&settings, false, false), RunAsAdminStep::Unchanged);
    assert_eq!(plan_run_as_admin(&settings, true, true), RunAsAdminStep::ConfigureElevatedAutoStart(true));
    assert_eq!(plan_run_as_admin(&settings, true, false), RunAsAdminStep::SaveOnly);
    settings.general.run_as_admin = true;
    assert_eq!(plan_run_as_admin(&settings, false, true), RunAsAdminStep::SwitchToStandard(true));
    assert_eq!(plan_run_as_admin(&settings, true, false), RunAsAdminStep::Unchanged);
}

fn files_from_json(json: &str) -> Result<FilesData, String> {
    let value: serde_json::Value = serde_json::from_str(json).map_err(|e| format!("解析文件数据失败: {}", e))?;
    let entries = value["files"].as_array().ok_or_else(|| "解析文件数据失败".to_string())?;
    let files = entries
        .iter()
        .map(|entry| {
            let mut info = file(entry["path"].as_str().unwrap_or_default());
            info.name = entry["name"].as_str().unwrap_or_default().to_string();
            info
        })
        .collect();
    Ok(FilesData { files, operation: value["operation"].as_str().unwrap_or_default().to_string() })
}

#[test]
fn parse_files_content_returns_resolved_paths() {
    let content = r#"files:{"files":[{"path":"clipboard_images/a.png"},{"path":"pin_images/b.png"}]}"#;
    let data = files_from_json(&files_json(content).unwrap()).expect("合法 files: 内容应解析成功");
    let paths: Vec<String> = data.files.iter().map(|f| f.path.clone()).collect();
    assert_eq!(paths.len(), 2, "两个文件条目应解析为两条路径");
}

#[test]
fn parse_files_content_rejects_invalid_content() {
    assert!(files_json("普通文本").is_err(), "非 files: 前缀应拒绝");
    let broken = files_json("files:{broken json").unwrap();
    assert!(files_from_json(&broken).is_err(), "损坏 JSON 应拒绝,不 panic");
}

#[test]
fn sanitize_remote_files_content_strips_absolute_and_parent_paths() {
    let input = r#"files:{"files":[{"path":"C:\\Users\\me\\secret.png","name":"a"},{"path":"clipboard_images/abc.png","name":"b"},{"path":"..\\evil.png","name":"c"},{"path":"pin_images/x.png","name":"d"}]}"#;
    let data = files_from_json(&files_json(input).unwrap()).unwrap();
    let out = sanitize_remote_files(data);
    let paths: Vec<&str> = out.files.iter().map(|f| f.path.as_str()).collect();
    assert_eq!(
        paths,
        vec!["clipboard_images/abc.png", "pin_images/x.png"],
        "绝对路径与父目录段条目必须被删除,固定子目录相对路径必须保留"
    );
}

fn columns(names: &[&str]) -> Vec<String> {
    names.iter().map(|n| n.to_string()).collect()
}

#[test]
fn import_reads_present_columns_and_falls_back_for_missing_ones() {
    let cols = columns(&["name", "icon"]);
    assert_eq!(import_column_expr(&cols, "icon", "'ti ti-folder'"), "icon");
    assert_eq!(import_column_expr(&cols, "color", "'#dc2626'"), "'#dc2626'");
    assert_eq!(
        groups_import_sql(&cols),
        "INSERT OR IGNORE INTO groups (name, icon, color, order_index, created_at, updated_at) SELECT name, icon, '#dc2626', 0, CAST(strftime('%s','now') AS INTEGER), CAST(strftime('%s','now') AS INTEGER) FROM importdb.groups"
    );
}

#[test]
fn favorites_import_from_an_old_table_uses_every_fallback() {
    let cols = columns(&["id", "title", "content"]);
    assert_eq!(
        favorites_import_sql(&cols),
        "INSERT OR IGNORE INTO favorites (id, title, content, html_content, content_type, image_id, group_name, item_order, paste_count, char_count, created_at, updated_at) SELECT id, title, content, NULL, 'text', NULL, '全部', 0, 0, NULL, CAST(strftime('%s','now') AS INTEGER), CAST(strftime('%s','now') AS INTEGER) FROM importdb.favorites"
    );
}

#[test]
fn history_import_query_keeps_the_insert_column_order() {
    let cols = columns(&[
        "id", "content", "html_content", "content_type", "image_id", "is_pinned", "paste_count", "source_app",
        "source_icon_hash", "char_count", "uuid", "source_device_id", "is_remote", "created_at", "updated_at",
    ]);
    assert_eq!(
        clipboard_import_select_sql(&cols),
        "SELECT id, content, html_content, content_type, image_id, is_pinned, paste_count, source_app, source_icon_hash, char_count, uuid, source_device_id, is_remote, created_at, updated_at FROM importdb.clipboard"
    );
    assert_eq!(
        clipboard_import_select_sql(&columns(&["content"])),
        "SELECT NULL, content, NULL, 'text', NULL, 0, 0, NULL, NULL, NULL, NULL, NULL, 0, CAST(strftime('%s','now') AS INTEGER), CAST(strftime('%s','now') AS INTEGER) FROM importdb.clipboard"
    );
}

#[test]
fn toggling_the_clipboard_monitor_names_the_new_state() {
    let (off, message) = toggle_clipboard_monitor(AppSettings::default());
    assert!(!off.general.clipboard_monitor);
    assert_eq!(message, "剪贴板监听已禁用");
    let (on, message) = toggle_clipboard_monitor(off);
    assert!(on.general.clipboard_monitor);
    assert_eq!(message, "剪贴板监听已启用");
}

#[test]
fn window_geometry_is_saved_only_where_the_settings_allow() {
    let mut state = SettingsState::new(AppSettings::default());
    save_window_position(&mut state, -20, 40);
    assert_eq!(state.get_settings().window.saved_window_position, Some((-20, 40)));
    assert!(save_window_size(&mut state, 800, 600));
    assert_eq!(state.get_settings().window.saved_window_size, Some((800, 600)));
    save_quickpaste_window_size(&mut state, 320, 480);
    assert_eq!(state.get_settings().quickpaste.quickpaste_window_width, 320);
    assert_eq!(state.get_settings().quickpaste.quickpaste_window_height, 480);
    set_auto_start(&mut state, true);
    assert!(state.get_settings().general.auto_start);

    let mut settings = AppSettings::default();
    settings.window.remember_window_size = false;
    let mut state = SettingsState::new(settings);
    assert!(!save_window_size(&mut state, 800, 600), "不记住尺寸时不保存");
    assert_eq!(state.get_settings().window.saved_window_size, None);
}

#[test]
fn recovering_a_damaged_settings_file_tracks_refused_and_unknown_fields() {
    let legacy = field_attempt("history_limit", false);
    assert_eq!(legacy.replaces, Some("historyLimit"));
    assert!(!legacy.unknown, "旧版别名不算未知字段");
    let stranger = field_attempt("someFutureKey", false);
    assert_eq!(stranger.replaces, None);
    assert!(stranger.unknown);
    assert!(!field_attempt("opacity", true).unknown);

    let mut tally = RecoveryTally::new();
    tally.record(legacy, true);
    assert_eq!(tally, RecoveryTally { rejected_any_field: false, unknown_any_field: false });
    tally.record(stranger, true);
    tally.record(field_attempt("historyLimit", true), false);
    assert_eq!(tally, RecoveryTally { rejected_any_field: true, unknown_any_field: true });
}
