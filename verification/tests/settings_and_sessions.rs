use quickclipboard::session::{
    MainWindowVisibilityRevision, MonitorRect, ScreenshotSessionManager, SessionError, SessionPhase, StartSessionResult,
};
use quickclipboard::settings::{
    get_data_directory, is_edge_hover_popup_enabled, legacy_setting_alias_target, migrate_settings, update_settings,
    AppSettings, SettingsState,
};

fn started_id(result: StartSessionResult) -> String {
    match result {
        StartSessionResult::Started(session) => session.session_id().to_string(),
        other => panic!("首次启动应创建会话，实际为 {other:?}"),
    }
}

#[test]
fn starts_one_selecting_session_and_retrigger_returns_existing_session() {
    let mut manager = ScreenshotSessionManager::default();
    let monitor = MonitorRect::new(-1920, 0, 1920, 1080).unwrap();
    let session_id = started_id(manager.start(monitor, true));
    assert_eq!(manager.phase(), Some(SessionPhase::Selecting));
    let second = manager.start(monitor, true);
    assert_eq!(
        second,
        StartSessionResult::Existing { session_id: session_id.clone(), phase: SessionPhase::Selecting }
    );
    assert_eq!(manager.current().unwrap().session_id(), session_id);
}

#[test]
fn only_current_session_can_enter_processing_and_stale_completion_is_rejected() {
    let mut manager = ScreenshotSessionManager::default();
    let monitor = MonitorRect::new(0, 0, 3840, 2160).unwrap();
    let session_id = started_id(manager.start(monitor, false));
    assert_eq!(
        manager.begin_processing("expired-session"),
        Err(SessionError::StaleSession { expected: session_id.clone(), actual: "expired-session".to_string() })
    );
    assert_eq!(manager.phase(), Some(SessionPhase::Selecting));
    manager.begin_processing(&session_id).unwrap();
    assert_eq!(manager.phase(), Some(SessionPhase::Processing));
    assert_eq!(
        manager.begin_processing(&session_id),
        Err(SessionError::InvalidTransition {
            session_id,
            from: SessionPhase::Processing,
            to: SessionPhase::Processing,
        })
    );
}

#[test]
fn cancel_cleans_overlay_and_owned_temp_files_and_returns_idle() {
    let mut manager = ScreenshotSessionManager::default();
    let monitor = MonitorRect::new(0, 0, 1920, 1080).unwrap();
    let session_id = started_id(manager.start(monitor, true));
    manager.begin_processing(&session_id).unwrap();
    manager.register_temp_file(&session_id, "temporary/capture.png".to_string()).unwrap();
    manager.mark_main_window_hidden(&session_id, MainWindowVisibilityRevision(7)).unwrap();
    let cleanup = manager.cancel(&session_id, MainWindowVisibilityRevision(7)).unwrap();
    assert_eq!(cleanup.session_id, session_id);
    assert_eq!(cleanup.temp_files, vec!["temporary/capture.png".to_string()]);
    assert!(cleanup.hide_overlay);
    assert!(cleanup.restore_main_window);
    assert_eq!(manager.phase(), None);
    assert!(manager.current().is_none());
}

#[test]
fn cleanup_does_not_restore_main_window_after_user_changed_visibility() {
    let mut manager = ScreenshotSessionManager::default();
    let monitor = MonitorRect::new(0, 0, 1920, 1080).unwrap();
    let session_id = started_id(manager.start(monitor, true));
    manager.mark_main_window_hidden(&session_id, MainWindowVisibilityRevision(10)).unwrap();
    let cleanup = manager.cancel(&session_id, MainWindowVisibilityRevision(11)).unwrap();
    assert!(!cleanup.restore_main_window);
    assert!(cleanup.hide_overlay);
    assert_eq!(manager.phase(), None);
}

#[test]
fn stale_cancel_cannot_clean_the_current_session() {
    let mut manager = ScreenshotSessionManager::default();
    let monitor = MonitorRect::new(0, 0, 1920, 1080).unwrap();
    let session_id = started_id(manager.start(monitor, false));
    let error = manager.cancel("old-session", MainWindowVisibilityRevision(0));
    assert_eq!(
        error,
        Err(SessionError::StaleSession { expected: session_id, actual: "old-session".to_string() })
    );
    assert_eq!(manager.phase(), Some(SessionPhase::Selecting));
}

#[test]
fn cancelled_processing_session_cannot_finish_a_new_session() {
    let mut manager = ScreenshotSessionManager::default();
    let monitor = MonitorRect::new(0, 0, 1920, 1080).unwrap();
    let old_session_id = started_id(manager.start(monitor, false));
    manager.begin_processing(&old_session_id).unwrap();
    manager.cancel(&old_session_id, MainWindowVisibilityRevision(0)).unwrap();
    let new_session_id = started_id(manager.start(monitor, false));
    assert_ne!(old_session_id, new_session_id);
    assert!(matches!(
        manager.finish(&old_session_id, MainWindowVisibilityRevision(0)),
        Err(SessionError::StaleSession { .. })
    ));
    assert_eq!(manager.phase(), Some(SessionPhase::Selecting));
    assert_eq!(manager.current().unwrap().session_id(), new_session_id);
}

#[test]
fn committing_session_rejects_late_cancel_and_finishes_cleanly() {
    let mut manager = ScreenshotSessionManager::default();
    let monitor = MonitorRect::new(0, 0, 3840, 2160).unwrap();
    let session_id = started_id(manager.start(monitor, false));
    manager.begin_processing(&session_id).unwrap();
    manager.begin_commit(&session_id).unwrap();
    assert_eq!(manager.phase(), Some(SessionPhase::Committing));
    assert_eq!(
        manager.cancel(&session_id, MainWindowVisibilityRevision(12)),
        Err(SessionError::CommitInProgress { session_id: session_id.clone() })
    );
    let cleanup = manager.finish(&session_id, MainWindowVisibilityRevision(12)).unwrap();
    assert_eq!(cleanup.session_id, session_id);
    assert!(cleanup.hide_overlay);
    assert_eq!(manager.phase(), None);
    assert!(manager.current().is_none());
}

#[test]
fn committing_finish_retains_final_file_and_cleans_only_remaining_temp_files() {
    let mut manager = ScreenshotSessionManager::default();
    let monitor = MonitorRect::new(0, 0, 1920, 1080).unwrap();
    let session_id = started_id(manager.start(monitor, true));
    manager.begin_processing(&session_id).unwrap();
    manager.register_temp_file(&session_id, "temporary/encoded.png".to_string()).unwrap();
    manager.register_temp_file(&session_id, "temporary/capture.png".to_string()).unwrap();
    manager.mark_main_window_hidden(&session_id, MainWindowVisibilityRevision(3)).unwrap();
    manager.begin_commit(&session_id).unwrap();
    let retained = "temporary/encoded.png".to_string();
    let cleanup = manager.finish_and_retain_file(&session_id, MainWindowVisibilityRevision(3), &retained).unwrap();
    assert_eq!(cleanup.session_id, session_id);
    assert_eq!(cleanup.temp_files, vec!["temporary/capture.png".to_string()]);
    assert!(!cleanup.temp_files.contains(&retained));
    assert!(cleanup.hide_overlay);
    assert!(cleanup.restore_main_window);
    assert_eq!(manager.phase(), None);
    assert!(manager.current().is_none());
}

#[test]
fn zero_sized_monitor_is_rejected() {
    assert_eq!(MonitorRect::new(0, 0, 0, 10), Err(SessionError::InvalidMonitorRect));
}

#[test]
fn normalize_update_check_interval_recognizes_every3days() {
    assert_eq!(AppSettings::normalize_update_check_interval("every3days"), "every3days");
}

#[test]
fn normalize_update_check_interval_recognizes_weekly() {
    assert_eq!(AppSettings::normalize_update_check_interval("weekly"), "weekly");
}

#[test]
fn normalize_update_check_interval_falls_back_to_daily() {
    assert_eq!(AppSettings::normalize_update_check_interval("hourly"), "daily");
    assert_eq!(AppSettings::normalize_update_check_interval(""), "daily");
}

#[test]
fn default_filter_shortcuts_are_ctrl_arrows() {
    let settings = AppSettings::default();
    assert_eq!(settings.hotkeys.filter_left_shortcut, "Ctrl+ArrowLeft");
    assert_eq!(settings.hotkeys.filter_right_shortcut, "Ctrl+ArrowRight");
}

#[test]
fn migrates_legacy_blacklist_to_blocklist() {
    let mut settings = AppSettings::default();
    settings.app_filter.app_filter_blocklist = vec![];
    settings.app_filter.app_filter_mode = "blacklist".to_string();
    settings.app_filter.app_filter_list = vec!["chrome.exe".to_string()];
    assert!(settings.normalize_app_filter_blocklist());
    assert_eq!(settings.app_filter.app_filter_blocklist, vec!["chrome.exe".to_string()]);
    assert!(settings.app_filter.app_filter_list.is_empty());
    assert_eq!(settings.app_filter.app_filter_mode, "blacklist");
}

#[test]
fn does_not_invert_legacy_whitelist_into_blocklist() {
    let mut settings = AppSettings::default();
    settings.app_filter.app_filter_blocklist = vec![];
    settings.app_filter.app_filter_mode = "whitelist".to_string();
    settings.app_filter.app_filter_list = vec!["chrome.exe".to_string()];
    assert!(settings.normalize_app_filter_blocklist());
    assert!(settings.app_filter.app_filter_blocklist.is_empty());
    assert!(settings.app_filter.app_filter_list.is_empty());
    assert_eq!(settings.app_filter.app_filter_mode, "blacklist");
}

#[test]
fn normalized_app_filter_is_left_unchanged() {
    let mut settings = AppSettings::default();
    assert!(!settings.normalize_app_filter_blocklist());
    assert!(!settings.normalize_app_filter_blocklist());
}

#[test]
fn edge_hover_invariant_holds_when_hide_disabled() {
    let mut settings = AppSettings::default();
    settings.edge.edge_hide_enabled = false;
    settings.edge.edge_hover_popup_enabled = true;
    settings.normalize_edge_hover_invariant();
    assert!(!settings.edge.edge_hover_popup_enabled, "edge_hide_enabled=false 必须蕴含 hover=false");
}

#[test]
fn screenshot_default_uses_a_vision_capable_model() {
    let settings = AppSettings::default();
    assert!(settings.ai_translation.ai_model.to_ascii_lowercase().contains("vl"));
}

#[test]
fn edge_hover_invariant_keeps_hover_off_when_hide_enabled() {
    let mut settings = AppSettings::default();
    settings.edge.edge_hide_enabled = true;
    settings.edge.edge_hover_popup_enabled = false;
    settings.normalize_edge_hover_invariant();
    assert!(!settings.edge.edge_hover_popup_enabled, "开启 hide 不强制开启 hover");
}

#[test]
fn disabling_edge_hide_also_disables_hover() {
    let mut settings = AppSettings::default();
    settings.edge.edge_hide_enabled = true;
    settings.edge.edge_hover_popup_enabled = true;
    settings.edge.edge_hide_enabled = false;
    settings.normalize_edge_hover_invariant();
    assert!(!settings.edge.edge_hover_popup_enabled, "关闭贴边隐藏必须同时关闭悬浮弹出");
}

#[test]
fn disabling_hover_keeps_edge_hide() {
    let mut settings = AppSettings::default();
    settings.edge.edge_hide_enabled = true;
    settings.edge.edge_hover_popup_enabled = true;
    settings.edge.edge_hover_popup_enabled = false;
    settings.normalize_edge_hover_invariant();
    assert!(settings.edge.edge_hide_enabled, "关闭悬浮弹出不得影响贴边隐藏");
}

#[test]
fn enabling_edge_hide_keeps_hover_off() {
    let mut settings = AppSettings::default();
    settings.edge.edge_hide_enabled = false;
    settings.edge.edge_hover_popup_enabled = false;
    settings.edge.edge_hide_enabled = true;
    settings.normalize_edge_hover_invariant();
    assert!(!settings.edge.edge_hover_popup_enabled, "开启贴边隐藏不强制开启悬浮弹出");
}

#[test]
fn update_settings_normalizes_edge_hover_invariant() {
    let mut state = SettingsState::new(AppSettings::default());
    let mut settings = AppSettings::default();
    settings.edge.edge_hide_enabled = false;
    settings.edge.edge_hover_popup_enabled = true;
    update_settings(&mut state, settings.clone());
    let loaded = state.get_settings();
    assert!(!loaded.edge.edge_hover_popup_enabled, "update_settings 必须归一化,杜绝 hide=false/hover=true 落地");
}

#[test]
fn is_edge_hover_popup_enabled_reads_live_field() {
    let mut state = SettingsState::new(AppSettings::default());
    let mut settings = AppSettings::default();
    settings.edge.edge_hide_enabled = true;
    settings.edge.edge_hover_popup_enabled = true;
    update_settings(&mut state, settings);
    assert!(is_edge_hover_popup_enabled(&state), "写入 true 后 accessor 必须读到 true");
    let mut settings = AppSettings::default();
    settings.edge.edge_hide_enabled = true;
    settings.edge.edge_hover_popup_enabled = false;
    update_settings(&mut state, settings);
    assert!(!is_edge_hover_popup_enabled(&state), "写入 false 后 accessor 必须读到 false");
}

#[test]
fn update_with_normalizes_edge_hover_invariant() {
    let mut seed = AppSettings::default();
    seed.edge.edge_hide_enabled = true;
    seed.edge.edge_hover_popup_enabled = true;
    let mut state = SettingsState::new(seed);
    let mut changed = state.get_settings().clone();
    changed.edge.edge_hide_enabled = false;
    update_settings(&mut state, changed);
    let loaded = state.get_settings();
    assert!(!loaded.edge.edge_hover_popup_enabled, "hide=false ⇒ hover=false");
    assert!(!loaded.edge.edge_hide_enabled, "应保留 hide=false 写入");
}

#[test]
fn custom_storage_path_decides_the_data_directory() {
    let mut settings = AppSettings::default();
    let state = SettingsState::new(settings.clone());
    assert_eq!(get_data_directory(&state, "D:\\default"), "D:\\default");
    settings.storage.use_custom_storage = true;
    settings.storage.custom_storage_path = Some("E:\\custom".to_string());
    let state = SettingsState::new(settings);
    assert_eq!(get_data_directory(&state, "D:\\default"), "E:\\custom");
}

#[test]
fn migration_is_applied_once() {
    let mut settings = AppSettings::default();
    settings.settings_migration_version = None;
    let first = migrate_settings(&mut settings);
    let second = migrate_settings(&mut settings);
    assert!(first);
    assert!(!second);
    assert_eq!(legacy_setting_alias_target("definitely_not_a_setting"), None);
}
