use quickclipboard::data_management::{
    backup_archive_name, backup_entry_names, export_entry_names, is_backup_file_name, plan_storage_change,
    plan_storage_reset, safe_zip_entry_name, plan_import_replace, reset_cleared_names, ImportTarget,
};
use quickclipboard::migration::{
    item_file_name, parse_migration_mode, plan_migration, removal_error, DataItem, ItemPresence, MigrationMode,
    MigrationStep, Side,
};
use quickclipboard::settings::AppSettings;

fn presence(images: bool, pins: bool, library: bool, icons: bool, database: bool) -> ItemPresence {
    ItemPresence { clipboard_images: images, pin_images: pins, image_library: library, app_icons: icons, database }
}

#[test]
fn migration_modes_are_read_and_unknown_ones_refused() {
    assert_eq!(parse_migration_mode("source_only"), Ok(MigrationMode::SourceOnly));
    assert_eq!(parse_migration_mode("target_only"), Ok(MigrationMode::TargetOnly));
    assert_eq!(parse_migration_mode("merge"), Ok(MigrationMode::Merge));
    assert_eq!(parse_migration_mode("copy"), Err("不支持的迁移模式: copy".to_string()));
}

#[test]
fn removal_failures_name_the_side_and_the_item() {
    assert_eq!(removal_error(Side::Target, DataItem::ClipboardImages, "busy"), "删除目标图片目录失败: busy");
    assert_eq!(removal_error(Side::Source, DataItem::Database, "locked"), "删除源数据库失败: locked");
    assert_eq!(item_file_name(DataItem::PinImages), "pin_images");
    assert_eq!(item_file_name(DataItem::Database), "quickclipboard.db");
}

#[test]
fn source_only_clears_the_new_location_then_moves_the_current_data() {
    let plan = plan_migration(MigrationMode::SourceOnly, presence(true, false, false, true, true), presence(true, true, false, false, true));
    assert_eq!(
        plan,
        vec![
            MigrationStep::Remove(Side::Target, DataItem::ClipboardImages),
            MigrationStep::Remove(Side::Target, DataItem::PinImages),
            MigrationStep::Remove(Side::Target, DataItem::Database),
            MigrationStep::MoveToTarget(DataItem::ClipboardImages),
            MigrationStep::MoveToTarget(DataItem::AppIcons),
            MigrationStep::MoveToTarget(DataItem::Database),
            MigrationStep::RemoveJournalFiles,
        ]
    );
}

#[test]
fn target_only_drops_only_the_current_data() {
    let plan = plan_migration(MigrationMode::TargetOnly, presence(true, true, true, true, true), presence(true, true, true, true, true));
    assert_eq!(
        plan,
        vec![
            MigrationStep::Remove(Side::Source, DataItem::ClipboardImages),
            MigrationStep::Remove(Side::Source, DataItem::PinImages),
            MigrationStep::Remove(Side::Source, DataItem::ImageLibrary),
            MigrationStep::Remove(Side::Source, DataItem::AppIcons),
            MigrationStep::Remove(Side::Source, DataItem::Database),
            MigrationStep::RemoveJournalFiles,
        ]
    );
}

#[test]
fn merge_folds_the_new_location_into_the_current_data_before_moving_it() {
    let plan = plan_migration(MigrationMode::Merge, presence(true, false, true, false, true), presence(false, true, true, false, true));
    assert_eq!(
        plan,
        vec![
            MigrationStep::CreateTargetDir(DataItem::ClipboardImages),
            MigrationStep::MergeTargetIntoSource(DataItem::ClipboardImages),
            MigrationStep::Remove(Side::Target, DataItem::ClipboardImages),
            MigrationStep::MoveToTarget(DataItem::ClipboardImages),
            MigrationStep::MergeTargetIntoSource(DataItem::ImageLibrary),
            MigrationStep::Remove(Side::Target, DataItem::ImageLibrary),
            MigrationStep::MoveToTarget(DataItem::ImageLibrary),
            MigrationStep::MergeTargetDatabaseIntoSource,
            MigrationStep::Remove(Side::Target, DataItem::Database),
            MigrationStep::MoveToTarget(DataItem::Database),
            MigrationStep::RemoveJournalFiles,
        ]
    );
}

#[test]
fn replacing_import_falls_back_to_the_default_directory() {
    let mut settings = AppSettings::default();
    settings.storage.use_custom_storage = true;
    settings.storage.custom_storage_path = Some("D:\\Data".to_string());
    settings.edge.edge_hide_enabled = false;
    settings.edge.edge_hover_popup_enabled = true;

    let (kept, target) = plan_import_replace(settings.clone(), false, true);
    assert!(matches!(target, ImportTarget::Custom(ref p) if p == "D:\\Data"));
    assert!(kept.storage.use_custom_storage);
    assert!(!kept.edge.edge_hover_popup_enabled, "导入的设置必须先归一化悬停弹出");

    let (kept, target) = plan_import_replace(settings.clone(), false, false);
    assert!(matches!(target, ImportTarget::Default));
    assert!(!kept.storage.use_custom_storage);
    assert_eq!(kept.storage.custom_storage_path, None);

    let (kept, target) = plan_import_replace(settings, true, true);
    assert!(matches!(target, ImportTarget::Default), "便携版不使用自定义存储");
    assert!(!kept.storage.use_custom_storage);
}

fn names(list: &[&str]) -> Vec<String> {
    list.iter().map(|n| n.to_string()).collect()
}

#[test]
fn full_backup_lists_every_data_directory_and_the_settings() {
    let entries = backup_entry_names(
        presence(true, true, true, true, true),
        &names(&["a.png"]),
        &names(&["lib.png"]),
        &names(&["pin.png"]),
        &names(&["icon.png"]),
        true,
    )
    .unwrap();
    assert_eq!(
        entries,
        names(&[
            "quickclipboard.db",
            "clipboard_images/a.png",
            "image_library/lib.png",
            "pin_images/pin.png",
            "app_icons/icon.png",
            "settings.json",
        ])
    );
    for name in reset_cleared_names().iter().filter(|n| !n.ends_with("-shm") && !n.ends_with("-wal")) {
        assert!(entries.iter().any(|e| e == name || e.starts_with(&format!("{name}/"))), "备份必须覆盖重置会清理的 {name}");
    }
}

#[test]
fn nothing_to_back_up_writes_no_archive() {
    assert_eq!(
        backup_entry_names(presence(false, false, false, false, false), &vec![], &vec![], &vec![], &vec![], true),
        None
    );
    assert_eq!(
        backup_entry_names(presence(false, true, false, false, false), &vec![], &vec![], &names(&["p.png"]), &vec![], false),
        Some(names(&["pin_images/p.png"]))
    );
}

#[test]
fn backup_archives_are_found_again_by_retention() {
    let name = backup_archive_name("20240102-030405");
    assert_eq!(name, "quickclipboard-backup-20240102-030405.zip");
    assert!(is_backup_file_name(&name));
    assert_eq!(reset_cleared_names().len(), 7);
}

#[test]
fn export_lists_nested_files_and_every_entry_imports_back() {
    let entries = export_entry_names(
        presence(true, true, true, false, true),
        &names(&["a.png", "sub\\b.png"]),
        &names(&["lib.png"]),
        &names(&[]),
        &names(&["pin.png"]),
        true,
    );
    assert_eq!(
        entries,
        names(&[
            "quickclipboard.db",
            "clipboard_images\\a.png",
            "clipboard_images\\sub\\b.png",
            "image_library\\lib.png",
            "pin_images\\pin.png",
            "settings.json",
        ])
    );
    for entry in &entries {
        assert_eq!(safe_zip_entry_name(entry).as_deref(), Some(entry.as_str()));
    }
}

#[test]
fn storage_reset_moves_back_to_the_default_and_turns_custom_storage_off() {
    let mut settings = AppSettings::default();
    settings.storage.use_custom_storage = true;
    settings.storage.custom_storage_path = Some("D:\\Data".to_string());

    assert_eq!(plan_storage_reset(true, "C:\\qc", "D:\\Data", settings.clone()).err(), Some("便携版不支持重置存储路径".to_string()));
    assert_eq!(plan_storage_reset(false, "C:\\qc", "C:\\qc\\", settings.clone()).err(), Some("当前已在默认存储位置".to_string()));

    let plan = plan_storage_reset(false, "C:\\qc", "D:\\Data", settings.clone()).unwrap();
    assert_eq!(plan.source_dir, "D:\\Data");
    assert_eq!(plan.target_dir, "C:\\qc");
    assert!(!plan.settings_after.storage.use_custom_storage);
    assert_eq!(plan.settings_after.storage.custom_storage_path, None);

    let plan = plan_storage_change(false, "E:\\New", "C:\\qc", AppSettings::default()).unwrap();
    assert_eq!(plan.target_dir, "E:\\New");
    assert!(plan.settings_after.storage.use_custom_storage);
    assert_eq!(plan.settings_after.storage.custom_storage_path.as_deref(), Some("E:\\New"));
    assert_eq!(plan_storage_change(true, "E:\\New", "C:\\qc", AppSettings::default()).err(), Some("便携版不支持更改存储路径".to_string()));
}

#[test]
fn backup_full_zip_covers_image_library_and_pin_images() {
    let entries = backup_entry_names(
        presence(false, true, true, false, false),
        &vec![],
        &names(&["lib.png"]),
        &names(&["pin.png"]),
        &vec![],
        false,
    )
    .expect("只有图库与贴图时也必须备份");
    assert_eq!(entries, names(&["image_library/lib.png", "pin_images/pin.png"]));
}
