use vstd::prelude::*;
use crate::database::texts;
use crate::text::{own, str_eq};

verus! {

/// The first settings migration: previews on.
pub const SETTINGS_MIGRATION_VERSION_V1: u32 = 1;
/// The second settings migration.
pub const SETTINGS_MIGRATION_VERSION_V2: u32 = 2;
/// The third settings migration: the application filter becomes a blocklist.
pub const SETTINGS_MIGRATION_VERSION_V3: u32 = 3;

/// General preferences: startup, memory, history, appearance and monitoring.
#[derive(Debug, Clone)]
pub struct GeneralSettings {
    pub auto_start: bool,
    pub run_as_admin: bool,
    pub start_hidden: bool,
    pub show_tray_icon: bool,
    pub show_startup_notification: bool,
    pub tooltips_enabled: bool,
    pub auto_low_memory_enabled: bool,
    pub auto_low_memory_idle_minutes: u32,
    pub auto_exit_low_memory_mode: bool,
    pub memory_optimization_enabled: bool,
    pub history_limit: u64,
    pub language: String,
    pub theme: String,
    pub light_theme_style: String,
    pub dark_theme_style: String,
    pub custom_font_enabled: bool,
    pub custom_font_type: String,
    pub custom_font_path: String,
    pub custom_font_url: String,
    pub custom_font_family: String,
    pub visible_optional_tabs: Vec<String>,
    pub background_image_path: String,
    pub toggle_shortcut: String,
    pub open_settings_shortcut: String,
    pub number_shortcuts: bool,
    pub number_shortcuts_modifier: String,
    pub clipboard_monitor: bool,
    pub ignore_duplicates: bool,
    pub save_images: bool,
    pub display_priority_order: String,
}

/// Which kinds of entries show a preview.
#[derive(Debug, Clone)]
pub struct PreviewSettings {
    pub image_preview: bool,
    pub text_preview: bool,
    pub file_preview: bool,
}

/// Sound effects.
#[derive(Debug, Clone)]
pub struct SoundSettings {
    pub sound_enabled: bool,
    pub copy_sound_path: String,
    pub paste_sound_path: String,
    pub copy_sound_timing: String,
    pub paste_sound_timing: String,
}

/// Limits on displayed images.
#[derive(Debug, Clone)]
pub struct ImageLimitSettings {
    pub image_max_size_mb: u32,
    pub image_max_width: u32,
    pub image_max_height: u32,
}

/// Screenshots.
#[derive(Debug, Clone)]
pub struct ScreenshotSettings {
    pub screenshot_enabled: bool,
    pub screenshot_shortcut: String,
    pub screenshot_quick_save_shortcut: String,
    pub screenshot_quick_pin_shortcut: String,
    pub screenshot_quick_ocr_shortcut: String,
    pub screenshot_element_detection: String,
    pub screenshot_magnifier_enabled: bool,
    pub screenshot_hints_enabled: bool,
    pub screenshot_color_include_format: bool,
    pub screenshot_window_lifecycle_mode: String,
    pub screenshot_auto_dispose_minutes: u32,
    pub screenshot_ai_enabled: bool,
    pub screenshot_ai_cloud_confirmed: bool,
    pub screenshot_ai_prompt: String,
}

/// The quick paste window.
#[derive(Debug, Clone)]
pub struct QuickPasteSettings {
    pub quickpaste_enabled: bool,
    pub quickpaste_shortcut: String,
    pub transfer_shelf_create_shortcut: String,
    pub quickpaste_paste_on_modifier_release: bool,
    pub quickpaste_scroll_sound: bool,
    pub quickpaste_scroll_sound_path: String,
    pub quickpaste_window_width: u32,
    pub quickpaste_window_height: u32,
}

/// AI translation.
#[derive(Debug, Clone)]
pub struct AiTranslationSettings {
    pub ai_translation_enabled: bool,
    pub ai_api_key: String,
    pub ai_model: String,
    pub ai_base_url: String,
    pub ai_target_language: String,
    pub ai_translate_on_copy: bool,
    pub ai_translate_on_paste: bool,
    pub ai_translation_prompt: String,
    pub ai_input_speed: u32,
    pub ai_newline_mode: String,
    pub ai_output_mode: String,
}

/// Middle mouse button.
#[derive(Debug, Clone)]
pub struct MouseSettings {
    pub mouse_middle_button_enabled: bool,
    pub mouse_middle_button_modifier: String,
    pub mouse_middle_button_trigger: String,
    pub mouse_middle_button_long_press_ms: u32,
}

/// Animations.
#[derive(Debug, Clone)]
pub struct AnimationSettings {
    pub clipboard_animation_enabled: bool,
    pub ui_animation_enabled: bool,
}

/// How the list looks.
#[derive(Debug, Clone)]
pub struct ListAppearanceSettings {
    pub row_height: String,
    pub auto_row_max_lines: u32,
    pub file_display_mode: String,
    pub list_style: String,
    pub card_spacing: u32,
}

/// What showing the window does.
#[derive(Debug, Clone)]
pub struct DisplaySettings {
    pub auto_scroll_to_top_on_show: bool,
    pub auto_clear_search: bool,
}

/// Which applications are not recorded.
#[derive(Debug, Clone)]
pub struct AppFilterSettings {
    pub app_filter_enabled: bool,
    pub app_filter_blocklist: Vec<String>,
    pub app_filter_mode: String,
    pub app_filter_list: Vec<String>,
    pub app_filter_effect: String,
}

/// Window placement.
#[derive(Debug, Clone)]
pub struct WindowSettings {
    pub window_position_mode: String,
    pub remember_window_size: bool,
    pub saved_window_position: Option<(i32, i32)>,
    pub saved_window_size: Option<(u32, u32)>,
}

/// Hiding at the screen edge.
#[derive(Debug, Clone)]
pub struct EdgeSettings {
    pub edge_hide_enabled: bool,
    pub edge_hover_popup_enabled: bool,
    pub edge_snap_position: Option<(i32, i32)>,
    pub edge_snap_edge: Option<String>,
    pub edge_snap_monitor_id: Option<String>,
    pub edge_hide_offset: i32,
}

/// Window behaviour.
#[derive(Debug, Clone)]
pub struct WindowBehaviorSettings {
    pub auto_focus_search: bool,
}

/// The title bar.
#[derive(Debug, Clone)]
pub struct TitleBarSettings {
    pub title_bar_position: String,
}

/// Pasting, list display and updates.
#[derive(Debug, Clone)]
pub struct PasteSettings {
    pub paste_with_format: bool,
    pub paste_shortcut_mode: String,
    pub modifier_click_multi_select: bool,
    pub paste_to_top: bool,
    pub show_list_shortcuts: bool,
    pub show_list_index: bool,
    pub show_badges: bool,
    pub show_source_icon: bool,
    pub update_check_interval: String,
    pub disable_update_popup: bool,
    pub include_beta_updates: Option<bool>,
}

/// Keyboard shortcuts.
#[derive(Debug, Clone)]
pub struct HotkeySettings {
    pub hotkeys_enabled: bool,
    pub navigate_up_shortcut: String,
    pub navigate_down_shortcut: String,
    pub tab_left_shortcut: String,
    pub tab_right_shortcut: String,
    pub focus_search_shortcut: String,
    pub hide_window_shortcut: String,
    pub paste_item_shortcut: String,
    pub previous_group_shortcut: String,
    pub next_group_shortcut: String,
    pub toggle_pin_shortcut: String,
    pub filter_left_shortcut: String,
    pub filter_right_shortcut: String,
    pub toggle_clipboard_monitor_shortcut: String,
    pub toggle_paste_with_format_shortcut: String,
    pub toggle_low_memory_mode_shortcut: String,
    pub paste_plain_text_shortcut: String,
}

/// Where data is stored.
#[derive(Debug, Clone)]
pub struct StorageSettings {
    pub custom_storage_path: Option<String>,
    pub use_custom_storage: bool,
}

/// WebDAV synchronisation.
#[derive(Debug, Clone)]
pub struct WebdavSettings {
    pub webdav_enabled: bool,
    pub webdav_url: String,
    pub webdav_username: String,
    pub webdav_password: String,
    pub webdav_root_path: String,
    pub webdav_auto_push: bool,
    pub webdav_push_delay_secs: u64,
    pub webdav_auto_pull: bool,
    pub webdav_auto_pull_on_window_show: bool,
    pub webdav_pull_interval_secs: u64,
    pub webdav_push_shortcut: String,
    pub webdav_pull_shortcut: String,
    pub webdav_sync_clipboard: bool,
    pub webdav_sync_favorites: bool,
    pub webdav_sync_images: bool,
    pub sync_transfer_active_mode: String,
}

/// The application's settings, by area, but for their fractional values
/// (opacity, background blur, sound volume, snap ratio), which the interface
/// layer keeps beside them together with the fields this version does not know.
#[derive(Debug, Clone)]
pub struct AppSettings {
    pub settings_migration_version: Option<u32>,
    pub general: GeneralSettings,
    pub previews: PreviewSettings,
    pub sound: SoundSettings,
    pub image_limits: ImageLimitSettings,
    pub screenshot: ScreenshotSettings,
    pub quickpaste: QuickPasteSettings,
    pub ai_translation: AiTranslationSettings,
    pub mouse: MouseSettings,
    pub animation: AnimationSettings,
    pub list_appearance: ListAppearanceSettings,
    pub display: DisplaySettings,
    pub app_filter: AppFilterSettings,
    pub window: WindowSettings,
    pub edge: EdgeSettings,
    pub window_behavior: WindowBehaviorSettings,
    pub title_bar: TitleBarSettings,
    pub paste: PasteSettings,
    pub hotkeys: HotkeySettings,
    pub storage: StorageSettings,
    pub webdav: WebdavSettings,
}

impl Default for AppSettings {
    /// The settings of a fresh installation.
    fn default() -> (s: Self)
        ensures
            s.settings_migration_version == Some(SETTINGS_MIGRATION_VERSION_V3),
            !s.general.auto_start,
            !s.general.run_as_admin,
            s.general.start_hidden,
            s.general.show_tray_icon,
            s.general.show_startup_notification,
            s.general.tooltips_enabled,
            !s.general.auto_low_memory_enabled,
            s.general.auto_low_memory_idle_minutes == 15,
            !s.general.auto_exit_low_memory_mode,
            !s.general.memory_optimization_enabled,
            s.general.history_limit == 100,
            s.general.language@ == "zh-CN"@,
            s.general.theme@ == "light"@,
            s.general.light_theme_style@ == "modern"@,
            s.general.dark_theme_style@ == "classic"@,
            !s.general.custom_font_enabled,
            s.general.custom_font_type@ == "file"@,
            s.general.custom_font_path@ == Seq::<char>::empty(),
            s.general.custom_font_url@ == Seq::<char>::empty(),
            s.general.custom_font_family@ == Seq::<char>::empty(),
            texts(s.general.visible_optional_tabs@) == seq!["favorites"@, "emoji"@],
            s.general.background_image_path@ == Seq::<char>::empty(),
            s.general.toggle_shortcut@ == "Shift+Space"@,
            s.general.open_settings_shortcut@ == Seq::<char>::empty(),
            s.general.number_shortcuts,
            s.general.number_shortcuts_modifier@ == "Ctrl"@,
            s.general.clipboard_monitor,
            s.general.ignore_duplicates,
            s.general.save_images,
            s.general.display_priority_order@ == "text,html,image"@,
            s.previews.image_preview,
            s.previews.text_preview,
            s.previews.file_preview,
            s.sound.sound_enabled,
            s.sound.copy_sound_path@ == Seq::<char>::empty(),
            s.sound.paste_sound_path@ == Seq::<char>::empty(),
            s.sound.copy_sound_timing@ == "success"@,
            s.sound.paste_sound_timing@ == "success"@,
            s.image_limits.image_max_size_mb == 15,
            s.image_limits.image_max_width == 4096,
            s.image_limits.image_max_height == 4096,
            s.screenshot.screenshot_enabled,
            s.screenshot.screenshot_shortcut@ == "Ctrl+Shift+A"@,
            s.screenshot.screenshot_quick_save_shortcut@ == Seq::<char>::empty(),
            s.screenshot.screenshot_quick_pin_shortcut@ == Seq::<char>::empty(),
            s.screenshot.screenshot_quick_ocr_shortcut@ == Seq::<char>::empty(),
            s.screenshot.screenshot_element_detection@ == "all"@,
            s.screenshot.screenshot_magnifier_enabled,
            s.screenshot.screenshot_hints_enabled,
            s.screenshot.screenshot_color_include_format,
            s.screenshot.screenshot_window_lifecycle_mode@ == "quick"@,
            s.screenshot.screenshot_auto_dispose_minutes == 10,
            s.screenshot.screenshot_ai_enabled,
            !s.screenshot.screenshot_ai_cloud_confirmed,
            s.screenshot.screenshot_ai_prompt@ == Seq::<char>::empty(),
            s.quickpaste.quickpaste_enabled,
            s.quickpaste.quickpaste_shortcut@ == "Ctrl+`"@,
            s.quickpaste.transfer_shelf_create_shortcut@ == Seq::<char>::empty(),
            s.quickpaste.quickpaste_paste_on_modifier_release,
            s.quickpaste.quickpaste_scroll_sound,
            s.quickpaste.quickpaste_scroll_sound_path@ == "sounds/roll.mp3"@,
            s.quickpaste.quickpaste_window_width == 300,
            s.quickpaste.quickpaste_window_height == 400,
            !s.ai_translation.ai_translation_enabled,
            s.ai_translation.ai_api_key@ == Seq::<char>::empty(),
            s.ai_translation.ai_model@ == "Qwen/Qwen2.5-VL-7B-Instruct"@,
            s.ai_translation.ai_base_url@ == "https://api.siliconflow.cn/v1"@,
            s.ai_translation.ai_target_language@ == "auto"@,
            !s.ai_translation.ai_translate_on_copy,
            s.ai_translation.ai_translate_on_paste,
            s.ai_translation.ai_translation_prompt@ == "请将以下文本翻译成{target_language}，严格保持原文的所有格式、换行符、段落结构和空白字符，只返回翻译结果，不要添加任何解释或修改格式："@,
            s.ai_translation.ai_input_speed == 50,
            s.ai_translation.ai_newline_mode@ == "auto"@,
            s.ai_translation.ai_output_mode@ == "stream"@,
            !s.mouse.mouse_middle_button_enabled,
            s.mouse.mouse_middle_button_modifier@ == "None"@,
            s.mouse.mouse_middle_button_trigger@ == "short_press"@,
            s.mouse.mouse_middle_button_long_press_ms == 300,
            s.animation.clipboard_animation_enabled,
            s.animation.ui_animation_enabled,
            s.list_appearance.row_height@ == "medium"@,
            s.list_appearance.auto_row_max_lines == 18,
            s.list_appearance.file_display_mode@ == "detailed"@,
            s.list_appearance.list_style@ == "card"@,
            s.list_appearance.card_spacing == 8,
            !s.display.auto_scroll_to_top_on_show,
            !s.display.auto_clear_search,
            !s.app_filter.app_filter_enabled,
            s.app_filter.app_filter_blocklist@.len() == 0,
            s.app_filter.app_filter_mode@ == "blacklist"@,
            s.app_filter.app_filter_list@.len() == 0,
            s.app_filter.app_filter_effect@ == "clipboard_only"@,
            s.window.window_position_mode@ == "smart"@,
            s.window.remember_window_size,
            s.window.saved_window_position is None,
            s.window.saved_window_size is None,
            s.edge.edge_hide_enabled,
            s.edge.edge_hover_popup_enabled,
            s.edge.edge_snap_position is None,
            s.edge.edge_snap_edge is None,
            s.edge.edge_snap_monitor_id is None,
            s.edge.edge_hide_offset == 3,
            !s.window_behavior.auto_focus_search,
            s.title_bar.title_bar_position@ == "top"@,
            s.paste.paste_with_format,
            s.paste.paste_shortcut_mode@ == "ctrl_v"@,
            s.paste.modifier_click_multi_select,
            !s.paste.paste_to_top,
            s.paste.show_list_shortcuts,
            s.paste.show_list_index,
            s.paste.show_badges,
            s.paste.show_source_icon,
            s.paste.update_check_interval@ == "daily"@,
            !s.paste.disable_update_popup,
            s.paste.include_beta_updates is None,
            s.hotkeys.hotkeys_enabled,
            s.hotkeys.navigate_up_shortcut@ == "ArrowUp"@,
            s.hotkeys.navigate_down_shortcut@ == "ArrowDown"@,
            s.hotkeys.tab_left_shortcut@ == "ArrowLeft"@,
            s.hotkeys.tab_right_shortcut@ == "ArrowRight"@,
            s.hotkeys.focus_search_shortcut@ == "Tab"@,
            s.hotkeys.hide_window_shortcut@ == "Escape"@,
            s.hotkeys.paste_item_shortcut@ == "Enter"@,
            s.hotkeys.previous_group_shortcut@ == "Ctrl+ArrowUp"@,
            s.hotkeys.next_group_shortcut@ == "Ctrl+ArrowDown"@,
            s.hotkeys.toggle_pin_shortcut@ == "Ctrl+P"@,
            s.hotkeys.filter_left_shortcut@ == "Ctrl+ArrowLeft"@,
            s.hotkeys.filter_right_shortcut@ == "Ctrl+ArrowRight"@,
            s.hotkeys.toggle_clipboard_monitor_shortcut@ == Seq::<char>::empty(),
            s.hotkeys.toggle_paste_with_format_shortcut@ == Seq::<char>::empty(),
            s.hotkeys.toggle_low_memory_mode_shortcut@ == Seq::<char>::empty(),
            s.hotkeys.paste_plain_text_shortcut@ == Seq::<char>::empty(),
            s.storage.custom_storage_path is None,
            !s.storage.use_custom_storage,
            !s.webdav.webdav_enabled,
            s.webdav.webdav_url@ == Seq::<char>::empty(),
            s.webdav.webdav_username@ == Seq::<char>::empty(),
            s.webdav.webdav_password@ == Seq::<char>::empty(),
            s.webdav.webdav_root_path@ == "quickclipboard"@,
            !s.webdav.webdav_auto_push,
            s.webdav.webdav_push_delay_secs == 10,
            !s.webdav.webdav_auto_pull,
            !s.webdav.webdav_auto_pull_on_window_show,
            s.webdav.webdav_pull_interval_secs == 30,
            s.webdav.webdav_push_shortcut@ == Seq::<char>::empty(),
            s.webdav.webdav_pull_shortcut@ == Seq::<char>::empty(),
            s.webdav.webdav_sync_clipboard,
            s.webdav.webdav_sync_favorites,
            !s.webdav.webdav_sync_images,
            s.webdav.sync_transfer_active_mode@ == "webdav"@,
    {
        let mut visible_optional_tabs_default: Vec<String> = Vec::new();
        visible_optional_tabs_default.push(own("favorites"));
        visible_optional_tabs_default.push(own("emoji"));
        let s = AppSettings {
            settings_migration_version: Some(SETTINGS_MIGRATION_VERSION_V3),
            general: GeneralSettings {
                auto_start: false,
                run_as_admin: false,
                start_hidden: true,
                show_tray_icon: true,
                show_startup_notification: true,
                tooltips_enabled: true,
                auto_low_memory_enabled: false,
                auto_low_memory_idle_minutes: 15,
                auto_exit_low_memory_mode: false,
                memory_optimization_enabled: false,
                history_limit: 100,
                language: own("zh-CN"),
                theme: own("light"),
                light_theme_style: own("modern"),
                dark_theme_style: own("classic"),
                custom_font_enabled: false,
                custom_font_type: own("file"),
                custom_font_path: String::new(),
                custom_font_url: String::new(),
                custom_font_family: String::new(),
                visible_optional_tabs: visible_optional_tabs_default,
                background_image_path: String::new(),
                toggle_shortcut: own("Shift+Space"),
                open_settings_shortcut: String::new(),
                number_shortcuts: true,
                number_shortcuts_modifier: own("Ctrl"),
                clipboard_monitor: true,
                ignore_duplicates: true,
                save_images: true,
                display_priority_order: own("text,html,image"),
            },
            previews: PreviewSettings {
                image_preview: true,
                text_preview: true,
                file_preview: true,
            },
            sound: SoundSettings {
                sound_enabled: true,
                copy_sound_path: String::new(),
                paste_sound_path: String::new(),
                copy_sound_timing: own("success"),
                paste_sound_timing: own("success"),
            },
            image_limits: ImageLimitSettings {
                image_max_size_mb: 15,
                image_max_width: 4096,
                image_max_height: 4096,
            },
            screenshot: ScreenshotSettings {
                screenshot_enabled: true,
                screenshot_shortcut: own("Ctrl+Shift+A"),
                screenshot_quick_save_shortcut: String::new(),
                screenshot_quick_pin_shortcut: String::new(),
                screenshot_quick_ocr_shortcut: String::new(),
                screenshot_element_detection: own("all"),
                screenshot_magnifier_enabled: true,
                screenshot_hints_enabled: true,
                screenshot_color_include_format: true,
                screenshot_window_lifecycle_mode: own("quick"),
                screenshot_auto_dispose_minutes: 10,
                screenshot_ai_enabled: true,
                screenshot_ai_cloud_confirmed: false,
                screenshot_ai_prompt: String::new(),
            },
            quickpaste: QuickPasteSettings {
                quickpaste_enabled: true,
                quickpaste_shortcut: own("Ctrl+`"),
                transfer_shelf_create_shortcut: String::new(),
                quickpaste_paste_on_modifier_release: true,
                quickpaste_scroll_sound: true,
                quickpaste_scroll_sound_path: own("sounds/roll.mp3"),
                quickpaste_window_width: 300,
                quickpaste_window_height: 400,
            },
            ai_translation: AiTranslationSettings {
                ai_translation_enabled: false,
                ai_api_key: String::new(),
                ai_model: own("Qwen/Qwen2.5-VL-7B-Instruct"),
                ai_base_url: own("https://api.siliconflow.cn/v1"),
                ai_target_language: own("auto"),
                ai_translate_on_copy: false,
                ai_translate_on_paste: true,
                ai_translation_prompt: own("请将以下文本翻译成{target_language}，严格保持原文的所有格式、换行符、段落结构和空白字符，只返回翻译结果，不要添加任何解释或修改格式："),
                ai_input_speed: 50,
                ai_newline_mode: own("auto"),
                ai_output_mode: own("stream"),
            },
            mouse: MouseSettings {
                mouse_middle_button_enabled: false,
                mouse_middle_button_modifier: own("None"),
                mouse_middle_button_trigger: own("short_press"),
                mouse_middle_button_long_press_ms: 300,
            },
            animation: AnimationSettings {
                clipboard_animation_enabled: true,
                ui_animation_enabled: true,
            },
            list_appearance: ListAppearanceSettings {
                row_height: own("medium"),
                auto_row_max_lines: 18,
                file_display_mode: own("detailed"),
                list_style: own("card"),
                card_spacing: 8,
            },
            display: DisplaySettings {
                auto_scroll_to_top_on_show: false,
                auto_clear_search: false,
            },
            app_filter: AppFilterSettings {
                app_filter_enabled: false,
                app_filter_blocklist: Vec::new(),
                app_filter_mode: own("blacklist"),
                app_filter_list: Vec::new(),
                app_filter_effect: own("clipboard_only"),
            },
            window: WindowSettings {
                window_position_mode: own("smart"),
                remember_window_size: true,
                saved_window_position: None,
                saved_window_size: None,
            },
            edge: EdgeSettings {
                edge_hide_enabled: true,
                edge_hover_popup_enabled: true,
                edge_snap_position: None,
                edge_snap_edge: None,
                edge_snap_monitor_id: None,
                edge_hide_offset: 3,
            },
            window_behavior: WindowBehaviorSettings {
                auto_focus_search: false,
            },
            title_bar: TitleBarSettings {
                title_bar_position: own("top"),
            },
            paste: PasteSettings {
                paste_with_format: true,
                paste_shortcut_mode: own("ctrl_v"),
                modifier_click_multi_select: true,
                paste_to_top: false,
                show_list_shortcuts: true,
                show_list_index: true,
                show_badges: true,
                show_source_icon: true,
                update_check_interval: own("daily"),
                disable_update_popup: false,
                include_beta_updates: None,
            },
            hotkeys: HotkeySettings {
                hotkeys_enabled: true,
                navigate_up_shortcut: own("ArrowUp"),
                navigate_down_shortcut: own("ArrowDown"),
                tab_left_shortcut: own("ArrowLeft"),
                tab_right_shortcut: own("ArrowRight"),
                focus_search_shortcut: own("Tab"),
                hide_window_shortcut: own("Escape"),
                paste_item_shortcut: own("Enter"),
                previous_group_shortcut: own("Ctrl+ArrowUp"),
                next_group_shortcut: own("Ctrl+ArrowDown"),
                toggle_pin_shortcut: own("Ctrl+P"),
                filter_left_shortcut: own("Ctrl+ArrowLeft"),
                filter_right_shortcut: own("Ctrl+ArrowRight"),
                toggle_clipboard_monitor_shortcut: String::new(),
                toggle_paste_with_format_shortcut: String::new(),
                toggle_low_memory_mode_shortcut: String::new(),
                paste_plain_text_shortcut: String::new(),
            },
            storage: StorageSettings {
                custom_storage_path: None,
                use_custom_storage: false,
            },
            webdav: WebdavSettings {
                webdav_enabled: false,
                webdav_url: String::new(),
                webdav_username: String::new(),
                webdav_password: String::new(),
                webdav_root_path: own("quickclipboard"),
                webdav_auto_push: false,
                webdav_push_delay_secs: 10,
                webdav_auto_pull: false,
                webdav_auto_pull_on_window_show: false,
                webdav_pull_interval_secs: 30,
                webdav_push_shortcut: String::new(),
                webdav_pull_shortcut: String::new(),
                webdav_sync_clipboard: true,
                webdav_sync_favorites: true,
                webdav_sync_images: false,
                sync_transfer_active_mode: own("webdav"),
            },
        };
        assert(texts(s.general.visible_optional_tabs@) =~= seq!["favorites"@, "emoji"@]);
        s
    }
}

/// The settings after enforcing that the edge hover popup implies edge
/// hiding; turning hiding on never turns the popup on.
pub open spec fn edge_hover_normalized(s: AppSettings) -> AppSettings {
    AppSettings {
        edge: EdgeSettings { edge_hover_popup_enabled: s.edge.edge_hover_popup_enabled && s.edge.edge_hide_enabled, ..s.edge },
        ..s
    }
}

/// Whether settings keep the invariant: the hover popup only with edge hiding.
pub open spec fn hover_implies_hide(s: AppSettings) -> bool {
    s.edge.edge_hover_popup_enabled ==> s.edge.edge_hide_enabled
}

/// Whether `b` is `a` with its application filter moved to the blocklist
/// form: a legacy non-whitelist list fills an empty blocklist, the mode
/// becomes `blacklist` and the legacy list is emptied; all else is kept.
pub open spec fn app_filter_normalized(a: AppSettings, b: AppSettings) -> bool {
    let f = a.app_filter;
    let g = b.app_filter;
    let migrate = f.app_filter_mode@ != "whitelist"@ && f.app_filter_blocklist@.len() == 0 && f.app_filter_list@.len() > 0;
    &&& b == AppSettings { app_filter: g, ..a }
    &&& g == AppFilterSettings {
        app_filter_blocklist: g.app_filter_blocklist,
        app_filter_mode: g.app_filter_mode,
        app_filter_list: g.app_filter_list,
        ..f
    }
    &&& g.app_filter_blocklist@ == (if migrate { f.app_filter_list@ } else { f.app_filter_blocklist@ })
    &&& g.app_filter_mode@ == "blacklist"@
    &&& g.app_filter_list@.len() == 0
}

/// Whether normalising the application filter changes anything.
pub open spec fn app_filter_changes(a: AppSettings) -> bool {
    let f = a.app_filter;
    (f.app_filter_mode@ != "whitelist"@ && f.app_filter_blocklist@.len() == 0 && f.app_filter_list@.len() > 0)
        || f.app_filter_mode@ != "blacklist"@ || f.app_filter_list@.len() > 0
}

impl AppSettings {
    /// Keeps the invariant that the hover popup implies edge hiding.
    pub fn normalize_edge_hover_invariant(&mut self)
        ensures
            *final(self) == edge_hover_normalized(*old(self)),
    {
        if !self.edge.edge_hide_enabled {
            self.edge.edge_hover_popup_enabled = false;
        }
    }

    /// Moves a legacy application filter to the blocklist form. A legacy
    /// whitelist is dropped, never turned into a blocklist. Returns whether
    /// anything changed.
    pub fn normalize_app_filter_blocklist(&mut self) -> (changed: bool)
        ensures
            app_filter_normalized(*old(self), *final(self)),
            changed == app_filter_changes(*old(self)),
    {
        let mut changed = false;
        let whitelist = str_eq(self.app_filter.app_filter_mode.as_str(), "whitelist");
        if !whitelist && self.app_filter.app_filter_blocklist.len() == 0 && self.app_filter.app_filter_list.len() > 0 {
            std::mem::swap(&mut self.app_filter.app_filter_blocklist, &mut self.app_filter.app_filter_list);
            changed = true;
        }
        if !str_eq(self.app_filter.app_filter_mode.as_str(), "blacklist") {
            self.app_filter.app_filter_mode = own("blacklist");
            changed = true;
        }
        if self.app_filter.app_filter_list.len() > 0 {
            self.app_filter.app_filter_list = Vec::new();
            changed = true;
        }
        changed
    }

    /// The update check interval a setting names: `every3days`, `weekly`,
    /// and `daily` for anything else.
    pub fn normalize_update_check_interval(value: &str) -> (r: &'static str)
        ensures
            value@ == "every3days"@ ==> r@ == "every3days"@,
            value@ == "weekly"@ ==> r@ == "weekly"@,
            value@ != "every3days"@ && value@ != "weekly"@ ==> r@ == "daily"@,
    {
        if str_eq(value, "every3days") {
            "every3days"
        } else if str_eq(value, "weekly") {
            "weekly"
        } else {
            "daily"
        }
    }
}

/// The settings after the version migrations: previews on for the first,
/// and the application filter normalised for the third; the version then
/// records the third.
pub fn migrate_settings(settings: &mut AppSettings) -> (migrated: bool)
    ensures
        ({
            let v = match old(settings).settings_migration_version { Some(v) => v, None => 0 };
            &&& migrated == (v < SETTINGS_MIGRATION_VERSION_V3)
            &&& v >= SETTINGS_MIGRATION_VERSION_V3 ==> *final(settings) == *old(settings)
            &&& v < SETTINGS_MIGRATION_VERSION_V3 ==> app_filter_normalized(
                AppSettings {
                    previews: if v < SETTINGS_MIGRATION_VERSION_V1 {
                        PreviewSettings { image_preview: true, text_preview: true, file_preview: true }
                    } else {
                        old(settings).previews
                    },
                    settings_migration_version: Some(SETTINGS_MIGRATION_VERSION_V3),
                    ..*old(settings)
                },
                *final(settings),
            )
        }),
{
    let version: u32 = match settings.settings_migration_version {
        Some(v) => v,
        None => 0,
    };
    let mut migrated = false;
    if version < SETTINGS_MIGRATION_VERSION_V1 {
        settings.previews = PreviewSettings { image_preview: true, text_preview: true, file_preview: true };
        settings.settings_migration_version = Some(SETTINGS_MIGRATION_VERSION_V1);
        migrated = true;
    }
    if version < SETTINGS_MIGRATION_VERSION_V2 {
        settings.settings_migration_version = Some(SETTINGS_MIGRATION_VERSION_V2);
        migrated = true;
    }
    if version < SETTINGS_MIGRATION_VERSION_V3 {
        settings.settings_migration_version = Some(SETTINGS_MIGRATION_VERSION_V3);
        let _ = settings.normalize_app_filter_blocklist();
        migrated = true;
    }
    migrated
}

/// The current name of a setting that older versions stored under another.
pub open spec fn legacy_alias_of(key: Seq<char>) -> Option<Seq<char>> {
    if key == "history_limit"@ {
        Some("historyLimit"@)
    } else if key == "custom_storage_path"@ {
        Some("customStoragePath"@)
    } else if key == "use_custom_storage"@ {
        Some("useCustomStorage"@)
    } else {
        None
    }
}

/// The current name of a legacy setting key, if it is one.
pub fn legacy_setting_alias_target(key: &str) -> (r: Option<&'static str>)
    ensures
        match legacy_alias_of(key@) {
            Some(t) => r is Some && r->0@ == t,
            None => r is None,
        },
{
    if str_eq(key, "history_limit") {
        Some("historyLimit")
    } else if str_eq(key, "custom_storage_path") {
        Some("customStoragePath")
    } else if str_eq(key, "use_custom_storage") {
        Some("useCustomStorage")
    } else {
        None
    }
}

/// The data directory the settings choose: the custom one when it is in
/// use and set, else the default one.
pub open spec fn data_directory_of(s: AppSettings, default_dir: Seq<char>) -> Seq<char> {
    if s.storage.use_custom_storage && s.storage.custom_storage_path is Some {
        s.storage.custom_storage_path->0@
    } else {
        default_dir
    }
}

/// The live settings of the application. Every write goes through the
/// normalisation, so the hover popup is never on without edge hiding.
pub struct SettingsState {
    settings: AppSettings,
}

impl SettingsState {
    #[verifier::type_invariant]
    closed spec fn inv(self) -> bool {
        hover_implies_hide(self.settings)
    }

    /// The settings in force.
    pub closed spec fn current(self) -> AppSettings {
        self.settings
    }

    /// The state holding `settings`, normalised.
    pub fn new(settings: AppSettings) -> (s: Self)
        ensures
            s.current() == edge_hover_normalized(settings),
    {
        let mut settings = settings;
        settings.normalize_edge_hover_invariant();
        SettingsState { settings }
    }

    /// The settings in force; the hover popup is on only with edge hiding.
    pub fn get_settings(&self) -> (r: &AppSettings)
        ensures
            *r == self.current(),
            hover_implies_hide(*r),
    {
        proof { use_type_invariant(self); }
        &self.settings
    }
}

/// Replaces the settings in force, normalised; returns them for saving.
pub fn update_settings(state: &mut SettingsState, settings: AppSettings) -> (saved: &AppSettings)
    ensures
        final(state).current() == edge_hover_normalized(settings),
        *saved == final(state).current(),
        hover_implies_hide(*saved),
{
    let mut settings = settings;
    settings.normalize_edge_hover_invariant();
    *state = SettingsState { settings };
    &state.settings
}

/// Whether the edge hover popup is on; it never is without edge hiding.
pub fn is_edge_hover_popup_enabled(state: &SettingsState) -> (r: bool)
    ensures
        r == state.current().edge.edge_hover_popup_enabled,
        r ==> state.current().edge.edge_hide_enabled,
{
    proof { use_type_invariant(state); }
    state.settings.edge.edge_hover_popup_enabled
}

/// The data directory the settings in force choose, given the default one.
pub fn get_data_directory(state: &SettingsState, default_dir: &str) -> (r: String)
    ensures
        r@ == data_directory_of(state.current(), default_dir@),
{
    if state.settings.storage.use_custom_storage {
        match &state.settings.storage.custom_storage_path {
            Some(p) => return p.clone(),
            None => {},
        }
    }
    own(default_dir)
}

/// Turns edge hiding on or off in the settings in force: the hover popup
/// stays off without it and the snap position is dropped when it is turned
/// off. Returns whether the window must then leave its edge-hidden form.
pub fn set_edge_hide_enabled(state: &mut SettingsState, enabled: bool) -> (leave_hidden_form: bool)
    ensures
        leave_hidden_form == !enabled,
        final(state).current() == ({
            let c = old(state).current();
            let e = EdgeSettings {
                edge_hide_enabled: enabled,
                edge_hover_popup_enabled: c.edge.edge_hover_popup_enabled && enabled,
                ..c.edge
            };
            AppSettings {
                edge: if enabled { e } else {
                    EdgeSettings { edge_snap_position: None, edge_snap_edge: None, edge_snap_monitor_id: None, ..e }
                },
                ..c
            }
        }),
{
    proof { use_type_invariant(&*state); }
    state.settings.edge.edge_hover_popup_enabled = state.settings.edge.edge_hover_popup_enabled && enabled;
    state.settings.edge.edge_hide_enabled = enabled;
    if !enabled {
        state.settings.edge.edge_snap_position = None;
        state.settings.edge.edge_snap_edge = None;
        state.settings.edge.edge_snap_monitor_id = None;
    }
    !enabled
}

/// Stores the main window's position.
pub fn save_window_position(state: &mut SettingsState, x: i32, y: i32)
    ensures
        final(state).current() == (AppSettings {
            window: WindowSettings { saved_window_position: Some((x, y)), ..old(state).current().window },
            ..old(state).current()
        }),
{
    proof { use_type_invariant(&*state); }
    state.settings.window.saved_window_position = Some((x, y));
}

/// Stores the main window's size when sizes are remembered; returns
/// whether it was stored.
pub fn save_window_size(state: &mut SettingsState, width: u32, height: u32) -> (stored: bool)
    ensures
        stored == old(state).current().window.remember_window_size,
        final(state).current() == (if stored {
            AppSettings {
                window: WindowSettings { saved_window_size: Some((width, height)), ..old(state).current().window },
                ..old(state).current()
            }
        } else {
            old(state).current()
        }),
{
    proof { use_type_invariant(&*state); }
    if !state.settings.window.remember_window_size {
        return false;
    }
    state.settings.window.saved_window_size = Some((width, height));
    true
}

/// Stores the quick paste window's size.
pub fn save_quickpaste_window_size(state: &mut SettingsState, width: u32, height: u32)
    ensures
        final(state).current() == (AppSettings {
            quickpaste: QuickPasteSettings {
                quickpaste_window_width: width,
                quickpaste_window_height: height,
                ..old(state).current().quickpaste
            },
            ..old(state).current()
        }),
{
    proof { use_type_invariant(&*state); }
    state.settings.quickpaste.quickpaste_window_width = width;
    state.settings.quickpaste.quickpaste_window_height = height;
}

/// Records the start with the system after its start-up entry was
/// configured.
pub fn set_auto_start(state: &mut SettingsState, enabled: bool)
    ensures
        final(state).current() == (AppSettings {
            general: GeneralSettings { auto_start: enabled, ..old(state).current().general },
            ..old(state).current()
        }),
{
    proof { use_type_invariant(&*state); }
    state.settings.general.auto_start = enabled;
}

/// Law: normalising keeps the invariant and changes nothing that already keeps it.
pub proof fn lemma_edge_hover_normalization(s: AppSettings)
    ensures
        hover_implies_hide(edge_hover_normalized(s)),
        hover_implies_hide(s) ==> edge_hover_normalized(s) == s,
        edge_hover_normalized(edge_hover_normalized(s)) == edge_hover_normalized(s),
        edge_hover_normalized(s).edge.edge_hide_enabled == s.edge.edge_hide_enabled,
{
}

} // verus!
