use vstd::prelude::*;
use crate::settings::{
    app_filter_normalized, edge_hover_normalized, AppSettings, EdgeSettings, GeneralSettings, PasteSettings, WebdavSettings,
    WindowSettings,
};
use crate::text::own;
use vstd::string::StrSliceExecFns;

verus! {

/// What saving new settings stores and which side effects follow.
pub struct SaveSettingsPlan {
    /// The settings to store; when `capture_window_size` is set, the caller
    /// first puts the main window's current size in `window.saved_window_size`.
    pub settings: AppSettings,
    /// A WebDAV password to put in the credential store before anything is
    /// saved; it is never written with the settings.
    pub webdav_password: Option<String>,
    /// Edge hiding was turned off: the snap position is cleared (the caller
    /// clears the snap ratio it keeps beside the settings too), and after
    /// saving the window leaves its edge-hidden form.
    pub edge_hide_disabled: bool,
    /// The hover popup changed: after saving, a hidden snapped window is refreshed.
    pub refresh_edge_hover: bool,
    /// Remembering the window size was turned on.
    pub capture_window_size: bool,
    /// Remembering the window size was turned off: the window goes back to its default size.
    pub restore_default_window_size: bool,
    /// The WebDAV address, user or root changed: cached encryption keys are dropped.
    pub clear_crypto_keys: bool,
    /// The clipboard monitor's new state, when it changed.
    pub clipboard_monitor: Option<bool>,
    /// The quick paste window's new state, when it changed.
    pub quickpaste_enabled: Option<bool>,
    /// The tray icon's new visibility, when it changed.
    pub show_tray_icon: Option<bool>,
}

/// The migration version kept when saving: the stored one when the new
/// settings carry none or an older one.
pub open spec fn kept_migration_version(current: Option<u32>, incoming: Option<u32>) -> Option<u32> {
    match incoming {
        None => current,
        Some(v) => match current {
            Some(c) => if v < c { current } else { incoming },
            None => incoming,
        },
    }
}

/// The update check interval a setting names: `every3days`, `weekly`, else `daily`.
pub open spec fn update_interval_of(value: Seq<char>) -> Seq<char> {
    if value == "every3days"@ {
        "every3days"@
    } else if value == "weekly"@ {
        "weekly"@
    } else {
        "daily"@
    }
}

/// The change of a flag: its new value when it differs from the old one.
pub open spec fn changed_to(old_value: bool, new_value: bool) -> Option<bool> {
    if old_value != new_value { Some(new_value) } else { None }
}

/// Whether `p` is the plan of saving `incoming` over the settings `current`:
/// the hover popup is normalised, the password is taken out, the migration
/// version never goes back, the application filter is normalised, the snap
/// position is dropped when edge hiding is turned off, the update interval is
/// normalised and the saved window size is dropped when it is not remembered.
pub open spec fn save_plan_of(current: AppSettings, incoming: AppSettings, p: SaveSettingsPlan) -> bool {
    let n = edge_hover_normalized(incoming);
    let versioned = AppSettings {
        settings_migration_version: kept_migration_version(current.settings_migration_version, n.settings_migration_version),
        ..n
    };
    let b = p.settings;
    let hide_off = current.edge.edge_hide_enabled != n.edge.edge_hide_enabled && !n.edge.edge_hide_enabled;
    let remember_on = !current.window.remember_window_size && n.window.remember_window_size;
    let remember_off = current.window.remember_window_size && !n.window.remember_window_size;
    &&& app_filter_normalized(versioned, AppSettings { app_filter: b.app_filter, ..versioned })
    &&& b.edge == (if hide_off {
        EdgeSettings { edge_snap_position: None, edge_snap_edge: None, edge_snap_monitor_id: None, ..n.edge }
    } else {
        n.edge
    })
    &&& b.paste == PasteSettings { update_check_interval: b.paste.update_check_interval, ..n.paste }
    &&& b.paste.update_check_interval@ == update_interval_of(n.paste.update_check_interval@)
    &&& b.window == (if !n.window.remember_window_size {
        WindowSettings { saved_window_size: None, ..n.window }
    } else {
        n.window
    })
    &&& b.webdav == WebdavSettings { webdav_password: b.webdav.webdav_password, ..n.webdav }
    &&& b.webdav.webdav_password@.len() == 0
    &&& b == AppSettings {
        app_filter: b.app_filter,
        edge: b.edge,
        paste: b.paste,
        window: b.window,
        webdav: b.webdav,
        ..versioned
    }
    &&& (if n.webdav.webdav_password@.len() > 0 {
        p.webdav_password is Some && p.webdav_password->0@ == n.webdav.webdav_password@
    } else {
        p.webdav_password is None
    })
    &&& p.edge_hide_disabled == hide_off
    &&& p.refresh_edge_hover == (current.edge.edge_hover_popup_enabled != n.edge.edge_hover_popup_enabled)
    &&& p.capture_window_size == remember_on
    &&& p.restore_default_window_size == remember_off
    &&& p.clear_crypto_keys == (current.webdav.webdav_url@ != n.webdav.webdav_url@
        || current.webdav.webdav_username@ != n.webdav.webdav_username@
        || current.webdav.webdav_root_path@ != n.webdav.webdav_root_path@)
    &&& p.clipboard_monitor == changed_to(current.general.clipboard_monitor, n.general.clipboard_monitor)
    &&& p.quickpaste_enabled == changed_to(current.quickpaste.quickpaste_enabled, n.quickpaste.quickpaste_enabled)
    &&& p.show_tray_icon == changed_to(current.general.show_tray_icon, n.general.show_tray_icon)
}

fn keep_version(current: Option<u32>, incoming: Option<u32>) -> (r: Option<u32>)
    ensures
        r == kept_migration_version(current, incoming),
{
    match incoming {
        None => current,
        Some(v) => match current {
            Some(c) => if v < c { current } else { incoming },
            None => incoming,
        },
    }
}

fn flag_change(old_value: bool, new_value: bool) -> (r: Option<bool>)
    ensures
        r == changed_to(old_value, new_value),
{
    if old_value != new_value { Some(new_value) } else { None }
}

fn take_webdav_password(s: &mut AppSettings) -> (r: Option<String>)
    ensures
        *final(s) == (AppSettings {
            webdav: WebdavSettings { webdav_password: final(s).webdav.webdav_password, ..old(s).webdav },
            ..*old(s)
        }),
        final(s).webdav.webdav_password@.len() == 0,
        old(s).webdav.webdav_password@.len() > 0 ==> r is Some && r->0@ == old(s).webdav.webdav_password@,
        old(s).webdav.webdav_password@.len() == 0 ==> r is None,
{
    let mut password = String::new();
    std::mem::swap(&mut password, &mut s.webdav.webdav_password);
    if password.as_str().unicode_len() > 0 { Some(password) } else { None }
}

fn tidy_saved_fields(s: &mut AppSettings, hide_off: bool)
    ensures
        final(s).edge == (if hide_off {
            EdgeSettings { edge_snap_position: None, edge_snap_edge: None, edge_snap_monitor_id: None, ..old(s).edge }
        } else {
            old(s).edge
        }),
        final(s).paste == (PasteSettings { update_check_interval: final(s).paste.update_check_interval, ..old(s).paste }),
        final(s).paste.update_check_interval@ == update_interval_of(old(s).paste.update_check_interval@),
        final(s).window == (if !old(s).window.remember_window_size {
            WindowSettings { saved_window_size: None, ..old(s).window }
        } else {
            old(s).window
        }),
        *final(s) == (AppSettings { edge: final(s).edge, paste: final(s).paste, window: final(s).window, ..*old(s) }),
{
    if hide_off {
        s.edge.edge_snap_position = None;
        s.edge.edge_snap_edge = None;
        s.edge.edge_snap_monitor_id = None;
    }
    let interval = AppSettings::normalize_update_check_interval(s.paste.update_check_interval.as_str());
    s.paste.update_check_interval = own(interval);
    if !s.window.remember_window_size {
        s.window.saved_window_size = None;
    }
}

/// Plans saving `settings` over the settings in force `current`.
#[verifier::rlimit(50)]
pub fn plan_save_settings(current: &AppSettings, settings: AppSettings) -> (r: SaveSettingsPlan)
    ensures
        save_plan_of(*current, settings, r),
{
    let mut s = settings;
    s.normalize_edge_hover_invariant();
    let ghost n = s;
    let webdav_password = take_webdav_password(&mut s);
    let ghost s1 = s;
    s.settings_migration_version = keep_version(current.settings_migration_version, s.settings_migration_version);
    let ghost s2 = s;
    let _ = s.normalize_app_filter_blocklist();
    let ghost s3 = s;
    let edge_hide_disabled = current.edge.edge_hide_enabled != s.edge.edge_hide_enabled && !s.edge.edge_hide_enabled;
    let refresh_edge_hover = current.edge.edge_hover_popup_enabled != s.edge.edge_hover_popup_enabled;
    let capture_window_size = !current.window.remember_window_size && s.window.remember_window_size;
    let restore_default_window_size = current.window.remember_window_size && !s.window.remember_window_size;
    let clear_crypto_keys = current.webdav.webdav_url != s.webdav.webdav_url
        || current.webdav.webdav_username != s.webdav.webdav_username
        || current.webdav.webdav_root_path != s.webdav.webdav_root_path;
    let clipboard_monitor = flag_change(current.general.clipboard_monitor, s.general.clipboard_monitor);
    let quickpaste_enabled = flag_change(current.quickpaste.quickpaste_enabled, s.quickpaste.quickpaste_enabled);
    let show_tray_icon = flag_change(current.general.show_tray_icon, s.general.show_tray_icon);
    tidy_saved_fields(&mut s, edge_hide_disabled);
    let ghost versioned = AppSettings {
        settings_migration_version: kept_migration_version(current.settings_migration_version, n.settings_migration_version),
        ..n
    };
    assert(s2 == AppSettings { webdav: s1.webdav, ..versioned });
    assert(s3 == AppSettings { app_filter: s3.app_filter, webdav: s1.webdav, ..versioned });
    assert(app_filter_normalized(versioned, AppSettings { app_filter: s3.app_filter, ..versioned }));
    SaveSettingsPlan {
        settings: s,
        webdav_password,
        edge_hide_disabled,
        refresh_edge_hover,
        capture_window_size,
        restore_default_window_size,
        clear_crypto_keys,
        clipboard_monitor,
        quickpaste_enabled,
        show_tray_icon,
    }
}

/// Flips formatted pasting. Returns the settings to save and the
/// notification shown afterwards.
pub fn toggle_paste_with_format(settings: AppSettings) -> (r: (AppSettings, &'static str))
    ensures
        r.0 == (AppSettings {
            paste: PasteSettings { paste_with_format: !settings.paste.paste_with_format, ..settings.paste },
            ..settings
        }),
        r.1@ == (if r.0.paste.paste_with_format { "格式粘贴已启用"@ } else { "格式粘贴已禁用"@ }),
{
    let mut s = settings;
    s.paste.paste_with_format = !s.paste.paste_with_format;
    let message = if s.paste.paste_with_format { "格式粘贴已启用" } else { "格式粘贴已禁用" };
    (s, message)
}

/// Flips the clipboard monitor. Returns the settings to save and the
/// notification shown afterwards.
pub fn toggle_clipboard_monitor(settings: AppSettings) -> (r: (AppSettings, &'static str))
    ensures
        r.0 == (AppSettings {
            general: GeneralSettings { clipboard_monitor: !settings.general.clipboard_monitor, ..settings.general },
            ..settings
        }),
        r.1@ == (if r.0.general.clipboard_monitor { "剪贴板监听已启用"@ } else { "剪贴板监听已禁用"@ }),
{
    let mut s = settings;
    s.general.clipboard_monitor = !s.general.clipboard_monitor;
    let message = if s.general.clipboard_monitor { "剪贴板监听已启用" } else { "剪贴板监听已禁用" };
    (s, message)
}

/// What switching the administrator start asks of the system before the
/// new setting is saved.
#[derive(Debug, Clone, Copy, PartialEq, Eq, Structural)]
pub enum RunAsAdminStep {
    /// The setting already has the requested value: nothing happens.
    Unchanged,
    /// Only the setting is saved.
    SaveOnly,
    /// The start-up entry is registered again for an elevated start with
    /// the given auto-start flag, then the setting is saved.
    ConfigureElevatedAutoStart(bool),
    /// The start-up entry goes back to a standard start with the given
    /// auto-start flag, then the setting is saved.
    SwitchToStandard(bool),
}

/// Decides how to switch the administrator start to `enabled`, given
/// whether the process already runs elevated.
pub fn plan_run_as_admin(current: &AppSettings, enabled: bool, running_as_admin: bool) -> (r: RunAsAdminStep)
    ensures
        r == (if current.general.run_as_admin == enabled {
            RunAsAdminStep::Unchanged
        } else if enabled {
            if running_as_admin {
                RunAsAdminStep::ConfigureElevatedAutoStart(current.general.auto_start)
            } else {
                RunAsAdminStep::SaveOnly
            }
        } else {
            RunAsAdminStep::SwitchToStandard(current.general.auto_start)
        }),
{
    if current.general.run_as_admin == enabled {
        RunAsAdminStep::Unchanged
    } else if enabled {
        if running_as_admin {
            RunAsAdminStep::ConfigureElevatedAutoStart(current.general.auto_start)
        } else {
            RunAsAdminStep::SaveOnly
        }
    } else {
        RunAsAdminStep::SwitchToStandard(current.general.auto_start)
    }
}

} // verus!
