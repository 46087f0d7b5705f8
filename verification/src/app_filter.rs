use vstd::prelude::*;
use crate::text::{str_eq, to_lowercase, unicode_lowercase};
use vstd::string::StrSliceExecFns;

verus! {

/// Where a clipboard change came from.
#[derive(Debug, Clone)]
pub struct ClipboardSourceInfo {
    pub process_name: String,
    pub process_path: String,
    pub window_title: String,
    pub source_type: ClipboardSourceType,
}

/// How the source of a clipboard change was found.
#[derive(Debug, Clone, Copy, PartialEq, Eq, Structural)]
pub enum ClipboardSourceType {
    ClipboardOwner,
    ForegroundWindow,
    Unknown,
}

/// An application as the filter lists it.
#[derive(Debug, Clone)]
pub struct AppInfo {
    pub name: String,
    pub process: String,
    pub path: String,
    pub icon: Option<String>,
}

/// The source reported for a clipboard change: the cached one when it names
/// a process; else the clipboard owner's when it names one; else the
/// foreground window's; else an unknown source. `owner` and `foreground`
/// are what the windows of each kind told, when there was such a window.
pub open spec fn clipboard_source_choice(
    cached: Option<ClipboardSourceInfo>,
    owner: Option<ClipboardSourceInfo>,
    foreground: Option<ClipboardSourceInfo>,
) -> Option<ClipboardSourceInfo> {
    if cached is Some && cached->0.process_name@.len() > 0 {
        cached
    } else if owner is Some && owner->0.process_name@.len() > 0 {
        owner
    } else if foreground is Some {
        foreground
    } else {
        None
    }
}

/// Picks the source of a clipboard change; `None` stands for an unknown
/// source, reported with empty names.
pub fn get_clipboard_source(
    cached: Option<ClipboardSourceInfo>,
    owner: Option<ClipboardSourceInfo>,
    foreground: Option<ClipboardSourceInfo>,
) -> (r: ClipboardSourceInfo)
    ensures
        match clipboard_source_choice(cached, owner, foreground) {
            Some(s) => r == s,
            None => r.process_name@.len() == 0 && r.process_path@.len() == 0 && r.window_title@.len() == 0
                && r.source_type == ClipboardSourceType::Unknown,
        },
{
    match cached {
        Some(c) => {
            if c.process_name.as_str().unicode_len() > 0 {
                return c;
            }
        },
        None => {},
    }
    match owner {
        Some(o) => {
            if o.process_name.as_str().unicode_len() > 0 {
                return o;
            }
        },
        None => {},
    }
    match foreground {
        Some(f) => f,
        None => ClipboardSourceInfo {
            process_name: String::new(),
            process_path: String::new(),
            window_title: String::new(),
            source_type: ClipboardSourceType::Unknown,
        },
    }
}

/// The name reported for a process: a UWP host process is reported by the
/// name of the app it hosts, when that was found.
pub open spec fn reported_process_name(process_name: Seq<char>, hosted_app: Option<Seq<char>>) -> Seq<char> {
    if unicode_lowercase(process_name) == "applicationframehost.exe"@ && hosted_app is Some {
        hosted_app->0
    } else {
        process_name
    }
}

/// Names the process a clipboard change came from.
pub fn source_process_name(process_name: String, hosted_app: Option<String>) -> (r: String)
    ensures
        r@ == reported_process_name(process_name@, match hosted_app { Some(h) => Some(h@), None => None }),
{
    let lower = to_lowercase(process_name.as_str());
    if str_eq(lower.as_str(), "applicationframehost.exe") {
        match hosted_app {
            Some(h) => return h,
            None => {},
        }
    }
    process_name
}

} // verus!
