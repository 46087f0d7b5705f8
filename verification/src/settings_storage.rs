use vstd::prelude::*;
use crate::text::{chars_of, extend_chars, own, string_of};

verus! {

/// What reading and recovering one settings file gave.
#[derive(Debug, Clone, PartialEq, Eq)]
pub enum SettingsDocument {
    /// There is no such file.
    Missing,
    /// The file could not be read; the error text.
    Unreadable(String),
    /// The file is not a settings document at all; the error text.
    Invalid(String),
    /// The settings were recovered; some field was refused when
    /// `rejected_any_field` is set.
    Recovered { rejected_any_field: bool },
}

/// Where the settings of this launch come from.
#[derive(Debug, Clone, PartialEq, Eq)]
pub enum SettingsLoadDecision {
    /// The settings file itself; when a field was refused, its raw text
    /// is backed up and the recovered settings are written back.
    UseTarget { preserve_and_rewrite: bool },
    /// The legacy file at `index`; its text is backed up when a field was
    /// refused, and the settings are then written to the settings file.
    UseLegacy { index: usize, preserve: bool },
    /// Loading fails with this error; nothing is overwritten.
    Fail(String),
    /// No settings exist yet: the defaults are used.
    Defaults,
}

/// The decision over legacy candidates from position `k` on, after the
/// error `last` of the candidates before.
pub open spec fn legacy_decision(legacy: Seq<SettingsDocument>, k: int, last: Option<Seq<char>>) -> SettingsLoadDecision
    decreases legacy.len() - k,
{
    if k < 0 || k >= legacy.len() {
        match last {
            Some(e) => SettingsLoadDecision::Fail(string_with(e)),
            None => SettingsLoadDecision::Defaults,
        }
    } else {
        match legacy[k] {
            SettingsDocument::Missing => legacy_decision(legacy, k + 1, last),
            SettingsDocument::Unreadable(e) => legacy_decision(legacy, k + 1, Some(e@)),
            SettingsDocument::Invalid(e) => legacy_decision(legacy, k + 1, Some(e@)),
            SettingsDocument::Recovered { rejected_any_field } => SettingsLoadDecision::UseLegacy {
                index: k as usize,
                preserve: rejected_any_field,
            },
        }
    }
}

/// Some string whose text is `s`.
pub open spec fn string_with(s: Seq<char>) -> String {
    choose|x: String| x@ == s
}

/// Whether a decision is the one made for a settings file and its legacy
/// candidates: a settings file that exists decides alone (a damaged or
/// unreadable one fails rather than being replaced); else the first legacy
/// candidate that was recovered; else the last candidate's error; else the
/// defaults.
pub open spec fn load_decision_is(target: SettingsDocument, legacy: Seq<SettingsDocument>, d: SettingsLoadDecision) -> bool {
    match target {
        SettingsDocument::Unreadable(e) => d matches SettingsLoadDecision::Fail(m) && m@ == e@,
        SettingsDocument::Invalid(e) => d matches SettingsLoadDecision::Fail(m) && m@ == e@,
        SettingsDocument::Recovered { rejected_any_field } => d == SettingsLoadDecision::UseTarget {
            preserve_and_rewrite: rejected_any_field,
        },
        SettingsDocument::Missing => match legacy_decision(legacy, 0, None) {
            SettingsLoadDecision::Fail(m) => d matches SettingsLoadDecision::Fail(x) && x@ == m@,
            other => d == other,
        },
    }
}

proof fn lemma_string_with(s: Seq<char>, x: String)
    requires
        x@ == s,
    ensures
        string_with(s)@ == s,
{
}

/// Decides where the settings come from, given what reading the settings
/// file and each legacy candidate, in order, gave.
pub fn decide_settings_source(target: &SettingsDocument, legacy: &Vec<SettingsDocument>) -> (d: SettingsLoadDecision)
    ensures
        load_decision_is(*target, legacy@, d),
{
    match target {
        SettingsDocument::Unreadable(e) => return SettingsLoadDecision::Fail(e.clone()),
        SettingsDocument::Invalid(e) => return SettingsLoadDecision::Fail(e.clone()),
        SettingsDocument::Recovered { rejected_any_field } => {
            return SettingsLoadDecision::UseTarget { preserve_and_rewrite: *rejected_any_field };
        },
        SettingsDocument::Missing => {},
    }
    let mut last: Option<String> = None;
    let mut i: usize = 0;
    while i < legacy.len()
        invariant
            *target is Missing,
            i <= legacy@.len(),
            legacy_decision(legacy@, 0, None) == legacy_decision(
                legacy@,
                i as int,
                match last { Some(e) => Some(e@), None => None },
            ),
        decreases legacy.len() - i,
    {
        match &legacy[i] {
            SettingsDocument::Missing => {},
            SettingsDocument::Unreadable(e) => { last = Some(e.clone()); },
            SettingsDocument::Invalid(e) => { last = Some(e.clone()); },
            SettingsDocument::Recovered { rejected_any_field } => {
                return SettingsLoadDecision::UseLegacy { index: i, preserve: *rejected_any_field };
            },
        }
        i = i + 1;
    }
    match last {
        Some(e) => {
            proof { lemma_string_with(e@, e); }
            SettingsLoadDecision::Fail(e)
        },
        None => SettingsLoadDecision::Defaults,
    }
}

/// What probing one backup slot of an incompatible settings document gave.
#[derive(Debug, Clone, PartialEq, Eq)]
pub enum BackupSlotProbe {
    /// The slot holds this very document.
    Same,
    /// The slot holds another document.
    Different,
    /// The slot is free.
    Missing,
    /// The slot could not be read; the error text.
    ReadError(String),
}

/// Where the raw text of an incompatible settings document is kept.
#[derive(Debug, Clone, PartialEq, Eq)]
pub enum BackupSlotAction {
    /// A slot already holds it.
    AlreadyKept,
    /// It is written to the free slot `index`.
    WriteAt(usize),
    /// A slot could not be read: nothing is overwritten and loading fails.
    Fail(String),
    /// Every slot holds another document: the oldest, slot zero, is overwritten.
    OverwriteOldest,
}

/// The action for the slots from position `k` on.
pub open spec fn slot_action(slots: Seq<BackupSlotProbe>, k: int) -> BackupSlotAction
    decreases slots.len() - k,
{
    if k < 0 || k >= slots.len() {
        BackupSlotAction::OverwriteOldest
    } else {
        match slots[k] {
            BackupSlotProbe::Same => BackupSlotAction::AlreadyKept,
            BackupSlotProbe::Different => slot_action(slots, k + 1),
            BackupSlotProbe::Missing => BackupSlotAction::WriteAt(k as usize),
            BackupSlotProbe::ReadError(e) => BackupSlotAction::Fail(
                string_with("读取不兼容设置备份失败，已拒绝覆盖原设置: "@ + e@),
            ),
        }
    }
}

/// Whether `a` is the action for the slot probes, in slot order: the first
/// slot that holds the document, is free, or cannot be read decides; with
/// none, the oldest slot is overwritten rather than refusing to start.
pub open spec fn slot_action_is(slots: Seq<BackupSlotProbe>, a: BackupSlotAction) -> bool {
    match slot_action(slots, 0) {
        BackupSlotAction::Fail(m) => a matches BackupSlotAction::Fail(x) && x@ == m@,
        other => a == other,
    }
}

/// Chooses where to keep the raw text of an incompatible settings
/// document, given the probes of the backup slots in order.
pub fn choose_backup_slot(slots: &Vec<BackupSlotProbe>) -> (a: BackupSlotAction)
    ensures
        slot_action_is(slots@, a),
{
    let mut i: usize = 0;
    while i < slots.len()
        invariant
            i <= slots@.len(),
            slot_action(slots@, 0) == slot_action(slots@, i as int),
        decreases slots.len() - i,
    {
        match &slots[i] {
            BackupSlotProbe::Same => return BackupSlotAction::AlreadyKept,
            BackupSlotProbe::Different => {},
            BackupSlotProbe::Missing => return BackupSlotAction::WriteAt(i),
            BackupSlotProbe::ReadError(e) => {
                let mut m = chars_of("读取不兼容设置备份失败，已拒绝覆盖原设置: ");
                let ec = chars_of(e.as_str());
                extend_chars(&mut m, ec.as_slice());
                let s = string_of(m.as_slice());
                proof { lemma_string_with(s@, s); }
                return BackupSlotAction::Fail(s);
            },
        }
        i = i + 1;
    }
    BackupSlotAction::OverwriteOldest
}

/// Law: a settings file that was recovered is used whatever the legacy
/// candidates hold, and one that is damaged or unreadable makes loading
/// fail rather than being replaced by a legacy candidate.
pub proof fn lemma_target_decides_alone(target: SettingsDocument, legacy: Seq<SettingsDocument>, d: SettingsLoadDecision)
    requires
        load_decision_is(target, legacy, d),
        !(target is Missing),
    ensures
        !(d is UseLegacy),
        !(d is Defaults),
{
}

/// The name of the `index`-th backup of an incompatible settings file
/// `<stem>.json`: `<stem>.json.incompatible.bak`, then
/// `<stem>.json.incompatible.<index>.bak`.
pub fn incompatible_backup_suffix(index: usize) -> (r: String)
    ensures
        index == 0 ==> r@ == "json.incompatible.bak"@,
        index > 0 ==> r@ == "json.incompatible."@ + crate::text::decimal(index as nat) + ".bak"@,
{
    if index == 0 {
        return own("json.incompatible.bak");
    }
    let mut m = chars_of("json.incompatible.");
    let d = crate::text::decimal_chars(index as u64);
    extend_chars(&mut m, d.as_slice());
    let b = chars_of(".bak");
    extend_chars(&mut m, b.as_slice());
    string_of(m.as_slice())
}

/// A directory joined with two path components in turn.
pub open spec fn join2(dir: Seq<char>, a: Seq<char>, b: Seq<char>) -> Seq<char> {
    crate::paths::join_path(crate::paths::join_path(dir, a), b)
}

/// `p` appended to `list` unless the list already holds the same path.
pub open spec fn push_new_path(list: Seq<Seq<char>>, p: Seq<char>) -> Seq<Seq<char>> {
    if exists|i: int| 0 <= i < list.len() && crate::data_management::same_path(#[trigger] list[i], p) {
        list
    } else {
        list.push(p)
    }
}

/// The older places a settings file may be found, in the order they are
/// tried: beside the executable under `data`, then under the two former
/// application folders of the local data directory; never the settings file
/// itself, and no place twice.
pub open spec fn legacy_settings_candidates_of(target: Seq<char>, exe_dir: Option<Seq<char>>, local_data: Option<Seq<char>>) -> Seq<Seq<char>> {
    let a: Seq<Seq<char>> = match exe_dir {
        Some(d) => {
            let p = join2(d, "data"@, "settings.json"@);
            if crate::data_management::same_path(p, target) { Seq::empty() } else { seq![p] }
        },
        None => Seq::empty(),
    };
    match local_data {
        Some(l) => {
            let p1 = join2(l, "quickclipboard"@, "settings.json"@);
            let b = if crate::data_management::same_path(p1, target) { a } else { push_new_path(a, p1) };
            let p2 = join2(l, "com.quickclipboard.app"@, "settings.json"@);
            if crate::data_management::same_path(p2, target) { b } else { push_new_path(b, p2) }
        },
        None => a,
    }
}

fn join2_str(dir: &str, a: &str, b: &str) -> (r: String)
    ensures
        r@ == join2(dir@, a@, b@),
{
    let ac = chars_of(a);
    let first = crate::paths::join_path_str(dir, ac.as_slice());
    let bc = chars_of(b);
    crate::paths::join_path_str(first.as_str(), bc.as_slice())
}

fn push_new(list: &mut Vec<String>, p: String)
    ensures
        final(list)@.map_values(|s: String| s@) == push_new_path(old(list)@.map_values(|s: String| s@), p@),
{
    let ghost lv = list@.map_values(|s: String| s@);
    let mut i: usize = 0;
    while i < list.len()
        invariant
            i <= list@.len(),
            lv == list@.map_values(|s: String| s@),
            forall|j: int| 0 <= j < i ==> !crate::data_management::same_path(#[trigger] lv[j], p@),
        decreases list.len() - i,
    {
        if crate::data_management::paths_equal(list[i].as_str(), p.as_str()) {
            assert(crate::data_management::same_path(lv[i as int], p@));
            return;
        }
        i = i + 1;
    }
    let ghost pv = p@;
    list.push(p);
    assert(list@.map_values(|s: String| s@) =~= lv.push(pv));
}

/// Lists the older places a settings file may be found; `exe_dir` is the
/// executable's folder and `local_data` the local data directory, when known.
pub fn legacy_settings_paths(target: &str, exe_dir: Option<&str>, local_data: Option<&str>) -> (r: Vec<String>)
    ensures
        r@.map_values(|s: String| s@) == legacy_settings_candidates_of(target@, match exe_dir {
            Some(d) => Some(d@),
            None => None,
        }, match local_data {
            Some(l) => Some(l@),
            None => None,
        }),
{
    let mut paths: Vec<String> = Vec::new();
    match exe_dir {
        Some(d) => {
            let p = join2_str(d, "data", "settings.json");
            if !crate::data_management::paths_equal(p.as_str(), target) {
                paths.push(p);
            }
        },
        None => {},
    }
    assert(paths@.map_values(|s: String| s@) =~= (match exe_dir {
        Some(d) => {
            let p = join2(d@, "data"@, "settings.json"@);
            if crate::data_management::same_path(p, target@) { Seq::<Seq<char>>::empty() } else { seq![p] }
        },
        None => Seq::<Seq<char>>::empty(),
    }));
    match local_data {
        Some(l) => {
            let p1 = join2_str(l, "quickclipboard", "settings.json");
            if !crate::data_management::paths_equal(p1.as_str(), target) {
                push_new(&mut paths, p1);
            }
            let p2 = join2_str(l, "com.quickclipboard.app", "settings.json");
            if !crate::data_management::paths_equal(p2.as_str(), target) {
                push_new(&mut paths, p2);
            }
        },
        None => {},
    }
    paths
}

/// How one field of a damaged settings file is tried during recovery: the
/// current field a legacy key replaces (dropped from the candidate before
/// the legacy value goes in), and whether the key is unknown to the
/// settings model.
#[derive(Debug, Clone, Copy, PartialEq, Eq)]
pub struct FieldAttempt {
    pub replaces: Option<&'static str>,
    pub unknown: bool,
}

/// Plans the attempt for the field `key`; `known` tells whether the
/// settings model has a field of that name.
pub fn field_attempt(key: &str, known: bool) -> (r: FieldAttempt)
    ensures
        match crate::settings::legacy_alias_of(key@) {
            Some(t) => r.replaces is Some && r.replaces->0@ == t,
            None => r.replaces is None,
        },
        r.unknown == (!known && crate::settings::legacy_alias_of(key@) is None),
{
    let replaces = crate::settings::legacy_setting_alias_target(key);
    let unknown = !known && replaces.is_none();
    FieldAttempt { replaces, unknown }
}

/// What a recovery found across the fields of a damaged settings file.
#[derive(Debug, Clone, Copy, PartialEq, Eq)]
pub struct RecoveryTally {
    /// Some field's value was refused and the default kept.
    pub rejected_any_field: bool,
    /// Some field is not part of the settings model.
    pub unknown_any_field: bool,
}

impl RecoveryTally {
    /// Nothing refused, nothing unknown.
    pub fn new() -> (r: Self)
        ensures
            !r.rejected_any_field,
            !r.unknown_any_field,
    {
        RecoveryTally { rejected_any_field: false, unknown_any_field: false }
    }

    /// Records one attempted field: whether its key was unknown and whether
    /// the settings with it in place were accepted.
    pub fn record(&mut self, attempt: FieldAttempt, accepted: bool)
        ensures
            final(self).rejected_any_field == (old(self).rejected_any_field || !accepted),
            final(self).unknown_any_field == (old(self).unknown_any_field || attempt.unknown),
    {
        self.rejected_any_field = self.rejected_any_field || !accepted;
        self.unknown_any_field = self.unknown_any_field || attempt.unknown;
    }
}

} // verus!
