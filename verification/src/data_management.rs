use vstd::prelude::*;
use crate::lan_files::named_segments;
use crate::paths::{is_separator, segments, strip_drive};
use crate::database::{join, join_strings, texts};
use crate::settings::{edge_hover_normalized, AppSettings, StorageSettings};
use crate::migration::{item_file_name_of, DataItem, ItemPresence};
use crate::text::{chars_has, chars_of, chars_starts_with, contains, extend_chars, occurs_at, own, split_chars, str_eq, string_of};

verus! {

/// What a directory chosen as the new data location already holds.
#[derive(Debug, Clone)]
pub struct TargetDataInfo {
    pub has_data: bool,
    pub has_database: bool,
    pub has_images: bool,
    pub has_image_library: bool,
    pub database_size: u64,
    pub images_count: usize,
    pub images_size: u64,
    pub image_library_count: usize,
    pub image_library_size: u64,
}

/// A full backup archive.
#[derive(Debug, Clone)]
pub struct BackupInfo {
    pub path: String,
    pub name: String,
    pub size: u64,
    pub created_at: String,
}

/// Summarises what a directory holds: it has images or library pictures
/// when it holds at least one such file, and data when it has any of the three.
pub fn target_data_info(
    has_database: bool,
    database_size: u64,
    images_count: usize,
    images_size: u64,
    image_library_count: usize,
    image_library_size: u64,
) -> (r: TargetDataInfo)
    ensures
        r.has_database == has_database,
        r.has_images == (images_count > 0),
        r.has_image_library == (image_library_count > 0),
        r.has_data == (has_database || images_count > 0 || image_library_count > 0),
        r.database_size == database_size,
        r.images_count == images_count,
        r.images_size == images_size,
        r.image_library_count == image_library_count,
        r.image_library_size == image_library_size,
{
    TargetDataInfo {
        has_data: has_database || images_count > 0 || image_library_count > 0,
        has_database,
        has_images: images_count > 0,
        has_image_library: image_library_count > 0,
        database_size,
        images_count,
        images_size,
        image_library_count,
        image_library_size,
    }
}

/// Whether an archive entry name can be extracted under the import
/// directory: not empty, no `..`, not rooted, no drive or UNC colon.
pub open spec fn zip_entry_name_safe(name: Seq<char>) -> bool {
    name.len() > 0 && !contains(name, ".."@) && name[0] != '/' && name[0] != '\\' && !name.contains(':')
}

/// The entry name when it is safe to extract, `None` otherwise.
pub fn safe_zip_entry_name(name: &str) -> (r: Option<String>)
    ensures
        zip_entry_name_safe(name@) ==> r is Some && r->0@ == name@,
        !zip_entry_name_safe(name@) ==> r is None,
{
    let cs = chars_of(name);
    if cs.len() == 0 {
        return None;
    }
    let dots = chars_of("..");
    if crate::text::chars_contains(cs.as_slice(), dots.as_slice()) {
        return None;
    }
    if cs[0] == '/' || cs[0] == '\\' {
        return None;
    }
    if chars_has(cs.as_slice(), ':') {
        return None;
    }
    Some(own(name))
}

/// How an archive is imported.
#[derive(Debug, Clone, Copy, PartialEq, Eq, Structural)]
pub enum ImportMode {
    /// The current data is backed up and replaced by the archive's.
    Replace,
    /// The archive's data is merged into the current data.
    Merge,
}

/// Reads an import mode; any other word is refused.
pub fn parse_import_mode(mode: &str) -> (r: Result<ImportMode, String>)
    ensures
        mode@ == "replace"@ ==> r == Ok::<ImportMode, String>(ImportMode::Replace),
        mode@ == "merge"@ ==> r == Ok::<ImportMode, String>(ImportMode::Merge),
        mode@ != "replace"@ && mode@ != "merge"@ ==> r is Err && r->Err_0@ == "不支持的导入模式"@,
{
    proof {
        reveal_strlit("replace");
        reveal_strlit("merge");
        assert("replace"@[0] != "merge"@[0]);
    }
    if str_eq(mode, "replace") {
        Ok(ImportMode::Replace)
    } else if str_eq(mode, "merge") {
        Ok(ImportMode::Merge)
    } else {
        Err(own("不支持的导入模式"))
    }
}

/// The drive prefix of a path, such as `C:`, or nothing.
pub open spec fn drive_of(p: Seq<char>) -> Seq<char> {
    p.take((p.len() - strip_drive(p).len()) as int)
}

/// The components of a path as `Path::components` gives them on Windows:
/// its drive, whether it is rooted, whether it starts with `.`, and its
/// named segments.
pub open spec fn path_components(p: Seq<char>) -> (Seq<char>, bool, bool, Seq<Seq<char>>) {
    let rest = strip_drive(p);
    let rooted = rest.len() > 0 && is_separator(rest[0]);
    let cur = !rooted && segments(rest)[0] == "."@;
    (drive_of(p), rooted, cur, named_segments(segments(rest)))
}

/// Whether two paths are equal as paths: same components.
pub open spec fn same_path(a: Seq<char>, b: Seq<char>) -> bool {
    path_components(a) == path_components(b)
}

/// Law (paths on different drives): two paths with different drive
/// prefixes are never the same directory, so a data directory can always be
/// moved to another drive outside the portable build; and a path is the same
/// as itself, so a move onto the current directory is always refused.
pub proof fn lemma_other_drive_is_other_path(portable: bool, new_dir: Seq<char>, current_dir: Seq<char>)
    ensures
        same_path(new_dir, current_dir) ==> drive_of(new_dir) == drive_of(current_dir),
        !portable && drive_of(new_dir) != drive_of(current_dir) ==> storage_change_check(portable, new_dir, current_dir) is Ok,
        !portable ==> storage_change_check(portable, current_dir, current_dir) is Err,
{
}

/// Whether the current data directory may be moved to `new_dir`: not in
/// the portable build, and not onto itself.
pub open spec fn storage_change_check(portable: bool, new_dir: Seq<char>, current_dir: Seq<char>) -> Result<(), Seq<char>> {
    if portable {
        Err("便携版不支持更改存储路径"@)
    } else if same_path(new_dir, current_dir) {
        Err("新位置与当前存储位置相同，无需迁移"@)
    } else {
        Ok(())
    }
}

/// Whether the data directory may be moved back to the default one.
pub open spec fn storage_reset_check(portable: bool, default_dir: Seq<char>, current_dir: Seq<char>) -> Result<(), Seq<char>> {
    if portable {
        Err("便携版不支持重置存储路径"@)
    } else if same_path(current_dir, default_dir) {
        Err("当前已在默认存储位置"@)
    } else {
        Ok(())
    }
}

fn components(p: &str) -> (r: (Vec<char>, bool, bool, Vec<Vec<char>>))
    ensures
        r.0@ == path_components(p@).0,
        r.1 == path_components(p@).1,
        r.2 == path_components(p@).2,
        r.3@.len() == path_components(p@).3.len(),
        forall|i: int| 0 <= i < r.3@.len() ==> (#[trigger] r.3@[i])@ == path_components(p@).3[i],
{
    let cs = chars_of(p);
    let has_drive = cs.len() >= 2 && cs[1] == ':' && (('a' <= cs[0] && cs[0] <= 'z') || ('A' <= cs[0] && cs[0] <= 'Z'));
    let start: usize = if has_drive { 2 } else { 0 };
    let mut drive: Vec<char> = Vec::new();
    let mut rest: Vec<char> = Vec::new();
    let mut i: usize = 0;
    while i < cs.len()
        invariant
            i <= cs@.len(),
            start <= cs@.len(),
            drive@ == cs@.take(if i < start { i as int } else { start as int }),
            rest@ == (if i < start { Seq::<char>::empty() } else { cs@.subrange(start as int, i as int) }),
        decreases cs.len() - i,
    {
        if i < start {
            drive.push(cs[i]);
        } else {
            rest.push(cs[i]);
        }
        i = i + 1;
        assert(drive@ =~= cs@.take(if i < start { i as int } else { start as int }));
        assert(rest@ =~= (if i < start { Seq::<char>::empty() } else { cs@.subrange(start as int, i as int) }));
    }
    assert(rest@ =~= strip_drive(p@));
    assert(drive@ =~= drive_of(p@));
    let rooted = rest.len() > 0 && (rest[0] == '\\' || rest[0] == '/');
    let unified = crate::text::chars_replace(rest.as_slice(), '/', '\\');
    let segs = split_chars(unified.as_slice(), '\\');
    proof { crate::text::lemma_split_nonempty(unified@, '\\'); }
    let first = string_of(segs[0].as_slice());
    let cur = !rooted && str_eq(first.as_str(), ".");
    let ghost sv = segments(rest@);
    let mut named: Vec<Vec<char>> = Vec::new();
    let mut k: usize = 0;
    while k < segs.len()
        invariant
            k <= segs@.len(),
            sv == segments(rest@),
            segs@.len() == sv.len(),
            forall|j: int| 0 <= j < segs@.len() ==> (#[trigger] segs@[j])@ == sv[j],
            named@.len() == named_segments(sv.take(k as int)).len(),
            forall|j: int| 0 <= j < named@.len() ==> (#[trigger] named@[j])@ == named_segments(sv.take(k as int))[j],
        decreases segs.len() - k,
    {
        proof {
            assert(sv.take(k + 1).drop_last() =~= sv.take(k as int));
            assert(sv.take(k + 1).last() == segs@[k as int]@);
        }
        let s = string_of(segs[k].as_slice());
        if !(segs[k].len() == 0 || str_eq(s.as_str(), ".")) {
            named.push(segs[k].clone());
        }
        k = k + 1;
    }
    assert(sv.take(segs@.len() as int) =~= sv);
    (drive, rooted, cur, named)
}

fn same_chars(a: &Vec<char>, b: &Vec<char>) -> (r: bool)
    ensures
        r == (a@ == b@),
{
    let x = string_of(a.as_slice());
    let y = string_of(b.as_slice());
    str_eq(x.as_str(), y.as_str())
}

/// Whether two paths are equal as paths.
pub fn paths_equal(a: &str, b: &str) -> (r: bool)
    ensures
        r == same_path(a@, b@),
{
    let ca = components(a);
    let cb = components(b);
    if !same_chars(&ca.0, &cb.0) || ca.1 != cb.1 || ca.2 != cb.2 || ca.3.len() != cb.3.len() {
        proof {
            if same_path(a@, b@) {
                assert(ca.3@.len() == cb.3@.len());
            }
        }
        return false;
    }
    let mut i: usize = 0;
    while i < ca.3.len()
        invariant
            i <= ca.3@.len(),
            ca.3@.len() == cb.3@.len(),
            ca.3@.len() == path_components(a@).3.len(),
            cb.3@.len() == path_components(b@).3.len(),
            forall|j: int| 0 <= j < ca.3@.len() ==> (#[trigger] ca.3@[j])@ == path_components(a@).3[j],
            forall|j: int| 0 <= j < cb.3@.len() ==> (#[trigger] cb.3@[j])@ == path_components(b@).3[j],
            forall|j: int| 0 <= j < i ==> path_components(a@).3[j] == path_components(b@).3[j],
        decreases ca.3.len() - i,
    {
        if !same_chars(&ca.3[i], &cb.3[i]) {
            return false;
        }
        i = i + 1;
    }
    assert(path_components(a@).3 =~= path_components(b@).3);
    true
}

/// Checks a move of the data directory to `new_dir`.
pub fn check_storage_change(portable: bool, new_dir: &str, current_dir: &str) -> (r: Result<(), String>)
    ensures
        match storage_change_check(portable, new_dir@, current_dir@) {
            Ok(()) => r is Ok,
            Err(m) => r is Err && r->Err_0@ == m,
        },
{
    if portable {
        return Err(own("便携版不支持更改存储路径"));
    }
    if paths_equal(new_dir, current_dir) {
        return Err(own("新位置与当前存储位置相同，无需迁移"));
    }
    Ok(())
}

/// Checks a move of the data directory back to the default one.
pub fn check_storage_reset(portable: bool, default_dir: &str, current_dir: &str) -> (r: Result<(), String>)
    ensures
        match storage_reset_check(portable, default_dir@, current_dir@) {
            Ok(()) => r is Ok,
            Err(m) => r is Err && r->Err_0@ == m,
        },
{
    if portable {
        return Err(own("便携版不支持重置存储路径"));
    }
    if paths_equal(current_dir, default_dir) {
        return Err(own("当前已在默认存储位置"));
    }
    Ok(())
}

/// Whether a file of the backups directory is a full backup archive.
pub fn is_backup_file_name(name: &str) -> (r: bool)
    ensures
        r == (crate::text::starts_with(name@, "quickclipboard-backup-"@) && crate::text::ends_with(name@, ".zip"@)),
{
    let cs = chars_of(name);
    let p = chars_of("quickclipboard-backup-");
    let z = chars_of(".zip");
    chars_starts_with(cs.as_slice(), p.as_slice()) && crate::text::chars_ends_with(cs.as_slice(), z.as_slice())
}

/// A backup as the retention sees it: its modification time and its path.
pub type BackupEntry = (u64, Seq<char>);

/// Whether a file name is a backup archive's.
pub open spec fn is_backup_name(name: Seq<char>) -> bool {
    crate::text::starts_with(name, "quickclipboard-backup-"@) && crate::text::ends_with(name, ".zip"@)
}

/// The backups among directory entries `(file name, path, modified)`, in order.
pub open spec fn backup_entries(entries: Seq<(String, String, u64)>) -> Seq<BackupEntry>
    decreases entries.len(),
{
    if entries.len() == 0 {
        Seq::empty()
    } else {
        let r = backup_entries(entries.drop_last());
        let e = entries.last();
        if is_backup_name(e.0@) { r.push((e.2, e.1@)) } else { r }
    }
}

/// The first position from `k` on of a backup older than `t`, or the end.
pub open spec fn first_older_from(s: Seq<BackupEntry>, t: u64, k: int) -> int
    decreases s.len() - k,
{
    if k < 0 || k >= s.len() {
        s.len() as int
    } else if s[k].0 < t {
        k
    } else {
        first_older_from(s, t, k + 1)
    }
}

/// `s` with `x` put after every backup at least as new as it.
pub open spec fn insert_by_age(s: Seq<BackupEntry>, x: BackupEntry) -> Seq<BackupEntry> {
    s.insert(first_older_from(s, x.0, 0), x)
}

/// Backups newest first; backups of the same time keep their order.
pub open spec fn newest_first(items: Seq<BackupEntry>) -> Seq<BackupEntry>
    decreases items.len(),
{
    if items.len() == 0 {
        Seq::empty()
    } else {
        insert_by_age(newest_first(items.drop_last()), items.last())
    }
}

/// The paths of the backups that retention removes: all but the `keep`
/// newest.
pub open spec fn backups_removed(entries: Seq<(String, String, u64)>, keep: nat) -> Seq<Seq<char>> {
    let sorted = newest_first(backup_entries(entries));
    if sorted.len() > keep {
        sorted.skip(keep as int).map_values(|e: BackupEntry| e.1)
    } else {
        Seq::empty()
    }
}

/// Whether backups are listed newest first.
pub open spec fn sorted_newest_first(s: Seq<BackupEntry>) -> bool {
    forall|i: int, j: int| 0 <= i < j < s.len() ==> s[i].0 >= s[j].0
}

proof fn lemma_first_older_from(s: Seq<BackupEntry>, t: u64, k: int)
    requires
        0 <= k <= s.len(),
        sorted_newest_first(s),
    ensures
        k <= first_older_from(s, t, k) <= s.len(),
        forall|j: int| k <= j < first_older_from(s, t, k) ==> s[j].0 >= t,
        forall|j: int| first_older_from(s, t, k) <= j < s.len() ==> s[j].0 < t,
    decreases s.len() - k,
{
    if k < s.len() && s[k].0 >= t {
        lemma_first_older_from(s, t, k + 1);
    }
}

/// Law: the retention order lists backups newest first and loses none.
pub proof fn lemma_newest_first_sorted(items: Seq<BackupEntry>)
    ensures
        sorted_newest_first(newest_first(items)),
        newest_first(items).len() == items.len(),
    decreases items.len(),
{
    if items.len() > 0 {
        let s = newest_first(items.drop_last());
        lemma_newest_first_sorted(items.drop_last());
        let x = items.last();
        lemma_first_older_from(s, x.0, 0);
        let k = first_older_from(s, x.0, 0);
        let n = s.insert(k, x);
        assert forall|i: int, j: int| 0 <= i < j < n.len() implies n[i].0 >= n[j].0 by {
            if j < k {
            } else if j == k {
            } else if i < k {
            } else if i == k {
            } else {
            }
        }
    }
}

/// Law: retention removes exactly the backups beyond the `keep` newest, and
/// none of them is newer than a backup it keeps.
pub proof fn lemma_retention_keeps_newest(entries: Seq<(String, String, u64)>, keep: nat)
    ensures
        ({
            let sorted = newest_first(backup_entries(entries));
            &&& backups_removed(entries, keep).len() == (if sorted.len() > keep { sorted.len() - keep } else { 0 })
            &&& forall|i: int, j: int| 0 <= i < keep && keep <= j < sorted.len() ==> sorted[i].0 >= sorted[j].0
        }),
{
    lemma_newest_first_sorted(backup_entries(entries));
}

fn first_older_index(sorted: &Vec<(u64, String)>, t: u64) -> (k: usize)
    ensures
        k == first_older_from(sorted@.map_values(|p: (u64, String)| (p.0, p.1@)), t, 0),
{
    let ghost v = sorted@.map_values(|p: (u64, String)| (p.0, p.1@));
    let mut i: usize = 0;
    while i < sorted.len()
        invariant
            i <= sorted@.len(),
            v == sorted@.map_values(|p: (u64, String)| (p.0, p.1@)),
            first_older_from(v, t, 0) == first_older_from(v, t, i as int),
        decreases sorted.len() - i,
    {
        if sorted[i].0 < t {
            return i;
        }
        i = i + 1;
    }
    i
}

/// The backups that retention removes from a listing of the backups
/// directory `(file name, path, modified)`: every backup archive but the
/// `keep` newest, oldest last.
pub fn backups_to_remove(entries: &Vec<(String, String, u64)>, keep: usize) -> (r: Vec<String>)
    ensures
        r@.map_values(|s: String| s@) == backups_removed(entries@, keep as nat),
{
    let mut sorted: Vec<(u64, String)> = Vec::new();
    let mut i: usize = 0;
    while i < entries.len()
        invariant
            i <= entries@.len(),
            sorted@.map_values(|p: (u64, String)| (p.0, p.1@)) == newest_first(backup_entries(entries@.take(i as int))),
        decreases entries.len() - i,
    {
        proof {
            assert(entries@.take(i + 1).drop_last() =~= entries@.take(i as int));
            assert(entries@.take(i + 1).last() == entries@[i as int]);
        }
        if is_backup_file_name(entries[i].0.as_str()) {
            let t = entries[i].2;
            let path = entries[i].1.clone();
            let ghost before = sorted@.map_values(|p: (u64, String)| (p.0, p.1@));
            let k = first_older_index(&sorted, t);
            proof {
                lemma_newest_first_sorted(backup_entries(entries@.take(i as int)));
                lemma_first_older_from(before, t, 0);
            }
            sorted.insert(k, (t, path));
            assert(sorted@.map_values(|p: (u64, String)| (p.0, p.1@)) =~= before.insert(k as int, (t, entries@[i as int].1@)));
            proof {
                let be = backup_entries(entries@.take(i + 1));
                assert(be == backup_entries(entries@.take(i as int)).push((t, entries@[i as int].1@)));
                assert(be.drop_last() =~= backup_entries(entries@.take(i as int)));
                assert(be.last() == (t, entries@[i as int].1@));
            }
        } else {
            assert(backup_entries(entries@.take(i + 1)) == backup_entries(entries@.take(i as int)));
        }
        i = i + 1;
    }
    assert(entries@.take(entries@.len() as int) =~= entries@);
    let ghost all = sorted@.map_values(|p: (u64, String)| (p.0, p.1@));
    let mut r: Vec<String> = Vec::new();
    if sorted.len() > keep {
        let mut k: usize = keep;
        while k < sorted.len()
            invariant
                keep <= k <= sorted@.len(),
                all == sorted@.map_values(|p: (u64, String)| (p.0, p.1@)),
                r@.map_values(|s: String| s@) == all.subrange(keep as int, k as int).map_values(|e: BackupEntry| e.1),
            decreases sorted.len() - k,
        {
            let ghost r0 = r@;
            r.push(sorted[k].1.clone());
            assert(r@.map_values(|s: String| s@) =~= r0.map_values(|s: String| s@).push(all[k as int].1));
            assert(all.subrange(keep as int, k + 1).map_values(|e: BackupEntry| e.1) =~= all.subrange(keep as int, k as int).map_values(|e: BackupEntry| e.1).push(all[k as int].1));
            k = k + 1;
        }
        assert(all.subrange(keep as int, sorted@.len() as int) =~= all.skip(keep as int));
    } else {
        assert(r@.map_values(|s: String| s@) =~= Seq::<Seq<char>>::empty());
    }
    r
}

/// The expression that reads a column of a table being imported: the
/// column itself when the table has it, else the value that stands for it
/// in tables written before the column existed.
pub open spec fn column_or(columns: Seq<Seq<char>>, name: Seq<char>, fallback: Seq<char>) -> Seq<char> {
    if columns.contains(name) { name } else { fallback }
}

/// The current time in seconds, as SQL; stands for a missing time column.
pub open spec fn now_seconds_sql() -> Seq<char> {
    "CAST(strftime('%s','now') AS INTEGER)"@
}

/// Reads `name` from an imported table with the columns `columns`, or
/// `fallback` when it has no such column.
pub fn import_column_expr(columns: &Vec<String>, name: &str, fallback: &str) -> (r: String)
    ensures
        r@ == column_or(texts(columns@), name@, fallback@),
{
    let mut i: usize = 0;
    while i < columns.len()
        invariant
            i <= columns@.len(),
            forall|j: int| 0 <= j < i ==> columns@[j]@ != name@,
        decreases columns.len() - i,
    {
        if str_eq(columns[i].as_str(), name) {
            assert(texts(columns@)[i as int] == name@);
            return own(name);
        }
        i = i + 1;
    }
    assert(!texts(columns@).contains(name@)) by {
        if texts(columns@).contains(name@) {
            let j = choose|j: int| 0 <= j < texts(columns@).len() && texts(columns@)[j] == name@;
            assert(columns@[j]@ == name@);
        }
    }
    own(fallback)
}

fn concat3(a: &str, b: &str, c: &str) -> (r: String)
    ensures
        r@ == a@ + b@ + c@,
{
    let mut v = chars_of(a);
    let w = chars_of(b);
    extend_chars(&mut v, w.as_slice());
    let x = chars_of(c);
    extend_chars(&mut v, x.as_slice());
    string_of(v.as_slice())
}

/// The statement that copies groups from an imported database, given the
/// columns of its groups table; groups already present are kept.
pub open spec fn groups_import_sql_of(columns: Seq<Seq<char>>) -> Seq<char> {
    "INSERT OR IGNORE INTO groups (name, icon, color, order_index, created_at, updated_at) SELECT name, "@
        + join(seq![
            column_or(columns, "icon"@, "'ti ti-folder'"@),
            column_or(columns, "color"@, "'#dc2626'"@),
            column_or(columns, "order_index"@, "0"@),
            column_or(columns, "created_at"@, now_seconds_sql()),
            column_or(columns, "updated_at"@, now_seconds_sql()),
        ], ", "@)
        + " FROM importdb.groups"@
}

/// Builds the statement that copies groups from an imported database.
pub fn groups_import_sql(columns: &Vec<String>) -> (r: String)
    ensures
        r@ == groups_import_sql_of(texts(columns@)),
{
    let now = "CAST(strftime('%s','now') AS INTEGER)";
    let mut parts: Vec<String> = Vec::new();
    parts.push(import_column_expr(columns, "icon", "'ti ti-folder'"));
    parts.push(import_column_expr(columns, "color", "'#dc2626'"));
    parts.push(import_column_expr(columns, "order_index", "0"));
    parts.push(import_column_expr(columns, "created_at", now));
    parts.push(import_column_expr(columns, "updated_at", now));
    let cols = Ghost(texts(columns@));
    assert(texts(parts@) =~= seq![
        column_or(cols@, "icon"@, "'ti ti-folder'"@),
        column_or(cols@, "color"@, "'#dc2626'"@),
        column_or(cols@, "order_index"@, "0"@),
        column_or(cols@, "created_at"@, now_seconds_sql()),
        column_or(cols@, "updated_at"@, now_seconds_sql()),
    ]);
    let joined = join_strings(&parts, ", ");
    concat3(
        "INSERT OR IGNORE INTO groups (name, icon, color, order_index, created_at, updated_at) SELECT name, ",
        joined.as_str(),
        " FROM importdb.groups",
    )
}

/// The statement that copies favourites from an imported database, given
/// the columns of its favourites table; favourites already present are kept.
pub open spec fn favorites_import_sql_of(columns: Seq<Seq<char>>) -> Seq<char> {
    "INSERT OR IGNORE INTO favorites (id, title, content, html_content, content_type, image_id, group_name, item_order, paste_count, char_count, created_at, updated_at) SELECT id, title, content, "@
        + join(seq![
            column_or(columns, "html_content"@, "NULL"@),
            column_or(columns, "content_type"@, "'text'"@),
            column_or(columns, "image_id"@, "NULL"@),
            column_or(columns, "group_name"@, "'全部'"@),
            column_or(columns, "item_order"@, "0"@),
            column_or(columns, "paste_count"@, "0"@),
            column_or(columns, "char_count"@, "NULL"@),
            column_or(columns, "created_at"@, now_seconds_sql()),
            column_or(columns, "updated_at"@, now_seconds_sql()),
        ], ", "@)
        + " FROM importdb.favorites"@
}

/// Builds the statement that copies favourites from an imported database.
pub fn favorites_import_sql(columns: &Vec<String>) -> (r: String)
    ensures
        r@ == favorites_import_sql_of(texts(columns@)),
{
    let now = "CAST(strftime('%s','now') AS INTEGER)";
    let mut parts: Vec<String> = Vec::new();
    parts.push(import_column_expr(columns, "html_content", "NULL"));
    parts.push(import_column_expr(columns, "content_type", "'text'"));
    parts.push(import_column_expr(columns, "image_id", "NULL"));
    parts.push(import_column_expr(columns, "group_name", "'全部'"));
    parts.push(import_column_expr(columns, "item_order", "0"));
    parts.push(import_column_expr(columns, "paste_count", "0"));
    parts.push(import_column_expr(columns, "char_count", "NULL"));
    parts.push(import_column_expr(columns, "created_at", now));
    parts.push(import_column_expr(columns, "updated_at", now));
    let cols = Ghost(texts(columns@));
    assert(texts(parts@) =~= seq![
        column_or(cols@, "html_content"@, "NULL"@),
        column_or(cols@, "content_type"@, "'text'"@),
        column_or(cols@, "image_id"@, "NULL"@),
        column_or(cols@, "group_name"@, "'全部'"@),
        column_or(cols@, "item_order"@, "0"@),
        column_or(cols@, "paste_count"@, "0"@),
        column_or(cols@, "char_count"@, "NULL"@),
        column_or(cols@, "created_at"@, now_seconds_sql()),
        column_or(cols@, "updated_at"@, now_seconds_sql()),
    ]);
    let joined = join_strings(&parts, ", ");
    concat3(
        "INSERT OR IGNORE INTO favorites (id, title, content, html_content, content_type, image_id, group_name, item_order, paste_count, char_count, created_at, updated_at) SELECT id, title, content, ",
        joined.as_str(),
        " FROM importdb.favorites",
    )
}

/// The query that reads the history of an imported database, given the
/// columns of its history table, in the order the rows are inserted.
pub open spec fn clipboard_import_select_sql_of(columns: Seq<Seq<char>>) -> Seq<char> {
    "SELECT "@
        + join(seq![
            column_or(columns, "id"@, "NULL"@),
            "content"@,
            column_or(columns, "html_content"@, "NULL"@),
            column_or(columns, "content_type"@, "'text'"@),
            column_or(columns, "image_id"@, "NULL"@),
            column_or(columns, "is_pinned"@, "0"@),
            column_or(columns, "paste_count"@, "0"@),
            column_or(columns, "source_app"@, "NULL"@),
            column_or(columns, "source_icon_hash"@, "NULL"@),
            column_or(columns, "char_count"@, "NULL"@),
            column_or(columns, "uuid"@, "NULL"@),
            column_or(columns, "source_device_id"@, "NULL"@),
            column_or(columns, "is_remote"@, "0"@),
            column_or(columns, "created_at"@, now_seconds_sql()),
            column_or(columns, "updated_at"@, now_seconds_sql()),
        ], ", "@)
        + " FROM importdb.clipboard"@
}

/// Builds the query that reads the history of an imported database.
pub fn clipboard_import_select_sql(columns: &Vec<String>) -> (r: String)
    ensures
        r@ == clipboard_import_select_sql_of(texts(columns@)),
{
    let now = "CAST(strftime('%s','now') AS INTEGER)";
    let mut parts: Vec<String> = Vec::new();
    parts.push(import_column_expr(columns, "id", "NULL"));
    parts.push(own("content"));
    parts.push(import_column_expr(columns, "html_content", "NULL"));
    parts.push(import_column_expr(columns, "content_type", "'text'"));
    parts.push(import_column_expr(columns, "image_id", "NULL"));
    parts.push(import_column_expr(columns, "is_pinned", "0"));
    parts.push(import_column_expr(columns, "paste_count", "0"));
    parts.push(import_column_expr(columns, "source_app", "NULL"));
    parts.push(import_column_expr(columns, "source_icon_hash", "NULL"));
    parts.push(import_column_expr(columns, "char_count", "NULL"));
    parts.push(import_column_expr(columns, "uuid", "NULL"));
    parts.push(import_column_expr(columns, "source_device_id", "NULL"));
    parts.push(import_column_expr(columns, "is_remote", "0"));
    parts.push(import_column_expr(columns, "created_at", now));
    parts.push(import_column_expr(columns, "updated_at", now));
    let cols = Ghost(texts(columns@));
    assert(texts(parts@) =~= seq![
        column_or(cols@, "id"@, "NULL"@),
        "content"@,
        column_or(cols@, "html_content"@, "NULL"@),
        column_or(cols@, "content_type"@, "'text'"@),
        column_or(cols@, "image_id"@, "NULL"@),
        column_or(cols@, "is_pinned"@, "0"@),
        column_or(cols@, "paste_count"@, "0"@),
        column_or(cols@, "source_app"@, "NULL"@),
        column_or(cols@, "source_icon_hash"@, "NULL"@),
        column_or(cols@, "char_count"@, "NULL"@),
        column_or(cols@, "uuid"@, "NULL"@),
        column_or(cols@, "source_device_id"@, "NULL"@),
        column_or(cols@, "is_remote"@, "0"@),
        column_or(cols@, "created_at"@, now_seconds_sql()),
        column_or(cols@, "updated_at"@, now_seconds_sql()),
    ]);
    let joined = join_strings(&parts, ", ");
    concat3("SELECT ", joined.as_str(), " FROM importdb.clipboard")
}

/// Where a replacing import puts the imported data.
#[derive(Debug, Clone)]
pub enum ImportTarget {
    /// The custom storage directory the imported settings name.
    Custom(String),
    /// The default data directory.
    Default,
}

/// The settings with custom storage turned off.
pub open spec fn without_custom_storage(s: AppSettings) -> AppSettings {
    AppSettings { storage: StorageSettings { use_custom_storage: false, custom_storage_path: None }, ..s }
}

/// The imported settings a replacing import keeps, and where it puts the
/// data: the hover popup is normalised, a portable run never uses custom
/// storage, and a custom directory that does not exist is given up for the
/// default one. `custom_path_exists` tells whether the directory named by
/// the imported settings' custom storage path exists.
pub open spec fn import_replace_plan_of(settings: AppSettings, portable: bool, custom_path_exists: bool) -> (AppSettings, Option<Seq<char>>) {
    let n = edge_hover_normalized(settings);
    let p = if portable { without_custom_storage(n) } else { n };
    if p.storage.use_custom_storage && p.storage.custom_storage_path is Some {
        if custom_path_exists {
            (p, Some(p.storage.custom_storage_path->Some_0@))
        } else {
            (without_custom_storage(p), None)
        }
    } else {
        (p, None)
    }
}

/// Decides the settings and the target directory of a replacing import.
pub fn plan_import_replace(settings: AppSettings, portable: bool, custom_path_exists: bool) -> (r: (AppSettings, ImportTarget))
    ensures
        r.0 == import_replace_plan_of(settings, portable, custom_path_exists).0,
        match import_replace_plan_of(settings, portable, custom_path_exists).1 {
            Some(dir) => r.1 matches ImportTarget::Custom(d) && d@ == dir,
            None => r.1 is Default,
        },
{
    let mut s = settings;
    s.normalize_edge_hover_invariant();
    if portable {
        s.storage = StorageSettings { use_custom_storage: false, custom_storage_path: None };
    }
    if s.storage.use_custom_storage {
        let path = match &s.storage.custom_storage_path {
            Some(p) => Some(p.clone()),
            None => None,
        };
        match path {
            Some(p) => {
                if custom_path_exists {
                    return (s, ImportTarget::Custom(p));
                } else {
                    s.storage = StorageSettings { use_custom_storage: false, custom_storage_path: None };
                    return (s, ImportTarget::Default);
                }
            },
            None => {},
        }
    }
    (s, ImportTarget::Default)
}

/// The archive names of the files of a data sub-directory.
pub open spec fn in_dir(dir: Seq<char>, files: Seq<Seq<char>>) -> Seq<Seq<char>> {
    files.map_values(|f: Seq<char>| dir + "/"@ + f)
}

/// The archive names of a data sub-directory's files when the directory
/// exists, else none.
#[verifier::opaque]
pub open spec fn dir_entries(present: bool, dir: Seq<char>, files: Seq<Seq<char>>) -> Seq<Seq<char>> {
    if present { in_dir(dir, files) } else { Seq::empty() }
}

/// The entries of a full backup archive, in the order they are written:
/// the database, the files of the image, library, pinned-image and icon
/// directories, and the settings file. With none of the data present no
/// archive is written.
pub open spec fn backup_entry_names_of(
    p: ItemPresence,
    images: Seq<Seq<char>>,
    library: Seq<Seq<char>>,
    pins: Seq<Seq<char>>,
    icons: Seq<Seq<char>>,
    settings_present: bool,
) -> Option<Seq<Seq<char>>> {
    if !(p.database || p.clipboard_images || p.image_library || p.pin_images || p.app_icons) {
        None
    } else {
        Some((if p.database { seq!["quickclipboard.db"@] } else { Seq::empty() })
            + dir_entries(p.clipboard_images, "clipboard_images"@, images)
            + dir_entries(p.image_library, "image_library"@, library)
            + dir_entries(p.pin_images, "pin_images"@, pins)
            + dir_entries(p.app_icons, "app_icons"@, icons)
            + (if settings_present { seq!["settings.json"@] } else { Seq::empty() }))
    }
}

fn push_in_dir(out: &mut Vec<String>, present: bool, dir: &str, files: &Vec<String>)
    ensures
        texts(final(out)@) == texts(old(out)@) + dir_entries(present, dir@, texts(files@)),
{
    reveal(dir_entries);
    let ghost start = texts(out@);
    if !present {
        assert(start + Seq::<Seq<char>>::empty() =~= start);
        return;
    }
    let mut i: usize = 0;
    while i < files.len()
        invariant
            i <= files@.len(),
            texts(out@) == start + in_dir(dir@, texts(files@.take(i as int))),
        decreases files.len() - i,
    {
        let name = concat3(dir, "/", files[i].as_str());
        let ghost before = texts(out@);
        out.push(name);
        proof {
            assert(texts(out@) =~= before.push(name@));
            assert(in_dir(dir@, texts(files@.take(i + 1))) =~= in_dir(dir@, texts(files@.take(i as int))).push(dir@ + "/"@ + files@[i as int]@));
            assert(texts(out@) =~= start + in_dir(dir@, texts(files@.take(i + 1))));
        }
        i = i + 1;
    }
    assert(files@.take(files@.len() as int) =~= files@);
}

/// Lists the entries of a full backup archive from what the data directory
/// holds (`images`, `library`, `pins` and `icons` are the names of the
/// regular files of those sub-directories); `None` when there is nothing to
/// back up.
pub fn backup_entry_names(
    p: ItemPresence,
    images: &Vec<String>,
    library: &Vec<String>,
    pins: &Vec<String>,
    icons: &Vec<String>,
    settings_present: bool,
) -> (r: Option<Vec<String>>)
    ensures
        match backup_entry_names_of(p, texts(images@), texts(library@), texts(pins@), texts(icons@), settings_present) {
            None => r is None,
            Some(names) => r is Some && texts(r->Some_0@) == names,
        },
{
    if !(p.database || p.clipboard_images || p.image_library || p.pin_images || p.app_icons) {
        return None;
    }
    let mut out: Vec<String> = Vec::new();
    if p.database {
        out.push(own("quickclipboard.db"));
    }
    let ghost first = texts(out@);
    assert(first =~= (if p.database { seq!["quickclipboard.db"@] } else { Seq::<Seq<char>>::empty() }));
    push_in_dir(&mut out, p.clipboard_images, "clipboard_images", images);
    push_in_dir(&mut out, p.image_library, "image_library", library);
    push_in_dir(&mut out, p.pin_images, "pin_images", pins);
    push_in_dir(&mut out, p.app_icons, "app_icons", icons);
    let ghost before = texts(out@);
    if settings_present {
        out.push(own("settings.json"));
    }
    assert(texts(out@) =~= before + (if settings_present { seq!["settings.json"@] } else { Seq::<Seq<char>>::empty() }));
    Some(out)
}

/// The name of a full backup archive made at the time stamp `ts`.
pub fn backup_archive_name(ts: &str) -> (r: String)
    ensures
        r@ == "quickclipboard-backup-"@ + ts@ + ".zip"@,
{
    concat3("quickclipboard-backup-", ts, ".zip")
}

/// Law: every archive a backup writes is recognised as a backup when the
/// old ones are pruned.
pub proof fn lemma_backup_archive_is_recognised(ts: Seq<char>)
    ensures
        is_backup_name("quickclipboard-backup-"@ + ts + ".zip"@),
{
    let n = "quickclipboard-backup-"@ + ts + ".zip"@;
    assert(n.subrange(0, "quickclipboard-backup-"@.len() as int) =~= "quickclipboard-backup-"@);
    assert(n.subrange(n.len() - ".zip"@.len(), n.len() as int) =~= ".zip"@);
}

/// What resetting all data clears in a data directory, in order.
pub open spec fn reset_cleared_names_of() -> Seq<Seq<char>> {
    seq![
        "clipboard_images"@,
        "image_library"@,
        "app_icons"@,
        "pin_images"@,
        "quickclipboard.db"@,
        "quickclipboard.db-shm"@,
        "quickclipboard.db-wal"@,
    ]
}

/// The items of a data directory that resetting all data clears.
pub open spec fn reset_items() -> Seq<DataItem> {
    seq![DataItem::ClipboardImages, DataItem::ImageLibrary, DataItem::AppIcons, DataItem::PinImages, DataItem::Database]
}

/// The names resetting all data removes from a data directory, where they
/// exist; failures to remove one are ignored.
pub fn reset_cleared_names() -> (r: Vec<&'static str>)
    ensures
        r@.map_values(|n: &'static str| n@) == reset_cleared_names_of(),
{
    let v: Vec<&'static str> = vec![
        "clipboard_images",
        "image_library",
        "app_icons",
        "pin_images",
        "quickclipboard.db",
        "quickclipboard.db-shm",
        "quickclipboard.db-wal",
    ];
    assert(v@.map_values(|n: &'static str| n@) =~= reset_cleared_names_of());
    v
}

/// The file names listed for a directory item.
pub open spec fn listing_of(
    item: DataItem,
    images: Seq<Seq<char>>,
    library: Seq<Seq<char>>,
    pins: Seq<Seq<char>>,
    icons: Seq<Seq<char>>,
) -> Seq<Seq<char>> {
    match item {
        DataItem::ClipboardImages => images,
        DataItem::ImageLibrary => library,
        DataItem::PinImages => pins,
        DataItem::AppIcons => icons,
        DataItem::Database => Seq::empty(),
    }
}

proof fn lemma_names_within(pre: Seq<Seq<char>>, mid: Seq<Seq<char>>, post: Seq<Seq<char>>, i: int)
    requires
        0 <= i < mid.len(),
    ensures
        (pre + mid + post).contains(mid[i]),
{
    assert((pre + mid + post)[pre.len() + i] == mid[i]);
}

proof fn lemma_dir_entries_index(dir: Seq<char>, files: Seq<Seq<char>>, j: int)
    requires
        0 <= j < files.len(),
    ensures
        j < dir_entries(true, dir, files).len(),
        dir_entries(true, dir, files)[j] == dir + "/"@ + files[j],
{
    reveal(dir_entries);
}

/// Law: a full backup holds everything that resetting all data clears:
/// the database and every file of each cleared directory that exists.
pub proof fn lemma_backup_covers_reset(
    p: ItemPresence,
    images: Seq<Seq<char>>,
    library: Seq<Seq<char>>,
    pins: Seq<Seq<char>>,
    icons: Seq<Seq<char>>,
    settings_present: bool,
    item: DataItem,
)
    requires
        reset_items().contains(item),
        p.has(item),
    ensures
        backup_entry_names_of(p, images, library, pins, icons, settings_present) is Some,
        item == DataItem::Database ==> backup_entry_names_of(p, images, library, pins, icons, settings_present)->Some_0.contains("quickclipboard.db"@),
        forall|j: int| 0 <= j < listing_of(item, images, library, pins, icons).len() ==>
            backup_entry_names_of(p, images, library, pins, icons, settings_present)->Some_0.contains(
                item_file_name_of(item) + "/"@ + #[trigger] listing_of(item, images, library, pins, icons)[j]),
{
    let a = if p.database { seq!["quickclipboard.db"@] } else { Seq::<Seq<char>>::empty() };
    let b = dir_entries(p.clipboard_images, "clipboard_images"@, images);
    let c = dir_entries(p.image_library, "image_library"@, library);
    let d = dir_entries(p.pin_images, "pin_images"@, pins);
    let e = dir_entries(p.app_icons, "app_icons"@, icons);
    let f = if settings_present { seq!["settings.json"@] } else { Seq::<Seq<char>>::empty() };
    let names = a + b + c + d + e + f;
    assert(backup_entry_names_of(p, images, library, pins, icons, settings_present) == Some(names));
    if item == DataItem::Database {
        lemma_names_within(Seq::empty(), a, b + c + d + e + f, 0);
        assert(Seq::<Seq<char>>::empty() + a + (b + c + d + e + f) =~= names);
    }
    assert forall|j: int| 0 <= j < listing_of(item, images, library, pins, icons).len() implies
        names.contains(item_file_name_of(item) + "/"@ + #[trigger] listing_of(item, images, library, pins, icons)[j]) by {
        match item {
            DataItem::ClipboardImages => {
                lemma_dir_entries_index("clipboard_images"@, images, j);
                lemma_names_within(a, b, c + d + e + f, j);
                assert(a + b + (c + d + e + f) =~= names);
            },
            DataItem::ImageLibrary => {
                lemma_dir_entries_index("image_library"@, library, j);
                lemma_names_within(a + b, c, d + e + f, j);
                assert(a + b + c + (d + e + f) =~= names);
            },
            DataItem::PinImages => {
                lemma_dir_entries_index("pin_images"@, pins, j);
                lemma_names_within(a + b + c, d, e + f, j);
                assert(a + b + c + d + (e + f) =~= names);
            },
            DataItem::AppIcons => {
                lemma_dir_entries_index("app_icons"@, icons, j);
                lemma_names_within(a + b + c + d, e, f, j);
            },
            DataItem::Database => {},
        }
    }
}

/// The archive names of a directory's files, given by their paths
/// relative to it, when the directory exists.
pub open spec fn exported_dir_entries(present: bool, dir: Seq<char>, rel_paths: Seq<Seq<char>>) -> Seq<Seq<char>> {
    if present { rel_paths.map_values(|r: Seq<char>| crate::paths::join_path(dir, r)) } else { Seq::empty() }
}

/// The entries of an exported archive, in the order they are written: the
/// database, every file (at any depth) of the image, library, icon and
/// pinned-image directories, and the settings file.
pub open spec fn export_entry_names_of(
    p: ItemPresence,
    images: Seq<Seq<char>>,
    library: Seq<Seq<char>>,
    icons: Seq<Seq<char>>,
    pins: Seq<Seq<char>>,
    settings_present: bool,
) -> Seq<Seq<char>> {
    (if p.database { seq!["quickclipboard.db"@] } else { Seq::empty() })
        + exported_dir_entries(p.clipboard_images, "clipboard_images"@, images)
        + exported_dir_entries(p.image_library, "image_library"@, library)
        + exported_dir_entries(p.app_icons, "app_icons"@, icons)
        + exported_dir_entries(p.pin_images, "pin_images"@, pins)
        + (if settings_present { seq!["settings.json"@] } else { Seq::empty() })
}

fn push_exported_dir(out: &mut Vec<String>, present: bool, dir: &str, rel_paths: &Vec<String>)
    ensures
        texts(final(out)@) == texts(old(out)@) + exported_dir_entries(present, dir@, texts(rel_paths@)),
{
    let ghost start = texts(out@);
    if !present {
        assert(start + Seq::<Seq<char>>::empty() =~= start);
        return;
    }
    let mut i: usize = 0;
    while i < rel_paths.len()
        invariant
            present,
            i <= rel_paths@.len(),
            texts(out@) == start + exported_dir_entries(present, dir@, texts(rel_paths@.take(i as int))),
        decreases rel_paths.len() - i,
    {
        let rel = chars_of(rel_paths[i].as_str());
        let name = crate::paths::join_path_str(dir, rel.as_slice());
        let ghost before = texts(out@);
        out.push(name);
        proof {
            assert(texts(out@) =~= before.push(name@));
            assert(exported_dir_entries(present, dir@, texts(rel_paths@.take(i + 1)))
                =~= exported_dir_entries(present, dir@, texts(rel_paths@.take(i as int))).push(
                    crate::paths::join_path(dir@, rel_paths@[i as int]@)));
            assert(texts(out@) =~= start + exported_dir_entries(present, dir@, texts(rel_paths@.take(i + 1))));
        }
        i = i + 1;
    }
    assert(rel_paths@.take(rel_paths@.len() as int) =~= rel_paths@);
}

/// Lists the entries of an exported archive from what the data directory
/// holds; each list gives the paths of a directory's files relative to it.
pub fn export_entry_names(
    p: ItemPresence,
    images: &Vec<String>,
    library: &Vec<String>,
    icons: &Vec<String>,
    pins: &Vec<String>,
    settings_present: bool,
) -> (r: Vec<String>)
    ensures
        texts(r@) == export_entry_names_of(p, texts(images@), texts(library@), texts(icons@), texts(pins@), settings_present),
{
    let mut out: Vec<String> = Vec::new();
    if p.database {
        out.push(own("quickclipboard.db"));
    }
    assert(texts(out@) =~= (if p.database { seq!["quickclipboard.db"@] } else { Seq::<Seq<char>>::empty() }));
    push_exported_dir(&mut out, p.clipboard_images, "clipboard_images", images);
    push_exported_dir(&mut out, p.image_library, "image_library", library);
    push_exported_dir(&mut out, p.app_icons, "app_icons", icons);
    push_exported_dir(&mut out, p.pin_images, "pin_images", pins);
    let ghost before = texts(out@);
    if settings_present {
        out.push(own("settings.json"));
    }
    assert(texts(out@) =~= before + (if settings_present { seq!["settings.json"@] } else { Seq::<Seq<char>>::empty() }));
    out
}

/// Whether a relative path stays inside its directory when extracted: no
/// `..` and no drive colon.
pub open spec fn plain_relative_path(rel: Seq<char>) -> bool {
    !contains(rel, ".."@) && !rel.contains(':')
}

proof fn lemma_dots_at(s: Seq<char>, i: int)
    requires
        occurs_at(s, ".."@, i),
    ensures
        0 <= i && i + 1 < s.len(),
        s[i] == '.',
        s[i + 1] == '.',
{
    reveal_strlit("..");
    assert(s.subrange(i, i + 2)[0] == s[i]);
    assert(s.subrange(i, i + 2)[1] == s[i + 1]);
}

proof fn lemma_joined_entry_safe(dir: Seq<char>, rel: Seq<char>)
    requires
        dir.len() > 0,
        dir[0] != '/' && dir[0] != '\\',
        !dir.contains('.'),
        !dir.contains(':'),
        !crate::paths::is_separator(dir.last()),
        plain_relative_path(rel),
    ensures
        zip_entry_name_safe(crate::paths::join_path(dir, rel)),
{
    let j = crate::paths::join_path(dir, rel);
    let pre = dir.push('\\');
    assert(j =~= pre + rel);
    reveal_strlit("..");
    assert(!contains(j, ".."@)) by {
        if contains(j, ".."@) {
            let i = choose|i: int| occurs_at(j, ".."@, i);
            lemma_dots_at(j, i);
            if i + 1 < pre.len() {
                assert(j[i] == dir[i]);
                assert(dir.contains('.'));
            } else if i + 1 == pre.len() {
                assert(j[i + 1 - 1 + 1] == j[pre.len() as int]);
                assert(j[i] == pre[i]);
                assert(pre[i] == '\\');
            } else {
                let k = i - pre.len();
                assert(rel.subrange(k, k + 2) =~= j.subrange(i, i + 2));
                assert(occurs_at(rel, ".."@, k));
            }
        }
    }
    assert(!j.contains(':')) by {
        if j.contains(':') {
            let i = choose|i: int| 0 <= i < j.len() && j[i] == ':';
            if i < dir.len() {
                assert(dir[i] == ':');
            } else if i == dir.len() {
            } else {
                assert(rel[i - pre.len()] == ':');
            }
        }
    }
    assert(j[0] == dir[0]);
}

/// Whether every name of a list passes the import's check.
pub open spec fn all_entries_safe(names: Seq<Seq<char>>) -> bool {
    forall|k: int| 0 <= k < names.len() ==> zip_entry_name_safe(#[trigger] names[k])
}

proof fn lemma_all_safe_concat(a: Seq<Seq<char>>, b: Seq<Seq<char>>)
    requires
        all_entries_safe(a),
        all_entries_safe(b),
    ensures
        all_entries_safe(a + b),
{
    assert forall|k: int| 0 <= k < (a + b).len() implies zip_entry_name_safe(#[trigger] (a + b)[k]) by {
        if k < a.len() {
            assert((a + b)[k] == a[k]);
        } else {
            assert((a + b)[k] == b[k - a.len()]);
        }
    }
}

proof fn lemma_fixed_entries_safe()
    ensures
        zip_entry_name_safe("quickclipboard.db"@),
        zip_entry_name_safe("settings.json"@),
{
    reveal_strlit("quickclipboard.db");
    reveal_strlit("settings.json");
    if contains("quickclipboard.db"@, ".."@) {
        let i = choose|i: int| occurs_at("quickclipboard.db"@, ".."@, i);
        lemma_dots_at("quickclipboard.db"@, i);
    }
    if contains("settings.json"@, ".."@) {
        let i = choose|i: int| occurs_at("settings.json"@, ".."@, i);
        lemma_dots_at("settings.json"@, i);
    }
}

proof fn lemma_exported_dir_safe(present: bool, dir: Seq<char>, rels: Seq<Seq<char>>)
    requires
        dir.len() > 0,
        dir[0] != '/' && dir[0] != '\\',
        !dir.contains('.'),
        !dir.contains(':'),
        !crate::paths::is_separator(dir.last()),
        forall|i: int| 0 <= i < rels.len() ==> plain_relative_path(#[trigger] rels[i]),
    ensures
        all_entries_safe(exported_dir_entries(present, dir, rels)),
{
    let e = exported_dir_entries(present, dir, rels);
    assert forall|k: int| 0 <= k < e.len() implies zip_entry_name_safe(#[trigger] e[k]) by {
        assert(e[k] == crate::paths::join_path(dir, rels[k]));
        lemma_joined_entry_safe(dir, rels[k]);
    }
}

proof fn lemma_export_dir_names()
    ensures
        "clipboard_images"@.len() > 0 && "clipboard_images"@[0] == 'c' && !"clipboard_images"@.contains('.')
            && !"clipboard_images"@.contains(':') && "clipboard_images"@.last() == 's',
        "image_library"@.len() > 0 && "image_library"@[0] == 'i' && !"image_library"@.contains('.')
            && !"image_library"@.contains(':') && "image_library"@.last() == 'y',
        "app_icons"@.len() > 0 && "app_icons"@[0] == 'a' && !"app_icons"@.contains('.')
            && !"app_icons"@.contains(':') && "app_icons"@.last() == 's',
        "pin_images"@.len() > 0 && "pin_images"@[0] == 'p' && !"pin_images"@.contains('.')
            && !"pin_images"@.contains(':') && "pin_images"@.last() == 's',
{
    reveal_strlit("clipboard_images");
    reveal_strlit("image_library");
    reveal_strlit("app_icons");
    reveal_strlit("pin_images");
}

/// Law: every entry an export writes, from file paths that stay inside
/// their directories, passes the import's check on entry names, so an
/// exported archive is imported whole.
pub proof fn lemma_export_entries_import_safely(
    p: ItemPresence,
    images: Seq<Seq<char>>,
    library: Seq<Seq<char>>,
    icons: Seq<Seq<char>>,
    pins: Seq<Seq<char>>,
    settings_present: bool,
)
    requires
        forall|i: int| 0 <= i < images.len() ==> plain_relative_path(#[trigger] images[i]),
        forall|i: int| 0 <= i < library.len() ==> plain_relative_path(#[trigger] library[i]),
        forall|i: int| 0 <= i < icons.len() ==> plain_relative_path(#[trigger] icons[i]),
        forall|i: int| 0 <= i < pins.len() ==> plain_relative_path(#[trigger] pins[i]),
    ensures
        all_entries_safe(export_entry_names_of(p, images, library, icons, pins, settings_present)),
{
    lemma_fixed_entries_safe();
    lemma_export_dir_names();
    let a = if p.database { seq!["quickclipboard.db"@] } else { Seq::<Seq<char>>::empty() };
    let b = exported_dir_entries(p.clipboard_images, "clipboard_images"@, images);
    let c = exported_dir_entries(p.image_library, "image_library"@, library);
    let d = exported_dir_entries(p.app_icons, "app_icons"@, icons);
    let e = exported_dir_entries(p.pin_images, "pin_images"@, pins);
    let f = if settings_present { seq!["settings.json"@] } else { Seq::<Seq<char>>::empty() };
    assert(all_entries_safe(a));
    assert(all_entries_safe(f));
    lemma_exported_dir_safe(p.clipboard_images, "clipboard_images"@, images);
    lemma_exported_dir_safe(p.image_library, "image_library"@, library);
    lemma_exported_dir_safe(p.app_icons, "app_icons"@, icons);
    lemma_exported_dir_safe(p.pin_images, "pin_images"@, pins);
    lemma_all_safe_concat(a, b);
    lemma_all_safe_concat(a + b, c);
    lemma_all_safe_concat(a + b + c, d);
    lemma_all_safe_concat(a + b + c + d, e);
    lemma_all_safe_concat(a + b + c + d + e, f);
}

/// A move of the data directory that was allowed: where the data moves
/// from and to, and the settings saved once the move succeeded.
#[derive(Debug, Clone)]
pub struct StorageMovePlan {
    pub source_dir: String,
    pub target_dir: String,
    pub settings_after: AppSettings,
}

/// Whether `after` is `before` pointing at the custom directory `dir`.
pub open spec fn points_at_custom_storage(before: AppSettings, after: AppSettings, dir: Seq<char>) -> bool {
    &&& after == AppSettings { storage: after.storage, ..before }
    &&& after.storage.use_custom_storage
    &&& after.storage.custom_storage_path matches Some(p) && p@ == dir
}

/// Plans moving the data directory back to the default one: refused in the
/// portable build and when it is already there; otherwise the data moves
/// from the current directory to the default one, and once that succeeded
/// the settings are saved with custom storage off and no custom path, and
/// the default directory is the result.
pub fn plan_storage_reset(portable: bool, default_dir: &str, current_dir: &str, settings: AppSettings) -> (r: Result<StorageMovePlan, String>)
    ensures
        match storage_reset_check(portable, default_dir@, current_dir@) {
            Err(m) => r is Err && r->Err_0@ == m,
            Ok(()) => r is Ok
                && r->Ok_0.source_dir@ == current_dir@
                && r->Ok_0.target_dir@ == default_dir@
                && r->Ok_0.settings_after == without_custom_storage(settings),
        },
{
    match check_storage_reset(portable, default_dir, current_dir) {
        Err(m) => Err(m),
        Ok(()) => {
            let mut s = settings;
            s.storage = StorageSettings { use_custom_storage: false, custom_storage_path: None };
            Ok(StorageMovePlan { source_dir: own(current_dir), target_dir: own(default_dir), settings_after: s })
        },
    }
}

/// Plans moving the data directory to `new_dir`: refused in the portable
/// build and onto itself; otherwise the data moves from the current
/// directory to `new_dir`, and once that succeeded the settings are saved
/// pointing at it, and `new_dir` is the result.
pub fn plan_storage_change(portable: bool, new_dir: &str, current_dir: &str, settings: AppSettings) -> (r: Result<StorageMovePlan, String>)
    ensures
        match storage_change_check(portable, new_dir@, current_dir@) {
            Err(m) => r is Err && r->Err_0@ == m,
            Ok(()) => r is Ok
                && r->Ok_0.source_dir@ == current_dir@
                && r->Ok_0.target_dir@ == new_dir@
                && points_at_custom_storage(settings, r->Ok_0.settings_after, new_dir@),
        },
{
    match check_storage_change(portable, new_dir, current_dir) {
        Err(m) => Err(m),
        Ok(()) => {
            let mut s = settings;
            s.storage = StorageSettings { use_custom_storage: true, custom_storage_path: Some(own(new_dir)) };
            Ok(StorageMovePlan { source_dir: own(current_dir), target_dir: own(new_dir), settings_after: s })
        },
    }
}

} // verus!
