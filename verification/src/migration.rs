use vstd::prelude::*;
use crate::text::{chars_of, extend_chars, str_eq, string_of};

verus! {

/// What a move of the data directory does with the data already at the
/// new location.
#[derive(Debug, Clone, Copy, PartialEq, Eq, Structural)]
pub enum MigrationMode {
    /// The current data replaces whatever the new location holds.
    SourceOnly,
    /// The new location's data is kept and the current data is dropped.
    TargetOnly,
    /// Both are merged; where both hold the same file, the current one wins.
    Merge,
}

/// The message for a mode word that is not known.
pub open spec fn unknown_mode_message(mode: Seq<char>) -> Seq<char> {
    "不支持的迁移模式: "@ + mode
}

/// Reads a migration mode; any other word is refused.
pub fn parse_migration_mode(mode: &str) -> (r: Result<MigrationMode, String>)
    ensures
        mode@ == "source_only"@ ==> r == Ok::<MigrationMode, String>(MigrationMode::SourceOnly),
        mode@ == "target_only"@ ==> r == Ok::<MigrationMode, String>(MigrationMode::TargetOnly),
        mode@ == "merge"@ ==> r == Ok::<MigrationMode, String>(MigrationMode::Merge),
        mode@ != "source_only"@ && mode@ != "target_only"@ && mode@ != "merge"@ ==> r is Err
            && r->Err_0@ == unknown_mode_message(mode@),
{
    proof {
        reveal_strlit("source_only");
        reveal_strlit("target_only");
        reveal_strlit("merge");
        assert("source_only"@[0] != "target_only"@[0]);
        assert("source_only"@[0] != "merge"@[0]);
        assert("target_only"@[0] != "merge"@[0]);
    }
    if str_eq(mode, "source_only") {
        Ok(MigrationMode::SourceOnly)
    } else if str_eq(mode, "target_only") {
        Ok(MigrationMode::TargetOnly)
    } else if str_eq(mode, "merge") {
        Ok(MigrationMode::Merge)
    } else {
        let mut v = chars_of("不支持的迁移模式: ");
        let m = chars_of(mode);
        extend_chars(&mut v, m.as_slice());
        Err(string_of(v.as_slice()))
    }
}

/// One item of a data directory.
#[derive(Debug, Clone, Copy, PartialEq, Eq, Structural)]
pub enum DataItem {
    ClipboardImages,
    PinImages,
    ImageLibrary,
    AppIcons,
    Database,
}

/// The two directories of a move.
#[derive(Debug, Clone, Copy, PartialEq, Eq, Structural)]
pub enum Side {
    /// The current data directory.
    Source,
    /// The new data directory.
    Target,
}

/// The name of an item inside a data directory.
pub fn item_file_name(item: DataItem) -> (r: &'static str)
    ensures
        r@ == item_file_name_of(item),
{
    match item {
        DataItem::ClipboardImages => "clipboard_images",
        DataItem::PinImages => "pin_images",
        DataItem::ImageLibrary => "image_library",
        DataItem::AppIcons => "app_icons",
        DataItem::Database => "quickclipboard.db",
    }
}

/// The name of an item inside a data directory.
pub open spec fn item_file_name_of(item: DataItem) -> Seq<char> {
    match item {
        DataItem::ClipboardImages => "clipboard_images"@,
        DataItem::PinImages => "pin_images"@,
        DataItem::ImageLibrary => "image_library"@,
        DataItem::AppIcons => "app_icons"@,
        DataItem::Database => "quickclipboard.db"@,
    }
}

/// How an item is named in messages.
pub open spec fn item_label(item: DataItem) -> Seq<char> {
    match item {
        DataItem::ClipboardImages => "图片目录"@,
        DataItem::PinImages => "贴图目录"@,
        DataItem::ImageLibrary => "图库目录"@,
        DataItem::AppIcons => "图标目录"@,
        DataItem::Database => "数据库"@,
    }
}

/// How a side is named in messages.
pub open spec fn side_label(side: Side) -> Seq<char> {
    match side {
        Side::Source => "源"@,
        Side::Target => "目标"@,
    }
}

/// The message when removing an item fails with `error`.
pub open spec fn removal_error_of(side: Side, item: DataItem, error: Seq<char>) -> Seq<char> {
    "删除"@ + side_label(side) + item_label(item) + "失败: "@ + error
}

/// The message when removing an item fails with `error`.
pub fn removal_error(side: Side, item: DataItem, error: &str) -> (r: String)
    ensures
        r@ == removal_error_of(side, item, error@),
{
    let side_word = match side {
        Side::Source => "源",
        Side::Target => "目标",
    };
    let label = match item {
        DataItem::ClipboardImages => "图片目录",
        DataItem::PinImages => "贴图目录",
        DataItem::ImageLibrary => "图库目录",
        DataItem::AppIcons => "图标目录",
        DataItem::Database => "数据库",
    };
    let mut v = chars_of("删除");
    let a = chars_of(side_word);
    extend_chars(&mut v, a.as_slice());
    let b = chars_of(label);
    extend_chars(&mut v, b.as_slice());
    let c = chars_of("失败: ");
    extend_chars(&mut v, c.as_slice());
    let d = chars_of(error);
    extend_chars(&mut v, d.as_slice());
    string_of(v.as_slice())
}

/// Which items a data directory holds when the move starts.
#[derive(Debug, Clone, Copy, PartialEq, Eq, Structural)]
pub struct ItemPresence {
    pub clipboard_images: bool,
    pub pin_images: bool,
    pub image_library: bool,
    pub app_icons: bool,
    pub database: bool,
}

impl ItemPresence {
    /// Whether the item is there.
    pub open spec fn has(self, item: DataItem) -> bool {
        match item {
            DataItem::ClipboardImages => self.clipboard_images,
            DataItem::PinImages => self.pin_images,
            DataItem::ImageLibrary => self.image_library,
            DataItem::AppIcons => self.app_icons,
            DataItem::Database => self.database,
        }
    }
}

/// One step of a move of the data directory. Every step propagates its
/// error, except the last cleanup.
#[derive(Debug, Clone, Copy, PartialEq, Eq, Structural)]
pub enum MigrationStep {
    /// The item of that side is removed; a failure is reported with
    /// `removal_error`.
    Remove(Side, DataItem),
    /// The directory of the item is created in the new location.
    CreateTargetDir(DataItem),
    /// The new location's files of the item are copied into the current
    /// directory, never overwriting a file already there.
    MergeTargetIntoSource(DataItem),
    /// The current item is moved to the new location.
    MoveToTarget(DataItem),
    /// The current database is opened, the new location's database is
    /// merged into it, and it is closed again.
    MergeTargetDatabaseIntoSource,
    /// The journal files of both databases are removed where present;
    /// failures are ignored.
    RemoveJournalFiles,
}

/// The steps when `b` holds, else none.
pub open spec fn steps_if(b: bool, s: Seq<MigrationStep>) -> Seq<MigrationStep> {
    if b { s } else { Seq::empty() }
}

/// The directory items, in the order a move handles them.
pub open spec fn dir_items() -> Seq<DataItem> {
    seq![DataItem::ClipboardImages, DataItem::PinImages, DataItem::ImageLibrary, DataItem::AppIcons]
}

/// The removal of every item that a side holds, directories first, then
/// the database.
pub open spec fn removals(side: Side, p: ItemPresence) -> Seq<MigrationStep> {
    steps_if(p.clipboard_images, seq![MigrationStep::Remove(side, DataItem::ClipboardImages)])
        + steps_if(p.pin_images, seq![MigrationStep::Remove(side, DataItem::PinImages)])
        + steps_if(p.image_library, seq![MigrationStep::Remove(side, DataItem::ImageLibrary)])
        + steps_if(p.app_icons, seq![MigrationStep::Remove(side, DataItem::AppIcons)])
        + steps_if(p.database, seq![MigrationStep::Remove(side, DataItem::Database)])
}

/// The move of every current item to the new location.
pub open spec fn moves(p: ItemPresence) -> Seq<MigrationStep> {
    steps_if(p.clipboard_images, seq![MigrationStep::MoveToTarget(DataItem::ClipboardImages)])
        + steps_if(p.pin_images, seq![MigrationStep::MoveToTarget(DataItem::PinImages)])
        + steps_if(p.image_library, seq![MigrationStep::MoveToTarget(DataItem::ImageLibrary)])
        + steps_if(p.app_icons, seq![MigrationStep::MoveToTarget(DataItem::AppIcons)])
        + steps_if(p.database, seq![MigrationStep::MoveToTarget(DataItem::Database)])
}

/// Merging one directory item: only when the current directory has it;
/// the new location's copy is folded in, removed, and replaced by the
/// current one.
#[verifier::opaque]
pub open spec fn merge_dir_steps(item: DataItem, source: ItemPresence, target: ItemPresence) -> Seq<MigrationStep> {
    steps_if(source.has(item),
        steps_if(!target.has(item), seq![MigrationStep::CreateTargetDir(item)])
            + seq![
                MigrationStep::MergeTargetIntoSource(item),
                MigrationStep::Remove(Side::Target, item),
                MigrationStep::MoveToTarget(item),
            ])
}

/// Merging the databases: only when the current directory has one.
#[verifier::opaque]
pub open spec fn merge_database_steps(source: ItemPresence, target: ItemPresence) -> Seq<MigrationStep> {
    steps_if(source.database,
        steps_if(target.database, seq![
            MigrationStep::MergeTargetDatabaseIntoSource,
            MigrationStep::Remove(Side::Target, DataItem::Database),
        ]) + seq![MigrationStep::MoveToTarget(DataItem::Database)])
}

/// The steps of a move of the data directory, given what each directory
/// holds when it starts.
pub open spec fn migration_plan_of(mode: MigrationMode, source: ItemPresence, target: ItemPresence) -> Seq<MigrationStep> {
    let body = match mode {
        MigrationMode::SourceOnly => removals(Side::Target, target) + moves(source),
        MigrationMode::TargetOnly => removals(Side::Source, source),
        MigrationMode::Merge => merge_dir_steps(DataItem::ClipboardImages, source, target)
            + merge_dir_steps(DataItem::PinImages, source, target)
            + merge_dir_steps(DataItem::ImageLibrary, source, target)
            + merge_dir_steps(DataItem::AppIcons, source, target)
            + merge_database_steps(source, target),
    };
    body.push(MigrationStep::RemoveJournalFiles)
}

fn push_if(v: &mut Vec<MigrationStep>, b: bool, step: MigrationStep)
    ensures
        final(v)@ == old(v)@ + steps_if(b, seq![step]),
{
    if b {
        v.push(step);
    }
    proof {
        if !b {
            assert(old(v)@ + Seq::<MigrationStep>::empty() =~= old(v)@);
        }
    }
}

fn push_removals(v: &mut Vec<MigrationStep>, side: Side, p: ItemPresence)
    ensures
        final(v)@ == old(v)@ + removals(side, p),
{
    let ghost start = v@;
    push_if(v, p.clipboard_images, MigrationStep::Remove(side, DataItem::ClipboardImages));
    push_if(v, p.pin_images, MigrationStep::Remove(side, DataItem::PinImages));
    push_if(v, p.image_library, MigrationStep::Remove(side, DataItem::ImageLibrary));
    push_if(v, p.app_icons, MigrationStep::Remove(side, DataItem::AppIcons));
    push_if(v, p.database, MigrationStep::Remove(side, DataItem::Database));
    assert(v@ =~= start + removals(side, p));
}

fn push_moves(v: &mut Vec<MigrationStep>, p: ItemPresence)
    ensures
        final(v)@ == old(v)@ + moves(p),
{
    let ghost start = v@;
    push_if(v, p.clipboard_images, MigrationStep::MoveToTarget(DataItem::ClipboardImages));
    push_if(v, p.pin_images, MigrationStep::MoveToTarget(DataItem::PinImages));
    push_if(v, p.image_library, MigrationStep::MoveToTarget(DataItem::ImageLibrary));
    push_if(v, p.app_icons, MigrationStep::MoveToTarget(DataItem::AppIcons));
    push_if(v, p.database, MigrationStep::MoveToTarget(DataItem::Database));
    assert(v@ =~= start + moves(p));
}

fn presence_has(p: ItemPresence, item: DataItem) -> (r: bool)
    ensures
        r == p.has(item),
{
    match item {
        DataItem::ClipboardImages => p.clipboard_images,
        DataItem::PinImages => p.pin_images,
        DataItem::ImageLibrary => p.image_library,
        DataItem::AppIcons => p.app_icons,
        DataItem::Database => p.database,
    }
}

fn push_merge_dir(v: &mut Vec<MigrationStep>, item: DataItem, source: ItemPresence, target: ItemPresence)
    ensures
        final(v)@ == old(v)@ + merge_dir_steps(item, source, target),
{
    reveal(merge_dir_steps);
    let ghost start = v@;
    if presence_has(source, item) {
        let t = presence_has(target, item);
        if !t {
            v.push(MigrationStep::CreateTargetDir(item));
        }
        v.push(MigrationStep::MergeTargetIntoSource(item));
        v.push(MigrationStep::Remove(Side::Target, item));
        v.push(MigrationStep::MoveToTarget(item));
    }
    assert(v@ =~= start + merge_dir_steps(item, source, target));
}

fn push_merge_database(v: &mut Vec<MigrationStep>, source: ItemPresence, target: ItemPresence)
    ensures
        final(v)@ == old(v)@ + merge_database_steps(source, target),
{
    reveal(merge_database_steps);
    let ghost start = v@;
    if source.database {
        if target.database {
            v.push(MigrationStep::MergeTargetDatabaseIntoSource);
            v.push(MigrationStep::Remove(Side::Target, DataItem::Database));
        }
        v.push(MigrationStep::MoveToTarget(DataItem::Database));
    }
    assert(v@ =~= start + merge_database_steps(source, target));
}

/// Plans a move of the data directory in the given mode, from what each
/// directory holds when it starts.
pub fn plan_migration(mode: MigrationMode, source: ItemPresence, target: ItemPresence) -> (r: Vec<MigrationStep>)
    ensures
        r@ == migration_plan_of(mode, source, target),
{
    let mut v: Vec<MigrationStep> = Vec::new();
    match mode {
        MigrationMode::SourceOnly => {
            push_removals(&mut v, Side::Target, target);
            push_moves(&mut v, source);
        },
        MigrationMode::TargetOnly => {
            push_removals(&mut v, Side::Source, source);
        },
        MigrationMode::Merge => {
            push_merge_dir(&mut v, DataItem::ClipboardImages, source, target);
            push_merge_dir(&mut v, DataItem::PinImages, source, target);
            push_merge_dir(&mut v, DataItem::ImageLibrary, source, target);
            push_merge_dir(&mut v, DataItem::AppIcons, source, target);
            push_merge_database(&mut v, source, target);
        },
    }
    v.push(MigrationStep::RemoveJournalFiles);
    proof {
        let body = match mode {
            MigrationMode::SourceOnly => removals(Side::Target, target) + moves(source),
            MigrationMode::TargetOnly => removals(Side::Source, source),
            MigrationMode::Merge => merge_dir_steps(DataItem::ClipboardImages, source, target)
                + merge_dir_steps(DataItem::PinImages, source, target)
                + merge_dir_steps(DataItem::ImageLibrary, source, target)
                + merge_dir_steps(DataItem::AppIcons, source, target)
                + merge_database_steps(source, target),
        };
        assert(v@ =~= body.push(MigrationStep::RemoveJournalFiles));
    }
    v
}

proof fn lemma_contains_within(pre: Seq<MigrationStep>, mid: Seq<MigrationStep>, post: Seq<MigrationStep>, x: MigrationStep)
    requires
        mid.contains(x),
    ensures
        (pre + mid + post).contains(x),
{
    let i = choose|i: int| 0 <= i < mid.len() && mid[i] == x;
    assert((pre + mid + post)[pre.len() + i] == x);
}

proof fn lemma_moves_contain(source: ItemPresence, item: DataItem)
    requires
        source.has(item),
    ensures
        moves(source).contains(MigrationStep::MoveToTarget(item)),
{
    let m = MigrationStep::MoveToTarget(item);
    let a = steps_if(source.clipboard_images, seq![MigrationStep::MoveToTarget(DataItem::ClipboardImages)]);
    let b = steps_if(source.pin_images, seq![MigrationStep::MoveToTarget(DataItem::PinImages)]);
    let c = steps_if(source.image_library, seq![MigrationStep::MoveToTarget(DataItem::ImageLibrary)]);
    let d = steps_if(source.app_icons, seq![MigrationStep::MoveToTarget(DataItem::AppIcons)]);
    let e = steps_if(source.database, seq![MigrationStep::MoveToTarget(DataItem::Database)]);
    assert(moves(source) == a + b + c + d + e);
    match item {
        DataItem::ClipboardImages => { assert(a[0] == m); lemma_contains_within(Seq::empty(), a, b + c + d + e, m); assert(Seq::<MigrationStep>::empty() + a + (b + c + d + e) =~= moves(source)); },
        DataItem::PinImages => { assert(b[0] == m); lemma_contains_within(a, b, c + d + e, m); assert(a + b + (c + d + e) =~= moves(source)); },
        DataItem::ImageLibrary => { assert(c[0] == m); lemma_contains_within(a + b, c, d + e, m); assert(a + b + c + (d + e) =~= moves(source)); },
        DataItem::AppIcons => { assert(d[0] == m); lemma_contains_within(a + b + c, d, e, m); },
        DataItem::Database => { assert(e[0] == m); lemma_contains_within(a + b + c + d, e, Seq::empty(), m); assert(a + b + c + d + e + Seq::<MigrationStep>::empty() =~= moves(source)); },
    }
}

proof fn lemma_merge_dir_ends_with_move(item: DataItem, source: ItemPresence, target: ItemPresence)
    requires
        source.has(item),
    ensures
        merge_dir_steps(item, source, target).contains(MigrationStep::MoveToTarget(item)),
{
    reveal(merge_dir_steps);
    let s = merge_dir_steps(item, source, target);
    assert(s[s.len() - 1] == MigrationStep::MoveToTarget(item));
}

proof fn lemma_merge_database_ends_with_move(source: ItemPresence, target: ItemPresence)
    requires
        source.database,
    ensures
        merge_database_steps(source, target).contains(MigrationStep::MoveToTarget(DataItem::Database)),
{
    reveal(merge_database_steps);
    let s = merge_database_steps(source, target);
    assert(s[s.len() - 1] == MigrationStep::MoveToTarget(DataItem::Database));
}

proof fn lemma_push_keeps_contains(s: Seq<MigrationStep>, y: MigrationStep, x: MigrationStep)
    requires
        s.contains(x),
    ensures
        s.push(y).contains(x),
{
    let i = choose|i: int| 0 <= i < s.len() && s[i] == x;
    assert(s.push(y)[i] == x);
}

proof fn lemma_merge_plan_moves(source: ItemPresence, target: ItemPresence, item: DataItem)
    requires
        source.has(item),
    ensures
        migration_plan_of(MigrationMode::Merge, source, target).contains(MigrationStep::MoveToTarget(item)),
{
    let m = MigrationStep::MoveToTarget(item);
    let a = merge_dir_steps(DataItem::ClipboardImages, source, target);
    let b = merge_dir_steps(DataItem::PinImages, source, target);
    let c = merge_dir_steps(DataItem::ImageLibrary, source, target);
    let d = merge_dir_steps(DataItem::AppIcons, source, target);
    let e = merge_database_steps(source, target);
    let body = a + b + c + d + e;
    match item {
        DataItem::ClipboardImages => {
            lemma_merge_dir_ends_with_move(item, source, target);
            lemma_contains_within(Seq::empty(), a, b + c + d + e, m);
            assert(Seq::<MigrationStep>::empty() + a + (b + c + d + e) =~= body);
        },
        DataItem::PinImages => {
            lemma_merge_dir_ends_with_move(item, source, target);
            lemma_contains_within(a, b, c + d + e, m);
            assert(a + b + (c + d + e) =~= body);
        },
        DataItem::ImageLibrary => {
            lemma_merge_dir_ends_with_move(item, source, target);
            lemma_contains_within(a + b, c, d + e, m);
            assert(a + b + c + (d + e) =~= body);
        },
        DataItem::AppIcons => {
            lemma_merge_dir_ends_with_move(item, source, target);
            lemma_contains_within(a + b + c, d, e, m);
        },
        DataItem::Database => {
            lemma_merge_database_ends_with_move(source, target);
            lemma_contains_within(a + b + c + d, e, Seq::empty(), m);
            assert(a + b + c + d + e + Seq::<MigrationStep>::empty() =~= body);
        },
    }
    lemma_push_keeps_contains(body, MigrationStep::RemoveJournalFiles, m);
}

/// Law: unless the new location's data is chosen, every item the current
/// directory holds is moved to the new location.
pub proof fn lemma_current_data_reaches_target(mode: MigrationMode, source: ItemPresence, target: ItemPresence, item: DataItem)
    requires
        mode != MigrationMode::TargetOnly,
        source.has(item),
    ensures
        migration_plan_of(mode, source, target).contains(MigrationStep::MoveToTarget(item)),
{
    let m = MigrationStep::MoveToTarget(item);
    if mode == MigrationMode::SourceOnly {
        lemma_moves_contain(source, item);
        let pre = removals(Side::Target, target);
        lemma_contains_within(pre, moves(source), Seq::empty(), m);
        assert(pre + moves(source) + Seq::<MigrationStep>::empty() =~= pre + moves(source));
        lemma_push_keeps_contains(pre + moves(source), MigrationStep::RemoveJournalFiles, m);
    } else {
        lemma_merge_plan_moves(source, target, item);
    }
}

/// Law: when the new location's data is chosen, nothing of it is removed
/// or overwritten.
pub proof fn lemma_target_only_keeps_target(source: ItemPresence, target: ItemPresence)
    ensures
        forall|i: int| 0 <= i < migration_plan_of(MigrationMode::TargetOnly, source, target).len() ==> {
            let s = #[trigger] migration_plan_of(MigrationMode::TargetOnly, source, target)[i];
            s is Remove && s->Remove_0 == Side::Source || s is RemoveJournalFiles
        },
{
    let plan = migration_plan_of(MigrationMode::TargetOnly, source, target);
    let r = removals(Side::Source, source);
    assert forall|i: int| 0 <= i < r.len() implies (#[trigger] r[i]) is Remove && r[i]->Remove_0 == Side::Source by {
    }
    assert forall|i: int| 0 <= i < plan.len() implies {
        let s = #[trigger] plan[i];
        s is Remove && s->Remove_0 == Side::Source || s is RemoveJournalFiles
    } by {
        if i < r.len() {
            assert(plan[i] == r[i]);
        }
    }
}

/// Whether `step` folds the new location's copy of `item` into the
/// current directory.
pub open spec fn folds_into_source(step: MigrationStep, item: DataItem) -> bool {
    step == MigrationStep::MergeTargetIntoSource(item)
        || (item == DataItem::Database && step == MigrationStep::MergeTargetDatabaseIntoSource)
}

/// Whether every removal of a new-location item comes right after that
/// item was folded into the current directory.
pub open spec fn merged_before_removed(s: Seq<MigrationStep>) -> bool {
    forall|k: int| 0 <= k < s.len() && (#[trigger] s[k]) is Remove && s[k]->Remove_0 == Side::Target
        ==> k > 0 && folds_into_source(s[k - 1], s[k]->Remove_1)
}

proof fn lemma_merged_before_removed_concat(a: Seq<MigrationStep>, b: Seq<MigrationStep>)
    requires
        merged_before_removed(a),
        merged_before_removed(b),
    ensures
        merged_before_removed(a + b),
{
    let s = a + b;
    assert forall|k: int| 0 <= k < s.len() && (#[trigger] s[k]) is Remove && s[k]->Remove_0 == Side::Target
        implies k > 0 && folds_into_source(s[k - 1], s[k]->Remove_1) by {
        if k < a.len() {
            assert(s[k] == a[k]);
            assert(s[k - 1] == a[k - 1]);
        } else {
            let j = k - a.len();
            assert(s[k] == b[j]);
            assert(b[j] is Remove);
            assert(s[k - 1] == b[j - 1]);
        }
    }
}

proof fn lemma_merge_dir_steps_merge_first(item: DataItem, source: ItemPresence, target: ItemPresence)
    requires
        item != DataItem::Database,
    ensures
        merged_before_removed(merge_dir_steps(item, source, target)),
{
    reveal(merge_dir_steps);
    let s = merge_dir_steps(item, source, target);
    assert forall|k: int| 0 <= k < s.len() && (#[trigger] s[k]) is Remove && s[k]->Remove_0 == Side::Target
        implies k > 0 && folds_into_source(s[k - 1], s[k]->Remove_1) by {
        if target.has(item) {
            assert(k == 1);
        } else {
            assert(k == 2);
        }
    }
}

proof fn lemma_merge_database_steps_merge_first(source: ItemPresence, target: ItemPresence)
    ensures
        merged_before_removed(merge_database_steps(source, target)),
{
    reveal(merge_database_steps);
}

/// Law: when the data is merged, a file or database of the new location is
/// removed only right after it was folded into the current data, so
/// nothing that only the new location held is lost.
pub proof fn lemma_merge_folds_target_before_removing(source: ItemPresence, target: ItemPresence)
    ensures
        merged_before_removed(migration_plan_of(MigrationMode::Merge, source, target)),
{
    let a = merge_dir_steps(DataItem::ClipboardImages, source, target);
    let b = merge_dir_steps(DataItem::PinImages, source, target);
    let c = merge_dir_steps(DataItem::ImageLibrary, source, target);
    let d = merge_dir_steps(DataItem::AppIcons, source, target);
    let e = merge_database_steps(source, target);
    lemma_merge_dir_steps_merge_first(DataItem::ClipboardImages, source, target);
    lemma_merge_dir_steps_merge_first(DataItem::PinImages, source, target);
    lemma_merge_dir_steps_merge_first(DataItem::ImageLibrary, source, target);
    lemma_merge_dir_steps_merge_first(DataItem::AppIcons, source, target);
    lemma_merge_database_steps_merge_first(source, target);
    lemma_merged_before_removed_concat(a, b);
    lemma_merged_before_removed_concat(a + b, c);
    lemma_merged_before_removed_concat(a + b + c, d);
    lemma_merged_before_removed_concat(a + b + c + d, e);
    let j = seq![MigrationStep::RemoveJournalFiles];
    assert(merged_before_removed(j));
    lemma_merged_before_removed_concat(a + b + c + d + e, j);
    assert(a + b + c + d + e + j =~= (a + b + c + d + e).push(MigrationStep::RemoveJournalFiles));
}

} // verus!
