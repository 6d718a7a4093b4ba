//! Migration of user folders (Desktop, Downloads, ...) to another drive:
//! the targets, the precheck, the plan, and the decisions of the migration
//! and of its rollback.
use vstd::prelude::*;
use crate::commands::failures::{failure, failure_views, failures_json, failures_to_json, PathFailure, Tally};
use crate::commands::logs::{all_pairs, pairs_of, parse_moved_pair, read_pairs, rollback_check, RollbackRefusal};
use crate::commands::tasks::{is_task_cancelled, CancelRegistry};
use crate::json::{
    get_str, json_get, json_get_array, json_get_str, json_opt_str, json_str_array, lemma_field_lookup_at,
    lemma_view_items_push,
    opt_str_json, str_items, view_fields, view_items, Json, JsonValue, ObjectBuilder,
};
use crate::native::paths::{
    drive_root_for_path, drive_root_of, join_path, join_path_str, system_drive_of, system_drive_root,
};
use crate::native::registry::ShellFolderValue;
use crate::native::rules::{MigrationRule, RuleCatalog};
use crate::storage::logs::{
    contains_string, find_entry, find_entry_index, rollback_targets_of, rollback_targets_spec,
    OperationLogEntry,
};
use crate::text::{
    ascii_lower, contains_seq, contains_str, decimal, is_prefix_of, join_seqs, join_strings, owned,
    push_decimal, push_str, starts_with, str_eq, to_ascii_lowercase, views,
};

verus! {

/// The word that confirms a user folder migration.
pub const MIGRATION_CONFIRMATION: &'static str = "MIGRATE_USER_FOLDER";

/// The word that confirms the rollback of a user folder migration.
pub const MIGRATION_ROLLBACK_CONFIRMATION: &'static str = "ROLLBACK_USER_FOLDER_MIGRATION";

/// A failure recorded by a migration or its rollback.
pub type MigrationFailure = PathFailure;

/// A migration rule as offered.
pub struct MigrationTarget {
    pub id: String,
    pub name: String,
    pub strategy: String,
    pub rollback: bool,
}

/// A user folder, where it is configured to be, and where it resolves to.
pub struct UserFolderTarget {
    pub id: String,
    pub name: String,
    pub registry_value: String,
    pub configured_path: String,
    pub resolved_path: String,
    pub fallback_path: String,
    pub exists: bool,
    pub on_system_drive: bool,
    pub risk: String,
    pub strategy: String,
    pub rollback: bool,
    pub status: String,
}

/// What was found before a migration: whether it may go ahead, and why not.
pub struct MigrationPrecheck {
    pub folder_id: String,
    pub name: String,
    pub source_path: String,
    pub target_path: String,
    pub source_exists: bool,
    pub target_exists: bool,
    pub target_on_system_drive: bool,
    pub target_drive_exists: bool,
    pub source_bytes: u64,
    pub target_free_bytes: u64,
    pub has_enough_space: bool,
    pub writable_status: String,
    pub can_continue: bool,
    pub blockers: Vec<String>,
    pub warnings: Vec<String>,
}

/// A planned migration.
pub struct UserFolderMigrationPlan {
    pub id: String,
    pub folder_id: String,
    pub name: String,
    pub registry_value: String,
    pub original_registry_value: Option<String>,
    pub original_registry_type: Option<String>,
    pub source_path: String,
    pub target_path: String,
    pub source_bytes: u64,
    pub file_count: u64,
    pub can_execute: bool,
    pub blockers: Vec<String>,
    pub warnings: Vec<String>,
}

/// The outcome of a migration.
pub struct UserFolderMigrationResult {
    pub id: String,
    pub status: String,
    pub folder_id: String,
    pub name: String,
    pub moved_count: u64,
    pub skipped_count: u64,
    pub moved_bytes: u64,
    pub source_path: String,
    pub target_path: String,
    pub failures: Vec<MigrationFailure>,
}

/// The outcome of the rollback of a migration.
pub struct UserFolderMigrationRollbackResult {
    pub id: String,
    pub rollback_of: String,
    pub status: String,
    pub restored_count: u64,
    pub skipped_count: u64,
    pub restored_registry: bool,
    pub failures: Vec<MigrationFailure>,
}

/// An item a migration moved.
pub struct MovedMigrationItem {
    pub original_path: String,
    pub target_path: String,
    pub bytes: u64,
}

/// The progress of a migration task.
pub struct MigrationTaskProgressEvent {
    pub task: String,
    pub current: u64,
    pub total: u64,
    pub label: String,
    pub status: String,
    pub processed_items: Option<u64>,
    pub moved_count: Option<u64>,
    pub skipped_count: Option<u64>,
    pub processed_bytes: Option<u64>,
    pub failure_count: Option<u64>,
    pub current_file_path: Option<String>,
    pub current_file_bytes: Option<u64>,
    pub current_file_total_bytes: Option<u64>,
}

/// The optional counts of a progress event.
pub struct MigrationProgressStats {
    pub processed_items: Option<u64>,
    pub moved_count: Option<u64>,
    pub skipped_count: Option<u64>,
    pub processed_bytes: Option<u64>,
    pub failure_count: Option<u64>,
    pub current_file_path: Option<String>,
    pub current_file_bytes: Option<u64>,
    pub current_file_total_bytes: Option<u64>,
}

/// A progress event of migration task `task`.
pub fn migration_progress_event(
    task: &str,
    current: u64,
    total: u64,
    label: String,
    status: &str,
    stats: MigrationProgressStats,
) -> (ev: MigrationTaskProgressEvent)
    ensures
        ev.task@ == task@,
        ev.current == current,
        ev.total == total,
        ev.label == label,
        ev.status@ == status@,
        ev.processed_items == stats.processed_items,
        ev.moved_count == stats.moved_count,
        ev.skipped_count == stats.skipped_count,
        ev.processed_bytes == stats.processed_bytes,
        ev.failure_count == stats.failure_count,
        ev.current_file_path == stats.current_file_path,
        ev.current_file_bytes == stats.current_file_bytes,
        ev.current_file_total_bytes == stats.current_file_total_bytes,
{
    MigrationTaskProgressEvent {
        task: owned(task),
        current,
        total,
        label,
        status: owned(status),
        processed_items: stats.processed_items,
        moved_count: stats.moved_count,
        skipped_count: stats.skipped_count,
        processed_bytes: stats.processed_bytes,
        failure_count: stats.failure_count,
        current_file_path: stats.current_file_path,
        current_file_bytes: stats.current_file_bytes,
        current_file_total_bytes: stats.current_file_total_bytes,
    }
}

// ---------------------------------------------------------------------
// Names
// ---------------------------------------------------------------------

/// The `User Shell Folders` value that locates folder `id`.
pub open spec fn registry_value_name_spec(id: Seq<char>) -> Seq<char> {
    if id == "desktop"@ {
        "Desktop"@
    } else if id == "downloads"@ {
        "{374DE290-123F-4565-9164-39C4925E467B}"@
    } else if id == "documents"@ {
        "Personal"@
    } else if id == "pictures"@ {
        "My Pictures"@
    } else if id == "videos"@ {
        "My Video"@
    } else if id == "music"@ {
        "My Music"@
    } else {
        id
    }
}

/// The `User Shell Folders` value that locates folder `id`
/// (`registry_value_name`).
pub fn registry_value_name(id: &str) -> (res: String)
    ensures
        res@ == registry_value_name_spec(id@),
{
    if str_eq(id, "desktop") {
        owned("Desktop")
    } else if str_eq(id, "downloads") {
        owned("{374DE290-123F-4565-9164-39C4925E467B}")
    } else if str_eq(id, "documents") {
        owned("Personal")
    } else if str_eq(id, "pictures") {
        owned("My Pictures")
    } else if str_eq(id, "videos") {
        owned("My Video")
    } else if str_eq(id, "music") {
        owned("My Music")
    } else {
        owned(id)
    }
}

/// The directory name a migrated folder `id` (named `name`) gets.
pub open spec fn folder_dir_name_spec(id: Seq<char>, name: Seq<char>) -> Seq<char> {
    if id == "desktop"@ {
        "Desktop"@
    } else if id == "downloads"@ {
        "Downloads"@
    } else if id == "documents"@ {
        "Documents"@
    } else if id == "pictures"@ {
        "Pictures"@
    } else if id == "videos"@ {
        "Videos"@
    } else if id == "music"@ {
        "Music"@
    } else {
        name
    }
}

/// The directory name a migrated folder gets (`safe_folder_dir_name`).
pub fn safe_folder_dir_name(id: &str, name: &str) -> (res: String)
    ensures
        res@ == folder_dir_name_spec(id@, name@),
{
    if str_eq(id, "desktop") {
        owned("Desktop")
    } else if str_eq(id, "downloads") {
        owned("Downloads")
    } else if str_eq(id, "documents") {
        owned("Documents")
    } else if str_eq(id, "pictures") {
        owned("Pictures")
    } else if str_eq(id, "videos") {
        owned("Videos")
    } else if str_eq(id, "music") {
        owned("Music")
    } else {
        owned(name)
    }
}

/// The view of an optional borrowed string.
pub open spec fn str_opt_view(s: Option<&str>) -> Option<Seq<char>> {
    match s {
        Some(t) => Some(t@),
        None => None,
    }
}

/// `"detected"` for a folder that exists, `"missing"` for one that does not.
pub open spec fn detection_status(exists: bool) -> Seq<char> {
    if exists {
        "detected"@
    } else {
        "missing"@
    }
}

/// `path` lies on the system drive: it starts, ignoring ASCII case, with the
/// system drive (such as `C:`).
pub open spec fn on_system_drive_spec(path: Seq<char>, system_drive: Option<Seq<char>>) -> bool {
    is_prefix_of(ascii_lower(system_drive_of(system_drive)), ascii_lower(path))
}

/// Whether `path` lies on the system drive (`is_on_system_drive`).
pub fn is_on_system_drive(path: &str, system_drive: Option<&str>) -> (r: bool)
    ensures
        r == on_system_drive_spec(
            path@,
            str_opt_view(system_drive),
        ),
{
    let drive = match system_drive {
        Some(d) => owned(d),
        None => owned("C:"),
    };
    let p = to_ascii_lowercase(path);
    let d = to_ascii_lowercase(drive.as_str());
    starts_with(p.as_str(), d.as_str())
}

// ---------------------------------------------------------------------
// Targets
// ---------------------------------------------------------------------

/// `t` offers migration rule `r`.
pub open spec fn offers_migration(t: MigrationTarget, r: MigrationRule) -> bool {
    &&& t.id@ == r.id@
    &&& t.name@ == r.name@
    &&& t.strategy@ == r.strategy@
    &&& t.rollback == r.rollback
}

/// The migration rules, as offered (`get_migration_targets`).
pub fn get_migration_targets(catalog: &RuleCatalog) -> (res: Vec<MigrationTarget>)
    ensures
        res@.len() == catalog.migration@.len(),
        forall|i: int| 0 <= i < res@.len() ==> offers_migration(#[trigger] res@[i], catalog.migration@[i]),
{
    let mut res: Vec<MigrationTarget> = Vec::new();
    let mut i: usize = 0;
    while i < catalog.migration.len()
        invariant
            i <= catalog.migration.len(),
            res@.len() == i,
            forall|k: int| 0 <= k < i ==> offers_migration(#[trigger] res@[k], catalog.migration@[k]),
        decreases catalog.migration.len() - i,
    {
        let r = &catalog.migration[i];
        res.push(
            MigrationTarget {
                id: owned(r.id.as_str()),
                name: owned(r.name.as_str()),
                strategy: owned(r.strategy.as_str()),
                rollback: r.rollback,
            },
        );
        i = i + 1;
    }
    res
}

/// Where a user folder is configured to be: the registry's value if it has
/// one, else the rule's default location.
pub fn configured_path(rule: &MigrationRule, registry: Option<String>) -> (res: String)
    ensures
        res@ == match registry {
            Some(r) => r@,
            None => rule.source@,
        },
{
    match registry {
        Some(r) => r,
        None => owned(rule.source.as_str()),
    }
}

/// The position of the first migration rule whose identifier is `id`.
pub open spec fn find_migration(rules: Seq<MigrationRule>, id: Seq<char>) -> Option<int>
    decreases rules.len(),
{
    if rules.len() == 0 {
        None
    } else if rules[0].id@ == id {
        Some(0)
    } else {
        match find_migration(rules.drop_first(), id) {
            Some(k) => Some(k + 1),
            None => None,
        }
    }
}

/// The position in the catalog of the rule of folder `folder_id`, or why
/// there is none.
pub fn find_migration_rule(catalog: &RuleCatalog, folder_id: &str) -> (res: Result<usize, String>)
    ensures
        match res {
            Ok(k) => find_migration(catalog.migration@, folder_id@) == Some(k as int) && k < catalog.migration@.len(),
            Err(e) => find_migration(catalog.migration@, folder_id@) is None && e@ == "migration rule "@ + folder_id@
                + " not found"@,
        },
{
    let rules = &catalog.migration;
    let mut i: usize = 0;
    assert(rules@.subrange(0, rules@.len() as int) =~= rules@);
    while i < rules.len()
        invariant
            rules@ == catalog.migration@,
            i <= rules.len(),
            find_migration(rules@, folder_id@) == match find_migration(rules@.subrange(i as int, rules@.len() as int), folder_id@) {
                Some(k) => Some(k + i),
                None => None::<int>,
            },
        decreases rules.len() - i,
    {
        let ghost rest = rules@.subrange(i as int, rules@.len() as int);
        proof {
            assert(rest.drop_first() =~= rules@.subrange(i + 1, rules@.len() as int));
            assert(rest[0] == rules@[i as int]);
        }
        if str_eq(rules[i].id.as_str(), folder_id) {
            return Ok(i);
        }
        i = i + 1;
    }
    proof {
        assert(rules@.subrange(i as int, rules@.len() as int) =~= Seq::<MigrationRule>::empty());
    }
    let mut msg = owned("migration rule ");
    push_str(&mut msg, folder_id);
    push_str(&mut msg, " not found");
    Err(msg)
}

/// A user folder target (`build_user_folder_target`), from the rule, where
/// the folder is configured to be, where that and the rule's default
/// resolve to, and whether the resolved folder exists.
pub fn build_user_folder_target(
    rule: &MigrationRule,
    configured: String,
    resolved: String,
    fallback: String,
    exists: bool,
    system_drive: Option<&str>,
) -> (t: UserFolderTarget)
    ensures
        t.id@ == rule.id@,
        t.name@ == rule.name@,
        t.registry_value@ == registry_value_name_spec(rule.id@),
        t.configured_path == configured,
        t.resolved_path == resolved,
        t.fallback_path == fallback,
        t.exists == exists,
        t.on_system_drive == on_system_drive_spec(
            resolved@,
            str_opt_view(system_drive),
        ),
        t.risk@ == rule.risk@,
        t.strategy@ == rule.strategy@,
        t.rollback == rule.rollback,
        t.status@ == detection_status(exists),
{
    let on_system_drive = is_on_system_drive(resolved.as_str(), system_drive);
    UserFolderTarget {
        id: owned(rule.id.as_str()),
        name: owned(rule.name.as_str()),
        registry_value: registry_value_name(rule.id.as_str()),
        configured_path: configured,
        resolved_path: resolved,
        fallback_path: fallback,
        exists,
        on_system_drive,
        risk: owned(rule.risk.as_str()),
        strategy: owned(rule.strategy.as_str()),
        rollback: rule.rollback,
        status: if exists {
            owned("detected")
        } else {
            owned("missing")
        },
    }
}

// ---------------------------------------------------------------------
// Precheck
// ---------------------------------------------------------------------

/// Where folder `id` (named `name`) goes under `target_root`.
pub open spec fn migration_target_spec(target_root: Seq<char>, id: Seq<char>, name: Seq<char>) -> Seq<char> {
    join_path(target_root, folder_dir_name_spec(id, name))
}

/// Where a folder goes under `target_root`.
pub fn migration_target_path(target_root: &str, rule: &MigrationRule) -> (res: String)
    ensures
        res@ == migration_target_spec(target_root@, rule.id@, rule.name@),
{
    let dir = safe_folder_dir_name(rule.id.as_str(), rule.name.as_str());
    join_path_str(target_root, dir.as_str())
}

/// The six known user folders keep their fixed English names under the
/// target root, whatever their display name: Desktop, Downloads,
/// Documents, Pictures, Videos and Music. Any other folder is placed under
/// its display name.
pub proof fn law_known_folders_keep_english_names(root: Seq<char>, id: Seq<char>, name: Seq<char>)
    ensures
        migration_target_spec(root, "desktop"@, name) == join_path(root, "Desktop"@),
        migration_target_spec(root, "downloads"@, name) == join_path(root, "Downloads"@),
        migration_target_spec(root, "documents"@, name) == join_path(root, "Documents"@),
        migration_target_spec(root, "pictures"@, name) == join_path(root, "Pictures"@),
        migration_target_spec(root, "videos"@, name) == join_path(root, "Videos"@),
        migration_target_spec(root, "music"@, name) == join_path(root, "Music"@),
        id != "desktop"@ && id != "downloads"@ && id != "documents"@ && id != "pictures"@ && id != "videos"@
            && id != "music"@ ==> migration_target_spec(root, id, name) == join_path(root, name),
{
    reveal_strlit("desktop");
    reveal_strlit("downloads");
    reveal_strlit("documents");
    reveal_strlit("pictures");
    reveal_strlit("videos");
    reveal_strlit("music");
    assert("downloads"@ != "desktop"@) by { assert("downloads"@[2] != "desktop"@[2]); }
    assert("documents"@ != "desktop"@) by { assert("documents"@.len() != "desktop"@.len()); }
    assert("documents"@ != "downloads"@) by { assert("documents"@[2] != "downloads"@[2]); }
    assert("pictures"@ != "desktop"@) by { assert("pictures"@[0] != "desktop"@[0]); }
    assert("pictures"@ != "downloads"@) by { assert("pictures"@[0] != "downloads"@[0]); }
    assert("pictures"@ != "documents"@) by { assert("pictures"@[0] != "documents"@[0]); }
    assert("videos"@ != "desktop"@) by { assert("videos"@[0] != "desktop"@[0]); }
    assert("videos"@ != "downloads"@) by { assert("videos"@[0] != "downloads"@[0]); }
    assert("videos"@ != "documents"@) by { assert("videos"@[0] != "documents"@[0]); }
    assert("videos"@ != "pictures"@) by { assert("videos"@[0] != "pictures"@[0]); }
    assert("music"@ != "desktop"@) by { assert("music"@[0] != "desktop"@[0]); }
    assert("music"@ != "downloads"@) by { assert("music"@[0] != "downloads"@[0]); }
    assert("music"@ != "documents"@) by { assert("music"@[0] != "documents"@[0]); }
    assert("music"@ != "pictures"@) by { assert("music"@[0] != "pictures"@[0]); }
    assert("music"@ != "videos"@) by { assert("music"@[0] != "videos"@[0]); }
}

/// The drive whose space a target path needs: its own drive, or the system
/// drive for a path without a drive.
pub open spec fn target_drive_spec(target_path: Seq<char>, system_drive: Option<Seq<char>>) -> Seq<char> {
    match drive_root_of(target_path) {
        Some(d) => d,
        None => system_drive_of(system_drive) + seq!['\\'],
    }
}

/// The drive whose space a target path needs.
pub fn target_drive(target_path: &str, system_drive: Option<&str>) -> (res: String)
    ensures
        res@ == target_drive_spec(
            target_path@,
            str_opt_view(system_drive),
        ),
{
    match drive_root_for_path(target_path) {
        Some(d) => d,
        None => system_drive_root(system_drive),
    }
}

/// What the file system reported for a migration precheck.
pub struct PrecheckFacts {
    pub source_exists: bool,
    pub target_exists: bool,
    pub target_drive_exists: bool,
    pub target_total_bytes: u64,
    pub target_free_bytes: u64,
    pub source_bytes: u64,
}

/// The reasons a migration may not go ahead, in the order they are listed.
pub open spec fn precheck_blockers(f: PrecheckFacts) -> Seq<Seq<char>> {
    let b0: Seq<Seq<char>> = Seq::empty();
    let b1 = if !f.source_exists { b0.push("源目录不存在"@) } else { b0 };
    let b2 = if f.target_exists { b1.push("目标目录已存在"@) } else { b1 };
    let b3 = if !f.target_drive_exists || f.target_total_bytes == 0 {
        b2.push("目标盘不存在或无法读取容量"@)
    } else {
        b2
    };
    if !(f.target_free_bytes > f.source_bytes) { b3.push("目标盘剩余空间不足"@) } else { b3 }
}

/// The warnings of a migration precheck.
pub open spec fn precheck_warnings(on_system_drive: bool) -> Seq<Seq<char>> {
    if on_system_drive {
        seq!["目标路径仍在系统盘"@]
    } else {
        Seq::empty()
    }
}

/// Checks a migration of `target` to `target_path` against what the file
/// system reported (`precheck_user_folder_migration`).
pub fn precheck_user_folder_migration(
    rule: &MigrationRule,
    target: &UserFolderTarget,
    target_path: &str,
    facts: &PrecheckFacts,
    system_drive: Option<&str>,
) -> (p: MigrationPrecheck)
    ensures
        p.folder_id@ == rule.id@,
        p.name@ == rule.name@,
        p.source_path@ == target.resolved_path@,
        p.target_path@ == target_path@,
        p.source_exists == facts.source_exists,
        p.target_exists == facts.target_exists,
        p.target_on_system_drive == on_system_drive_spec(
            target_path@,
            str_opt_view(system_drive),
        ),
        p.target_drive_exists == facts.target_drive_exists,
        p.source_bytes == facts.source_bytes,
        p.target_free_bytes == facts.target_free_bytes,
        p.has_enough_space == (facts.target_free_bytes > facts.source_bytes),
        p.writable_status@ == "not-verified"@,
        views(p.blockers@) == precheck_blockers(*facts),
        views(p.warnings@) == precheck_warnings(p.target_on_system_drive),
        p.can_continue == (p.blockers@.len() == 0),
{
    let on_system = is_on_system_drive(target_path, system_drive);
    let has_enough_space = facts.target_free_bytes > facts.source_bytes;
    let mut blockers: Vec<String> = Vec::new();
    let mut warnings: Vec<String> = Vec::new();
    let ghost f = *facts;
    if !facts.source_exists {
        blockers.push(owned("源目录不存在"));
    }
    if facts.target_exists {
        blockers.push(owned("目标目录已存在"));
    }
    if !facts.target_drive_exists || facts.target_total_bytes == 0 {
        blockers.push(owned("目标盘不存在或无法读取容量"));
    }
    if on_system {
        warnings.push(owned("目标路径仍在系统盘"));
    }
    if !has_enough_space {
        blockers.push(owned("目标盘剩余空间不足"));
    }
    assert(views(blockers@) =~= precheck_blockers(f));
    assert(views(warnings@) =~= precheck_warnings(on_system));
    let can_continue = blockers.len() == 0;
    MigrationPrecheck {
        folder_id: owned(rule.id.as_str()),
        name: owned(rule.name.as_str()),
        source_path: owned(target.resolved_path.as_str()),
        target_path: owned(target_path),
        source_exists: facts.source_exists,
        target_exists: facts.target_exists,
        target_on_system_drive: on_system,
        target_drive_exists: facts.target_drive_exists,
        source_bytes: facts.source_bytes,
        target_free_bytes: facts.target_free_bytes,
        has_enough_space,
        writable_status: owned("not-verified"),
        can_continue,
        blockers,
        warnings,
    }
}

/// A migration may go ahead exactly when the source folder exists, the
/// target does not, the target drive exists and reports a capacity, and
/// its free space exceeds the size of the folder.
pub proof fn law_precheck_can_continue(f: PrecheckFacts)
    ensures
        (precheck_blockers(f).len() == 0) == (f.source_exists && !f.target_exists && f.target_drive_exists
            && f.target_total_bytes != 0 && f.target_free_bytes > f.source_bytes),
{
}

// ---------------------------------------------------------------------
// Plan
// ---------------------------------------------------------------------

/// The details recorded with a migration plan.
pub open spec fn plan_details(p: UserFolderMigrationPlan) -> Json {
    Json::Object(
        seq![
            ("folderId"@, Json::Str(p.folder_id@)),
            ("name"@, Json::Str(p.name@)),
            ("registryValue"@, Json::Str(p.registry_value@)),
            ("originalRegistryValue"@, opt_str_json(opt_view(p.original_registry_value))),
            ("originalRegistryType"@, opt_str_json(opt_view(p.original_registry_type))),
            ("sourcePath"@, Json::Str(p.source_path@)),
            ("targetPath"@, Json::Str(p.target_path@)),
            ("sourceBytes"@, Json::UInt(p.source_bytes)),
            ("fileCount"@, Json::UInt(p.file_count)),
            ("canExecute"@, Json::Bool(p.can_execute)),
            ("blockers"@, Json::Array(str_items(p.blockers@))),
            ("warnings"@, Json::Array(str_items(p.warnings@))),
        ],
    )
}

/// The view of an optional string.
pub open spec fn opt_view(s: Option<String>) -> Option<Seq<char>> {
    match s {
        Some(t) => Some(t@),
        None => None,
    }
}

/// A migration plan (`create_user_folder_migration_plan`): the precheck,
/// the registry value that locates the folder and what it held, the number
/// of files; and the log entry that records it.
pub fn create_user_folder_migration_plan(
    operation_id: &str,
    created_at_ms: u128,
    folder_id: &str,
    precheck: MigrationPrecheck,
    registry_value: &str,
    original: Option<ShellFolderValue>,
    file_count: u64,
) -> (res: (UserFolderMigrationPlan, OperationLogEntry))
    ensures
        res.0.id@ == operation_id@,
        res.0.folder_id@ == folder_id@,
        res.0.name == precheck.name,
        res.0.registry_value@ == registry_value@,
        opt_view(res.0.original_registry_value) == match original {
            Some(v) => Some(v.value@),
            None => None,
        },
        opt_view(res.0.original_registry_type) == match original {
            Some(v) => Some(v.value_type@),
            None => None,
        },
        res.0.source_path == precheck.source_path,
        res.0.target_path == precheck.target_path,
        res.0.source_bytes == precheck.source_bytes,
        res.0.file_count == file_count,
        res.0.can_execute == precheck.can_continue,
        res.0.blockers == precheck.blockers,
        res.0.warnings == precheck.warnings,
        res.1.id@ == operation_id@,
        res.1.operation_type@ == "user-folder-migration-plan"@,
        res.1.status@ == "planned"@,
        res.1.created_at_ms == created_at_ms,
        !res.1.rollbackable,
        res.1.summary@ == "用户目录迁移计划："@ + precheck.source_path@ + " -> "@ + precheck.target_path@,
        res.1.details@ == plan_details(res.0),
{
    let (orig_value, orig_type) = match original {
        Some(v) => (Some(v.value), Some(v.value_type)),
        None => (None, None),
    };
    let plan = UserFolderMigrationPlan {
        id: owned(operation_id),
        folder_id: owned(folder_id),
        name: precheck.name,
        registry_value: owned(registry_value),
        original_registry_value: orig_value,
        original_registry_type: orig_type,
        source_path: precheck.source_path,
        target_path: precheck.target_path,
        source_bytes: precheck.source_bytes,
        file_count,
        can_execute: precheck.can_continue,
        blockers: precheck.blockers,
        warnings: precheck.warnings,
    };
    let mut summary = owned("用户目录迁移计划：");
    push_str(&mut summary, plan.source_path.as_str());
    push_str(&mut summary, " -> ");
    push_str(&mut summary, plan.target_path.as_str());
    let mut b = ObjectBuilder::new();
    b.str_field("folderId", plan.folder_id.as_str());
    b.str_field("name", plan.name.as_str());
    b.str_field("registryValue", plan.registry_value.as_str());
    b.field("originalRegistryValue", json_opt_str(&plan.original_registry_value));
    b.field("originalRegistryType", json_opt_str(&plan.original_registry_type));
    b.str_field("sourcePath", plan.source_path.as_str());
    b.str_field("targetPath", plan.target_path.as_str());
    b.uint_field("sourceBytes", plan.source_bytes);
    b.uint_field("fileCount", plan.file_count);
    b.bool_field("canExecute", plan.can_execute);
    b.field("blockers", json_str_array(&plan.blockers));
    b.field("warnings", json_str_array(&plan.warnings));
    proof {
        assert(view_fields(b.fields@) =~= match plan_details(plan) {
            Json::Object(f) => f,
            _ => Seq::empty(),
        });
    }
    let details = b.build();
    let entry = OperationLogEntry {
        id: owned(operation_id),
        operation_type: owned("user-folder-migration-plan"),
        status: owned("planned"),
        created_at_ms,
        rollbackable: false,
        summary,
        details,
    };
    (plan, entry)
}

// ---------------------------------------------------------------------
// Migration
// ---------------------------------------------------------------------

/// Checks the confirmation word of a migration.
pub fn check_migration_confirmation(confirmation: &str) -> (res: Result<(), String>)
    ensures
        match res {
            Ok(()) => confirmation@ == MIGRATION_CONFIRMATION@,
            Err(e) => confirmation@ != MIGRATION_CONFIRMATION@ && e@ == "invalid migration confirmation"@,
        },
{
    if str_eq(confirmation, MIGRATION_CONFIRMATION) {
        Ok(())
    } else {
        Err(owned("invalid migration confirmation"))
    }
}

/// Checks that a plan may be executed.
pub fn check_plan_executable(plan: &UserFolderMigrationPlan) -> (res: Result<(), String>)
    ensures
        match res {
            Ok(()) => plan.can_execute,
            Err(e) => !plan.can_execute && e@ == "migration precheck failed: "@ + join_seqs(
                views(plan.blockers@),
                "，"@,
            ),
        },
{
    if plan.can_execute {
        Ok(())
    } else {
        let mut msg = owned("migration precheck failed: ");
        let joined = join_strings(&plan.blockers, "，");
        push_str(&mut msg, joined.as_str());
        Err(msg)
    }
}

/// Checks that nothing stands where an item of the folder is to be moved
/// (before the item is moved).
pub fn check_destination_free(destination: &str, exists: bool) -> (res: Result<(), PathFailure>)
    ensures
        match res {
            Ok(()) => !exists,
            Err(f) => exists && f.path@ == destination@ && f.reason@ == "target item already exists"@,
        },
{
    if exists {
        Err(failure(destination, "target item already exists"))
    } else {
        Ok(())
    }
}

/// Whether the error of a move reports a cancellation.
pub fn is_cancellation(err: &str) -> (r: bool)
    ensures
        r == contains_seq(err@, "cancelled"@),
{
    contains_str(err, "cancelled")
}

/// Checks whether copying for task `cancel_task` has been cancelled
/// (`check_copy_cancel`).
pub fn check_copy_cancel(registry: &CancelRegistry, cancel_task: Option<&str>) -> (res: Result<(), String>)
    ensures
        match cancel_task {
            Some(t) => match res {
                Ok(()) => !registry@.contains(t@),
                Err(e) => registry@.contains(t@) && e@ == t@ + " cancelled"@,
            },
            None => res is Ok,
        },
{
    match cancel_task {
        Some(task) => {
            if is_task_cancelled(registry, task) {
                let mut msg = owned(task);
                push_str(&mut msg, " cancelled");
                Err(msg)
            } else {
                Ok(())
            }
        },
        None => Ok(()),
    }
}

/// The record of a moved item.
pub open spec fn moved_item_json(m: MovedMigrationItem) -> Json {
    Json::Object(
        seq![
            ("originalPath"@, Json::Str(m.original_path@)),
            ("targetPath"@, Json::Str(m.target_path@)),
            ("bytes"@, Json::UInt(m.bytes)),
        ],
    )
}

/// The running state of a migration: the tally of the entries listed in
/// the source folder, the bytes moved and the items moved. Every moved
/// item is counted as done.
pub struct MigrationRun {
    tally: Tally,
    moved_bytes: u64,
    moved_items: Vec<MovedMigrationItem>,
}

impl MigrationRun {
    /// The tally of the entries.
    pub closed spec fn counts(&self) -> Tally {
        self.tally
    }

    /// The items moved, in order.
    pub closed spec fn moved(&self) -> Seq<MovedMigrationItem> {
        self.moved_items@
    }

    /// The bytes the moves carried, capped at `u64::MAX`.
    pub closed spec fn bytes(&self) -> u64 {
        self.moved_bytes
    }

    /// The tally is consistent and every moved item is counted as done.
    pub open spec fn inv(&self) -> bool {
        &&& self.counts().inv()
        &&& self.moved().len() == self.counts().done()
    }

    /// A migration of a folder that listed `entries` entries, none
    /// handled yet.
    pub fn new(entries: u64) -> (r: MigrationRun)
        ensures
            r.inv(),
            r.counts().total() == entries,
            r.counts().done() == 0,
            r.counts().skipped() == 0,
            r.counts().failure_list().len() == 0,
            r.moved().len() == 0,
            r.bytes() == 0,
    {
        MigrationRun { tally: Tally::new(entries), moved_bytes: 0, moved_items: Vec::new() }
    }

    /// The tally of the entries.
    pub fn tally(&self) -> (t: &Tally)
        ensures
            *t == self.counts(),
    {
        &self.tally
    }

    /// The bytes the moves carried.
    pub fn moved_bytes(&self) -> (n: u64)
        ensures
            n == self.bytes(),
    {
        self.moved_bytes
    }

    /// The items moved, in order.
    pub fn moved_items(&self) -> (m: &Vec<MovedMigrationItem>)
        ensures
            m@ == self.moved(),
    {
        &self.moved_items
    }

    /// Whether every entry has been counted.
    pub fn is_complete(&self) -> (r: bool)
        requires
            self.inv(),
        ensures
            r == self.counts().complete(),
            !r ==> self.counts().has_room(),
    {
        self.tally.is_complete()
    }

    /// An entry of `dir` could not be read: it is skipped with the error.
    pub fn record_entry_failure(&mut self, dir: &str, err: &str)
        requires
            old(self).inv(),
            old(self).counts().has_room(),
        ensures
            final(self).inv(),
            final(self).counts().total() == old(self).counts().total(),
            final(self).counts().done() == old(self).counts().done(),
            final(self).counts().skipped() == old(self).counts().skipped() + 1,
            failure_views(final(self).counts().failure_list()) == failure_views(old(self).counts().failure_list()).push(
                (dir@, err@),
            ),
            final(self).moved() == old(self).moved(),
            final(self).bytes() == old(self).bytes(),
    {
        let ghost before = self.tally.failure_list();
        self.tally.record_failure(failure(dir, err));
        assert(failure_views(self.tally.failure_list()) =~= failure_views(before).push((dir@, err@)));
    }

    /// An entry without a file name is skipped without a failure.
    pub fn record_nameless(&mut self)
        requires
            old(self).inv(),
            old(self).counts().has_room(),
        ensures
            final(self).inv(),
            final(self).counts().total() == old(self).counts().total(),
            final(self).counts().done() == old(self).counts().done(),
            final(self).counts().skipped() == old(self).counts().skipped() + 1,
            final(self).counts().failure_list() == old(self).counts().failure_list(),
            final(self).moved() == old(self).moved(),
            final(self).bytes() == old(self).bytes(),
    {
        self.tally.record_skip();
    }

    /// Checks the place an entry is to be moved to: when something already
    /// stands at `destination` (`exists`), the entry stays where it is and
    /// is skipped with the failure of [`check_destination_free`], and
    /// `false` is returned; else nothing changes and `true` is returned.
    pub fn check_destination(&mut self, destination: &str, exists: bool) -> (free: bool)
        requires
            old(self).inv(),
            old(self).counts().has_room(),
        ensures
            final(self).inv(),
            free == !exists,
            final(self).counts().total() == old(self).counts().total(),
            final(self).moved() == old(self).moved(),
            final(self).bytes() == old(self).bytes(),
            final(self).counts().done() == old(self).counts().done(),
            exists ==> final(self).counts().skipped() == old(self).counts().skipped() + 1
                && failure_views(final(self).counts().failure_list()) == failure_views(
                old(self).counts().failure_list(),
            ).push((destination@, "target item already exists"@)),
            !exists ==> *final(self) == *old(self),
    {
        match check_destination_free(destination, exists) {
            Ok(()) => true,
            Err(f) => {
                let ghost before = self.tally.failure_list();
                self.tally.record_failure(f);
                assert(failure_views(self.tally.failure_list()) =~= failure_views(before).push((f.path@, f.reason@)));
                false
            },
        }
    }

    /// What became of the move of `original` to `target`, an item that
    /// measured `size` bytes before: the bytes the move carried, or the
    /// error. The item is recorded with the larger of the two counts. A
    /// cancellation stops the migration and is handed back with the run
    /// unchanged (see [`cancel_user_folder_migration`]); any other error
    /// skips the item.
    pub fn record_move(&mut self, original: &str, target: &str, size: u64, outcome: Result<u64, String>) -> (res:
        Result<(), String>)
        requires
            old(self).inv(),
            old(self).counts().has_room(),
        ensures
            final(self).inv(),
            final(self).counts().total() == old(self).counts().total(),
            match outcome {
                Ok(bytes) => res is Ok && final(self).counts().done() == old(self).counts().done() + 1
                    && final(self).counts().skipped() == old(self).counts().skipped()
                    && final(self).counts().failure_list() == old(self).counts().failure_list()
                    && final(self).bytes() == (if old(self).bytes() + bytes > u64::MAX {
                    u64::MAX as int
                } else {
                    old(self).bytes() + bytes
                }) && final(self).moved().drop_last() == old(self).moved()
                    && final(self).moved().len() == old(self).moved().len() + 1
                    && final(self).moved().last().original_path@ == original@
                    && final(self).moved().last().target_path@ == target@
                    && final(self).moved().last().bytes == (if bytes >= size {
                    bytes
                } else {
                    size
                }),
                Err(e) => if contains_seq(e@, "cancelled"@) {
                    res == Err::<(), String>(e) && *final(self) == *old(self)
                } else {
                    res is Ok && final(self).counts().done() == old(self).counts().done()
                        && final(self).counts().skipped() == old(self).counts().skipped() + 1
                        && failure_views(final(self).counts().failure_list()) == failure_views(
                        old(self).counts().failure_list(),
                    ).push((original@, e@)) && final(self).moved() == old(self).moved()
                        && final(self).bytes() == old(self).bytes()
                },
            },
    {
        match outcome {
            Ok(bytes) => {
                let ghost before = self.moved_items@;
                self.tally.record_done();
                self.moved_bytes = self.moved_bytes.saturating_add(bytes);
                let recorded = if bytes >= size {
                    bytes
                } else {
                    size
                };
                self.moved_items.push(
                    MovedMigrationItem { original_path: owned(original), target_path: owned(target), bytes: recorded },
                );
                assert(self.moved_items@.drop_last() =~= before);
                Ok(())
            },
            Err(e) => {
                if is_cancellation(e.as_str()) {
                    Err(e)
                } else {
                    self.tally.record_result(original, Err(e));
                    Ok(())
                }
            },
        }
    }
}

/// The records of the moved items.
pub fn moved_items_to_json(items: &Vec<MovedMigrationItem>) -> (v: JsonValue)
    ensures
        v@ == Json::Array(items@.map_values(|m: MovedMigrationItem| moved_item_json(m))),
{
    let mut out: Vec<JsonValue> = Vec::new();
    let mut i: usize = 0;
    while i < items.len()
        invariant
            i <= items.len(),
            view_items(out@) == items@.subrange(0, i as int).map_values(|m: MovedMigrationItem| moved_item_json(m)),
        decreases items.len() - i,
    {
        let m = &items[i];
        let mut b = ObjectBuilder::new();
        b.str_field("originalPath", m.original_path.as_str());
        b.str_field("targetPath", m.target_path.as_str());
        b.uint_field("bytes", m.bytes);
        proof {
            assert(view_fields(b.fields@) =~= seq![
                ("originalPath"@, Json::Str(m.original_path@)),
                ("targetPath"@, Json::Str(m.target_path@)),
                ("bytes"@, Json::UInt(m.bytes)),
            ]);
        }
        let x = b.build();
        proof {
            lemma_view_items_push(out@, x);
            assert(items@.subrange(0, i + 1).map_values(|m: MovedMigrationItem| moved_item_json(m)) =~= items@.subrange(
                0,
                i as int,
            ).map_values(|m: MovedMigrationItem| moved_item_json(m)).push(moved_item_json(items@[i as int])));
        }
        out.push(x);
        i = i + 1;
    }
    assert(items@.subrange(0, items@.len() as int) =~= items@);
    JsonValue::Array(out)
}

/// The status of a migration.
pub open spec fn migration_status(registry_updated: bool, failures: int) -> Seq<char> {
    if !registry_updated {
        "completed-with-registry-failure"@
    } else if failures == 0 {
        "completed"@
    } else {
        "completed-with-skips"@
    }
}

/// The failures of a migration after the registry update: the registry
/// failure, if any, comes last.
pub open spec fn failures_after_registry(
    failures: Seq<(Seq<char>, Seq<char>)>,
    registry_value: Seq<char>,
    update: Result<(), Seq<char>>,
) -> Seq<(Seq<char>, Seq<char>)> {
    match update {
        Ok(()) => failures,
        Err(e) => failures.push((registry_value, "failed to update User Shell Folders: "@ + e)),
    }
}

/// The details recorded with a migration.
pub open spec fn migration_details(
    plan: UserFolderMigrationPlan,
    registry_updated: bool,
    moved: u64,
    skipped: u64,
    moved_bytes: u64,
    items: Seq<MovedMigrationItem>,
    failures: Seq<(Seq<char>, Seq<char>)>,
) -> Json {
    Json::Object(
        seq![
            ("folderId"@, Json::Str(plan.folder_id@)),
            ("name"@, Json::Str(plan.name@)),
            ("registryValue"@, Json::Str(plan.registry_value@)),
            ("originalRegistryValue"@, opt_str_json(opt_view(plan.original_registry_value))),
            ("originalRegistryType"@, opt_str_json(opt_view(plan.original_registry_type))),
            ("newRegistryValue"@, Json::Str(plan.target_path@)),
            ("registryUpdated"@, Json::Bool(registry_updated)),
            ("sourcePath"@, Json::Str(plan.source_path@)),
            ("targetPath"@, Json::Str(plan.target_path@)),
            ("movedCount"@, Json::UInt(moved)),
            ("skippedCount"@, Json::UInt(skipped)),
            ("movedBytes"@, Json::UInt(moved_bytes)),
            ("movedItems"@, Json::Array(items.map_values(|m: MovedMigrationItem| moved_item_json(m)))),
            ("failures"@, failures_json(failures)),
        ],
    )
}

/// The text that summarises a migration.
pub open spec fn migration_summary(plan: UserFolderMigrationPlan, moved: u64, skipped: u64) -> Seq<char> {
    "用户目录迁移："@ + plan.source_path@ + " -> "@ + plan.target_path@ + "，移动 "@ + decimal(moved as nat)
        + " 项，跳过 "@ + decimal(skipped as nat) + " 项"@
}

/// The text that summarises a cancelled migration.
pub open spec fn migration_cancel_summary(plan: UserFolderMigrationPlan, moved: u64, skipped: u64) -> Seq<char> {
    "用户目录迁移已取消："@ + plan.source_path@ + " -> "@ + plan.target_path@ + "，移动 "@ + decimal(moved as nat)
        + " 项，跳过 "@ + decimal(skipped as nat) + " 项"@
}

/// The log entry of migration `operation_id` as it stands, with the given
/// failures: the entry of a finished migration, or of a cancelled one.
#[verifier::spinoff_prover]
#[verifier::rlimit(40)]
fn migration_entry(
    plan: &UserFolderMigrationPlan,
    moved: u64,
    skipped: u64,
    moved_bytes: u64,
    moved_items: &Vec<MovedMigrationItem>,
    failures: &Vec<PathFailure>,
    updated: bool,
    operation_id: &str,
    created_at_ms: u128,
    cancelled: bool,
) -> (e: OperationLogEntry)
    ensures
        ({
            let fs = failure_views(failures@);
            &&& e.id@ == operation_id@
            &&& e.operation_type@ == "user-folder-migration"@
            &&& e.status@ == (if cancelled {
                "cancelled"@
            } else {
                migration_status(updated, fs.len() as int)
            })
            &&& e.created_at_ms == created_at_ms
            &&& e.rollbackable
            &&& e.summary@ == (if cancelled {
                migration_cancel_summary(*plan, moved, skipped)
            } else {
                migration_summary(*plan, moved, skipped)
            })
            &&& e.details@ == migration_details(*plan, updated, moved, skipped, moved_bytes, moved_items@, fs)
        }),
{
    let status_text = if cancelled {
        "cancelled"
    } else if !updated {
        "completed-with-registry-failure"
    } else if failures.len() == 0 {
        "completed"
    } else {
        "completed-with-skips"
    };
    let mut summary = if cancelled {
        owned("用户目录迁移已取消：")
    } else {
        owned("用户目录迁移：")
    };
    push_str(&mut summary, plan.source_path.as_str());
    push_str(&mut summary, " -> ");
    push_str(&mut summary, plan.target_path.as_str());
    push_str(&mut summary, "，移动 ");
    push_decimal(&mut summary, moved as u128);
    push_str(&mut summary, " 项，跳过 ");
    push_decimal(&mut summary, skipped as u128);
    push_str(&mut summary, " 项");
    let mut b = ObjectBuilder::new();
    b.str_field("folderId", plan.folder_id.as_str());
    b.str_field("name", plan.name.as_str());
    b.str_field("registryValue", plan.registry_value.as_str());
    b.field("originalRegistryValue", json_opt_str(&plan.original_registry_value));
    b.field("originalRegistryType", json_opt_str(&plan.original_registry_type));
    b.str_field("newRegistryValue", plan.target_path.as_str());
    b.bool_field("registryUpdated", updated);
    b.str_field("sourcePath", plan.source_path.as_str());
    b.str_field("targetPath", plan.target_path.as_str());
    b.uint_field("movedCount", moved);
    b.uint_field("skippedCount", skipped);
    b.uint_field("movedBytes", moved_bytes);
    b.field("movedItems", moved_items_to_json(moved_items));
    b.field("failures", failures_to_json(failures));
    proof {
        assert(view_fields(b.fields@) =~= match migration_details(
            *plan,
            updated,
            moved,
            skipped,
            moved_bytes,
            moved_items@,
            failure_views(failures@),
        ) {
            Json::Object(f) => f,
            _ => Seq::empty(),
        });
    }
    let details = b.build();
    OperationLogEntry {
        id: owned(operation_id),
        operation_type: owned("user-folder-migration"),
        status: owned(status_text),
        created_at_ms,
        rollbackable: true,
        summary,
        details,
    }
}

/// Records the end of a migration once
/// every entry of the source folder has been counted: each entry was moved
/// or skipped, the outcome of the registry update is added, and the log
/// entry and the result are made.
pub fn finish_user_folder_migration(
    plan: &UserFolderMigrationPlan,
    run: MigrationRun,
    registry_update: Result<(), String>,
    operation_id: &str,
    created_at_ms: u128,
) -> (res: (OperationLogEntry, UserFolderMigrationResult))
    requires
        run.inv(),
        run.counts().complete(),
    ensures
        ({
            let update = match registry_update {
                Ok(()) => Ok::<(), Seq<char>>(()),
                Err(e) => Err::<(), Seq<char>>(e@),
            };
            let c = run.counts();
            let fs = failures_after_registry(failure_views(c.failure_list()), plan.registry_value@, update);
            let updated = registry_update is Ok;
            &&& res.1.moved_count + res.1.skipped_count == c.total()
            &&& res.1.moved_count == run.moved().len()
            &&& res.0.id@ == operation_id@
            &&& res.0.operation_type@ == "user-folder-migration"@
            &&& res.0.status@ == migration_status(updated, fs.len() as int)
            &&& res.0.created_at_ms == created_at_ms
            &&& res.0.rollbackable
            &&& res.0.summary@ == migration_summary(*plan, c.done(), c.skipped())
            &&& res.0.details@ == migration_details(*plan, updated, c.done(), c.skipped(), run.bytes(), run.moved(), fs)
            &&& res.1.id@ == operation_id@
            &&& res.1.status@ == migration_status(updated, fs.len() as int)
            &&& res.1.folder_id@ == plan.folder_id@
            &&& res.1.name@ == plan.name@
            &&& res.1.moved_count == c.done()
            &&& res.1.skipped_count == c.skipped()
            &&& res.1.moved_bytes == run.bytes()
            &&& res.1.source_path@ == plan.source_path@
            &&& res.1.target_path@ == plan.target_path@
            &&& failure_views(res.1.failures@) == fs
        }),
{
    let moved = run.tally.done();
    let skipped = run.tally.skipped();
    let MigrationRun { tally, moved_bytes, moved_items } = run;
    let mut failures = tally.into_failures();
    let updated = match registry_update {
        Ok(()) => true,
        Err(e) => {
            let mut reason = owned("failed to update User Shell Folders: ");
            push_str(&mut reason, e.as_str());
            let ghost before = failures@;
            failures.push(failure(plan.registry_value.as_str(), reason.as_str()));
            proof {
                assert(failure_views(failures@) =~= failure_views(before).push((plan.registry_value@, reason@)));
            }
            false
        },
    };
    let entry = migration_entry(plan, moved, skipped, moved_bytes, &moved_items, &failures, updated, operation_id, created_at_ms, false);
    let status_text = if !updated {
        "completed-with-registry-failure"
    } else if failures.len() == 0 {
        "completed"
    } else {
        "completed-with-skips"
    };
    let result = UserFolderMigrationResult {
        id: owned(operation_id),
        status: owned(status_text),
        folder_id: owned(plan.folder_id.as_str()),
        name: owned(plan.name.as_str()),
        moved_count: moved,
        skipped_count: skipped,
        moved_bytes,
        source_path: owned(plan.source_path.as_str()),
        target_path: owned(plan.target_path.as_str()),
        failures,
    };
    (entry, result)
}

/// Records a cancelled migration: when some entry was already moved to the
/// target, the log entry (with the registry left as it was) that lists
/// exactly the items moved, so that they can be rolled back; `None` when
/// nothing was moved.
pub fn cancel_user_folder_migration(
    plan: &UserFolderMigrationPlan,
    run: &MigrationRun,
    operation_id: &str,
    created_at_ms: u128,
) -> (res: Option<OperationLogEntry>)
    requires
        run.inv(),
    ensures
        match res {
            None => run.counts().done() == 0,
            Some(e) => {
                let c = run.counts();
                &&& c.done() > 0
                &&& e.id@ == operation_id@
                &&& e.operation_type@ == "user-folder-migration"@
                &&& e.status@ == "cancelled"@
                &&& e.created_at_ms == created_at_ms
                &&& e.rollbackable
                &&& e.summary@ == migration_cancel_summary(*plan, c.done(), c.skipped())
                &&& e.details@ == migration_details(
                    *plan,
                    false,
                    c.done(),
                    c.skipped(),
                    run.bytes(),
                    run.moved(),
                    failure_views(c.failure_list()),
                )
            },
        },
{
    if run.tally.done() == 0 {
        None
    } else {
        Some(
            migration_entry(
                plan,
                run.tally.done(),
                run.tally.skipped(),
                run.moved_bytes,
                &run.moved_items,
                run.tally.failures(),
                false,
                operation_id,
                created_at_ms,
                true,
            ),
        )
    }
}

// ---------------------------------------------------------------------
// Rollback
// ---------------------------------------------------------------------

/// The entry types that roll back a user folder migration.
pub open spec fn migration_rollback_types() -> Seq<Seq<char>> {
    seq!["user-folder-migration-rollback"@]
}

/// The migrations that already have a rollback record
/// (`migration_rollback_targets`).
pub fn migration_rollback_targets(entries: &Vec<OperationLogEntry>) -> (res: Vec<String>)
    ensures
        res@.map_values(|s: String| s@) == rollback_targets_spec(entries@, migration_rollback_types()),
{
    let types: Vec<&str> = vec!["user-folder-migration-rollback"];
    assert(types@.map_values(|s: &str| s@) =~= migration_rollback_types());
    rollback_targets_of(entries, &types)
}

/// What the rollback of a migration needs: the registry value, what it is
/// restored to, and the moved items as `(original, target)` pairs.
pub struct UserFolderRollbackInput {
    pub registry_value: String,
    pub original_registry_value: String,
    pub moved_items: Vec<(String, String)>,
}

/// What the rollback of migration `id` restores, or why it is refused.
pub open spec fn user_folder_rollback_spec(entries: Seq<OperationLogEntry>, id: Seq<char>, confirmation: Seq<char>) -> Result<
    (Seq<char>, Seq<char>, Seq<(Seq<char>, Seq<char>)>),
    Seq<char>,
> {
    match rollback_check(
        entries,
        rollback_targets_spec(entries, migration_rollback_types()),
        id,
        confirmation,
        MIGRATION_ROLLBACK_CONFIRMATION@,
        "user-folder-migration"@,
    ) {
        Err(RollbackRefusal::Confirmation) => Err("invalid migration rollback confirmation"@),
        Err(RollbackRefusal::AlreadyRolledBack) => Err("migration already has a rollback record"@),
        Err(RollbackRefusal::NotFound) => Err("migration "@ + id + " not found"@),
        Err(RollbackRefusal::NotRollbackable) => Err("operation is not a rollbackable user folder migration"@),
        Ok(k) => {
            let d = entries[k].details@;
            match json_get_str(d, "registryValue"@) {
                None => Err("migration log missing registryValue"@),
                Some(rv) => match json_get_str(d, "sourcePath"@) {
                    None => Err("migration log missing sourcePath"@),
                    Some(sp) => {
                        let orig = match json_get_str(d, "originalRegistryValue"@) {
                            Some(o) => o,
                            None => sp,
                        };
                        match json_get(d, "movedItems"@) {
                            None => Err("migration log missing movedItems"@),
                            Some(_) => match json_get_array(d, "movedItems"@) {
                                Some(items) => if all_pairs(items, "originalPath"@, "targetPath"@) {
                                    Ok((rv, orig, pairs_of(items, "originalPath"@, "targetPath"@)))
                                } else {
                                    Err(migration_items_error())
                                },
                                None => Err(migration_items_error()),
                            },
                        }
                    },
                },
            }
        },
    }
}

/// Why the moved items of a migration cannot be read.
pub open spec fn migration_items_error() -> Seq<char> {
    "failed to parse movedItems: expected a list of items with originalPath and targetPath"@
}

/// Checks a request to roll back migration `operation_id` and reads what
/// the rollback needs (before any item is
/// restored).
pub fn prepare_user_folder_rollback(entries: &Vec<OperationLogEntry>, operation_id: &str, confirmation: &str) -> (res: Result<
    UserFolderRollbackInput,
    String,
>)
    ensures
        match res {
            Ok(input) => user_folder_rollback_spec(entries@, operation_id@, confirmation@) == Ok::<
                (Seq<char>, Seq<char>, Seq<(Seq<char>, Seq<char>)>),
                Seq<char>,
            >(
                (
                    input.registry_value@,
                    input.original_registry_value@,
                    input.moved_items@.map_values(|p: (String, String)| (p.0@, p.1@)),
                ),
            ),
            Err(e) => user_folder_rollback_spec(entries@, operation_id@, confirmation@) == Err::<
                (Seq<char>, Seq<char>, Seq<(Seq<char>, Seq<char>)>),
                Seq<char>,
            >(e@),
        },
{
    if !str_eq(confirmation, MIGRATION_ROLLBACK_CONFIRMATION) {
        return Err(owned("invalid migration rollback confirmation"));
    }
    let targets = migration_rollback_targets(entries);
    if contains_string(&targets, operation_id) {
        return Err(owned("migration already has a rollback record"));
    }
    let k = match find_entry_index(entries, operation_id) {
        Some(k) => k,
        None => {
            let mut msg = owned("migration ");
            push_str(&mut msg, operation_id);
            push_str(&mut msg, " not found");
            return Err(msg);
        },
    };
    let entry = &entries[k];
    if !str_eq(entry.operation_type.as_str(), "user-folder-migration") || !entry.rollbackable {
        return Err(owned("operation is not a rollbackable user folder migration"));
    }
    let registry_value = match get_str(&entry.details, "registryValue") {
        Some(v) => owned(v),
        None => return Err(owned("migration log missing registryValue")),
    };
    let source_path = match get_str(&entry.details, "sourcePath") {
        Some(v) => owned(v),
        None => return Err(owned("migration log missing sourcePath")),
    };
    let original_registry_value = match get_str(&entry.details, "originalRegistryValue") {
        Some(v) => owned(v),
        None => source_path,
    };
    if entry.details.get("movedItems").is_none() {
        return Err(owned("migration log missing movedItems"));
    }
    let moved_items = match read_pairs(&entry.details, "movedItems", "originalPath", "targetPath") {
        Some(p) => p,
        None => {
            return Err(owned("failed to parse movedItems: expected a list of items with originalPath and targetPath"));
        },
    };
    Ok(UserFolderRollbackInput { registry_value, original_registry_value, moved_items })
}

/// The status of the rollback of a migration.
pub open spec fn migration_rollback_status(restored_registry: bool, failures: int) -> Seq<char> {
    if !restored_registry {
        "rolled-back-with-registry-failure"@
    } else if failures == 0 {
        "rolled-back"@
    } else {
        "rolled-back-with-skips"@
    }
}

/// The details recorded with the rollback of a migration.
pub open spec fn migration_rollback_details(
    of: Seq<char>,
    restored: u64,
    skipped: u64,
    restored_registry: bool,
    failures: Seq<(Seq<char>, Seq<char>)>,
) -> Json {
    Json::Object(
        seq![
            ("rollbackOf"@, Json::Str(of)),
            ("restoredCount"@, Json::UInt(restored)),
            ("skippedCount"@, Json::UInt(skipped)),
            ("restoredRegistry"@, Json::Bool(restored_registry)),
            ("failures"@, failures_json(failures)),
        ],
    )
}

/// Records the end of the rollback of migration `operation_id`: the outcome
/// of the registry restore is added, and the log entry and the result are
/// made.
pub fn finish_user_folder_rollback(
    operation_id: &str,
    registry_value: &str,
    tally: Tally,
    registry_restore: Result<(), String>,
    rollback_id: &str,
    created_at_ms: u128,
) -> (res: (OperationLogEntry, UserFolderMigrationRollbackResult))
    requires
        tally.inv(),
        tally.complete(),
    ensures
        res.1.restored_count + res.1.skipped_count == tally.total(),
        ({
            let fs = match registry_restore {
                Ok(()) => failure_views(tally.failure_list()),
                Err(e) => failure_views(tally.failure_list()).push(
                    (registry_value@, "failed to restore User Shell Folders: "@ + e@),
                ),
            };
            let restored = registry_restore is Ok;
            &&& res.0.id@ == rollback_id@
            &&& res.0.operation_type@ == "user-folder-migration-rollback"@
            &&& res.0.status@ == migration_rollback_status(restored, fs.len() as int)
            &&& res.0.created_at_ms == created_at_ms
            &&& !res.0.rollbackable
            &&& res.0.summary@ == "用户目录迁移回滚：恢复 "@ + decimal(tally.done() as nat) + " 项，跳过 "@
                + decimal(tally.skipped() as nat) + " 项"@
            &&& res.0.details@ == migration_rollback_details(
                operation_id@,
                tally.done(),
                tally.skipped(),
                restored,
                fs,
            )
            &&& res.1.id@ == rollback_id@
            &&& res.1.rollback_of@ == operation_id@
            &&& res.1.status@ == migration_rollback_status(restored, fs.len() as int)
            &&& res.1.restored_count == tally.done()
            &&& res.1.skipped_count == tally.skipped()
            &&& res.1.restored_registry == restored
            &&& failure_views(res.1.failures@) == fs
        }),
{
    let restored_n = tally.done();
    let skipped_n = tally.skipped();
    let mut failures = tally.into_failures();
    let restored = match registry_restore {
        Ok(()) => true,
        Err(e) => {
            let mut reason = owned("failed to restore User Shell Folders: ");
            push_str(&mut reason, e.as_str());
            let ghost before = failures@;
            failures.push(failure(registry_value, reason.as_str()));
            proof {
                assert(failure_views(failures@) =~= failure_views(before).push((registry_value@, reason@)));
            }
            false
        },
    };
    let status_text = if !restored {
        "rolled-back-with-registry-failure"
    } else if failures.len() == 0 {
        "rolled-back"
    } else {
        "rolled-back-with-skips"
    };
    let mut summary = owned("用户目录迁移回滚：恢复 ");
    push_decimal(&mut summary, restored_n as u128);
    push_str(&mut summary, " 项，跳过 ");
    push_decimal(&mut summary, skipped_n as u128);
    push_str(&mut summary, " 项");
    let mut b = ObjectBuilder::new();
    b.str_field("rollbackOf", operation_id);
    b.uint_field("restoredCount", restored_n);
    b.uint_field("skippedCount", skipped_n);
    b.bool_field("restoredRegistry", restored);
    b.field("failures", failures_to_json(&failures));
    proof {
        assert(view_fields(b.fields@) =~= match migration_rollback_details(
            operation_id@,
            restored_n,
            skipped_n,
            restored,
            failure_views(failures@),
        ) {
            Json::Object(f) => f,
            _ => Seq::empty(),
        });
    }
    let details = b.build();
    let entry = OperationLogEntry {
        id: owned(rollback_id),
        operation_type: owned("user-folder-migration-rollback"),
        status: owned(status_text),
        created_at_ms,
        rollbackable: false,
        summary,
        details,
    };
    let result = UserFolderMigrationRollbackResult {
        id: owned(rollback_id),
        rollback_of: owned(operation_id),
        status: owned(status_text),
        restored_count: restored_n,
        skipped_count: skipped_n,
        restored_registry: restored,
        failures,
    };
    (entry, result)
}

/// A user folder migration can be rolled back at most once: once the log
/// holds the rollback record of a migration, another rollback is refused.
pub proof fn law_user_folder_rollback_once(
    entries: Seq<OperationLogEntry>,
    record: OperationLogEntry,
    id: Seq<char>,
    confirmation: Seq<char>,
)
    requires
        record.operation_type@ == "user-folder-migration-rollback"@,
        crate::storage::logs::rollback_of(record) == Some(id),
        confirmation == MIGRATION_ROLLBACK_CONFIRMATION@,
    ensures
        user_folder_rollback_spec(entries.push(record), id, confirmation) == Err::<
            (Seq<char>, Seq<char>, Seq<(Seq<char>, Seq<char>)>),
            Seq<char>,
        >("migration already has a rollback record"@),
{
    let all = entries.push(record);
    assert(all.drop_last() =~= entries);
    assert(all.last() == record);
    assert(migration_rollback_types().contains("user-folder-migration-rollback"@)) by {
        assert(migration_rollback_types()[0] == "user-folder-migration-rollback"@);
    }
    let t = rollback_targets_spec(all, migration_rollback_types());
    assert(t[t.len() - 1] == id);
    assert(t.contains(id));
}


/// The record of a moved item reads back as its two paths.
proof fn lemma_moved_item_parse(m: MovedMigrationItem)
    ensures
        parse_moved_pair(moved_item_json(m), "originalPath"@, "targetPath"@) == Some((m.original_path@, m.target_path@)),
{
    reveal_strlit("originalPath");
    reveal_strlit("targetPath");
    let fields = seq![
        ("originalPath"@, Json::Str(m.original_path@)),
        ("targetPath"@, Json::Str(m.target_path@)),
        ("bytes"@, Json::UInt(m.bytes)),
    ];
    lemma_field_lookup_at(fields, "originalPath"@, 0);
    assert(fields[0].0.len() != "targetPath"@.len());
    lemma_field_lookup_at(fields, "targetPath"@, 1);
}

/// What a user folder migration records is what its rollback restores:
/// once its record, finished or cancelled ([`finish_user_folder_migration`],
/// [`cancel_user_folder_migration`]), is in the log (and it has not been
/// rolled back), a
/// confirmed rollback of it is accepted; it restores the registry value to
/// what it held before (the source folder when nothing was read), and moves
/// back exactly the items that were moved, in order.
pub proof fn law_user_folder_record_rolls_back(
    entries: Seq<OperationLogEntry>,
    record: OperationLogEntry,
    plan: UserFolderMigrationPlan,
    registry_updated: bool,
    moved: u64,
    skipped: u64,
    moved_bytes: u64,
    items: Seq<MovedMigrationItem>,
    failures: Seq<(Seq<char>, Seq<char>)>,
)
    requires
        record.operation_type@ == "user-folder-migration"@,
        record.rollbackable,
        record.details@ == migration_details(plan, registry_updated, moved, skipped, moved_bytes, items, failures),
        find_entry(entries, record.id@) is None,
        !rollback_targets_spec(entries, migration_rollback_types()).contains(record.id@),
    ensures
        user_folder_rollback_spec(entries.push(record), record.id@, MIGRATION_ROLLBACK_CONFIRMATION@) == Ok::<
            (Seq<char>, Seq<char>, Seq<(Seq<char>, Seq<char>)>),
            Seq<char>,
        >(
            (
                plan.registry_value@,
                match opt_view(plan.original_registry_value) {
                    Some(o) => o,
                    None => plan.source_path@,
                },
                items.map_values(|m: MovedMigrationItem| (m.original_path@, m.target_path@)),
            ),
        ),
{
    reveal_strlit("user-folder-migration");
    reveal_strlit("user-folder-migration-rollback");
    let types = migration_rollback_types();
    assert(!types.contains("user-folder-migration"@)) by {
        assert(types[0].len() != "user-folder-migration"@.len());
    }
    crate::storage::logs::lemma_targets_push_other(entries, record, types);
    crate::storage::logs::lemma_find_entry_push(entries, record);
    let all = entries.push(record);
    assert(all[entries.len() as int] == record);
    reveal_strlit("folderId");
    reveal_strlit("name");
    reveal_strlit("registryValue");
    reveal_strlit("originalRegistryValue");
    reveal_strlit("originalRegistryType");
    reveal_strlit("newRegistryValue");
    reveal_strlit("registryUpdated");
    reveal_strlit("sourcePath");
    reveal_strlit("targetPath");
    reveal_strlit("movedCount");
    reveal_strlit("skippedCount");
    reveal_strlit("movedBytes");
    reveal_strlit("movedItems");
    let jitems = items.map_values(|m: MovedMigrationItem| moved_item_json(m));
    let fields = seq![
        ("folderId"@, Json::Str(plan.folder_id@)),
        ("name"@, Json::Str(plan.name@)),
        ("registryValue"@, Json::Str(plan.registry_value@)),
        ("originalRegistryValue"@, opt_str_json(opt_view(plan.original_registry_value))),
        ("originalRegistryType"@, opt_str_json(opt_view(plan.original_registry_type))),
        ("newRegistryValue"@, Json::Str(plan.target_path@)),
        ("registryUpdated"@, Json::Bool(registry_updated)),
        ("sourcePath"@, Json::Str(plan.source_path@)),
        ("targetPath"@, Json::Str(plan.target_path@)),
        ("movedCount"@, Json::UInt(moved)),
        ("skippedCount"@, Json::UInt(skipped)),
        ("movedBytes"@, Json::UInt(moved_bytes)),
        ("movedItems"@, Json::Array(jitems)),
        ("failures"@, failures_json(failures)),
    ];
    assert(record.details@ == Json::Object(fields));
    assert forall|i: int| 0 <= i < 2 implies (#[trigger] fields[i]).0 != "registryValue"@ by {
        assert(fields[i].0.len() != "registryValue"@.len());
    }
    lemma_field_lookup_at(fields, "registryValue"@, 2);
    assert forall|i: int| 0 <= i < 3 implies (#[trigger] fields[i]).0 != "originalRegistryValue"@ by {
        assert(fields[i].0.len() != "originalRegistryValue"@.len());
    }
    lemma_field_lookup_at(fields, "originalRegistryValue"@, 3);
    assert forall|i: int| 0 <= i < 7 implies (#[trigger] fields[i]).0 != "sourcePath"@ by {
        assert(fields[i].0.len() != "sourcePath"@.len());
    }
    lemma_field_lookup_at(fields, "sourcePath"@, 7);
    assert forall|i: int| 0 <= i < 12 implies (#[trigger] fields[i]).0 != "movedItems"@ by {
        assert(fields[i].0.len() != "movedItems"@.len() || fields[i].0[5] != "movedItems"@[5]);
    }
    lemma_field_lookup_at(fields, "movedItems"@, 12);
    assert forall|i: int| 0 <= i < jitems.len() implies (#[trigger] parse_moved_pair(
        jitems[i],
        "originalPath"@,
        "targetPath"@,
    )) is Some by {
        lemma_moved_item_parse(items[i]);
    }
    assert(pairs_of(jitems, "originalPath"@, "targetPath"@) =~= items.map_values(
        |m: MovedMigrationItem| (m.original_path@, m.target_path@),
    )) by {
        assert forall|i: int| 0 <= i < items.len() implies pairs_of(jitems, "originalPath"@, "targetPath"@)[i] == (
            items[i].original_path@,
            items[i].target_path@,
        ) by {
            lemma_moved_item_parse(items[i]);
        }
    }
}

/// The record of a rollback names the migration it rolled back.
proof fn lemma_migration_rollback_names(
    of: Seq<char>,
    restored: u64,
    skipped: u64,
    restored_registry: bool,
    failures: Seq<(Seq<char>, Seq<char>)>,
)
    ensures
        json_get_str(migration_rollback_details(of, restored, skipped, restored_registry, failures), "rollbackOf"@)
            == Some(of),
{
    let fields = seq![
        ("rollbackOf"@, Json::Str(of)),
        ("restoredCount"@, Json::UInt(restored)),
        ("skippedCount"@, Json::UInt(skipped)),
        ("restoredRegistry"@, Json::Bool(restored_registry)),
        ("failures"@, failures_json(failures)),
    ];
    lemma_field_lookup_at(fields, "rollbackOf"@, 0);
}

/// A user folder migration is rolled back exactly once: once its record,
/// finished or cancelled, is in the log (and nothing has rolled it back),
/// a confirmed rollback of it is accepted, restores the registry value to
/// what it held before (the source folder when nothing was read) and moves
/// back exactly the items that were moved, in order; once the record of
/// that rollback (as [`finish_user_folder_rollback`] builds it) is in the
/// log too, another rollback of it is refused.
pub proof fn law_user_folder_rolls_back_once(
    entries: Seq<OperationLogEntry>,
    record: OperationLogEntry,
    plan: UserFolderMigrationPlan,
    registry_updated: bool,
    moved: u64,
    skipped: u64,
    moved_bytes: u64,
    items: Seq<MovedMigrationItem>,
    failures: Seq<(Seq<char>, Seq<char>)>,
    rollback: OperationLogEntry,
    restored: u64,
    rollback_skipped: u64,
    restored_registry: bool,
    rollback_failures: Seq<(Seq<char>, Seq<char>)>,
)
    requires
        record.operation_type@ == "user-folder-migration"@,
        record.rollbackable,
        record.details@ == migration_details(plan, registry_updated, moved, skipped, moved_bytes, items, failures),
        find_entry(entries, record.id@) is None,
        !rollback_targets_spec(entries, migration_rollback_types()).contains(record.id@),
        rollback.operation_type@ == "user-folder-migration-rollback"@,
        rollback.details@ == migration_rollback_details(
            record.id@,
            restored,
            rollback_skipped,
            restored_registry,
            rollback_failures,
        ),
    ensures
        user_folder_rollback_spec(entries.push(record), record.id@, MIGRATION_ROLLBACK_CONFIRMATION@) == Ok::<
            (Seq<char>, Seq<char>, Seq<(Seq<char>, Seq<char>)>),
            Seq<char>,
        >(
            (
                plan.registry_value@,
                match opt_view(plan.original_registry_value) {
                    Some(o) => o,
                    None => plan.source_path@,
                },
                items.map_values(|m: MovedMigrationItem| (m.original_path@, m.target_path@)),
            ),
        ),
        user_folder_rollback_spec(entries.push(record).push(rollback), record.id@, MIGRATION_ROLLBACK_CONFIRMATION@)
            == Err::<(Seq<char>, Seq<char>, Seq<(Seq<char>, Seq<char>)>), Seq<char>>(
            "migration already has a rollback record"@,
        ),
{
    law_user_folder_record_rolls_back(entries, record, plan, registry_updated, moved, skipped, moved_bytes, items, failures);
    lemma_migration_rollback_names(record.id@, restored, rollback_skipped, restored_registry, rollback_failures);
    law_user_folder_rollback_once(entries.push(record), rollback, record.id@, MIGRATION_ROLLBACK_CONFIRMATION@);
}

} // verus!
