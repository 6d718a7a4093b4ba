//! Developer tool data ("dev space"): the targets, their scan, and the two
//! ways of moving their data to another drive (environment variables and
//! directory junctions), with the decisions of each move and its rollback.
use vstd::prelude::*;
use vstd::seq_lib::{to_multiset_build, to_multiset_insert};
use crate::commands::failures::{
    byte_sum, capped, failure, failure_views, failures_json, failures_to_json, lemma_capped_push, PathFailure, Tally,
};
use crate::commands::logs::{
    law_rollback_record_names_operation, rollback_check, rollback_details, rollback_details_json, rollback_status,
    rollback_status_string, safe_name, safe_name_spec, RollbackRefusal,
};
use crate::commands::migration::{opt_view, str_opt_view};
use crate::json::{
    get_str, json_get, json_get_str, json_opt_str, json_str_array, lemma_field_lookup_at, lemma_view_items_len, lemma_view_items_push,
    opt_str_json, str_items, view_fields, view_items, Json, JsonValue, ObjectBuilder,
};
use crate::native::paths::{file_name, file_name_of, join_path, join_path_str, system_drive_of, system_drive_root};
use crate::storage::logs::{
    contains_string, find_entry, find_entry_index, lemma_find_entry_push, lemma_targets_push_other, rollback_of, rollback_targets_of, rollback_targets_spec, OperationLogEntry,
};
use crate::native::rules::{DevSpaceRule, RuleCatalog};
use crate::native::scan::{
    any_exists, bytes_sum, files_sum, scan_totals, skipped_sum, PathScanSummary,
};
use crate::text::{
    ascii_lower, decimal, is_blank, is_blank_str, is_prefix_of, join_seqs, join_strings, lemma_seq_less_asym,
    lemma_seq_less_trans, owned, push_decimal, push_str, seq_less, starts_with, str_eq, str_less, to_ascii_lowercase, views,
};

verus! {

/// The word that confirms a move by environment variables.
pub const DEVSPACE_ENV_CONFIRMATION: &'static str = "MIGRATE_DEVSPACE_ENV";

/// The word that confirms the rollback of a move by environment variables.
pub const DEVSPACE_ENV_ROLLBACK_CONFIRMATION: &'static str = "ROLLBACK_DEVSPACE_ENV";

/// The word that confirms a move by directory junctions.
pub const DEVSPACE_JUNCTION_CONFIRMATION: &'static str = "CREATE_DEVSPACE_JUNCTION";

/// The word that confirms the rollback of a move by directory junctions.
pub const DEVSPACE_JUNCTION_ROLLBACK_CONFIRMATION: &'static str = "ROLLBACK_DEVSPACE_JUNCTION";

/// The task name of the dev space scan.
pub const DEVSPACE_SCAN_TASK: &'static str = "scan-devspace-targets";

/// A variable that could not be changed or restored, and why.
pub type DevSpaceEnvFailure = PathFailure;

/// A directory that could not be moved or restored, and why.
pub type DevSpaceJunctionFailure = PathFailure;

/// A developer tool as offered.
pub struct DevSpaceTarget {
    pub id: String,
    pub name: String,
    pub preferred_action: String,
    pub risk: String,
}

/// What the scan of one developer tool found.
pub struct DevSpaceScanResult {
    pub id: String,
    pub name: String,
    pub risk: String,
    pub category: String,
    pub preferred_action: String,
    pub preferred_move: String,
    pub rollback: bool,
    pub exists: bool,
    pub total_bytes: u64,
    pub file_count: u64,
    pub skipped_count: u64,
    pub paths: Vec<PathScanSummary>,
}

/// The progress of the dev space scan.
pub struct DevSpaceTaskProgressEvent {
    pub task: String,
    pub current: u64,
    pub total: u64,
    pub label: String,
    pub status: String,
}

/// `t` offers developer tool `r`.
pub open spec fn offers_devspace(t: DevSpaceTarget, r: DevSpaceRule) -> bool {
    &&& t.id@ == r.id@
    &&& t.name@ == r.name@
    &&& t.preferred_action@ == r.preferred_action@
    &&& t.risk@ == r.risk@
}

/// The developer tools of the catalog (`get_devspace_targets`).
pub fn get_devspace_targets(catalog: &RuleCatalog) -> (res: Vec<DevSpaceTarget>)
    ensures
        res@.len() == catalog.devspace@.len(),
        forall|i: int| 0 <= i < res@.len() ==> offers_devspace(#[trigger] res@[i], catalog.devspace@[i]),
{
    let mut res: Vec<DevSpaceTarget> = Vec::new();
    let mut i: usize = 0;
    while i < catalog.devspace.len()
        invariant
            i <= catalog.devspace.len(),
            res@.len() == i,
            forall|k: int| 0 <= k < i ==> offers_devspace(#[trigger] res@[k], catalog.devspace@[k]),
        decreases catalog.devspace.len() - i,
    {
        let r = &catalog.devspace[i];
        res.push(
            DevSpaceTarget {
                id: owned(r.id.as_str()),
                name: owned(r.name.as_str()),
                preferred_action: owned(r.preferred_action.as_str()),
                risk: owned(r.risk.as_str()),
            },
        );
        i = i + 1;
    }
    res
}

/// What the scan of developer tool `rule` found at its paths.
pub fn devspace_scan_result(rule: &DevSpaceRule, paths: Vec<PathScanSummary>) -> (res: DevSpaceScanResult)
    requires
        bytes_sum(paths@) <= u64::MAX,
        files_sum(paths@) <= u64::MAX,
        skipped_sum(paths@) <= u64::MAX,
    ensures
        res.id@ == rule.id@,
        res.name@ == rule.name@,
        res.risk@ == rule.risk@,
        res.category@ == rule.category@,
        res.preferred_action@ == rule.preferred_action@,
        res.preferred_move@ == rule.preferred_move@,
        res.rollback == rule.rollback,
        res.exists == any_exists(paths@),
        res.total_bytes == bytes_sum(paths@),
        res.file_count == files_sum(paths@),
        res.skipped_count == skipped_sum(paths@),
        res.paths == paths,
{
    let (total_bytes, file_count, skipped_count, exists) = scan_totals(&paths);
    DevSpaceScanResult {
        id: owned(rule.id.as_str()),
        name: owned(rule.name.as_str()),
        risk: owned(rule.risk.as_str()),
        category: owned(rule.category.as_str()),
        preferred_action: owned(rule.preferred_action.as_str()),
        preferred_move: owned(rule.preferred_move.as_str()),
        rollback: rule.rollback,
        exists,
        total_bytes,
        file_count,
        skipped_count,
        paths,
    }
}

/// A progress event of the dev space scan.
pub fn devspace_progress_event(current: u64, total: u64, label: String, status: &str) -> (ev: DevSpaceTaskProgressEvent)
    ensures
        ev.task@ == DEVSPACE_SCAN_TASK@,
        ev.current == current,
        ev.total == total,
        ev.label == label,
        ev.status@ == status@,
{
    DevSpaceTaskProgressEvent { task: owned(DEVSPACE_SCAN_TASK), current, total, label, status: owned(status) }
}

/// The label shown while tool `name` is scanned.
pub fn devspace_scanning_label(name: &str) -> (res: String)
    ensures
        res@ == "正在扫描 "@ + name@,
{
    let mut res = owned("正在扫描 ");
    push_str(&mut res, name);
    res
}

// ---------------------------------------------------------------------
// Names
// ---------------------------------------------------------------------

/// The directory an environment variable's data moves to under the target
/// root.
pub open spec fn env_dir_name_spec(name: Seq<char>) -> Seq<char> {
    if name == "ANDROID_USER_HOME"@ {
        "android"@
    } else if name == "CARGO_HOME"@ {
        "cargo"@
    } else if name == "RUSTUP_HOME"@ {
        "rustup"@
    } else {
        ascii_lower(name)
    }
}

/// The directory for environment variable `name` (`devspace_env_dir_name`).
pub fn devspace_env_dir_name(name: &str) -> (res: String)
    ensures
        res@ == env_dir_name_spec(name@),
{
    if str_eq(name, "ANDROID_USER_HOME") {
        owned("android")
    } else if str_eq(name, "CARGO_HOME") {
        owned("cargo")
    } else if str_eq(name, "RUSTUP_HOME") {
        owned("rustup")
    } else {
        to_ascii_lowercase(name)
    }
}

/// `value` made fit to be one path component: every character that a
/// Windows file name cannot hold becomes `-` (`safe_path_segment`).
pub fn safe_path_segment(value: &str) -> (res: String)
    ensures
        res@ == safe_name_spec(value@),
{
    safe_name(value)
}

/// The last component of `path` when it is not blank, else `source`.
pub open spec fn leaf_name_spec(path: Seq<char>) -> Seq<char> {
    match file_name_of(path) {
        Some(n) => if is_blank(n) {
            "source"@
        } else {
            n
        },
        None => "source"@,
    }
}

/// The name a source directory keeps under the target (`source_leaf_name`).
pub fn source_leaf_name(path: &str) -> (res: String)
    ensures
        res@ == leaf_name_spec(path@),
{
    match file_name(path) {
        Some(n) => if is_blank_str(n.as_str()) {
            owned("source")
        } else {
            n
        },
        None => owned("source"),
    }
}

// ---------------------------------------------------------------------
// Sorted variable names
// ---------------------------------------------------------------------

/// The names of the variables of a rule.
pub open spec fn env_names(env: Seq<(String, String)>) -> Seq<Seq<char>> {
    env.map_values(|p: (String, String)| p.0@)
}

/// The length of the leading run of `sorted` that does not come after `x`.
pub open spec fn count_not_after(sorted: Seq<Seq<char>>, x: Seq<char>) -> int
    decreases sorted.len(),
{
    if sorted.len() == 0 {
        0
    } else if !seq_less(x, sorted[0]) {
        1 + count_not_after(sorted.drop_first(), x)
    } else {
        0
    }
}

/// `x` placed after the leading run of names that do not come after it.
pub open spec fn insert_sorted(sorted: Seq<Seq<char>>, x: Seq<char>) -> Seq<Seq<char>> {
    sorted.insert(count_not_after(sorted, x), x)
}

/// The names in ascending order (an insertion sort).
pub open spec fn sort_names(s: Seq<Seq<char>>) -> Seq<Seq<char>>
    decreases s.len(),
{
    if s.len() == 0 {
        s
    } else {
        insert_sorted(sort_names(s.drop_last()), s.last())
    }
}

/// `s` is in ascending order.
pub open spec fn is_sorted_names(s: Seq<Seq<char>>) -> bool {
    forall|i: int, j: int| 0 <= i < j < s.len() ==> !seq_less(#[trigger] s[j], #[trigger] s[i])
}

proof fn lemma_count_not_after(sorted: Seq<Seq<char>>, x: Seq<char>)
    ensures
        0 <= count_not_after(sorted, x) <= sorted.len(),
        forall|i: int| 0 <= i < count_not_after(sorted, x) ==> !seq_less(x, #[trigger] sorted[i]),
        count_not_after(sorted, x) < sorted.len() ==> seq_less(x, sorted[count_not_after(sorted, x)]),
    decreases sorted.len(),
{
    if sorted.len() > 0 && !seq_less(x, sorted[0]) {
        lemma_count_not_after(sorted.drop_first(), x);
        assert forall|i: int| 0 <= i < count_not_after(sorted, x) implies !seq_less(x, #[trigger] sorted[i]) by {
            if i > 0 {
                assert(sorted[i] == sorted.drop_first()[i - 1]);
            }
        }
    }
}

proof fn lemma_insert_sorted(sorted: Seq<Seq<char>>, x: Seq<char>)
    requires
        is_sorted_names(sorted),
    ensures
        is_sorted_names(insert_sorted(sorted, x)),
        insert_sorted(sorted, x).to_multiset() == sorted.to_multiset().insert(x),
{
    lemma_count_not_after(sorted, x);
    let k = count_not_after(sorted, x);
    let r = insert_sorted(sorted, x);
    to_multiset_insert(sorted, k, x);
    assert forall|i: int, j: int| 0 <= i < j < r.len() implies !seq_less(#[trigger] r[j], #[trigger] r[i]) by {
        if j < k {
            assert(r[i] == sorted[i]);
            assert(r[j] == sorted[j]);
        } else if j == k {
            assert(r[i] == sorted[i]);
        } else if i < k {
            assert(r[i] == sorted[i]);
            assert(r[j] == sorted[j - 1]);
        } else if i == k {
            assert(r[j] == sorted[j - 1]);
            if seq_less(sorted[j - 1], x) {
                if j - 1 == k {
                    lemma_seq_less_asym(x, sorted[k]);
                } else {
                    lemma_seq_less_trans(sorted[j - 1], x, sorted[k]);
                }
            }
        } else {
            assert(r[i] == sorted[i - 1]);
            assert(r[j] == sorted[j - 1]);
        }
    }
}

/// The names of a rule's variables come out in ascending order, each as
/// often as it was given: the plan is the same whatever order the rule
/// lists them in.
pub proof fn law_sorted_env_names(s: Seq<Seq<char>>)
    ensures
        is_sorted_names(sort_names(s)),
        sort_names(s).to_multiset() == s.to_multiset(),
        s.no_duplicates() ==> sort_names(s).no_duplicates(),
    decreases s.len(),
{
    if s.len() == 0 {
        assert(s.to_multiset() =~= sort_names(s).to_multiset());
    } else {
        law_sorted_env_names(s.drop_last());
        lemma_insert_sorted(sort_names(s.drop_last()), s.last());
        to_multiset_build(s.drop_last(), s.last());
        assert(s.drop_last().push(s.last()) =~= s);
    }
    if s.no_duplicates() {
        s.lemma_multiset_has_no_duplicates();
        sort_names(s).lemma_multiset_has_no_duplicates_conv();
    }
}

/// Whether no variable name of `env` occurs twice.
pub fn env_names_unique(env: &Vec<(String, String)>) -> (r: bool)
    ensures
        r == env_names(env@).no_duplicates(),
{
    let ghost names = env_names(env@);
    let mut i: usize = 0;
    while i < env.len()
        invariant
            names == env_names(env@),
            i <= env.len(),
            forall|a: int, b: int| 0 <= a < i && 0 <= b < env.len() && a != b ==> names[a] != names[b],
        decreases env.len() - i,
    {
        let mut j: usize = 0;
        while j < env.len()
            invariant
                names == env_names(env@),
                i < env.len(),
                j <= env.len(),
                forall|a: int, b: int| 0 <= a < i && 0 <= b < env.len() && a != b ==> names[a] != names[b],
                forall|b: int| 0 <= b < j && b != i ==> names[i as int] != names[b],
            decreases env.len() - j,
        {
            if j != i && str_eq(env[i].0.as_str(), env[j].0.as_str()) {
                assert(names[i as int] == names[j as int]);
                return false;
            }
            j = j + 1;
        }
        i = i + 1;
    }
    true
}

/// The names of a rule's variables, in ascending order (`sorted_env_names`).
pub fn sorted_env_names(env: &Vec<(String, String)>) -> (res: Vec<String>)
    requires
        env_names(env@).no_duplicates(),
    ensures
        views(res@) == sort_names(env_names(env@)),
        views(res@).no_duplicates(),
{
    let ghost names = env_names(env@);
    let mut out: Vec<String> = Vec::new();
    let mut i: usize = 0;
    while i < env.len()
        invariant
            names == env_names(env@),
            i <= env.len(),
            views(out@) == sort_names(names.subrange(0, i as int)),
        decreases env.len() - i,
    {
        let x = owned(env[i].0.as_str());
        let ghost sorted = views(out@);
        let mut k: usize = 0;
        assert(sorted.subrange(0, sorted.len() as int) =~= sorted);
        while k < out.len() && !str_less(x.as_str(), out[k].as_str())
            invariant
                sorted == views(out@),
                k <= out.len(),
                count_not_after(sorted, x@) == k + count_not_after(sorted.subrange(k as int, sorted.len() as int), x@),
            decreases out.len() - k,
        {
            proof {
                let tail = sorted.subrange(k as int, sorted.len() as int);
                assert(tail.drop_first() =~= sorted.subrange(k + 1, sorted.len() as int));
                assert(tail[0] == out@[k as int]@);
            }
            k = k + 1;
        }
        proof {
            let tail = sorted.subrange(k as int, sorted.len() as int);
            if k < out.len() {
                assert(tail[0] == out@[k as int]@);
            }
            assert(count_not_after(sorted, x@) == k);
            let pre = names.subrange(0, i + 1);
            assert(pre.drop_last() =~= names.subrange(0, i as int));
            assert(pre.last() == env@[i as int].0@);
        }
        let ghost before = out@;
        out.insert(k, x);
        proof {
            assert(views(out@) =~= views(before).insert(k as int, x@));
        }
        i = i + 1;
    }
    proof {
        assert(names.subrange(0, env@.len() as int) =~= names);
        law_sorted_env_names(names);
    }
    out
}


// ---------------------------------------------------------------------
// Finding a tool, and where a target root lies
// ---------------------------------------------------------------------

/// The position of the first tool whose identifier is `id`.
pub open spec fn find_devspace(rules: Seq<DevSpaceRule>, id: Seq<char>) -> Option<int>
    decreases rules.len(),
{
    if rules.len() == 0 {
        None
    } else if rules[0].id@ == id {
        Some(0)
    } else {
        match find_devspace(rules.drop_first(), id) {
            Some(k) => Some(k + 1),
            None => None,
        }
    }
}

/// The position in the catalog of tool `target_id`, or why there is none.
pub fn find_devspace_rule(catalog: &RuleCatalog, target_id: &str) -> (res: Result<usize, String>)
    ensures
        match res {
            Ok(k) => find_devspace(catalog.devspace@, target_id@) == Some(k as int) && k < catalog.devspace@.len(),
            Err(e) => find_devspace(catalog.devspace@, target_id@) is None && e@ == "devspace rule "@ + target_id@
                + " not found"@,
        },
{
    let rules = &catalog.devspace;
    let mut i: usize = 0;
    assert(rules@.subrange(0, rules@.len() as int) =~= rules@);
    while i < rules.len()
        invariant
            rules@ == catalog.devspace@,
            i <= rules.len(),
            find_devspace(rules@, target_id@) == match find_devspace(rules@.subrange(i as int, rules@.len() as int), target_id@) {
                Some(k) => Some(k + i),
                None => None::<int>,
            },
        decreases rules.len() - i,
    {
        let ghost rest = rules@.subrange(i as int, rules@.len() as int);
        proof {
            assert(rest.drop_first() =~= rules@.subrange(i + 1, rules@.len() as int));
            assert(rest[0] == rules@[i as int]);
        }
        if str_eq(rules[i].id.as_str(), target_id) {
            return Ok(i);
        }
        i = i + 1;
    }
    proof {
        assert(rules@.subrange(i as int, rules@.len() as int) =~= Seq::<DevSpaceRule>::empty());
    }
    let mut msg = owned("devspace rule ");
    push_str(&mut msg, target_id);
    push_str(&mut msg, " not found");
    Err(msg)
}

/// `path` lies under the root of the system drive (such as `C:\`),
/// ignoring ASCII case.
pub open spec fn under_system_root(path: Seq<char>, system_drive: Option<Seq<char>>) -> bool {
    is_prefix_of(ascii_lower(system_drive_of(system_drive) + seq!['\\']), ascii_lower(path))
}

/// Whether `path` lies under the root of the system drive
/// (`is_on_system_drive` of the dev space moves).
pub fn is_under_system_root(path: &str, system_drive: Option<&str>) -> (r: bool)
    ensures
        r == under_system_root(path@, str_opt_view(system_drive)),
{
    let root = system_drive_root(system_drive);
    let lower_root = to_ascii_lowercase(root.as_str());
    let lower_path = to_ascii_lowercase(path);
    starts_with(lower_path.as_str(), lower_root.as_str())
}

/// The warnings about a target root.
pub open spec fn root_warnings(on_system: bool) -> Seq<Seq<char>> {
    if on_system {
        seq!["目标根目录仍在系统盘"@]
    } else {
        Seq::empty()
    }
}

/// The status of a move: whether some item was skipped.
pub open spec fn completion_status(failures: int) -> Seq<char> {
    if failures == 0 {
        "completed"@
    } else {
        "completed-with-skips"@
    }
}

fn completion_status_string(failures: usize) -> (s: String)
    ensures
        s@ == completion_status(failures as int),
{
    if failures == 0 {
        owned("completed")
    } else {
        owned("completed-with-skips")
    }
}

/// The message that refuses a plan with blockers: `prefix`, then the
/// blockers joined by `，`.
pub open spec fn precheck_failure(prefix: Seq<char>, blockers: Seq<String>) -> Seq<char> {
    prefix + join_seqs(views(blockers), "，"@)
}

fn precheck_failure_message(prefix: &str, blockers: &Vec<String>) -> (s: String)
    ensures
        s@ == precheck_failure(prefix@, blockers@),
{
    let mut msg = owned(prefix);
    let joined = join_strings(blockers, "，");
    push_str(&mut msg, joined.as_str());
    msg
}

// ---------------------------------------------------------------------
// Moving by environment variables: the plan
// ---------------------------------------------------------------------

/// A variable to point at the new location: its name, the value it had
/// (if it was set), and the new value, which is the target directory.
pub struct DevSpaceEnvVarChange {
    pub name: String,
    pub original_value: Option<String>,
    pub new_value: String,
    pub target_path: String,
}

/// A planned move by environment variables.
pub struct DevSpaceEnvMigrationPlan {
    pub id: String,
    pub target_id: String,
    pub name: String,
    pub target_root: String,
    pub can_execute: bool,
    pub blockers: Vec<String>,
    pub warnings: Vec<String>,
    pub variables: Vec<DevSpaceEnvVarChange>,
}

/// A variable change as plain values: name, original value, new value,
/// target directory.
pub open spec fn change_view(c: DevSpaceEnvVarChange) -> (Seq<char>, Option<Seq<char>>, Seq<char>, Seq<char>) {
    (c.name@, opt_view(c.original_value), c.new_value@, c.target_path@)
}

/// The change planned for variable `name` under `root`, given the value it
/// had: it points at the variable's directory under the root.
pub open spec fn planned_change(root: Seq<char>, name: Seq<char>, original: Option<Seq<char>>) -> (
    Seq<char>,
    Option<Seq<char>>,
    Seq<char>,
    Seq<char>,
) {
    let t = join_path(root, env_dir_name_spec(name));
    (name, original, t, t)
}

/// The reasons a tool may not be moved by environment variables.
pub open spec fn env_plan_blockers(rule: DevSpaceRule) -> Seq<Seq<char>> {
    let b0: Seq<Seq<char>> = Seq::empty();
    let b1 = if rule.risk@ == "high"@ {
        b0.push("高风险目录不允许自动迁移"@)
    } else {
        b0
    };
    let b2 = if rule.env@.len() == 0 || rule.preferred_move@ != "env"@ {
        b1.push("该工具不支持环境变量迁移"@)
    } else {
        b1
    };
    if rule.preferred_action@ == "readonly"@ {
        b2.push("该规则当前推荐只读，不开放环境变量迁移"@)
    } else {
        b2
    }
}

/// The record of a variable change.
pub open spec fn env_change_json(c: (Seq<char>, Option<Seq<char>>, Seq<char>, Seq<char>)) -> Json {
    Json::Object(
        seq![
            ("name"@, Json::Str(c.0)),
            ("originalValue"@, opt_str_json(c.1)),
            ("newValue"@, Json::Str(c.2)),
            ("targetPath"@, Json::Str(c.3)),
        ],
    )
}

/// The records of a list of variable changes.
pub open spec fn changes_json(v: Seq<DevSpaceEnvVarChange>) -> Json {
    Json::Array(v.map_values(|c: DevSpaceEnvVarChange| env_change_json(change_view(c))))
}

/// The details recorded with a plan.
pub open spec fn env_plan_details(p: DevSpaceEnvMigrationPlan) -> Json {
    Json::Object(
        seq![
            ("targetId"@, Json::Str(p.target_id@)),
            ("name"@, Json::Str(p.name@)),
            ("targetRoot"@, Json::Str(p.target_root@)),
            ("canExecute"@, Json::Bool(p.can_execute)),
            ("blockers"@, Json::Array(str_items(p.blockers@))),
            ("warnings"@, Json::Array(str_items(p.warnings@))),
            ("variables"@, changes_json(p.variables@)),
        ],
    )
}

/// The record of one variable change.
pub fn env_change_to_json(c: &DevSpaceEnvVarChange) -> (v: JsonValue)
    ensures
        v@ == env_change_json(change_view(*c)),
{
    let mut b = ObjectBuilder::new();
    b.str_field("name", c.name.as_str());
    b.field("originalValue", json_opt_str(&c.original_value));
    b.str_field("newValue", c.new_value.as_str());
    b.str_field("targetPath", c.target_path.as_str());
    proof {
        assert(view_fields(b.fields@) =~= seq![
            ("name"@, Json::Str(c.name@)),
            ("originalValue"@, opt_str_json(opt_view(c.original_value))),
            ("newValue"@, Json::Str(c.new_value@)),
            ("targetPath"@, Json::Str(c.target_path@)),
        ]);
    }
    b.build()
}

/// The records of a list of variable changes.
pub fn env_changes_to_json(changes: &Vec<DevSpaceEnvVarChange>) -> (v: JsonValue)
    ensures
        v@ == changes_json(changes@),
{
    let mut out: Vec<JsonValue> = Vec::new();
    let mut i: usize = 0;
    while i < changes.len()
        invariant
            i <= changes.len(),
            view_items(out@) == changes@.subrange(0, i as int).map_values(
                |c: DevSpaceEnvVarChange| env_change_json(change_view(c)),
            ),
        decreases changes.len() - i,
    {
        let x = env_change_to_json(&changes[i]);
        proof {
            lemma_view_items_push(out@, x);
            assert(changes@.subrange(0, i + 1).map_values(|c: DevSpaceEnvVarChange| env_change_json(change_view(c)))
                =~= changes@.subrange(0, i as int).map_values(
                |c: DevSpaceEnvVarChange| env_change_json(change_view(c)),
            ).push(env_change_json(change_view(changes@[i as int]))));
        }
        out.push(x);
        i = i + 1;
    }
    assert(changes@.subrange(0, changes@.len() as int) =~= changes@);
    JsonValue::Array(out)
}

/// A plan to move tool `rule` by environment variables to `target_root`
/// (`create_devspace_env_migration_plan`), given the value each variable
/// had, in the order of [`sorted_env_names`]; and the log entry that
/// records it.
pub fn create_devspace_env_migration_plan(
    operation_id: &str,
    created_at_ms: u128,
    rule: &DevSpaceRule,
    target_root: &str,
    originals: Vec<Option<String>>,
    system_drive: Option<&str>,
) -> (res: (DevSpaceEnvMigrationPlan, OperationLogEntry))
    requires
        originals@.len() == rule.env@.len(),
        env_names(rule.env@).no_duplicates(),
    ensures
        ({
            let p = res.0;
            let names = sort_names(env_names(rule.env@));
            &&& names.no_duplicates()
            &&& p.id@ == operation_id@
            &&& p.target_id@ == rule.id@
            &&& p.name@ == rule.name@
            &&& p.target_root@ == target_root@
            &&& views(p.blockers@) == env_plan_blockers(*rule)
            &&& views(p.warnings@) == root_warnings(under_system_root(target_root@, str_opt_view(system_drive)))
            &&& p.can_execute == (p.blockers@.len() == 0)
            &&& p.variables@.len() == names.len()
            &&& forall|i: int| 0 <= i < names.len() ==> change_view(#[trigger] p.variables@[i]) == planned_change(
                target_root@,
                names[i],
                opt_view(originals@[i]),
            )
            &&& res.1.id@ == operation_id@
            &&& res.1.operation_type@ == "devspace-env-migration-plan"@
            &&& res.1.status@ == "planned"@
            &&& res.1.created_at_ms == created_at_ms
            &&& !res.1.rollbackable
            &&& res.1.summary@ == "开发工具环境变量迁移计划："@ + rule.name@
            &&& res.1.details@ == env_plan_details(p)
        }),
{
    let ghost r = *rule;
    let mut blockers: Vec<String> = Vec::new();
    if str_eq(rule.risk.as_str(), "high") {
        blockers.push(owned("高风险目录不允许自动迁移"));
    }
    if rule.env.len() == 0 || !str_eq(rule.preferred_move.as_str(), "env") {
        blockers.push(owned("该工具不支持环境变量迁移"));
    }
    if str_eq(rule.preferred_action.as_str(), "readonly") {
        blockers.push(owned("该规则当前推荐只读，不开放环境变量迁移"));
    }
    assert(views(blockers@) =~= env_plan_blockers(r));
    let mut warnings: Vec<String> = Vec::new();
    let on_system = is_under_system_root(target_root, system_drive);
    if on_system {
        warnings.push(owned("目标根目录仍在系统盘"));
    }
    assert(views(warnings@) =~= root_warnings(on_system));
    let names = sorted_env_names(&rule.env);
    let ghost sorted = sort_names(env_names(rule.env@));
    proof {
        law_sorted_env_names(env_names(rule.env@));
        assert(views(names@).len() == names@.len());
        assert(sort_names(env_names(rule.env@)).len() == rule.env@.len()) by {
            law_sorted_env_names(env_names(rule.env@));
            vstd::seq_lib::to_multiset_len(sort_names(env_names(rule.env@)));
            vstd::seq_lib::to_multiset_len(env_names(rule.env@));
        }
    }
    let mut variables: Vec<DevSpaceEnvVarChange> = Vec::new();
    let mut i: usize = 0;
    while i < names.len()
        invariant
            sorted == sort_names(env_names(rule.env@)),
            views(names@) == sorted,
            names@.len() == sorted.len(),
            originals@.len() == sorted.len(),
            i <= names.len(),
            variables@.len() == i,
            forall|k: int| 0 <= k < i ==> change_view(#[trigger] variables@[k]) == planned_change(
                target_root@,
                sorted[k],
                opt_view(originals@[k]),
            ),
        decreases names.len() - i,
    {
        let dir = devspace_env_dir_name(names[i].as_str());
        let target = join_path_str(target_root, dir.as_str());
        let original = match &originals[i] {
            Some(v) => Some(owned(v.as_str())),
            None => None,
        };
        proof {
            assert(views(names@)[i as int] == names@[i as int]@);
        }
        variables.push(
            DevSpaceEnvVarChange {
                name: owned(names[i].as_str()),
                original_value: original,
                new_value: owned(target.as_str()),
                target_path: target,
            },
        );
        i = i + 1;
    }
    let can_execute = blockers.len() == 0;
    let plan = DevSpaceEnvMigrationPlan {
        id: owned(operation_id),
        target_id: owned(rule.id.as_str()),
        name: owned(rule.name.as_str()),
        target_root: owned(target_root),
        can_execute,
        blockers,
        warnings,
        variables,
    };
    let mut summary = owned("开发工具环境变量迁移计划：");
    push_str(&mut summary, rule.name.as_str());
    let mut b = ObjectBuilder::new();
    b.str_field("targetId", plan.target_id.as_str());
    b.str_field("name", plan.name.as_str());
    b.str_field("targetRoot", plan.target_root.as_str());
    b.bool_field("canExecute", plan.can_execute);
    b.field("blockers", json_str_array(&plan.blockers));
    b.field("warnings", json_str_array(&plan.warnings));
    b.field("variables", env_changes_to_json(&plan.variables));
    proof {
        assert(view_fields(b.fields@) =~= match env_plan_details(plan) {
            Json::Object(f) => f,
            _ => Seq::empty(),
        });
    }
    let details = b.build();
    let entry = OperationLogEntry {
        id: owned(operation_id),
        operation_type: owned("devspace-env-migration-plan"),
        status: owned("planned"),
        created_at_ms,
        rollbackable: false,
        summary,
        details,
    };
    (plan, entry)
}

/// A tool may be moved by environment variables exactly when it is not of
/// high risk, names at least one variable, prefers that kind of move, and
/// its rule does not recommend only reading it.
pub proof fn law_env_plan_can_execute(rule: DevSpaceRule)
    ensures
        (env_plan_blockers(rule).len() == 0) == (rule.risk@ != "high"@ && rule.env@.len() > 0
            && rule.preferred_move@ == "env"@ && rule.preferred_action@ != "readonly"@),
{
}


// ---------------------------------------------------------------------
// Moving by environment variables: the move
// ---------------------------------------------------------------------

/// The outcome of a move by environment variables.
pub struct DevSpaceEnvMigrationResult {
    pub id: String,
    pub status: String,
    pub target_id: String,
    pub name: String,
    pub changed_count: u64,
    pub skipped_count: u64,
    pub failures: Vec<DevSpaceEnvFailure>,
}

/// Checks the confirmation word of a move by environment variables.
pub fn check_env_confirmation(confirmation: &str) -> (res: Result<(), String>)
    ensures
        match res {
            Ok(()) => confirmation@ == DEVSPACE_ENV_CONFIRMATION@,
            Err(e) => confirmation@ != DEVSPACE_ENV_CONFIRMATION@ && e@ == "invalid devspace env migration confirmation"@,
        },
{
    if str_eq(confirmation, DEVSPACE_ENV_CONFIRMATION) {
        Ok(())
    } else {
        Err(owned("invalid devspace env migration confirmation"))
    }
}

/// Checks that a plan to move by environment variables may be executed.
pub fn check_env_plan_executable(plan: &DevSpaceEnvMigrationPlan) -> (res: Result<(), String>)
    ensures
        match res {
            Ok(()) => plan.can_execute,
            Err(e) => !plan.can_execute && e@ == precheck_failure(
                "devspace env migration precheck failed: "@,
                plan.blockers@,
            ),
        },
{
    if plan.can_execute {
        Ok(())
    } else {
        Err(precheck_failure_message("devspace env migration precheck failed: ", &plan.blockers))
    }
}

/// What became of one variable change.
pub enum EnvChangeOutcome {
    /// The target directory could not be created; the variable was left.
    DirFailed(String),
    /// The directory exists, but the variable could not be written.
    WriteFailed(String),
    /// The variable now points at the target directory.
    Written,
}

/// The failure an outcome records for `variable`, if it was not written.
pub open spec fn env_outcome_failure(variable: DevSpaceEnvVarChange, outcome: EnvChangeOutcome) -> Option<
    (Seq<char>, Seq<char>),
> {
    match outcome {
        EnvChangeOutcome::Written => None,
        EnvChangeOutcome::DirFailed(e) => Some((variable.target_path@, "failed to create target dir: "@ + e@)),
        EnvChangeOutcome::WriteFailed(e) => Some((variable.name@, e@)),
    }
}

/// The failures of a move by environment variables whose changes had the
/// given outcomes, in the order of the changes.
pub open spec fn env_failures(variables: Seq<DevSpaceEnvVarChange>, outcomes: Seq<EnvChangeOutcome>) -> Seq<
    (Seq<char>, Seq<char>),
>
    decreases variables.len(),
{
    if variables.len() == 0 {
        Seq::empty()
    } else {
        let n = variables.len() - 1;
        let rest = env_failures(variables.take(n), outcomes.take(n));
        match env_outcome_failure(variables[n], outcomes[n]) {
            Some(f) => rest.push(f),
            None => rest,
        }
    }
}

/// How many of the outcomes are written variables.
pub open spec fn written_count(outcomes: Seq<EnvChangeOutcome>) -> int
    decreases outcomes.len(),
{
    if outcomes.len() == 0 {
        0
    } else {
        written_count(outcomes.drop_last()) + if outcomes.last() is Written { 1int } else { 0int }
    }
}

/// A variable is counted as changed only when it was written: a move by
/// environment variables skips exactly the changes whose outcome is not
/// `Written`, so the changes made are the written ones; a change whose
/// directory could not be created fails at its target path, and one whose
/// variable could not be written fails under the variable's name with the
/// error.
pub proof fn law_env_outcomes_counted(
    variables: Seq<DevSpaceEnvVarChange>,
    outcomes: Seq<EnvChangeOutcome>,
    v: DevSpaceEnvVarChange,
    e: String,
)
    requires
        variables.len() == outcomes.len(),
    ensures
        variables.len() - env_failures(variables, outcomes).len() == written_count(outcomes),
        env_failures(variables.push(v), outcomes.push(EnvChangeOutcome::Written)) == env_failures(variables, outcomes),
        env_failures(variables.push(v), outcomes.push(EnvChangeOutcome::WriteFailed(e))) == env_failures(
            variables,
            outcomes,
        ).push((v.name@, e@)),
        env_failures(variables.push(v), outcomes.push(EnvChangeOutcome::DirFailed(e))) == env_failures(
            variables,
            outcomes,
        ).push((v.target_path@, "failed to create target dir: "@ + e@)),
    decreases variables.len(),
{
    let n = variables.len() as int;
    assert(variables.push(v).take(n) =~= variables);
    assert(outcomes.push(EnvChangeOutcome::Written).take(n) =~= outcomes);
    assert(outcomes.push(EnvChangeOutcome::WriteFailed(e)).take(n) =~= outcomes);
    assert(outcomes.push(EnvChangeOutcome::DirFailed(e)).take(n) =~= outcomes);
    if n > 0 {
        let m = n - 1;
        law_env_outcomes_counted(variables.take(m), outcomes.take(m), v, e);
        assert(outcomes.drop_last() =~= outcomes.take(m));
    }
}

/// Records what became of `variable` (one step of
/// `execute_devspace_env_migration`).
pub fn record_env_outcome(tally: &mut Tally, variable: &DevSpaceEnvVarChange, outcome: &EnvChangeOutcome)
    requires
        old(tally).inv(),
        old(tally).has_room(),
    ensures
        final(tally).inv(),
        final(tally).total() == old(tally).total(),
        match env_outcome_failure(*variable, *outcome) {
            None => final(tally).done() == old(tally).done() + 1
                && final(tally).skipped() == old(tally).skipped()
                && final(tally).failure_list() == old(tally).failure_list(),
            Some(f) => final(tally).done() == old(tally).done()
                && final(tally).skipped() == old(tally).skipped() + 1
                && failure_views(final(tally).failure_list()) == failure_views(old(tally).failure_list()).push(f),
        },
{
    match outcome {
        EnvChangeOutcome::Written => tally.record_done(),
        EnvChangeOutcome::DirFailed(e) => {
            let mut reason = owned("failed to create target dir: ");
            push_str(&mut reason, e.as_str());
            let ghost before = tally.failure_list();
            tally.record_failure(failure(variable.target_path.as_str(), reason.as_str()));
            assert(failure_views(tally.failure_list()) =~= failure_views(before).push((variable.target_path@, reason@)));
        },
        EnvChangeOutcome::WriteFailed(e) => {
            let ghost before = tally.failure_list();
            tally.record_failure(failure(variable.name.as_str(), e.as_str()));
            assert(failure_views(tally.failure_list()) =~= failure_views(before).push((variable.name@, e@)));
        },
    }
}

/// Moves a tool by environment variables (`execute_devspace_env_migration`)
/// once each change of the plan has been tried: `outcomes[i]` is what
/// became of `plan.variables[i]`. Each change is either made or skipped
/// with its failure, and the log entry and the result are made.
pub fn execute_devspace_env_migration(
    plan: &DevSpaceEnvMigrationPlan,
    outcomes: &Vec<EnvChangeOutcome>,
    operation_id: &str,
    created_at_ms: u128,
) -> (res: (OperationLogEntry, DevSpaceEnvMigrationResult))
    requires
        outcomes@.len() == plan.variables@.len(),
        plan.variables@.len() <= u64::MAX,
    ensures
        ({
            let fs = env_failures(plan.variables@, outcomes@);
            let changed = (plan.variables@.len() - fs.len()) as u64;
            let skipped = fs.len() as u64;
            &&& res.1.changed_count + res.1.skipped_count == plan.variables@.len()
            &&& res.1.failures@.len() == res.1.skipped_count
            &&& res.1.changed_count == changed
            &&& res.1.skipped_count == skipped
            &&& failure_views(res.1.failures@) == fs
            &&& res.1.id@ == operation_id@
            &&& res.1.status@ == completion_status(fs.len() as int)
            &&& res.1.target_id@ == plan.target_id@
            &&& res.1.name@ == plan.name@
            &&& res.0.id@ == operation_id@
            &&& res.0.operation_type@ == "devspace-env-migration"@
            &&& res.0.status@ == completion_status(fs.len() as int)
            &&& res.0.created_at_ms == created_at_ms
            &&& res.0.rollbackable
            &&& res.0.summary@ == env_migration_summary(plan.name@, changed, skipped)
            &&& res.0.details@ == env_migration_details(*plan, changed, skipped, fs)
        }),
{
    let n = plan.variables.len();
    let mut tally = Tally::new(n as u64);
    let mut i: usize = 0;
    while i < n
        invariant
            n == plan.variables@.len(),
            n == outcomes@.len(),
            n <= u64::MAX,
            i <= n,
            tally.inv(),
            tally.total() == n,
            tally.done() + tally.skipped() == i,
            tally.failure_list().len() == tally.skipped(),
            failure_views(tally.failure_list()) == env_failures(
                plan.variables@.take(i as int),
                outcomes@.take(i as int),
            ),
        decreases n - i,
    {
        record_env_outcome(&mut tally, &plan.variables[i], &outcomes[i]);
        proof {
            assert(failure_views(tally.failure_list()).len() == tally.failure_list().len());
            assert(plan.variables@.take(i + 1).take(i as int) =~= plan.variables@.take(i as int));
            assert(outcomes@.take(i + 1).take(i as int) =~= outcomes@.take(i as int));
            assert(plan.variables@.take(i + 1)[i as int] == plan.variables@[i as int]);
            assert(outcomes@.take(i + 1)[i as int] == outcomes@[i as int]);
        }
        i = i + 1;
    }
    proof {
        assert(plan.variables@.take(n as int) =~= plan.variables@);
        assert(outcomes@.take(n as int) =~= outcomes@);
    }
    finish_devspace_env_migration(plan, tally, operation_id, created_at_ms)
}

/// The details recorded with a move by environment variables.
pub open spec fn env_migration_details(
    plan: DevSpaceEnvMigrationPlan,
    changed: u64,
    skipped: u64,
    failures: Seq<(Seq<char>, Seq<char>)>,
) -> Json {
    Json::Object(
        seq![
            ("targetId"@, Json::Str(plan.target_id@)),
            ("name"@, Json::Str(plan.name@)),
            ("targetRoot"@, Json::Str(plan.target_root@)),
            ("changedCount"@, Json::UInt(changed)),
            ("skippedCount"@, Json::UInt(skipped)),
            ("variables"@, changes_json(plan.variables@)),
            ("failures"@, failures_json(failures)),
        ],
    )
}

/// The text that summarises a move by environment variables.
pub open spec fn env_migration_summary(name: Seq<char>, changed: u64, skipped: u64) -> Seq<char> {
    "开发工具环境变量迁移："@ + name + "，修改 "@ + decimal(changed as nat) + " 项，跳过 "@ + decimal(skipped as nat)
        + " 项"@
}

/// Records the end of a move by environment variables once every change
/// has been counted (the last step of [`execute_devspace_env_migration`]):
/// the log entry and the result.
pub fn finish_devspace_env_migration(
    plan: &DevSpaceEnvMigrationPlan,
    tally: Tally,
    operation_id: &str,
    created_at_ms: u128,
) -> (res: (OperationLogEntry, DevSpaceEnvMigrationResult))
    requires
        tally.inv(),
        tally.complete(),
    ensures
        res.1.changed_count + res.1.skipped_count == tally.total(),
        res.1.failures@.len() <= res.1.skipped_count,
        res.0.id@ == operation_id@,
        res.0.operation_type@ == "devspace-env-migration"@,
        res.0.status@ == completion_status(tally.failure_list().len() as int),
        res.0.created_at_ms == created_at_ms,
        res.0.rollbackable,
        res.0.summary@ == env_migration_summary(plan.name@, tally.done(), tally.skipped()),
        res.0.details@ == env_migration_details(
            *plan,
            tally.done(),
            tally.skipped(),
            failure_views(tally.failure_list()),
        ),
        res.1.id@ == operation_id@,
        res.1.status@ == completion_status(tally.failure_list().len() as int),
        res.1.target_id@ == plan.target_id@,
        res.1.name@ == plan.name@,
        res.1.changed_count == tally.done(),
        res.1.skipped_count == tally.skipped(),
        res.1.failures@ == tally.failure_list(),
{
    let status = completion_status_string(tally.failures().len());
    let mut summary = owned("开发工具环境变量迁移：");
    push_str(&mut summary, plan.name.as_str());
    push_str(&mut summary, "，修改 ");
    push_decimal(&mut summary, tally.done() as u128);
    push_str(&mut summary, " 项，跳过 ");
    push_decimal(&mut summary, tally.skipped() as u128);
    push_str(&mut summary, " 项");
    let mut b = ObjectBuilder::new();
    b.str_field("targetId", plan.target_id.as_str());
    b.str_field("name", plan.name.as_str());
    b.str_field("targetRoot", plan.target_root.as_str());
    b.uint_field("changedCount", tally.done());
    b.uint_field("skippedCount", tally.skipped());
    b.field("variables", env_changes_to_json(&plan.variables));
    b.field("failures", failures_to_json(tally.failures()));
    proof {
        assert(view_fields(b.fields@) =~= match env_migration_details(
            *plan,
            tally.done(),
            tally.skipped(),
            failure_views(tally.failure_list()),
        ) {
            Json::Object(f) => f,
            _ => Seq::empty(),
        });
    }
    let details = b.build();
    let entry = OperationLogEntry {
        id: owned(operation_id),
        operation_type: owned("devspace-env-migration"),
        status: owned(status.as_str()),
        created_at_ms,
        rollbackable: true,
        summary,
        details,
    };
    let result = DevSpaceEnvMigrationResult {
        id: owned(operation_id),
        status,
        target_id: owned(plan.target_id.as_str()),
        name: owned(plan.name.as_str()),
        changed_count: tally.done(),
        skipped_count: tally.skipped(),
        failures: tally.into_failures(),
    };
    (entry, result)
}

// ---------------------------------------------------------------------
// Moving by environment variables: the rollback
// ---------------------------------------------------------------------

/// The outcome of the rollback of a move by environment variables.
pub struct DevSpaceEnvRollbackResult {
    pub id: String,
    pub rollback_of: String,
    pub status: String,
    pub restored_count: u64,
    pub skipped_count: u64,
    pub failures: Vec<DevSpaceEnvFailure>,
}

/// The entry types that roll back a move by environment variables.
pub open spec fn env_rollback_types() -> Seq<Seq<char>> {
    seq!["devspace-env-migration-rollback"@]
}

/// The moves by environment variables that already have a rollback record
/// (`devspace_env_rollback_targets`).
pub fn devspace_env_rollback_targets(entries: &Vec<OperationLogEntry>) -> (res: Vec<String>)
    ensures
        res@.map_values(|s: String| s@) == rollback_targets_spec(entries@, env_rollback_types()),
{
    let types: Vec<&str> = vec!["devspace-env-migration-rollback"];
    assert(types@.map_values(|s: &str| s@) =~= env_rollback_types());
    rollback_targets_of(entries, &types)
}

/// An optional string as a recorded value: `null` or a string.
pub open spec fn opt_str_value(v: Json) -> Option<Option<Seq<char>>> {
    match v {
        Json::Null => Some(None),
        Json::Str(s) => Some(Some(s)),
        _ => None,
    }
}

/// An optional string member: absent or `null` is `None`.
pub open spec fn opt_str_member(item: Json, key: Seq<char>) -> Option<Option<Seq<char>>> {
    match json_get(item, key) {
        None => Some(None),
        Some(v) => opt_str_value(v),
    }
}

/// A recorded variable change: an object with the four members, or a list
/// of the four values in order.
pub open spec fn parse_env_change(item: Json) -> Option<(Seq<char>, Option<Seq<char>>, Seq<char>, Seq<char>)> {
    match item {
        Json::Object(_) => match (
            json_get_str(item, "name"@),
            opt_str_member(item, "originalValue"@),
            json_get_str(item, "newValue"@),
            json_get_str(item, "targetPath"@),
        ) {
            (Some(n), Some(o), Some(v), Some(t)) => Some((n, o, v, t)),
            _ => None,
        },
        Json::Array(xs) => if xs.len() == 4 {
            match (xs[0], opt_str_value(xs[1]), xs[2], xs[3]) {
                (Json::Str(n), Some(o), Json::Str(v), Json::Str(t)) => Some((n, o, v, t)),
                _ => None,
            }
        } else {
            None
        },
        _ => None,
    }
}

/// Every element of `items` is a recorded variable change.
pub open spec fn all_env_changes(items: Seq<Json>) -> bool {
    forall|i: int| 0 <= i < items.len() ==> (#[trigger] parse_env_change(items[i])) is Some
}

/// The variable changes the elements of `items` record.
pub open spec fn env_changes_of(items: Seq<Json>) -> Seq<(Seq<char>, Option<Seq<char>>, Seq<char>, Seq<char>)> {
    items.map_values(|x: Json| parse_env_change(x).unwrap())
}

/// Why the recorded variables cannot be read.
pub open spec fn variables_error() -> Seq<char> {
    "failed to parse variables: expected a list of variable changes"@
}

/// What the rollback of move `id` restores, or why it is refused.
pub open spec fn env_rollback_spec(entries: Seq<OperationLogEntry>, id: Seq<char>, confirmation: Seq<char>) -> Result<
    Seq<(Seq<char>, Option<Seq<char>>, Seq<char>, Seq<char>)>,
    Seq<char>,
> {
    match rollback_check(
        entries,
        rollback_targets_spec(entries, env_rollback_types()),
        id,
        confirmation,
        DEVSPACE_ENV_ROLLBACK_CONFIRMATION@,
        "devspace-env-migration"@,
    ) {
        Err(RollbackRefusal::Confirmation) => Err("invalid devspace env rollback confirmation"@),
        Err(RollbackRefusal::AlreadyRolledBack) => Err("devspace env migration already has a rollback record"@),
        Err(RollbackRefusal::NotFound) => Err("devspace env migration "@ + id + " not found"@),
        Err(RollbackRefusal::NotRollbackable) => Err("operation is not a rollbackable devspace env migration"@),
        Ok(k) => match json_get(entries[k].details@, "variables"@) {
            None => Err("devspace env log missing variables"@),
            Some(Json::Array(items)) => if all_env_changes(items) {
                Ok(env_changes_of(items))
            } else {
                Err(variables_error())
            },
            Some(_) => Err(variables_error()),
        },
    }
}

fn opt_str_of(v: &JsonValue) -> (r: Option<Option<String>>)
    ensures
        match r {
            Some(o) => opt_str_value(v@) == Some(opt_view(o)),
            None => opt_str_value(v@) is None,
        },
{
    match v {
        JsonValue::Null => Some(None),
        JsonValue::Str(s) => Some(Some(owned(s.as_str()))),
        _ => None,
    }
}

/// Reads one recorded variable change.
pub fn read_env_change(item: &JsonValue) -> (r: Option<DevSpaceEnvVarChange>)
    ensures
        match r {
            Some(c) => parse_env_change(item@) == Some(change_view(c)),
            None => parse_env_change(item@) is None,
        },
{
    match item {
        JsonValue::Object(_) => {
            let name = get_str(item, "name");
            let original = match item.get("originalValue") {
                None => Some(None),
                Some(v) => opt_str_of(v),
            };
            let new_value = get_str(item, "newValue");
            let target = get_str(item, "targetPath");
            match (name, original, new_value, target) {
                (Some(n), Some(o), Some(v), Some(t)) => Some(
                    DevSpaceEnvVarChange {
                        name: owned(n),
                        original_value: o,
                        new_value: owned(v),
                        target_path: owned(t),
                    },
                ),
                _ => None,
            }
        },
        JsonValue::Array(xs) => {
            proof {
                lemma_view_items_len(xs@);
            }
            if xs.len() == 4 {
                match (&xs[0], opt_str_of(&xs[1]), &xs[2], &xs[3]) {
                    (JsonValue::Str(n), Some(o), JsonValue::Str(v), JsonValue::Str(t)) => Some(
                        DevSpaceEnvVarChange {
                            name: owned(n.as_str()),
                            original_value: o,
                            new_value: owned(v.as_str()),
                            target_path: owned(t.as_str()),
                        },
                    ),
                    _ => None,
                }
            } else {
                None
            }
        },
        _ => None,
    }
}

/// Reads the list of recorded variable changes.
pub fn read_env_changes(list: &JsonValue) -> (r: Option<Vec<DevSpaceEnvVarChange>>)
    ensures
        match r {
            Some(cs) => list@ matches Json::Array(items) && all_env_changes(items)
                && cs@.map_values(|c: DevSpaceEnvVarChange| change_view(c)) == env_changes_of(items),
            None => !(list@ matches Json::Array(items) && all_env_changes(items)),
        },
{
    let items = match list.as_array() {
        Some(a) => a,
        None => return None,
    };
    proof {
        lemma_view_items_len(items@);
    }
    let ghost jitems = view_items(items@);
    let mut out: Vec<DevSpaceEnvVarChange> = Vec::new();
    let mut i: usize = 0;
    while i < items.len()
        invariant
            jitems == view_items(items@),
            jitems.len() == items@.len(),
            forall|k: int| 0 <= k < items@.len() ==> #[trigger] jitems[k] == items@[k]@,
            list@ == Json::Array(jitems),
            i <= items.len(),
            all_env_changes(jitems.subrange(0, i as int)),
            out@.map_values(|c: DevSpaceEnvVarChange| change_view(c)) == env_changes_of(jitems.subrange(0, i as int)),
        decreases items.len() - i,
    {
        let c = match read_env_change(&items[i]) {
            Some(c) => c,
            None => {
                assert(jitems[i as int] == items@[i as int]@);
                assert(!all_env_changes(jitems));
                return None;
            },
        };
        let ghost before = out@;
        let ghost cv = change_view(c);
        out.push(c);
        proof {
            assert(jitems[i as int] == items@[i as int]@);
            assert(jitems.subrange(0, i + 1) =~= jitems.subrange(0, i as int).push(jitems[i as int]));
            assert(all_env_changes(jitems.subrange(0, i + 1))) by {
                assert forall|k: int| 0 <= k < i + 1 implies (#[trigger] parse_env_change(jitems.subrange(0, i + 1)[k])) is Some by {
                    if k < i {
                        assert(jitems.subrange(0, i + 1)[k] == jitems.subrange(0, i as int)[k]);
                    }
                }
            }
            assert(out@.map_values(|c: DevSpaceEnvVarChange| change_view(c)) =~= before.map_values(
                |c: DevSpaceEnvVarChange| change_view(c),
            ).push(cv));
            assert(env_changes_of(jitems.subrange(0, i + 1)) =~= env_changes_of(jitems.subrange(0, i as int)).push(
                parse_env_change(jitems[i as int]).unwrap(),
            ));
        }
        i = i + 1;
    }
    proof {
        assert(jitems.subrange(0, items@.len() as int) =~= jitems);
    }
    Some(out)
}

/// Checks a request to roll back move `operation_id` and reads the
/// variables to restore (before any
/// variable is restored).
pub fn prepare_devspace_env_rollback(entries: &Vec<OperationLogEntry>, operation_id: &str, confirmation: &str) -> (res:
    Result<Vec<DevSpaceEnvVarChange>, String>)
    ensures
        match res {
            Ok(cs) => env_rollback_spec(entries@, operation_id@, confirmation@) == Ok::<
                Seq<(Seq<char>, Option<Seq<char>>, Seq<char>, Seq<char>)>,
                Seq<char>,
            >(cs@.map_values(|c: DevSpaceEnvVarChange| change_view(c))),
            Err(e) => env_rollback_spec(entries@, operation_id@, confirmation@) == Err::<
                Seq<(Seq<char>, Option<Seq<char>>, Seq<char>, Seq<char>)>,
                Seq<char>,
            >(e@),
        },
{
    if !str_eq(confirmation, DEVSPACE_ENV_ROLLBACK_CONFIRMATION) {
        return Err(owned("invalid devspace env rollback confirmation"));
    }
    let targets = devspace_env_rollback_targets(entries);
    if contains_string(&targets, operation_id) {
        return Err(owned("devspace env migration already has a rollback record"));
    }
    let k = match find_entry_index(entries, operation_id) {
        Some(k) => k,
        None => {
            let mut msg = owned("devspace env migration ");
            push_str(&mut msg, operation_id);
            push_str(&mut msg, " not found");
            return Err(msg);
        },
    };
    let entry = &entries[k];
    if !str_eq(entry.operation_type.as_str(), "devspace-env-migration") || !entry.rollbackable {
        return Err(owned("operation is not a rollbackable devspace env migration"));
    }
    let list = match entry.details.get("variables") {
        Some(l) => l,
        None => return Err(owned("devspace env log missing variables")),
    };
    match read_env_changes(list) {
        Some(cs) => Ok(cs),
        None => Err(owned("failed to parse variables: expected a list of variable changes")),
    }
}

/// How a variable is restored.
pub enum EnvRestore {
    /// Write back the value it had.
    Write(String),
    /// It was not set before: delete it.
    Delete,
}

/// How `variable` is restored: its original value is written back, or it
/// is deleted when it had none.
pub fn env_restore_action(variable: &DevSpaceEnvVarChange) -> (r: EnvRestore)
    ensures
        match variable.original_value {
            Some(v) => r matches EnvRestore::Write(w) && w@ == v@,
            None => r is Delete,
        },
{
    match &variable.original_value {
        Some(v) => EnvRestore::Write(owned(v.as_str())),
        None => EnvRestore::Delete,
    }
}

/// The text that summarises the rollback of a move by environment
/// variables.
pub open spec fn env_rollback_summary(restored: u64, skipped: u64) -> Seq<char> {
    "开发工具环境变量迁移回滚：恢复 "@ + decimal(restored as nat) + " 项，跳过 "@ + decimal(skipped as nat) + " 项"@
}

/// Records the end of the rollback of move `operation_id` once every
/// variable has been counted: the log entry and the result.
pub fn finish_devspace_env_rollback(operation_id: &str, rollback_id: &str, created_at_ms: u128, tally: Tally) -> (res: (
    OperationLogEntry,
    DevSpaceEnvRollbackResult,
))
    requires
        tally.inv(),
        tally.complete(),
    ensures
        res.1.restored_count + res.1.skipped_count == tally.total(),
        res.1.failures@.len() <= res.1.skipped_count,
        res.0.id@ == rollback_id@,
        res.0.operation_type@ == "devspace-env-migration-rollback"@,
        res.0.status@ == rollback_status(tally.failure_list().len() as int),
        res.0.created_at_ms == created_at_ms,
        !res.0.rollbackable,
        res.0.summary@ == env_rollback_summary(tally.done(), tally.skipped()),
        res.0.details@ == rollback_details(operation_id@, tally.done(), tally.skipped(), failure_views(tally.failure_list())),
        res.1.id@ == rollback_id@,
        res.1.rollback_of@ == operation_id@,
        res.1.status@ == rollback_status(tally.failure_list().len() as int),
        res.1.restored_count == tally.done(),
        res.1.skipped_count == tally.skipped(),
        res.1.failures@ == tally.failure_list(),
{
    let status = rollback_status_string(tally.failures().len());
    let mut summary = owned("开发工具环境变量迁移回滚：恢复 ");
    push_decimal(&mut summary, tally.done() as u128);
    push_str(&mut summary, " 项，跳过 ");
    push_decimal(&mut summary, tally.skipped() as u128);
    push_str(&mut summary, " 项");
    let details = rollback_details_json(operation_id, tally.done(), tally.skipped(), tally.failures());
    let entry = OperationLogEntry {
        id: owned(rollback_id),
        operation_type: owned("devspace-env-migration-rollback"),
        status: owned(status.as_str()),
        created_at_ms,
        rollbackable: false,
        summary,
        details,
    };
    let result = DevSpaceEnvRollbackResult {
        id: owned(rollback_id),
        rollback_of: owned(operation_id),
        status,
        restored_count: tally.done(),
        skipped_count: tally.skipped(),
        failures: tally.into_failures(),
    };
    (entry, result)
}

/// A move by environment variables can be rolled back at most once: once
/// the log holds its rollback record, another rollback is refused.
pub proof fn law_env_rollback_once(
    entries: Seq<OperationLogEntry>,
    record: OperationLogEntry,
    id: Seq<char>,
    confirmation: Seq<char>,
)
    requires
        record.operation_type@ == "devspace-env-migration-rollback"@,
        rollback_of(record) == Some(id),
        confirmation == DEVSPACE_ENV_ROLLBACK_CONFIRMATION@,
    ensures
        env_rollback_spec(entries.push(record), id, confirmation) == Err::<
            Seq<(Seq<char>, Option<Seq<char>>, Seq<char>, Seq<char>)>,
            Seq<char>,
        >("devspace env migration already has a rollback record"@),
{
    let all = entries.push(record);
    assert(all.drop_last() =~= entries);
    assert(all.last() == record);
    assert(env_rollback_types().contains("devspace-env-migration-rollback"@)) by {
        assert(env_rollback_types()[0] == "devspace-env-migration-rollback"@);
    }
    let t = rollback_targets_spec(all, env_rollback_types());
    assert(t[t.len() - 1] == id);
    assert(t.contains(id));
}


// ---------------------------------------------------------------------
// Moving by directory junctions: the plan
// ---------------------------------------------------------------------

/// One source directory of a planned junction move, and what was found.
pub struct DevSpaceJunctionPlanItem {
    pub raw_source_path: String,
    pub source_path: String,
    pub target_path: String,
    pub source_exists: bool,
    pub source_accessible: bool,
    pub source_bytes: u64,
    pub target_exists: bool,
    pub target_drive_exists: bool,
    pub target_free_bytes: u64,
    pub already_junction: bool,
    pub blockers: Vec<String>,
    pub warnings: Vec<String>,
}

/// A planned move by directory junctions.
pub struct DevSpaceJunctionPlan {
    pub id: String,
    pub target_id: String,
    pub name: String,
    pub target_root: String,
    pub can_execute: bool,
    pub blockers: Vec<String>,
    pub warnings: Vec<String>,
    pub items: Vec<DevSpaceJunctionPlanItem>,
}

/// What the file system reported about the target of one source directory.
pub struct JunctionFacts {
    pub target_exists: bool,
    pub target_drive_exists: bool,
    /// The total and free bytes of the target drive, when they could be read.
    pub target_space: Option<(u64, u64)>,
    pub already_junction: bool,
}

/// Where source directory `source` of tool `rule_id` goes under `root`:
/// `root\junctions\<tool>\<leaf>`.
pub open spec fn junction_target_spec(root: Seq<char>, rule_id: Seq<char>, source: Seq<char>) -> Seq<char> {
    join_path(join_path(join_path(root, "junctions"@), safe_name_spec(rule_id)), leaf_name_spec(source))
}

/// Where a source directory goes (`build_junction_plan_item`, the target).
pub fn junction_target_path(target_root: &str, rule_id: &str, source_path: &str) -> (res: String)
    ensures
        res@ == junction_target_spec(target_root@, rule_id@, source_path@),
{
    let a = join_path_str(target_root, "junctions");
    let seg = safe_path_segment(rule_id);
    let b = join_path_str(a.as_str(), seg.as_str());
    let leaf = source_leaf_name(source_path);
    join_path_str(b.as_str(), leaf.as_str())
}

/// The reasons one source directory may not be moved.
pub open spec fn junction_item_blockers(
    source_exists: bool,
    source_accessible: bool,
    source_bytes: u64,
    target_exists: bool,
    target_drive_exists: bool,
    target_free_bytes: u64,
    already_junction: bool,
) -> Seq<Seq<char>> {
    let b0: Seq<Seq<char>> = Seq::empty();
    let b1 = if !source_exists { b0.push("源路径不存在"@) } else { b0 };
    let b2 = if !source_accessible { b1.push("源路径不可访问"@) } else { b1 };
    let b3 = if target_exists { b2.push("目标路径已存在"@) } else { b2 };
    let b4 = if !target_drive_exists { b3.push("目标盘不存在"@) } else { b3 };
    let b5 = if target_free_bytes <= source_bytes { b4.push("目标盘剩余空间不足"@) } else { b4 };
    if already_junction { b5.push("源路径已经是 Junction 或符号链接"@) } else { b5 }
}

/// The free bytes of the target drive, zero when unknown.
pub open spec fn free_of(space: Option<(u64, u64)>) -> u64 {
    match space {
        Some((_, free)) => free,
        None => 0,
    }
}

/// The item of a junction plan for rule path `raw_path`, whose scan is
/// `source` (`build_junction_plan_item`).
pub fn build_junction_plan_item(
    target_root: &str,
    rule_id: &str,
    raw_path: &str,
    source: PathScanSummary,
    facts: &JunctionFacts,
) -> (item: DevSpaceJunctionPlanItem)
    ensures
        item.raw_source_path@ == raw_path@,
        item.source_path == source.resolved_path,
        item.target_path@ == junction_target_spec(target_root@, rule_id@, source.resolved_path@),
        item.source_exists == source.exists,
        item.source_accessible == source.accessible,
        item.source_bytes == source.total_bytes,
        item.target_exists == facts.target_exists,
        item.target_drive_exists == facts.target_drive_exists,
        item.target_free_bytes == free_of(facts.target_space),
        item.already_junction == facts.already_junction,
        views(item.blockers@) == junction_item_blockers(
            source.exists,
            source.accessible,
            source.total_bytes,
            facts.target_exists,
            facts.target_drive_exists,
            free_of(facts.target_space),
            facts.already_junction,
        ),
        item.warnings@.len() == 0,
{
    let target_path = junction_target_path(target_root, rule_id, source.resolved_path.as_str());
    let free = match facts.target_space {
        Some((_, f)) => f,
        None => 0,
    };
    let mut blockers: Vec<String> = Vec::new();
    if !source.exists {
        blockers.push(owned("源路径不存在"));
    }
    if !source.accessible {
        blockers.push(owned("源路径不可访问"));
    }
    if facts.target_exists {
        blockers.push(owned("目标路径已存在"));
    }
    if !facts.target_drive_exists {
        blockers.push(owned("目标盘不存在"));
    }
    if free <= source.total_bytes {
        blockers.push(owned("目标盘剩余空间不足"));
    }
    if facts.already_junction {
        blockers.push(owned("源路径已经是 Junction 或符号链接"));
    }
    assert(views(blockers@) =~= junction_item_blockers(
        source.exists,
        source.accessible,
        source.total_bytes,
        facts.target_exists,
        facts.target_drive_exists,
        free,
        facts.already_junction,
    ));
    DevSpaceJunctionPlanItem {
        raw_source_path: owned(raw_path),
        source_path: source.resolved_path,
        target_path,
        source_exists: source.exists,
        source_accessible: source.accessible,
        source_bytes: source.total_bytes,
        target_exists: facts.target_exists,
        target_drive_exists: facts.target_drive_exists,
        target_free_bytes: free,
        already_junction: facts.already_junction,
        blockers,
        warnings: Vec::new(),
    }
}

/// One source directory may be moved exactly when it exists and can be
/// read, its target does not exist, the target drive exists and has more
/// free space than the directory takes, and it is not a link already.
pub proof fn law_junction_item_clear(
    source_exists: bool,
    source_accessible: bool,
    source_bytes: u64,
    target_exists: bool,
    target_drive_exists: bool,
    target_free_bytes: u64,
    already_junction: bool,
)
    ensures
        (junction_item_blockers(
            source_exists,
            source_accessible,
            source_bytes,
            target_exists,
            target_drive_exists,
            target_free_bytes,
            already_junction,
        ).len() == 0) == (source_exists && source_accessible && !target_exists && target_drive_exists
            && target_free_bytes > source_bytes && !already_junction),
{
}

/// The reasons a tool's own settings forbid a junction move.
pub open spec fn junction_rule_blockers(rule: DevSpaceRule) -> Seq<Seq<char>> {
    let b0: Seq<Seq<char>> = Seq::empty();
    let b1 = if rule.risk@ == "high"@ { b0.push("高风险目录不允许自动生成 Junction 执行预案"@) } else { b0 };
    let b2 = if rule.preferred_move@ != "junction"@ && rule.fallback@ != "junction"@ {
        b1.push("该工具不支持 Junction 迁移预案"@)
    } else {
        b1
    };
    let b3 = if rule.preferred_action@ == "readonly"@ {
        b2.push("该规则当前推荐只读，Junction 预案仅用于评估，不开放执行"@)
    } else {
        b2
    };
    if rule.preferred_action@ == "cleanup"@ { b3.push("该规则当前推荐清理，不开放 Junction 执行"@) } else { b3 }
}

/// Some item of the plan has a blocker.
pub open spec fn some_item_blocked(items: Seq<DevSpaceJunctionPlanItem>) -> bool {
    exists|i: int| 0 <= i < items.len() && (#[trigger] items[i]).blockers@.len() > 0
}

/// The reasons a junction plan may not be executed.
pub open spec fn junction_plan_blockers(rule: DevSpaceRule, items: Seq<DevSpaceJunctionPlanItem>) -> Seq<Seq<char>> {
    let b0 = junction_rule_blockers(rule);
    let b1 = if items.len() == 0 { b0.push("规则没有可检测路径"@) } else { b0 };
    if some_item_blocked(items) { b1.push("存在路径级阻塞项"@) } else { b1 }
}

/// The record of one item of a junction plan.
pub open spec fn junction_item_json(i: DevSpaceJunctionPlanItem) -> Json {
    Json::Object(
        seq![
            ("rawSourcePath"@, Json::Str(i.raw_source_path@)),
            ("sourcePath"@, Json::Str(i.source_path@)),
            ("targetPath"@, Json::Str(i.target_path@)),
            ("sourceExists"@, Json::Bool(i.source_exists)),
            ("sourceAccessible"@, Json::Bool(i.source_accessible)),
            ("sourceBytes"@, Json::UInt(i.source_bytes)),
            ("targetExists"@, Json::Bool(i.target_exists)),
            ("targetDriveExists"@, Json::Bool(i.target_drive_exists)),
            ("targetFreeBytes"@, Json::UInt(i.target_free_bytes)),
            ("alreadyJunction"@, Json::Bool(i.already_junction)),
            ("blockers"@, Json::Array(str_items(i.blockers@))),
            ("warnings"@, Json::Array(str_items(i.warnings@))),
        ],
    )
}

/// The details recorded with a junction plan.
pub open spec fn junction_plan_details(p: DevSpaceJunctionPlan) -> Json {
    Json::Object(
        seq![
            ("targetId"@, Json::Str(p.target_id@)),
            ("name"@, Json::Str(p.name@)),
            ("targetRoot"@, Json::Str(p.target_root@)),
            ("canExecute"@, Json::Bool(p.can_execute)),
            ("blockers"@, Json::Array(str_items(p.blockers@))),
            ("warnings"@, Json::Array(str_items(p.warnings@))),
            ("items"@, Json::Array(p.items@.map_values(|i: DevSpaceJunctionPlanItem| junction_item_json(i)))),
        ],
    )
}

/// The record of one item of a junction plan.
#[verifier::spinoff_prover]
#[verifier::rlimit(40)]
pub fn junction_item_to_json(item: &DevSpaceJunctionPlanItem) -> (v: JsonValue)
    ensures
        v@ == junction_item_json(*item),
{
    let mut b = ObjectBuilder::new();
    b.str_field("rawSourcePath", item.raw_source_path.as_str());
    b.str_field("sourcePath", item.source_path.as_str());
    b.str_field("targetPath", item.target_path.as_str());
    b.bool_field("sourceExists", item.source_exists);
    b.bool_field("sourceAccessible", item.source_accessible);
    b.uint_field("sourceBytes", item.source_bytes);
    b.bool_field("targetExists", item.target_exists);
    b.bool_field("targetDriveExists", item.target_drive_exists);
    b.uint_field("targetFreeBytes", item.target_free_bytes);
    b.bool_field("alreadyJunction", item.already_junction);
    b.field("blockers", json_str_array(&item.blockers));
    b.field("warnings", json_str_array(&item.warnings));
    proof {
        assert(view_fields(b.fields@) =~= match junction_item_json(*item) {
            Json::Object(f) => f,
            _ => Seq::empty(),
        });
    }
    b.build()
}

/// The records of the items of a junction plan.
pub fn junction_items_to_json(items: &Vec<DevSpaceJunctionPlanItem>) -> (v: JsonValue)
    ensures
        v@ == Json::Array(items@.map_values(|i: DevSpaceJunctionPlanItem| junction_item_json(i))),
{
    let mut out: Vec<JsonValue> = Vec::new();
    let mut i: usize = 0;
    while i < items.len()
        invariant
            i <= items.len(),
            view_items(out@) == items@.subrange(0, i as int).map_values(|x: DevSpaceJunctionPlanItem| junction_item_json(x)),
        decreases items.len() - i,
    {
        let x = junction_item_to_json(&items[i]);
        proof {
            lemma_view_items_push(out@, x);
            assert(items@.subrange(0, i + 1).map_values(|x: DevSpaceJunctionPlanItem| junction_item_json(x)) =~= items@.subrange(
                0,
                i as int,
            ).map_values(|x: DevSpaceJunctionPlanItem| junction_item_json(x)).push(junction_item_json(items@[i as int])));
        }
        out.push(x);
        i = i + 1;
    }
    assert(items@.subrange(0, items@.len() as int) =~= items@);
    JsonValue::Array(out)
}

fn any_item_blocked(items: &Vec<DevSpaceJunctionPlanItem>) -> (r: bool)
    ensures
        r == some_item_blocked(items@),
{
    let mut i: usize = 0;
    while i < items.len()
        invariant
            i <= items.len(),
            forall|k: int| 0 <= k < i ==> (#[trigger] items@[k]).blockers@.len() == 0,
        decreases items.len() - i,
    {
        if items[i].blockers.len() > 0 {
            assert(items@[i as int].blockers@.len() > 0);
            return true;
        }
        i = i + 1;
    }
    false
}

/// A plan to move tool `rule` by directory junctions to `target_root`
/// (`create_devspace_junction_plan`), from the items built for its paths;
/// and the log entry that records it.
pub fn create_devspace_junction_plan(
    operation_id: &str,
    created_at_ms: u128,
    rule: &DevSpaceRule,
    target_root: &str,
    items: Vec<DevSpaceJunctionPlanItem>,
    system_drive: Option<&str>,
) -> (res: (DevSpaceJunctionPlan, OperationLogEntry))
    ensures
        res.0.id@ == operation_id@,
        res.0.target_id@ == rule.id@,
        res.0.name@ == rule.name@,
        res.0.target_root@ == target_root@,
        views(res.0.blockers@) == junction_plan_blockers(*rule, items@),
        views(res.0.warnings@) == root_warnings(under_system_root(target_root@, str_opt_view(system_drive))),
        res.0.can_execute == (res.0.blockers@.len() == 0),
        res.0.items == items,
        res.1.id@ == operation_id@,
        res.1.operation_type@ == "devspace-junction-plan"@,
        res.1.status@ == "planned"@,
        res.1.created_at_ms == created_at_ms,
        !res.1.rollbackable,
        res.1.summary@ == "开发工具 Junction 迁移预案："@ + rule.name@,
        res.1.details@ == junction_plan_details(res.0),
{
    let ghost r = *rule;
    let mut blockers: Vec<String> = Vec::new();
    if str_eq(rule.risk.as_str(), "high") {
        blockers.push(owned("高风险目录不允许自动生成 Junction 执行预案"));
    }
    if !str_eq(rule.preferred_move.as_str(), "junction") && !str_eq(rule.fallback.as_str(), "junction") {
        blockers.push(owned("该工具不支持 Junction 迁移预案"));
    }
    if str_eq(rule.preferred_action.as_str(), "readonly") {
        blockers.push(owned("该规则当前推荐只读，Junction 预案仅用于评估，不开放执行"));
    }
    if str_eq(rule.preferred_action.as_str(), "cleanup") {
        blockers.push(owned("该规则当前推荐清理，不开放 Junction 执行"));
    }
    assert(views(blockers@) =~= junction_rule_blockers(r));
    let mut warnings: Vec<String> = Vec::new();
    let on_system = is_under_system_root(target_root, system_drive);
    if on_system {
        warnings.push(owned("目标根目录仍在系统盘"));
    }
    assert(views(warnings@) =~= root_warnings(on_system));
    if items.len() == 0 {
        blockers.push(owned("规则没有可检测路径"));
    }
    if any_item_blocked(&items) {
        blockers.push(owned("存在路径级阻塞项"));
    }
    assert(views(blockers@) =~= junction_plan_blockers(r, items@));
    let can_execute = blockers.len() == 0;
    let plan = DevSpaceJunctionPlan {
        id: owned(operation_id),
        target_id: owned(rule.id.as_str()),
        name: owned(rule.name.as_str()),
        target_root: owned(target_root),
        can_execute,
        blockers,
        warnings,
        items,
    };
    let mut summary = owned("开发工具 Junction 迁移预案：");
    push_str(&mut summary, rule.name.as_str());
    let mut b = ObjectBuilder::new();
    b.str_field("targetId", plan.target_id.as_str());
    b.str_field("name", plan.name.as_str());
    b.str_field("targetRoot", plan.target_root.as_str());
    b.bool_field("canExecute", plan.can_execute);
    b.field("blockers", json_str_array(&plan.blockers));
    b.field("warnings", json_str_array(&plan.warnings));
    b.field("items", junction_items_to_json(&plan.items));
    proof {
        assert(view_fields(b.fields@) =~= match junction_plan_details(plan) {
            Json::Object(f) => f,
            _ => Seq::empty(),
        });
    }
    let details = b.build();
    let entry = OperationLogEntry {
        id: owned(operation_id),
        operation_type: owned("devspace-junction-plan"),
        status: owned("planned"),
        created_at_ms,
        rollbackable: false,
        summary,
        details,
    };
    (plan, entry)
}

/// A junction plan may be executed only when the tool's settings allow it,
/// it has at least one path, and no path has a blocker.
pub proof fn law_junction_plan_can_execute(rule: DevSpaceRule, items: Seq<DevSpaceJunctionPlanItem>)
    ensures
        (junction_plan_blockers(rule, items).len() == 0) == (junction_rule_blockers(rule).len() == 0 && items.len() > 0
            && forall|i: int| 0 <= i < items.len() ==> (#[trigger] items[i]).blockers@.len() == 0),
{
}


/// A tool of high risk, or one whose rule recommends only reading it (such
/// as a directory of credentials), is never moved: no junction plan and no
/// plan by environment variables for it can be executed. A tool whose rule
/// recommends only cleaning it gets no executable junction plan either.
pub proof fn law_guarded_tools_never_moved(rule: DevSpaceRule, items: Seq<DevSpaceJunctionPlanItem>)
    ensures
        (rule.risk@ == "high"@ || rule.preferred_action@ == "readonly"@ || rule.preferred_action@ == "cleanup"@)
            ==> junction_plan_blockers(rule, items).len() > 0,
        (rule.risk@ == "high"@ || rule.preferred_action@ == "readonly"@) ==> env_plan_blockers(rule).len() > 0,
{
}

// ---------------------------------------------------------------------
// Moving by directory junctions: the move
// ---------------------------------------------------------------------

/// A directory moved behind a junction.
pub struct MovedJunctionItem {
    pub source_path: String,
    pub target_path: String,
    pub bytes: u64,
}

/// The outcome of a move by directory junctions.
pub struct DevSpaceJunctionMigrationResult {
    pub id: String,
    pub status: String,
    pub target_id: String,
    pub name: String,
    pub moved_count: u64,
    pub skipped_count: u64,
    pub moved_bytes: u64,
    pub failures: Vec<DevSpaceJunctionFailure>,
}

/// Checks the confirmation word of a move by directory junctions.
pub fn check_junction_confirmation(confirmation: &str) -> (res: Result<(), String>)
    ensures
        match res {
            Ok(()) => confirmation@ == DEVSPACE_JUNCTION_CONFIRMATION@,
            Err(e) => confirmation@ != DEVSPACE_JUNCTION_CONFIRMATION@ && e@ == "invalid devspace junction confirmation"@,
        },
{
    if str_eq(confirmation, DEVSPACE_JUNCTION_CONFIRMATION) {
        Ok(())
    } else {
        Err(owned("invalid devspace junction confirmation"))
    }
}

/// Checks that a junction plan may be executed.
pub fn check_junction_plan_executable(plan: &DevSpaceJunctionPlan) -> (res: Result<(), String>)
    ensures
        match res {
            Ok(()) => plan.can_execute,
            Err(e) => !plan.can_execute && e@ == precheck_failure("devspace junction precheck failed: "@, plan.blockers@),
        },
{
    if plan.can_execute {
        Ok(())
    } else {
        Err(precheck_failure_message("devspace junction precheck failed: ", &plan.blockers))
    }
}

/// The failure that skips an item with blockers, or `None` when the item
/// may be moved.
pub fn blocked_item_failure(item: &DevSpaceJunctionPlanItem) -> (r: Option<PathFailure>)
    ensures
        match r {
            Some(f) => item.blockers@.len() > 0 && f.path@ == item.source_path@ && f.reason@ == join_seqs(
                views(item.blockers@),
                "，"@,
            ),
            None => item.blockers@.len() == 0,
        },
{
    if item.blockers.len() > 0 {
        let reason = join_strings(&item.blockers, "，");
        Some(failure(item.source_path.as_str(), reason.as_str()))
    } else {
        None
    }
}

/// Why a source directory cannot be moved, the first reason that holds.
pub open spec fn junction_source_error(source_exists: bool, source_is_dir: bool, source_is_link: bool) -> Seq<char> {
    if !source_exists {
        "source path does not exist"@
    } else if !source_is_dir {
        "source path is not a directory"@
    } else if source_is_link {
        "source path is already a junction or symlink"@
    } else {
        "target path already exists"@
    }
}

/// Checks a source directory before it is moved
/// (before anything is changed).
pub fn check_junction_source(
    source_exists: bool,
    source_is_dir: bool,
    source_is_link: bool,
    target_exists: bool,
) -> (res: Result<(), String>)
    ensures
        res is Ok == (source_exists && source_is_dir && !source_is_link && !target_exists),
        match res {
            Ok(()) => true,
            Err(e) => e@ == junction_source_error(source_exists, source_is_dir, source_is_link),
        },
{
    if !source_exists {
        Err(owned("source path does not exist"))
    } else if !source_is_dir {
        Err(owned("source path is not a directory"))
    } else if source_is_link {
        Err(owned("source path is already a junction or symlink"))
    } else if target_exists {
        Err(owned("target path already exists"))
    } else {
        Ok(())
    }
}

/// The error of a junction that could not be created, after the directory
/// was moved back (or not).
pub open spec fn junction_link_failure(err: Seq<char>, restore: Result<(), Seq<char>>) -> Seq<char> {
    match restore {
        Ok(()) => "failed to create junction and restored source: "@ + err,
        Err(r) => "failed to create junction: "@ + err + "; failed to restore source: "@ + r,
    }
}

/// The error reported when the junction could not be created, given how
/// moving the directory back went.
pub fn junction_link_failure_message(err: &str, restore: Result<(), String>) -> (s: String)
    ensures
        s@ == junction_link_failure(
            err@,
            match restore {
                Ok(()) => Ok(()),
                Err(r) => Err(r@),
            },
        ),
{
    match restore {
        Ok(()) => {
            let mut s = owned("failed to create junction and restored source: ");
            push_str(&mut s, err);
            s
        },
        Err(r) => {
            let mut s = owned("failed to create junction: ");
            push_str(&mut s, err);
            push_str(&mut s, "; failed to restore source: ");
            push_str(&mut s, r.as_str());
            s
        },
    }
}

/// Checks that a copy carried as many bytes as expected
/// (after copying).
pub fn check_copied_size(expected: u64, copied: u64) -> (res: Result<(), String>)
    ensures
        match res {
            Ok(()) => expected == copied,
            Err(e) => expected != copied && e@ == "copied size mismatch: expected "@ + decimal(expected as nat)
                + " bytes, copied "@ + decimal(copied as nat) + " bytes"@,
        },
{
    if expected == copied {
        Ok(())
    } else {
        let mut s = owned("copied size mismatch: expected ");
        push_decimal(&mut s, expected as u128);
        push_str(&mut s, " bytes, copied ");
        push_decimal(&mut s, copied as u128);
        push_str(&mut s, " bytes");
        Err(s)
    }
}

/// The error of a copy whose source could not be removed afterwards, given
/// how removing the copy went.
pub open spec fn source_removal_failure(err: Seq<char>, cleanup: Result<(), Seq<char>>) -> Seq<char> {
    match cleanup {
        Ok(()) => "failed to remove source after copy: "@ + err,
        Err(c) => "failed to remove source after copy: "@ + err + "; copied target cleanup also failed: "@ + c,
    }
}

/// The error reported when the source of a copy could not be removed,
/// given how removing the copy went.
pub fn source_removal_failure_message(err: &str, cleanup: Result<(), String>) -> (s: String)
    ensures
        s@ == source_removal_failure(
            err@,
            match cleanup {
                Ok(()) => Ok(()),
                Err(c) => Err(c@),
            },
        ),
{
    let mut s = owned("failed to remove source after copy: ");
    push_str(&mut s, err);
    match cleanup {
        Ok(()) => s,
        Err(c) => {
            push_str(&mut s, "; copied target cleanup also failed: ");
            push_str(&mut s, c.as_str());
            s
        },
    }
}

/// The record of a moved directory.
pub open spec fn moved_junction_json(m: (Seq<char>, Seq<char>, u64)) -> Json {
    Json::Object(seq![("sourcePath"@, Json::Str(m.0)), ("targetPath"@, Json::Str(m.1)), ("bytes"@, Json::UInt(m.2))])
}

/// The records of the moved directories.
pub fn moved_junctions_to_json(items: &Vec<MovedJunctionItem>) -> (v: JsonValue)
    ensures
        v@ == Json::Array(items@.map_values(|m: MovedJunctionItem| moved_junction_json(moved_view(m)))),
{
    let mut out: Vec<JsonValue> = Vec::new();
    let mut i: usize = 0;
    while i < items.len()
        invariant
            i <= items.len(),
            view_items(out@) == items@.subrange(0, i as int).map_values(|m: MovedJunctionItem| moved_junction_json(moved_view(m))),
        decreases items.len() - i,
    {
        let m = &items[i];
        let mut b = ObjectBuilder::new();
        b.str_field("sourcePath", m.source_path.as_str());
        b.str_field("targetPath", m.target_path.as_str());
        b.uint_field("bytes", m.bytes);
        proof {
            assert(view_fields(b.fields@) =~= seq![
                ("sourcePath"@, Json::Str(m.source_path@)),
                ("targetPath"@, Json::Str(m.target_path@)),
                ("bytes"@, Json::UInt(m.bytes)),
            ]);
        }
        let x = b.build();
        proof {
            lemma_view_items_push(out@, x);
            assert(items@.subrange(0, i + 1).map_values(|m: MovedJunctionItem| moved_junction_json(moved_view(m))) =~= items@.subrange(
                0,
                i as int,
            ).map_values(|m: MovedJunctionItem| moved_junction_json(moved_view(m))).push(moved_junction_json(moved_view(items@[i as int]))));
        }
        out.push(x);
        i = i + 1;
    }
    assert(items@.subrange(0, items@.len() as int) =~= items@);
    JsonValue::Array(out)
}

/// The details recorded with a move by directory junctions.
pub open spec fn junction_migration_details(
    plan: DevSpaceJunctionPlan,
    moved: u64,
    skipped: u64,
    moved_bytes: u64,
    moves: Seq<(Seq<char>, Seq<char>, u64)>,
    failures: Seq<(Seq<char>, Seq<char>)>,
) -> Json {
    Json::Object(
        seq![
            ("targetId"@, Json::Str(plan.target_id@)),
            ("name"@, Json::Str(plan.name@)),
            ("targetRoot"@, Json::Str(plan.target_root@)),
            ("movedCount"@, Json::UInt(moved)),
            ("skippedCount"@, Json::UInt(skipped)),
            ("movedBytes"@, Json::UInt(moved_bytes)),
            ("movedItems"@, Json::Array(moves.map_values(|m: (Seq<char>, Seq<char>, u64)| moved_junction_json(m)))),
            ("failures"@, failures_json(failures)),
        ],
    )
}

/// The text that summarises a move by directory junctions.
pub open spec fn junction_migration_summary(name: Seq<char>, moved: u64, skipped: u64) -> Seq<char> {
    "开发工具 Junction 迁移："@ + name + "，迁移 "@ + decimal(moved as nat) + " 项，跳过 "@ + decimal(skipped as nat)
        + " 项"@
}

/// The failure that skips `item` given what became of it: its blockers,
/// or the error of its move.
pub open spec fn junction_outcome_failure(item: DevSpaceJunctionPlanItem, outcome: Option<Result<u64, String>>) -> Option<
    (Seq<char>, Seq<char>),
> {
    if item.blockers@.len() > 0 {
        Some((item.source_path@, join_seqs(views(item.blockers@), "，"@)))
    } else {
        match outcome {
            Some(Err(e)) => Some((item.source_path@, e@)),
            _ => None,
        }
    }
}

/// The directory `item` moved, with its bytes, given what became of it.
pub open spec fn junction_outcome_move(item: DevSpaceJunctionPlanItem, outcome: Option<Result<u64, String>>) -> Option<
    (Seq<char>, Seq<char>, u64),
> {
    if item.blockers@.len() > 0 {
        None
    } else {
        match outcome {
            Some(Ok(b)) => Some((item.source_path@, item.target_path@, b)),
            _ => None,
        }
    }
}

/// The failures of a junction move whose items had the given outcomes.
pub open spec fn junction_failures(
    items: Seq<DevSpaceJunctionPlanItem>,
    outcomes: Seq<Option<Result<u64, String>>>,
) -> Seq<(Seq<char>, Seq<char>)>
    decreases items.len(),
{
    if items.len() == 0 {
        Seq::empty()
    } else {
        let n = items.len() - 1;
        let rest = junction_failures(items.take(n), outcomes.take(n));
        match junction_outcome_failure(items[n], outcomes[n]) {
            Some(f) => rest.push(f),
            None => rest,
        }
    }
}

/// The directories a junction move whose items had the given outcomes
/// moved, in order.
pub open spec fn junction_moves(
    items: Seq<DevSpaceJunctionPlanItem>,
    outcomes: Seq<Option<Result<u64, String>>>,
) -> Seq<(Seq<char>, Seq<char>, u64)>
    decreases items.len(),
{
    if items.len() == 0 {
        Seq::empty()
    } else {
        let n = items.len() - 1;
        let rest = junction_moves(items.take(n), outcomes.take(n));
        match junction_outcome_move(items[n], outcomes[n]) {
            Some(m) => rest.push(m),
            None => rest,
        }
    }
}

/// The byte counts of moved directories.
pub open spec fn moved_bytes_of(moves: Seq<(Seq<char>, Seq<char>, u64)>) -> Seq<u64> {
    moves.map_values(|m: (Seq<char>, Seq<char>, u64)| m.2)
}

/// Moves a tool's directories behind junctions
/// (`execute_devspace_junction_migration`) once each item of the plan has
/// been handled: `outcomes[i]` is `None` exactly when `plan.items[i]` has
/// blockers and was not tried, else the bytes its move carried or the
/// error. Every item is either moved or skipped with its failure, the
/// bytes moved are the sum of the moved directories' bytes (capped at
/// `u64::MAX`), and the log entry, rollbackable when something was moved,
/// and the result are made.
pub fn execute_devspace_junction_migration(
    plan: &DevSpaceJunctionPlan,
    outcomes: &Vec<Option<Result<u64, String>>>,
    operation_id: &str,
    created_at_ms: u128,
) -> (res: (OperationLogEntry, DevSpaceJunctionMigrationResult))
    requires
        outcomes@.len() == plan.items@.len(),
        plan.items@.len() <= u64::MAX,
        forall|i: int| 0 <= i < plan.items@.len() ==> ((#[trigger] outcomes@[i]) is None <==> plan.items@[i].blockers@.len() > 0),
    ensures
        ({
            let fs = junction_failures(plan.items@, outcomes@);
            let ms = junction_moves(plan.items@, outcomes@);
            let bytes = capped(byte_sum(moved_bytes_of(ms)));
            &&& res.1.moved_count + res.1.skipped_count == plan.items@.len()
            &&& res.1.failures@.len() == res.1.skipped_count
            &&& res.1.moved_count == ms.len()
            &&& res.1.skipped_count == fs.len()
            &&& failure_views(res.1.failures@) == fs
            &&& res.1.moved_bytes == bytes
            &&& res.1.id@ == operation_id@
            &&& res.1.status@ == completion_status(fs.len() as int)
            &&& res.1.target_id@ == plan.target_id@
            &&& res.1.name@ == plan.name@
            &&& res.0.id@ == operation_id@
            &&& res.0.operation_type@ == "devspace-junction-migration"@
            &&& res.0.status@ == completion_status(fs.len() as int)
            &&& res.0.created_at_ms == created_at_ms
            &&& res.0.rollbackable == (ms.len() > 0)
            &&& res.0.summary@ == junction_migration_summary(plan.name@, ms.len() as u64, fs.len() as u64)
            &&& res.0.details@ == junction_migration_details(*plan, ms.len() as u64, fs.len() as u64, bytes, ms, fs)
        }),
{
    let n = plan.items.len();
    let mut tally = Tally::new(n as u64);
    let mut moved_items: Vec<MovedJunctionItem> = Vec::new();
    let mut moved_bytes: u64 = 0;
    let mut i: usize = 0;
    while i < n
        invariant
            n == plan.items@.len(),
            n == outcomes@.len(),
            n <= u64::MAX,
            i <= n,
            forall|k: int| 0 <= k < plan.items@.len() ==> ((#[trigger] outcomes@[k]) is None <==> plan.items@[k].blockers@.len() > 0),
            tally.inv(),
            tally.total() == n,
            tally.done() + tally.skipped() == i,
            tally.failure_list().len() == tally.skipped(),
            moved_items@.len() == tally.done(),
            failure_views(tally.failure_list()) == junction_failures(plan.items@.take(i as int), outcomes@.take(i as int)),
            moved_items@.map_values(|m: MovedJunctionItem| moved_view(m)) == junction_moves(
                plan.items@.take(i as int),
                outcomes@.take(i as int),
            ),
            moved_bytes == capped(byte_sum(moved_bytes_of(junction_moves(plan.items@.take(i as int), outcomes@.take(i as int))))),
        decreases n - i,
    {
        let item = &plan.items[i];
        let ghost before_f = tally.failure_list();
        let ghost before_m = moved_items@;
        let ghost ms = junction_moves(plan.items@.take(i as int), outcomes@.take(i as int));
        proof {
            assert(plan.items@.take(i + 1).take(i as int) =~= plan.items@.take(i as int));
            assert(outcomes@.take(i + 1).take(i as int) =~= outcomes@.take(i as int));
            assert(plan.items@.take(i + 1)[i as int] == plan.items@[i as int]);
            assert(outcomes@.take(i + 1)[i as int] == outcomes@[i as int]);
        }
        match blocked_item_failure(item) {
            Some(f) => {
                tally.record_failure(f);
                assert(failure_views(tally.failure_list()) =~= failure_views(before_f).push((f.path@, f.reason@)));
            },
            None => {
                match &outcomes[i] {
                    Some(Ok(b)) => {
                        tally.record_done();
                        moved_bytes = moved_bytes.saturating_add(*b);
                        moved_items.push(
                            MovedJunctionItem {
                                source_path: owned(item.source_path.as_str()),
                                target_path: owned(item.target_path.as_str()),
                                bytes: *b,
                            },
                        );
                        proof {
                            let mv = (item.source_path@, item.target_path@, *b);
                            assert(moved_items@.map_values(|m: MovedJunctionItem| moved_view(m)) =~= before_m.map_values(
                                |m: MovedJunctionItem| moved_view(m),
                            ).push(mv));
                            assert(moved_bytes_of(ms.push(mv)) =~= moved_bytes_of(ms).push(*b));
                            lemma_capped_push(moved_bytes_of(ms), *b);
                        }
                    },
                    Some(Err(e)) => {
                        tally.record_failure(failure(item.source_path.as_str(), e.as_str()));
                        assert(failure_views(tally.failure_list()) =~= failure_views(before_f).push(
                            (item.source_path@, e@),
                        ));
                    },
                    None => {
                        assert(false);
                    },
                }
            },
        }
        i = i + 1;
    }
    proof {
        assert(plan.items@.take(n as int) =~= plan.items@);
        assert(outcomes@.take(n as int) =~= outcomes@);
    }
    finish_junction_migration(plan, tally, moved_items, moved_bytes, operation_id, created_at_ms)
}

/// Records the end of a move by directory junctions: the log entry, which
/// is rollbackable when something was moved, and the result.
fn finish_junction_migration(
    plan: &DevSpaceJunctionPlan,
    tally: Tally,
    moved_items: Vec<MovedJunctionItem>,
    moved_bytes: u64,
    operation_id: &str,
    created_at_ms: u128,
) -> (res: (OperationLogEntry, DevSpaceJunctionMigrationResult))
    requires
        tally.inv(),
    ensures
        ({
            let ms = moved_items@.map_values(|m: MovedJunctionItem| moved_view(m));
            let fs = failure_views(tally.failure_list());
            &&& res.0.id@ == operation_id@
            &&& res.0.operation_type@ == "devspace-junction-migration"@
            &&& res.0.status@ == completion_status(fs.len() as int)
            &&& res.0.created_at_ms == created_at_ms
            &&& res.0.rollbackable == (tally.done() > 0)
            &&& res.0.summary@ == junction_migration_summary(plan.name@, tally.done(), tally.skipped())
            &&& res.0.details@ == junction_migration_details(*plan, tally.done(), tally.skipped(), moved_bytes, ms, fs)
            &&& res.1.id@ == operation_id@
            &&& res.1.status@ == completion_status(fs.len() as int)
            &&& res.1.target_id@ == plan.target_id@
            &&& res.1.name@ == plan.name@
            &&& res.1.moved_count == tally.done()
            &&& res.1.skipped_count == tally.skipped()
            &&& res.1.moved_bytes == moved_bytes
            &&& res.1.failures@ == tally.failure_list()
        }),
{
    let status = completion_status_string(tally.failures().len());
    let moved = tally.done();
    let skipped = tally.skipped();
    let mut summary = owned("开发工具 Junction 迁移：");
    push_str(&mut summary, plan.name.as_str());
    push_str(&mut summary, "，迁移 ");
    push_decimal(&mut summary, moved as u128);
    push_str(&mut summary, " 项，跳过 ");
    push_decimal(&mut summary, skipped as u128);
    push_str(&mut summary, " 项");
    let mut b = ObjectBuilder::new();
    b.str_field("targetId", plan.target_id.as_str());
    b.str_field("name", plan.name.as_str());
    b.str_field("targetRoot", plan.target_root.as_str());
    b.uint_field("movedCount", moved);
    b.uint_field("skippedCount", skipped);
    b.uint_field("movedBytes", moved_bytes);
    b.field("movedItems", moved_junctions_to_json(&moved_items));
    b.field("failures", failures_to_json(tally.failures()));
    proof {
        let ms = moved_items@.map_values(|m: MovedJunctionItem| moved_view(m));
        assert(ms.map_values(|m: (Seq<char>, Seq<char>, u64)| moved_junction_json(m)) =~= moved_items@.map_values(
            |m: MovedJunctionItem| moved_junction_json(moved_view(m)),
        ));
        assert(view_fields(b.fields@) =~= match junction_migration_details(
            *plan,
            moved,
            skipped,
            moved_bytes,
            ms,
            failure_views(tally.failure_list()),
        ) {
            Json::Object(f) => f,
            _ => Seq::empty(),
        });
    }
    let details = b.build();
    let entry = OperationLogEntry {
        id: owned(operation_id),
        operation_type: owned("devspace-junction-migration"),
        status: owned(status.as_str()),
        created_at_ms,
        rollbackable: moved > 0,
        summary,
        details,
    };
    let result = DevSpaceJunctionMigrationResult {
        id: owned(operation_id),
        status,
        target_id: owned(plan.target_id.as_str()),
        name: owned(plan.name.as_str()),
        moved_count: moved,
        skipped_count: skipped,
        moved_bytes,
        failures: tally.into_failures(),
    };
    (entry, result)
}

// ---------------------------------------------------------------------
// Moving by directory junctions: the rollback
// ---------------------------------------------------------------------

/// The outcome of the rollback of a move by directory junctions.
pub struct DevSpaceJunctionRollbackResult {
    pub id: String,
    pub rollback_of: String,
    pub status: String,
    pub restored_count: u64,
    pub skipped_count: u64,
    pub failures: Vec<DevSpaceJunctionFailure>,
}

/// The entry types that roll back a move by directory junctions.
pub open spec fn junction_rollback_types() -> Seq<Seq<char>> {
    seq!["devspace-junction-migration-rollback"@]
}

/// The junction moves that already have a rollback record
/// (`devspace_junction_rollback_targets`).
pub fn devspace_junction_rollback_targets(entries: &Vec<OperationLogEntry>) -> (res: Vec<String>)
    ensures
        res@.map_values(|s: String| s@) == rollback_targets_spec(entries@, junction_rollback_types()),
{
    let types: Vec<&str> = vec!["devspace-junction-migration-rollback"];
    assert(types@.map_values(|s: &str| s@) =~= junction_rollback_types());
    rollback_targets_of(entries, &types)
}

/// A recorded moved directory: an object with `sourcePath`, `targetPath`
/// and `bytes`, or a list of the three values in order.
pub open spec fn parse_moved_junction(item: Json) -> Option<(Seq<char>, Seq<char>, u64)> {
    match item {
        Json::Object(_) => match (
            json_get_str(item, "sourcePath"@),
            json_get_str(item, "targetPath"@),
            json_get(item, "bytes"@),
        ) {
            (Some(s), Some(t), Some(Json::UInt(n))) => Some((s, t, n)),
            _ => None,
        },
        Json::Array(xs) => if xs.len() == 3 {
            match (xs[0], xs[1], xs[2]) {
                (Json::Str(s), Json::Str(t), Json::UInt(n)) => Some((s, t, n)),
                _ => None,
            }
        } else {
            None
        },
        _ => None,
    }
}

/// Every element of `items` is a recorded moved directory.
pub open spec fn all_moved_junctions(items: Seq<Json>) -> bool {
    forall|i: int| 0 <= i < items.len() ==> (#[trigger] parse_moved_junction(items[i])) is Some
}

/// The moved directories the elements of `items` record.
pub open spec fn moved_junctions_of(items: Seq<Json>) -> Seq<(Seq<char>, Seq<char>, u64)> {
    items.map_values(|x: Json| parse_moved_junction(x).unwrap())
}

/// A moved directory as plain values.
pub open spec fn moved_view(m: MovedJunctionItem) -> (Seq<char>, Seq<char>, u64) {
    (m.source_path@, m.target_path@, m.bytes)
}

/// Why the recorded moved directories cannot be read.
pub open spec fn moved_junctions_error() -> Seq<char> {
    "failed to parse movedItems: expected a list of items with sourcePath, targetPath and bytes"@
}

/// What the rollback of junction move `id` restores, or why it is refused.
pub open spec fn junction_rollback_spec(entries: Seq<OperationLogEntry>, id: Seq<char>, confirmation: Seq<char>) -> Result<
    Seq<(Seq<char>, Seq<char>, u64)>,
    Seq<char>,
> {
    match rollback_check(
        entries,
        rollback_targets_spec(entries, junction_rollback_types()),
        id,
        confirmation,
        DEVSPACE_JUNCTION_ROLLBACK_CONFIRMATION@,
        "devspace-junction-migration"@,
    ) {
        Err(RollbackRefusal::Confirmation) => Err("invalid devspace junction rollback confirmation"@),
        Err(RollbackRefusal::AlreadyRolledBack) => Err("devspace junction migration already has a rollback record"@),
        Err(RollbackRefusal::NotFound) => Err("devspace junction migration "@ + id + " not found"@),
        Err(RollbackRefusal::NotRollbackable) => Err("operation is not a rollbackable devspace junction migration"@),
        Ok(k) => match json_get(entries[k].details@, "movedItems"@) {
            None => Err("devspace junction log missing movedItems"@),
            Some(Json::Array(items)) => if all_moved_junctions(items) {
                Ok(moved_junctions_of(items))
            } else {
                Err(moved_junctions_error())
            },
            Some(_) => Err(moved_junctions_error()),
        },
    }
}

/// Reads one recorded moved directory.
pub fn read_moved_junction(item: &JsonValue) -> (r: Option<MovedJunctionItem>)
    ensures
        match r {
            Some(m) => parse_moved_junction(item@) == Some(moved_view(m)),
            None => parse_moved_junction(item@) is None,
        },
{
    match item {
        JsonValue::Object(_) => {
            let s = get_str(item, "sourcePath");
            let t = get_str(item, "targetPath");
            let n = item.get("bytes");
            match (s, t, n) {
                (Some(s), Some(t), Some(JsonValue::UInt(n))) => Some(
                    MovedJunctionItem { source_path: owned(s), target_path: owned(t), bytes: *n },
                ),
                _ => None,
            }
        },
        JsonValue::Array(xs) => {
            proof {
                lemma_view_items_len(xs@);
            }
            if xs.len() == 3 {
                match (&xs[0], &xs[1], &xs[2]) {
                    (JsonValue::Str(s), JsonValue::Str(t), JsonValue::UInt(n)) => Some(
                        MovedJunctionItem { source_path: owned(s.as_str()), target_path: owned(t.as_str()), bytes: *n },
                    ),
                    _ => None,
                }
            } else {
                None
            }
        },
        _ => None,
    }
}

/// Reads the list of recorded moved directories.
pub fn read_moved_junctions(list: &JsonValue) -> (r: Option<Vec<MovedJunctionItem>>)
    ensures
        match r {
            Some(ms) => list@ matches Json::Array(items) && all_moved_junctions(items)
                && ms@.map_values(|m: MovedJunctionItem| moved_view(m)) == moved_junctions_of(items),
            None => !(list@ matches Json::Array(items) && all_moved_junctions(items)),
        },
{
    let items = match list.as_array() {
        Some(a) => a,
        None => return None,
    };
    proof {
        lemma_view_items_len(items@);
    }
    let ghost jitems = view_items(items@);
    let mut out: Vec<MovedJunctionItem> = Vec::new();
    let mut i: usize = 0;
    while i < items.len()
        invariant
            jitems == view_items(items@),
            jitems.len() == items@.len(),
            forall|k: int| 0 <= k < items@.len() ==> #[trigger] jitems[k] == items@[k]@,
            list@ == Json::Array(jitems),
            i <= items.len(),
            all_moved_junctions(jitems.subrange(0, i as int)),
            out@.map_values(|m: MovedJunctionItem| moved_view(m)) == moved_junctions_of(jitems.subrange(0, i as int)),
        decreases items.len() - i,
    {
        let m = match read_moved_junction(&items[i]) {
            Some(m) => m,
            None => {
                assert(jitems[i as int] == items@[i as int]@);
                assert(!all_moved_junctions(jitems));
                return None;
            },
        };
        let ghost before = out@;
        let ghost mv = moved_view(m);
        out.push(m);
        proof {
            assert(jitems[i as int] == items@[i as int]@);
            assert(jitems.subrange(0, i + 1) =~= jitems.subrange(0, i as int).push(jitems[i as int]));
            assert(all_moved_junctions(jitems.subrange(0, i + 1))) by {
                assert forall|k: int| 0 <= k < i + 1 implies (#[trigger] parse_moved_junction(jitems.subrange(0, i + 1)[k])) is Some by {
                    if k < i {
                        assert(jitems.subrange(0, i + 1)[k] == jitems.subrange(0, i as int)[k]);
                    }
                }
            }
            assert(out@.map_values(|m: MovedJunctionItem| moved_view(m)) =~= before.map_values(
                |m: MovedJunctionItem| moved_view(m),
            ).push(mv));
            assert(moved_junctions_of(jitems.subrange(0, i + 1)) =~= moved_junctions_of(jitems.subrange(0, i as int)).push(
                parse_moved_junction(jitems[i as int]).unwrap(),
            ));
        }
        i = i + 1;
    }
    proof {
        assert(jitems.subrange(0, items@.len() as int) =~= jitems);
    }
    Some(out)
}

/// Checks a request to roll back junction move `operation_id` and reads
/// the directories to restore (before any directory is restored).
pub fn prepare_devspace_junction_rollback(entries: &Vec<OperationLogEntry>, operation_id: &str, confirmation: &str) -> (res:
    Result<Vec<MovedJunctionItem>, String>)
    ensures
        match res {
            Ok(ms) => junction_rollback_spec(entries@, operation_id@, confirmation@) == Ok::<
                Seq<(Seq<char>, Seq<char>, u64)>,
                Seq<char>,
            >(ms@.map_values(|m: MovedJunctionItem| moved_view(m))),
            Err(e) => junction_rollback_spec(entries@, operation_id@, confirmation@) == Err::<
                Seq<(Seq<char>, Seq<char>, u64)>,
                Seq<char>,
            >(e@),
        },
{
    if !str_eq(confirmation, DEVSPACE_JUNCTION_ROLLBACK_CONFIRMATION) {
        return Err(owned("invalid devspace junction rollback confirmation"));
    }
    let targets = devspace_junction_rollback_targets(entries);
    if contains_string(&targets, operation_id) {
        return Err(owned("devspace junction migration already has a rollback record"));
    }
    let k = match find_entry_index(entries, operation_id) {
        Some(k) => k,
        None => {
            let mut msg = owned("devspace junction migration ");
            push_str(&mut msg, operation_id);
            push_str(&mut msg, " not found");
            return Err(msg);
        },
    };
    let entry = &entries[k];
    if !str_eq(entry.operation_type.as_str(), "devspace-junction-migration") || !entry.rollbackable {
        return Err(owned("operation is not a rollbackable devspace junction migration"));
    }
    let list = match entry.details.get("movedItems") {
        Some(l) => l,
        None => return Err(owned("devspace junction log missing movedItems")),
    };
    match read_moved_junctions(list) {
        Some(ms) => Ok(ms),
        None => Err(owned("failed to parse movedItems: expected a list of items with sourcePath, targetPath and bytes")),
    }
}

/// What to do with the source path before a directory is moved back:
/// remove the junction that stands there (`Ok(true)`), nothing (`Ok(false)`), or refuse when something
/// other than a link stands there.
pub fn check_junction_removal(source_exists: bool, source_is_link: bool) -> (res: Result<bool, String>)
    ensures
        match res {
            Ok(remove) => remove == source_exists && (source_exists ==> source_is_link),
            Err(e) => source_exists && !source_is_link && e@ == "source path exists but is not a junction or symlink"@,
        },
{
    if source_exists {
        if !source_is_link {
            Err(owned("source path exists but is not a junction or symlink"))
        } else {
            Ok(true)
        }
    } else {
        Ok(false)
    }
}

/// Checks, once the junction is gone, that the directory can be moved back.
pub fn check_junction_restorable(target_exists: bool, source_exists: bool) -> (res: Result<(), String>)
    ensures
        res is Ok == (target_exists && !source_exists),
        match res {
            Ok(()) => true,
            Err(e) => e@ == if !target_exists {
                "target path does not exist"@
            } else {
                "source path still exists after removing junction"@
            },
        },
{
    if !target_exists {
        Err(owned("target path does not exist"))
    } else if source_exists {
        Err(owned("source path still exists after removing junction"))
    } else {
        Ok(())
    }
}

/// The text that summarises the rollback of a junction move.
pub open spec fn junction_rollback_summary(restored: u64, skipped: u64) -> Seq<char> {
    "开发工具 Junction 迁移回滚：恢复 "@ + decimal(restored as nat) + " 项，跳过 "@ + decimal(skipped as nat) + " 项"@
}

/// Records the end of the rollback of junction move `operation_id` once
/// every directory has been counted: the log entry and the result.
pub fn finish_devspace_junction_rollback(operation_id: &str, rollback_id: &str, created_at_ms: u128, tally: Tally) -> (res: (
    OperationLogEntry,
    DevSpaceJunctionRollbackResult,
))
    requires
        tally.inv(),
        tally.complete(),
    ensures
        res.1.restored_count + res.1.skipped_count == tally.total(),
        res.1.failures@.len() <= res.1.skipped_count,
        res.0.id@ == rollback_id@,
        res.0.operation_type@ == "devspace-junction-migration-rollback"@,
        res.0.status@ == rollback_status(tally.failure_list().len() as int),
        res.0.created_at_ms == created_at_ms,
        !res.0.rollbackable,
        res.0.summary@ == junction_rollback_summary(tally.done(), tally.skipped()),
        res.0.details@ == rollback_details(operation_id@, tally.done(), tally.skipped(), failure_views(tally.failure_list())),
        res.1.id@ == rollback_id@,
        res.1.rollback_of@ == operation_id@,
        res.1.status@ == rollback_status(tally.failure_list().len() as int),
        res.1.restored_count == tally.done(),
        res.1.skipped_count == tally.skipped(),
        res.1.failures@ == tally.failure_list(),
{
    let status = rollback_status_string(tally.failures().len());
    let mut summary = owned("开发工具 Junction 迁移回滚：恢复 ");
    push_decimal(&mut summary, tally.done() as u128);
    push_str(&mut summary, " 项，跳过 ");
    push_decimal(&mut summary, tally.skipped() as u128);
    push_str(&mut summary, " 项");
    let details = rollback_details_json(operation_id, tally.done(), tally.skipped(), tally.failures());
    let entry = OperationLogEntry {
        id: owned(rollback_id),
        operation_type: owned("devspace-junction-migration-rollback"),
        status: owned(status.as_str()),
        created_at_ms,
        rollbackable: false,
        summary,
        details,
    };
    let result = DevSpaceJunctionRollbackResult {
        id: owned(rollback_id),
        rollback_of: owned(operation_id),
        status,
        restored_count: tally.done(),
        skipped_count: tally.skipped(),
        failures: tally.into_failures(),
    };
    (entry, result)
}

/// A junction move can be rolled back at most once: once the log holds its
/// rollback record, another rollback is refused.
pub proof fn law_junction_rollback_once(
    entries: Seq<OperationLogEntry>,
    record: OperationLogEntry,
    id: Seq<char>,
    confirmation: Seq<char>,
)
    requires
        record.operation_type@ == "devspace-junction-migration-rollback"@,
        rollback_of(record) == Some(id),
        confirmation == DEVSPACE_JUNCTION_ROLLBACK_CONFIRMATION@,
    ensures
        junction_rollback_spec(entries.push(record), id, confirmation) == Err::<Seq<(Seq<char>, Seq<char>, u64)>, Seq<char>>(
            "devspace junction migration already has a rollback record"@,
        ),
{
    let all = entries.push(record);
    assert(all.drop_last() =~= entries);
    assert(all.last() == record);
    assert(junction_rollback_types().contains("devspace-junction-migration-rollback"@)) by {
        assert(junction_rollback_types()[0] == "devspace-junction-migration-rollback"@);
    }
    let t = rollback_targets_spec(all, junction_rollback_types());
    assert(t[t.len() - 1] == id);
    assert(t.contains(id));
}


// ---------------------------------------------------------------------
// What a move records is what its rollback restores
// ---------------------------------------------------------------------

/// The record of a variable change reads back as that change.
proof fn lemma_env_change_parse(c: (Seq<char>, Option<Seq<char>>, Seq<char>, Seq<char>))
    ensures
        parse_env_change(env_change_json(c)) == Some(c),
{
    reveal_strlit("name");
    reveal_strlit("originalValue");
    reveal_strlit("newValue");
    reveal_strlit("targetPath");
    let fields = seq![
        ("name"@, Json::Str(c.0)),
        ("originalValue"@, opt_str_json(c.1)),
        ("newValue"@, Json::Str(c.2)),
        ("targetPath"@, Json::Str(c.3)),
    ];
    lemma_field_lookup_at(fields, "name"@, 0);
    assert(fields[0].0.len() != "originalValue"@.len());
    lemma_field_lookup_at(fields, "originalValue"@, 1);
    assert(fields[0].0.len() != "newValue"@.len());
    assert(fields[1].0.len() != "newValue"@.len());
    lemma_field_lookup_at(fields, "newValue"@, 2);
    assert(fields[0].0.len() != "targetPath"@.len());
    assert(fields[1].0.len() != "targetPath"@.len());
    assert(fields[2].0.len() != "targetPath"@.len());
    lemma_field_lookup_at(fields, "targetPath"@, 3);
}

/// What a move by environment variables records is what its rollback
/// restores: once its record is in the log (and it has not been rolled
/// back), a confirmed rollback of it is accepted and restores exactly the
/// planned variables, each to the value it had before.
pub proof fn law_env_record_rolls_back(
    entries: Seq<OperationLogEntry>,
    record: OperationLogEntry,
    plan: DevSpaceEnvMigrationPlan,
    changed: u64,
    skipped: u64,
    failures: Seq<(Seq<char>, Seq<char>)>,
)
    requires
        record.operation_type@ == "devspace-env-migration"@,
        record.rollbackable,
        record.details@ == env_migration_details(plan, changed, skipped, failures),
        find_entry(entries, record.id@) is None,
        !rollback_targets_spec(entries, env_rollback_types()).contains(record.id@),
    ensures
        env_rollback_spec(entries.push(record), record.id@, DEVSPACE_ENV_ROLLBACK_CONFIRMATION@) == Ok::<
            Seq<(Seq<char>, Option<Seq<char>>, Seq<char>, Seq<char>)>,
            Seq<char>,
        >(plan.variables@.map_values(|c: DevSpaceEnvVarChange| change_view(c))),
{
    reveal_strlit("devspace-env-migration");
    reveal_strlit("devspace-env-migration-rollback");
    let types = env_rollback_types();
    assert(!types.contains("devspace-env-migration"@)) by {
        assert(types[0].len() != "devspace-env-migration"@.len());
    }
    lemma_targets_push_other(entries, record, types);
    lemma_find_entry_push(entries, record);
    let all = entries.push(record);
    assert(all[entries.len() as int] == record);
    reveal_strlit("targetId");
    reveal_strlit("name");
    reveal_strlit("targetRoot");
    reveal_strlit("changedCount");
    reveal_strlit("skippedCount");
    reveal_strlit("variables");
    let jitems = plan.variables@.map_values(|c: DevSpaceEnvVarChange| env_change_json(change_view(c)));
    let fields = seq![
        ("targetId"@, Json::Str(plan.target_id@)),
        ("name"@, Json::Str(plan.name@)),
        ("targetRoot"@, Json::Str(plan.target_root@)),
        ("changedCount"@, Json::UInt(changed)),
        ("skippedCount"@, Json::UInt(skipped)),
        ("variables"@, Json::Array(jitems)),
        ("failures"@, failures_json(failures)),
    ];
    assert(record.details@ == Json::Object(fields));
    assert forall|i: int| 0 <= i < 5 implies (#[trigger] fields[i]).0 != "variables"@ by {
        assert(fields[i].0.len() != "variables"@.len());
    }
    lemma_field_lookup_at(fields, "variables"@, 5);
    assert forall|i: int| 0 <= i < jitems.len() implies (#[trigger] parse_env_change(jitems[i])) is Some by {
        lemma_env_change_parse(change_view(plan.variables@[i]));
    }
    assert(env_changes_of(jitems) =~= plan.variables@.map_values(|c: DevSpaceEnvVarChange| change_view(c))) by {
        assert forall|i: int| 0 <= i < plan.variables@.len() implies env_changes_of(jitems)[i] == change_view(
            plan.variables@[i],
        ) by {
            lemma_env_change_parse(change_view(plan.variables@[i]));
        }
    }
}

/// The record of a moved directory reads back as that directory.
proof fn lemma_moved_junction_parse(m: (Seq<char>, Seq<char>, u64))
    ensures
        parse_moved_junction(moved_junction_json(m)) == Some(m),
{
    reveal_strlit("sourcePath");
    reveal_strlit("targetPath");
    reveal_strlit("bytes");
    let fields = seq![("sourcePath"@, Json::Str(m.0)), ("targetPath"@, Json::Str(m.1)), ("bytes"@, Json::UInt(m.2))];
    lemma_field_lookup_at(fields, "sourcePath"@, 0);
    assert(fields[0].0[0] != "targetPath"@[0]);
    lemma_field_lookup_at(fields, "targetPath"@, 1);
    assert(fields[0].0.len() != "bytes"@.len());
    assert(fields[1].0.len() != "bytes"@.len());
    lemma_field_lookup_at(fields, "bytes"@, 2);
}

/// What a move by directory junctions records is what its rollback
/// restores: once the record of a move that moved something is in the log
/// (and it has not been rolled back), a confirmed rollback of it is
/// accepted and restores exactly the directories it moved, in order.
pub proof fn law_junction_record_rolls_back(
    entries: Seq<OperationLogEntry>,
    record: OperationLogEntry,
    plan: DevSpaceJunctionPlan,
    moved: u64,
    skipped: u64,
    moved_bytes: u64,
    moves: Seq<(Seq<char>, Seq<char>, u64)>,
    failures: Seq<(Seq<char>, Seq<char>)>,
)
    requires
        record.operation_type@ == "devspace-junction-migration"@,
        record.rollbackable,
        record.details@ == junction_migration_details(plan, moved, skipped, moved_bytes, moves, failures),
        find_entry(entries, record.id@) is None,
        !rollback_targets_spec(entries, junction_rollback_types()).contains(record.id@),
    ensures
        junction_rollback_spec(entries.push(record), record.id@, DEVSPACE_JUNCTION_ROLLBACK_CONFIRMATION@) == Ok::<
            Seq<(Seq<char>, Seq<char>, u64)>,
            Seq<char>,
        >(moves),
{
    reveal_strlit("devspace-junction-migration");
    reveal_strlit("devspace-junction-migration-rollback");
    let types = junction_rollback_types();
    assert(!types.contains("devspace-junction-migration"@)) by {
        assert(types[0].len() != "devspace-junction-migration"@.len());
    }
    lemma_targets_push_other(entries, record, types);
    lemma_find_entry_push(entries, record);
    let all = entries.push(record);
    assert(all[entries.len() as int] == record);
    reveal_strlit("targetId");
    reveal_strlit("name");
    reveal_strlit("targetRoot");
    reveal_strlit("movedCount");
    reveal_strlit("skippedCount");
    reveal_strlit("movedBytes");
    reveal_strlit("movedItems");
    let jitems = moves.map_values(|m: (Seq<char>, Seq<char>, u64)| moved_junction_json(m));
    let fields = seq![
        ("targetId"@, Json::Str(plan.target_id@)),
        ("name"@, Json::Str(plan.name@)),
        ("targetRoot"@, Json::Str(plan.target_root@)),
        ("movedCount"@, Json::UInt(moved)),
        ("skippedCount"@, Json::UInt(skipped)),
        ("movedBytes"@, Json::UInt(moved_bytes)),
        ("movedItems"@, Json::Array(jitems)),
        ("failures"@, failures_json(failures)),
    ];
    assert(record.details@ == Json::Object(fields));
    assert forall|i: int| 0 <= i < 6 implies (#[trigger] fields[i]).0 != "movedItems"@ by {
        assert(fields[i].0.len() != "movedItems"@.len() || fields[i].0[5] != "movedItems"@[5]);
    }
    lemma_field_lookup_at(fields, "movedItems"@, 6);
    assert forall|i: int| 0 <= i < jitems.len() implies (#[trigger] parse_moved_junction(jitems[i])) is Some by {
        lemma_moved_junction_parse(moves[i]);
    }
    assert(moved_junctions_of(jitems) =~= moves) by {
        assert forall|i: int| 0 <= i < moves.len() implies moved_junctions_of(jitems)[i] == moves[i] by {
            lemma_moved_junction_parse(moves[i]);
        }
    }
}

/// A move by environment variables is rolled back exactly once: once its
/// record is in the log (and nothing has rolled it back), a confirmed
/// rollback of it is accepted and restores the variables the plan changed,
/// in order; once the record of that rollback (as
/// [`finish_devspace_env_rollback`] builds it) is in the log too, another
/// rollback of it is refused.
pub proof fn law_env_migration_rolls_back_once(
    entries: Seq<OperationLogEntry>,
    record: OperationLogEntry,
    plan: DevSpaceEnvMigrationPlan,
    changed: u64,
    skipped: u64,
    failures: Seq<(Seq<char>, Seq<char>)>,
    rollback: OperationLogEntry,
    restored: u64,
    rollback_skipped: u64,
    rollback_failures: Seq<(Seq<char>, Seq<char>)>,
)
    requires
        record.operation_type@ == "devspace-env-migration"@,
        record.rollbackable,
        record.details@ == env_migration_details(plan, changed, skipped, failures),
        find_entry(entries, record.id@) is None,
        !rollback_targets_spec(entries, env_rollback_types()).contains(record.id@),
        rollback.operation_type@ == "devspace-env-migration-rollback"@,
        rollback.details@ == rollback_details(record.id@, restored, rollback_skipped, rollback_failures),
    ensures
        env_rollback_spec(entries.push(record), record.id@, DEVSPACE_ENV_ROLLBACK_CONFIRMATION@) == Ok::<
            Seq<(Seq<char>, Option<Seq<char>>, Seq<char>, Seq<char>)>,
            Seq<char>,
        >(plan.variables@.map_values(|c: DevSpaceEnvVarChange| change_view(c))),
        env_rollback_spec(entries.push(record).push(rollback), record.id@, DEVSPACE_ENV_ROLLBACK_CONFIRMATION@) == Err::<
            Seq<(Seq<char>, Option<Seq<char>>, Seq<char>, Seq<char>)>,
            Seq<char>,
        >("devspace env migration already has a rollback record"@),
{
    law_env_record_rolls_back(entries, record, plan, changed, skipped, failures);
    law_rollback_record_names_operation(record.id@, restored, rollback_skipped, rollback_failures);
    law_env_rollback_once(entries.push(record), rollback, record.id@, DEVSPACE_ENV_ROLLBACK_CONFIRMATION@);
}

/// A move by directory junctions is rolled back exactly once: once its
/// record is in the log (and nothing has rolled it back), a confirmed
/// rollback of it is accepted and restores exactly the directories it
/// moved, in order; once the record of that rollback (as
/// [`finish_devspace_junction_rollback`] builds it) is in the log too,
/// another rollback of it is refused.
pub proof fn law_junction_migration_rolls_back_once(
    entries: Seq<OperationLogEntry>,
    record: OperationLogEntry,
    plan: DevSpaceJunctionPlan,
    moved: u64,
    skipped: u64,
    moved_bytes: u64,
    moves: Seq<(Seq<char>, Seq<char>, u64)>,
    failures: Seq<(Seq<char>, Seq<char>)>,
    rollback: OperationLogEntry,
    restored: u64,
    rollback_skipped: u64,
    rollback_failures: Seq<(Seq<char>, Seq<char>)>,
)
    requires
        record.operation_type@ == "devspace-junction-migration"@,
        record.rollbackable,
        record.details@ == junction_migration_details(plan, moved, skipped, moved_bytes, moves, failures),
        find_entry(entries, record.id@) is None,
        !rollback_targets_spec(entries, junction_rollback_types()).contains(record.id@),
        rollback.operation_type@ == "devspace-junction-migration-rollback"@,
        rollback.details@ == rollback_details(record.id@, restored, rollback_skipped, rollback_failures),
    ensures
        junction_rollback_spec(entries.push(record), record.id@, DEVSPACE_JUNCTION_ROLLBACK_CONFIRMATION@) == Ok::<
            Seq<(Seq<char>, Seq<char>, u64)>,
            Seq<char>,
        >(moves),
        junction_rollback_spec(entries.push(record).push(rollback), record.id@, DEVSPACE_JUNCTION_ROLLBACK_CONFIRMATION@)
            == Err::<Seq<(Seq<char>, Seq<char>, u64)>, Seq<char>>(
            "devspace junction migration already has a rollback record"@,
        ),
{
    law_junction_record_rolls_back(entries, record, plan, moved, skipped, moved_bytes, moves, failures);
    law_rollback_record_names_operation(record.id@, restored, rollback_skipped, rollback_failures);
    law_junction_rollback_once(entries.push(record), rollback, record.id@, DEVSPACE_JUNCTION_ROLLBACK_CONFIRMATION@);
}

} // verus!
