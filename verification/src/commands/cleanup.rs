//! Cleanup: the preview of what the cleanup rules would free, the plan
//! draft, and the decisions of the quarantine cleanup, which moves the
//! user's temporary files aside instead of deleting them.
use vstd::prelude::*;
use crate::commands::failures::{
    byte_sum, capped, failure, failure_views, failures_json, failures_to_json, lemma_capped_push, PathFailure, Tally,
};
use crate::commands::logs::{
    law_quarantine_rollback_once, law_rollback_record_names_operation, pairs_of, parse_moved_pair, quarantine_rollback_spec,
    rollback_details, rollback_types, ROLLBACK_CONFIRMATION,
};
use crate::commands::migration::opt_view;
use crate::commands::scan::{paths_fit, rule_outcomes_ok, some_cancelled, RuleScanOutcome};
use crate::commands::tasks::{clear_task_cancel, is_task_cancelled, CancelRegistry};
use crate::json::{
    json_opt_str, lemma_field_lookup_at, lemma_view_items_push, opt_str_json, view_fields, view_items, Json, JsonValue, ObjectBuilder,
};
use crate::native::paths::{join_path, join_path_str};
use crate::native::rules::{CleanupRule, RuleCatalog};
use crate::native::scan::{bytes_sum, files_sum, scan_totals, skipped_sum, PathScanSummary};
use crate::storage::logs::{
    find_entry, lemma_find_entry_push, lemma_targets_push_other, rollback_targets_spec, OperationLogEntry,
};
use crate::text::{
    contains_seq, contains_str, decimal, ends_with, is_prefix_of, is_suffix_of, owned, push_char, push_decimal,
    push_str, starts_with, str_eq,
};

verus! {

/// The cleanup rule the quarantine cleanup applies.
pub const TEMP_USER_RULE_ID: &'static str = "temp-user";

/// The word that confirms a quarantine cleanup.
pub const QUARANTINE_CONFIRMATION: &'static str = "MOVE_TO_QUARANTINE";

/// The task name of the quarantine cleanup.
pub const QUARANTINE_TASK: &'static str = "cleanup-quarantine";

/// The task name of the cleanup preview.
pub const PREVIEW_TASK: &'static str = "cleanup-preview";

/// A failure of the quarantine cleanup.
pub type CleanupFailure = PathFailure;

/// What one cleanup rule would free.
pub struct CleanupPreviewItem {
    pub id: String,
    pub name: String,
    pub risk: String,
    pub action: String,
    pub estimated_bytes: u64,
    pub file_count: u64,
    pub skipped_count: u64,
    pub paths: Vec<PathScanSummary>,
}

/// What all cleanup rules would free.
pub struct CleanupPreview {
    pub estimated_bytes: u64,
    pub file_count: u64,
    pub skipped_count: u64,
    pub requires_confirmation: bool,
    pub executable: bool,
    pub items: Vec<CleanupPreviewItem>,
}

/// A recorded, not executable, cleanup plan.
pub struct CleanupPlanDraft {
    pub id: String,
    pub status: String,
    pub executable: bool,
    pub estimated_bytes: u64,
    pub file_count: u64,
    pub skipped_count: u64,
    pub summary: String,
}

/// The outcome of a quarantine cleanup.
pub struct QuarantineCleanupResult {
    pub id: String,
    pub status: String,
    pub moved_count: u64,
    pub skipped_count: u64,
    pub moved_bytes: u64,
    pub quarantine_path: String,
    pub failures: Vec<CleanupFailure>,
}

/// An item moved into quarantine.
pub struct MovedQuarantineItem {
    pub original_path: String,
    pub quarantine_path: String,
    pub bytes: u64,
}

/// The optional counts of a cleanup progress event.
pub struct CleanupProgressStats {
    pub processed_items: Option<u64>,
    pub moved_count: Option<u64>,
    pub skipped_count: Option<u64>,
    pub processed_bytes: Option<u64>,
    pub failure_count: Option<u64>,
    pub scanned_files: Option<u64>,
    pub scanned_dirs: Option<u64>,
    pub scanned_bytes: Option<u64>,
    pub current_path: Option<String>,
    pub current_file_path: Option<String>,
    pub current_file_bytes: Option<u64>,
    pub current_file_total_bytes: Option<u64>,
}

/// The progress of a cleanup task.
pub struct CleanupTaskProgressEvent {
    pub task: String,
    pub current: u64,
    pub total: u64,
    pub label: String,
    pub status: String,
    pub processed_items: Option<u64>,
    pub moved_count: Option<u64>,
    pub skipped_count: Option<u64>,
    pub processed_bytes: Option<u64>,
    pub failure_count: Option<u64>,
    pub scanned_files: Option<u64>,
    pub scanned_dirs: Option<u64>,
    pub scanned_bytes: Option<u64>,
    pub current_path: Option<String>,
    pub current_file_path: Option<String>,
    pub current_file_bytes: Option<u64>,
    pub current_file_total_bytes: Option<u64>,
}

/// No counts at all.
pub open spec fn no_stats(s: CleanupProgressStats) -> bool {
    &&& s.processed_items is None
    &&& s.moved_count is None
    &&& s.skipped_count is None
    &&& s.processed_bytes is None
    &&& s.failure_count is None
    &&& s.scanned_files is None
    &&& s.scanned_dirs is None
    &&& s.scanned_bytes is None
    &&& s.current_path is None
    &&& s.current_file_path is None
    &&& s.current_file_bytes is None
    &&& s.current_file_total_bytes is None
}

impl CleanupProgressStats {
    /// No counts.
    pub fn none() -> (s: CleanupProgressStats)
        ensures
            no_stats(s),
    {
        CleanupProgressStats {
            processed_items: None,
            moved_count: None,
            skipped_count: None,
            processed_bytes: None,
            failure_count: None,
            scanned_files: None,
            scanned_dirs: None,
            scanned_bytes: None,
            current_path: None,
            current_file_path: None,
            current_file_bytes: None,
            current_file_total_bytes: None,
        }
    }
}

/// A progress event of cleanup task `task`.
pub fn cleanup_progress_event(
    task: &str,
    current: u64,
    total: u64,
    label: String,
    status: &str,
    stats: CleanupProgressStats,
) -> (ev: CleanupTaskProgressEvent)
    ensures
        ev.task@ == task@,
        ev.current == current,
        ev.total == total,
        ev.label == label,
        ev.status@ == status@,
        ev.processed_items == stats.processed_items,
        ev.moved_count == stats.moved_count,
        ev.skipped_count == stats.skipped_count,
        ev.processed_bytes == stats.processed_bytes,
        ev.failure_count == stats.failure_count,
        ev.scanned_files == stats.scanned_files,
        ev.scanned_dirs == stats.scanned_dirs,
        ev.scanned_bytes == stats.scanned_bytes,
        ev.current_path == stats.current_path,
        ev.current_file_path == stats.current_file_path,
        ev.current_file_bytes == stats.current_file_bytes,
        ev.current_file_total_bytes == stats.current_file_total_bytes,
{
    CleanupTaskProgressEvent {
        task: owned(task),
        current,
        total,
        label,
        status: owned(status),
        processed_items: stats.processed_items,
        moved_count: stats.moved_count,
        skipped_count: stats.skipped_count,
        processed_bytes: stats.processed_bytes,
        failure_count: stats.failure_count,
        scanned_files: stats.scanned_files,
        scanned_dirs: stats.scanned_dirs,
        scanned_bytes: stats.scanned_bytes,
        current_path: stats.current_path,
        current_file_path: stats.current_file_path,
        current_file_bytes: stats.current_file_bytes,
        current_file_total_bytes: stats.current_file_total_bytes,
    }
}

// ---------------------------------------------------------------------
// Preview and plan draft
// ---------------------------------------------------------------------

/// What cleanup rule `rule` would free, from the scans of its paths
/// (`build_cleanup_preview`, for one rule).
pub fn cleanup_preview_item(rule: &CleanupRule, paths: Vec<PathScanSummary>) -> (item: CleanupPreviewItem)
    requires
        bytes_sum(paths@) <= u64::MAX,
        files_sum(paths@) <= u64::MAX,
        skipped_sum(paths@) <= u64::MAX,
    ensures
        item.id@ == rule.id@,
        item.name@ == rule.name@,
        item.risk@ == rule.risk@,
        item.action@ == rule.action@,
        item.estimated_bytes == bytes_sum(paths@),
        item.file_count == files_sum(paths@),
        item.skipped_count == skipped_sum(paths@),
        item.paths == paths,
{
    let (estimated_bytes, file_count, skipped_count, _) = scan_totals(&paths);
    CleanupPreviewItem {
        id: owned(rule.id.as_str()),
        name: owned(rule.name.as_str()),
        risk: owned(rule.risk.as_str()),
        action: owned(rule.action.as_str()),
        estimated_bytes,
        file_count,
        skipped_count,
        paths,
    }
}

/// `item` is what the scan of `rule` found at the paths of `outcome`.
pub open spec fn preview_item_of(item: CleanupPreviewItem, rule: CleanupRule, outcome: RuleScanOutcome) -> bool {
    match outcome {
        RuleScanOutcome::Scanned(p) => {
            &&& item.id@ == rule.id@
            &&& item.name@ == rule.name@
            &&& item.risk@ == rule.risk@
            &&& item.action@ == rule.action@
            &&& item.estimated_bytes == bytes_sum(p@)
            &&& item.file_count == files_sum(p@)
            &&& item.skipped_count == skipped_sum(p@)
            &&& item.paths == p
        },
        RuleScanOutcome::Cancelled => false,
    }
}

/// The items of the cleanup preview, once each rule was scanned in order
/// or a cancellation request stopped the task: a cancelled preview fails
/// with `"cleanup-preview cancelled"`, else there is one item per rule
/// (see [`build_cleanup_preview`] for their totals). Either way the task's
/// cancellation request is cleared on return. Nothing is moved or deleted.
pub fn cleanup_preview_items(
    registry: &mut CancelRegistry,
    rules: &Vec<CleanupRule>,
    outcomes: Vec<RuleScanOutcome>,
) -> (res: Result<Vec<CleanupPreviewItem>, String>)
    requires
        rule_outcomes_ok(rules@, outcomes@),
    ensures
        final(registry)@ == old(registry)@.remove(PREVIEW_TASK@),
        some_cancelled(outcomes@) ==> (res matches Err(e) && e@ == PREVIEW_TASK@ + " cancelled"@),
        !some_cancelled(outcomes@) ==> (res matches Ok(items) && items@.len() == rules@.len() && forall|i: int|
            0 <= i < items@.len() ==> preview_item_of(#[trigger] items@[i], rules@[i], outcomes@[i])),
{
    let ghost all = outcomes@;
    clear_task_cancel(registry, PREVIEW_TASK);
    let mut rest = outcomes;
    let mut items: Vec<CleanupPreviewItem> = Vec::new();
    let mut cancelled = false;
    let mut i: usize = 0;
    let n = rules.len();
    while rest.len() > 0 && !cancelled
        invariant
            n == rules@.len(),
            rule_outcomes_ok(rules@, all),
            i <= all.len(),
            !cancelled ==> rest@ == all.subrange(i as int, all.len() as int),
            items@.len() == i,
            cancelled ==> some_cancelled(all),
            forall|k: int| 0 <= k < i ==> preview_item_of(#[trigger] items@[k], rules@[k], all[k]),
        decreases rest.len(),
    {
        let ghost before = rest@;
        assert(i < all.len() && all.len() <= n);
        let o = rest.remove(0);
        proof {
            assert(before[0] == all[i as int]);
            assert(rest@ =~= all.subrange(i + 1, all.len() as int));
        }
        match o {
            RuleScanOutcome::Cancelled => {
                assert(all[i as int] is Cancelled);
                cancelled = true;
            },
            RuleScanOutcome::Scanned(paths) => {
                assert(paths_fit(paths@));
                let item = cleanup_preview_item(&rules[i], paths);
                items.push(item);
                i = i + 1;
            },
        }
    }
    if cancelled {
        let mut msg = owned(PREVIEW_TASK);
        push_str(&mut msg, " cancelled");
        return Err(msg);
    }
    assert(i == all.len());
    assert(!some_cancelled(all)) by {
        if some_cancelled(all) {
            let k = choose|k: int| 0 <= k < all.len() && #[trigger] all[k] is Cancelled;
            assert(preview_item_of(items@[k], rules@[k], all[k]));
        }
    }
    Ok(items)
}

/// The estimated bytes of the items.
pub open spec fn items_bytes(items: Seq<CleanupPreviewItem>) -> int
    decreases items.len(),
{
    if items.len() == 0 {
        0
    } else {
        items_bytes(items.drop_last()) + items.last().estimated_bytes
    }
}

/// The file counts of the items.
pub open spec fn items_files(items: Seq<CleanupPreviewItem>) -> int
    decreases items.len(),
{
    if items.len() == 0 {
        0
    } else {
        items_files(items.drop_last()) + items.last().file_count
    }
}

/// The skipped counts of the items.
pub open spec fn items_skipped(items: Seq<CleanupPreviewItem>) -> int
    decreases items.len(),
{
    if items.len() == 0 {
        0
    } else {
        items_skipped(items.drop_last()) + items.last().skipped_count
    }
}

proof fn lemma_items_monotone(items: Seq<CleanupPreviewItem>, i: int)
    requires
        0 <= i <= items.len(),
    ensures
        0 <= items_bytes(items.subrange(0, i)) <= items_bytes(items),
        0 <= items_files(items.subrange(0, i)) <= items_files(items),
        0 <= items_skipped(items.subrange(0, i)) <= items_skipped(items),
    decreases items.len(),
{
    if i == items.len() {
        assert(items.subrange(0, i) =~= items);
        if items.len() > 0 {
            lemma_items_monotone(items.drop_last(), items.len() - 1);
            assert(items.drop_last().subrange(0, items.len() - 1) =~= items.drop_last());
        }
    } else {
        lemma_items_monotone(items.drop_last(), i);
        assert(items.drop_last().subrange(0, i) =~= items.subrange(0, i));
    }
}

/// Whether the totals of the preview items fit in 64 bits, as
/// [`build_cleanup_preview`] needs.
pub fn items_fit(items: &Vec<CleanupPreviewItem>) -> (r: bool)
    ensures
        r == (items_bytes(items@) <= u64::MAX && items_files(items@) <= u64::MAX && items_skipped(items@) <= u64::MAX),
{
    let mut bytes: u128 = 0;
    let mut files: u128 = 0;
    let mut skipped: u128 = 0;
    let mut i: usize = 0;
    while i < items.len()
        invariant
            i <= items.len(),
            bytes == items_bytes(items@.subrange(0, i as int)),
            files == items_files(items@.subrange(0, i as int)),
            skipped == items_skipped(items@.subrange(0, i as int)),
            bytes <= i * 0xFFFF_FFFF_FFFF_FFFFu128,
            files <= i * 0xFFFF_FFFF_FFFF_FFFFu128,
            skipped <= i * 0xFFFF_FFFF_FFFF_FFFFu128,
        decreases items.len() - i,
    {
        proof {
            assert(items@.subrange(0, i + 1).drop_last() =~= items@.subrange(0, i as int));
            assert(items@.subrange(0, i + 1).last() == items@[i as int]);
        }
        bytes = bytes + items[i].estimated_bytes as u128;
        files = files + items[i].file_count as u128;
        skipped = skipped + items[i].skipped_count as u128;
        i = i + 1;
    }
    proof {
        assert(items@.subrange(0, items@.len() as int) =~= items@);
    }
    bytes <= 0xFFFF_FFFF_FFFF_FFFFu128 && files <= 0xFFFF_FFFF_FFFF_FFFFu128 && skipped <= 0xFFFF_FFFF_FFFF_FFFFu128
}

/// The preview of all cleanup rules (`build_cleanup_preview`): the totals
/// of the items; a preview always asks for confirmation and is never
/// executable.
pub fn build_cleanup_preview(items: Vec<CleanupPreviewItem>) -> (p: CleanupPreview)
    requires
        items_bytes(items@) <= u64::MAX,
        items_files(items@) <= u64::MAX,
        items_skipped(items@) <= u64::MAX,
    ensures
        p.estimated_bytes == items_bytes(items@),
        p.file_count == items_files(items@),
        p.skipped_count == items_skipped(items@),
        p.requires_confirmation,
        !p.executable,
        p.items == items,
{
    let mut bytes: u64 = 0;
    let mut files: u64 = 0;
    let mut skipped: u64 = 0;
    let mut i: usize = 0;
    while i < items.len()
        invariant
            i <= items.len(),
            items_bytes(items@) <= u64::MAX,
            items_files(items@) <= u64::MAX,
            items_skipped(items@) <= u64::MAX,
            bytes == items_bytes(items@.subrange(0, i as int)),
            files == items_files(items@.subrange(0, i as int)),
            skipped == items_skipped(items@.subrange(0, i as int)),
        decreases items.len() - i,
    {
        proof {
            lemma_items_monotone(items@, i + 1);
            assert(items@.subrange(0, i + 1).drop_last() =~= items@.subrange(0, i as int));
        }
        bytes = bytes + items[i].estimated_bytes;
        files = files + items[i].file_count;
        skipped = skipped + items[i].skipped_count;
        i = i + 1;
    }
    assert(items@.subrange(0, items@.len() as int) =~= items@);
    CleanupPreview {
        estimated_bytes: bytes,
        file_count: files,
        skipped_count: skipped,
        requires_confirmation: true,
        executable: false,
        items,
    }
}

/// The record of the scan of one path.
pub open spec fn summary_json(s: PathScanSummary) -> Json {
    Json::Object(
        seq![
            ("rawPath"@, Json::Str(s.raw_path@)),
            ("resolvedPath"@, Json::Str(s.resolved_path@)),
            ("exists"@, Json::Bool(s.exists)),
            ("accessible"@, Json::Bool(s.accessible)),
            ("fileCount"@, Json::UInt(s.file_count)),
            ("dirCount"@, Json::UInt(s.dir_count)),
            ("totalBytes"@, Json::UInt(s.total_bytes)),
            ("skippedCount"@, Json::UInt(s.skipped_count)),
            ("error"@, opt_str_json(opt_view(s.error))),
        ],
    )
}

/// The record of one preview item.
pub open spec fn preview_item_json(i: CleanupPreviewItem) -> Json {
    Json::Object(
        seq![
            ("id"@, Json::Str(i.id@)),
            ("name"@, Json::Str(i.name@)),
            ("risk"@, Json::Str(i.risk@)),
            ("action"@, Json::Str(i.action@)),
            ("estimatedBytes"@, Json::UInt(i.estimated_bytes)),
            ("fileCount"@, Json::UInt(i.file_count)),
            ("skippedCount"@, Json::UInt(i.skipped_count)),
            ("paths"@, Json::Array(i.paths@.map_values(|s: PathScanSummary| summary_json(s)))),
        ],
    )
}

/// The details recorded with a plan draft.
pub open spec fn draft_details(p: CleanupPreview) -> Json {
    Json::Object(
        seq![
            ("estimatedBytes"@, Json::UInt(p.estimated_bytes)),
            ("fileCount"@, Json::UInt(p.file_count)),
            ("skippedCount"@, Json::UInt(p.skipped_count)),
            ("requiresConfirmation"@, Json::Bool(p.requires_confirmation)),
            ("executable"@, Json::Bool(p.executable)),
            ("items"@, Json::Array(p.items@.map_values(|i: CleanupPreviewItem| preview_item_json(i)))),
        ],
    )
}

/// The record of the scan of one path.
pub fn summary_to_json(s: &PathScanSummary) -> (v: JsonValue)
    ensures
        v@ == summary_json(*s),
{
    let mut b = ObjectBuilder::new();
    b.str_field("rawPath", s.raw_path.as_str());
    b.str_field("resolvedPath", s.resolved_path.as_str());
    b.bool_field("exists", s.exists);
    b.bool_field("accessible", s.accessible);
    b.uint_field("fileCount", s.file_count);
    b.uint_field("dirCount", s.dir_count);
    b.uint_field("totalBytes", s.total_bytes);
    b.uint_field("skippedCount", s.skipped_count);
    b.field("error", json_opt_str(&s.error));
    proof {
        assert(view_fields(b.fields@) =~= match summary_json(*s) {
            Json::Object(f) => f,
            _ => Seq::empty(),
        });
    }
    b.build()
}

/// The records of the scans of a list of paths.
pub fn summaries_to_json(paths: &Vec<PathScanSummary>) -> (v: JsonValue)
    ensures
        v@ == Json::Array(paths@.map_values(|s: PathScanSummary| summary_json(s))),
{
    let mut out: Vec<JsonValue> = Vec::new();
    let mut i: usize = 0;
    while i < paths.len()
        invariant
            i <= paths.len(),
            view_items(out@) == paths@.subrange(0, i as int).map_values(|s: PathScanSummary| summary_json(s)),
        decreases paths.len() - i,
    {
        let x = summary_to_json(&paths[i]);
        proof {
            lemma_view_items_push(out@, x);
            assert(paths@.subrange(0, i + 1).map_values(|s: PathScanSummary| summary_json(s)) =~= paths@.subrange(
                0,
                i as int,
            ).map_values(|s: PathScanSummary| summary_json(s)).push(summary_json(paths@[i as int])));
        }
        out.push(x);
        i = i + 1;
    }
    assert(paths@.subrange(0, paths@.len() as int) =~= paths@);
    JsonValue::Array(out)
}

/// The record of one preview item.
pub fn preview_item_to_json(item: &CleanupPreviewItem) -> (v: JsonValue)
    ensures
        v@ == preview_item_json(*item),
{
    let mut b = ObjectBuilder::new();
    b.str_field("id", item.id.as_str());
    b.str_field("name", item.name.as_str());
    b.str_field("risk", item.risk.as_str());
    b.str_field("action", item.action.as_str());
    b.uint_field("estimatedBytes", item.estimated_bytes);
    b.uint_field("fileCount", item.file_count);
    b.uint_field("skippedCount", item.skipped_count);
    b.field("paths", summaries_to_json(&item.paths));
    proof {
        assert(view_fields(b.fields@) =~= match preview_item_json(*item) {
            Json::Object(f) => f,
            _ => Seq::empty(),
        });
    }
    b.build()
}

/// The records of the preview items.
pub fn preview_items_to_json(items: &Vec<CleanupPreviewItem>) -> (v: JsonValue)
    ensures
        v@ == Json::Array(items@.map_values(|i: CleanupPreviewItem| preview_item_json(i))),
{
    let mut out: Vec<JsonValue> = Vec::new();
    let mut i: usize = 0;
    while i < items.len()
        invariant
            i <= items.len(),
            view_items(out@) == items@.subrange(0, i as int).map_values(|x: CleanupPreviewItem| preview_item_json(x)),
        decreases items.len() - i,
    {
        let x = preview_item_to_json(&items[i]);
        proof {
            lemma_view_items_push(out@, x);
            assert(items@.subrange(0, i + 1).map_values(|x: CleanupPreviewItem| preview_item_json(x)) =~= items@.subrange(
                0,
                i as int,
            ).map_values(|x: CleanupPreviewItem| preview_item_json(x)).push(preview_item_json(items@[i as int])));
        }
        out.push(x);
        i = i + 1;
    }
    assert(items@.subrange(0, items@.len() as int) =~= items@);
    JsonValue::Array(out)
}

/// The text that summarises a plan draft.
pub open spec fn draft_summary(files: u64, bytes: u64) -> Seq<char> {
    "清理预览草稿："@ + decimal(files as nat) + " 个文件，预计释放 "@ + decimal(bytes as nat) + " 字节"@
}

/// A plan draft from a preview (`create_cleanup_plan_draft`): it is
/// recorded as planned and is never executable.
pub fn create_cleanup_plan_draft(operation_id: &str, created_at_ms: u128, preview: &CleanupPreview) -> (res: (
    CleanupPlanDraft,
    OperationLogEntry,
))
    ensures
        res.0.id@ == operation_id@,
        res.0.status@ == "planned"@,
        !res.0.executable,
        res.0.estimated_bytes == preview.estimated_bytes,
        res.0.file_count == preview.file_count,
        res.0.skipped_count == preview.skipped_count,
        res.0.summary@ == draft_summary(preview.file_count, preview.estimated_bytes),
        res.1.id@ == operation_id@,
        res.1.operation_type@ == "cleanup-plan"@,
        res.1.status@ == "planned"@,
        res.1.created_at_ms == created_at_ms,
        !res.1.rollbackable,
        res.1.summary@ == draft_summary(preview.file_count, preview.estimated_bytes),
        res.1.details@ == draft_details(*preview),
{
    let mut summary = owned("清理预览草稿：");
    push_decimal(&mut summary, preview.file_count as u128);
    push_str(&mut summary, " 个文件，预计释放 ");
    push_decimal(&mut summary, preview.estimated_bytes as u128);
    push_str(&mut summary, " 字节");
    let mut b = ObjectBuilder::new();
    b.uint_field("estimatedBytes", preview.estimated_bytes);
    b.uint_field("fileCount", preview.file_count);
    b.uint_field("skippedCount", preview.skipped_count);
    b.bool_field("requiresConfirmation", preview.requires_confirmation);
    b.bool_field("executable", preview.executable);
    b.field("items", preview_items_to_json(&preview.items));
    proof {
        assert(view_fields(b.fields@) =~= match draft_details(*preview) {
            Json::Object(f) => f,
            _ => Seq::empty(),
        });
    }
    let details = b.build();
    let entry = OperationLogEntry {
        id: owned(operation_id),
        operation_type: owned("cleanup-plan"),
        status: owned("planned"),
        created_at_ms,
        rollbackable: false,
        summary: owned(summary.as_str()),
        details,
    };
    let draft = CleanupPlanDraft {
        id: owned(operation_id),
        status: owned("planned"),
        executable: false,
        estimated_bytes: preview.estimated_bytes,
        file_count: preview.file_count,
        skipped_count: preview.skipped_count,
        summary,
    };
    (draft, entry)
}


// ---------------------------------------------------------------------
// Quarantine cleanup
// ---------------------------------------------------------------------

/// Checks the confirmation word of a quarantine cleanup.
pub fn check_quarantine_confirmation(confirmation: &str) -> (res: Result<(), String>)
    ensures
        match res {
            Ok(()) => confirmation@ == QUARANTINE_CONFIRMATION@,
            Err(e) => confirmation@ != QUARANTINE_CONFIRMATION@ && e@ == "invalid cleanup confirmation"@,
        },
{
    if str_eq(confirmation, QUARANTINE_CONFIRMATION) {
        Ok(())
    } else {
        Err(owned("invalid cleanup confirmation"))
    }
}

/// The position of the first cleanup rule whose identifier is `id`.
pub open spec fn find_cleanup(rules: Seq<CleanupRule>, id: Seq<char>) -> Option<int>
    decreases rules.len(),
{
    if rules.len() == 0 {
        None
    } else if rules[0].id@ == id {
        Some(0)
    } else {
        match find_cleanup(rules.drop_first(), id) {
            Some(k) => Some(k + 1),
            None => None,
        }
    }
}

/// A rule may be applied by the quarantine cleanup: it is safe and deletes.
pub open spec fn quarantine_eligible(rule: CleanupRule) -> bool {
    rule.risk@ == "safe"@ && rule.action@ == "delete"@
}

/// The rule the quarantine cleanup applies, or why there is none
/// (before anything is moved).
pub fn select_quarantine_rule(catalog: &RuleCatalog) -> (res: Result<usize, String>)
    ensures
        match res {
            Ok(k) => find_cleanup(catalog.cleanup@, TEMP_USER_RULE_ID@) == Some(k as int) && k < catalog.cleanup@.len()
                && quarantine_eligible(catalog.cleanup@[k as int]),
            Err(e) => match find_cleanup(catalog.cleanup@, TEMP_USER_RULE_ID@) {
                None => e@ == "temp-user cleanup rule not found"@,
                Some(k) => 0 <= k < catalog.cleanup@.len() && !quarantine_eligible(catalog.cleanup@[k])
                    && e@ == "temp-user rule is not eligible for quarantine cleanup"@,
            },
        },
{
    let rules = &catalog.cleanup;
    let mut i: usize = 0;
    assert(rules@.subrange(0, rules@.len() as int) =~= rules@);
    while i < rules.len()
        invariant
            rules@ == catalog.cleanup@,
            i <= rules.len(),
            find_cleanup(rules@, TEMP_USER_RULE_ID@) == match find_cleanup(rules@.subrange(i as int, rules@.len() as int), TEMP_USER_RULE_ID@) {
                Some(k) => Some(k + i),
                None => None::<int>,
            },
        decreases rules.len() - i,
    {
        let ghost rest = rules@.subrange(i as int, rules@.len() as int);
        proof {
            assert(rest.drop_first() =~= rules@.subrange(i + 1, rules@.len() as int));
            assert(rest[0] == rules@[i as int]);
        }
        if str_eq(rules[i].id.as_str(), TEMP_USER_RULE_ID) {
            if str_eq(rules[i].risk.as_str(), "safe") && str_eq(rules[i].action.as_str(), "delete") {
                return Ok(i);
            } else {
                return Err(owned("temp-user rule is not eligible for quarantine cleanup"));
            }
        }
        i = i + 1;
    }
    proof {
        assert(rules@.subrange(i as int, rules@.len() as int) =~= Seq::<CleanupRule>::empty());
    }
    Err(owned("temp-user cleanup rule not found"))
}

/// Where the items of quarantine cleanup `operation_id` are kept:
/// `<data dir>\quarantine\<operation>`.
pub fn quarantine_dir_path(data_dir: &str, operation_id: &str) -> (res: String)
    ensures
        res@ == join_path(join_path(data_dir@, "quarantine"@), operation_id@),
{
    let q = join_path_str(data_dir, "quarantine");
    join_path_str(q.as_str(), operation_id)
}

/// File name `name` matches exclusion pattern `pattern`: a pattern `*.ext`
/// matches names ending in `.ext`; any other pattern matches itself.
pub open spec fn matches_pattern(name: Seq<char>, pattern: Seq<char>) -> bool {
    if is_prefix_of("*."@, pattern) {
        is_suffix_of(pattern.skip(1), name)
    } else {
        name == pattern
    }
}

/// File name `name` matches one of the exclusion patterns.
pub open spec fn is_excluded_spec(name: Seq<char>, exclude: Seq<Seq<char>>) -> bool {
    exists|i: int| 0 <= i < exclude.len() && matches_pattern(name, #[trigger] exclude[i])
}

fn matches_one(name: &str, pattern: &str) -> (r: bool)
    ensures
        r == matches_pattern(name@, pattern@),
{
    if starts_with(pattern, "*.") {
        proof {
            reveal_strlit("*.");
        }
        let v = crate::text::chars_of(pattern);
        let tail = crate::native::paths::substring(&v, 1, v.len());
        assert(tail@ =~= pattern@.skip(1));
        ends_with(name, tail.as_str())
    } else {
        str_eq(name, pattern)
    }
}

/// Whether file name `file_name` is excluded from the cleanup
/// (`is_excluded`).
pub fn is_excluded(file_name: &str, exclude: &Vec<String>) -> (r: bool)
    ensures
        r == is_excluded_spec(file_name@, crate::text::views(exclude@)),
{
    let ghost pats = crate::text::views(exclude@);
    let mut i: usize = 0;
    while i < exclude.len()
        invariant
            pats == crate::text::views(exclude@),
            i <= exclude.len(),
            forall|k: int| 0 <= k < i ==> !matches_pattern(file_name@, #[trigger] pats[k]),
        decreases exclude.len() - i,
    {
        if matches_one(file_name, exclude[i].as_str()) {
            assert(pats[i as int] == exclude@[i as int]@);
            return true;
        }
        assert(pats[i as int] == exclude@[i as int]@);
        i = i + 1;
    }
    false
}

/// Whether a directory entry is moved into quarantine: it has a file name
/// and the name is not excluded.
pub fn should_quarantine(file_name: Option<&str>, exclude: &Vec<String>) -> (r: bool)
    ensures
        r == match file_name {
            Some(n) => !is_excluded_spec(n@, crate::text::views(exclude@)),
            None => false,
        },
{
    match file_name {
        Some(n) => !is_excluded(n, exclude),
        None => false,
    }
}

/// The `index`-th place tried for an item named `name` in the quarantine
/// directory `base`: `base\name`, then `base\1-name`, `base\2-name`, ...
pub open spec fn destination_spec(base: Seq<char>, name: Seq<char>, index: u64) -> Seq<char> {
    if index == 0 {
        join_path(base, name)
    } else {
        join_path(base, decimal(index as nat) + seq!['-'] + name)
    }
}

/// The `index`-th place tried for an item (one try).
pub fn destination_candidate(base: &str, name: &str, index: u64) -> (res: String)
    ensures
        res@ == destination_spec(base@, name@, index),
{
    if index == 0 {
        join_path_str(base, name)
    } else {
        let mut seg = String::new();
        push_decimal(&mut seg, index as u128);
        push_char(&mut seg, '-');
        push_str(&mut seg, name);
        assert(seg@ =~= decimal(index as nat) + seq!['-'] + name@);
        join_path_str(base, seg.as_str())
    }
}

/// Checks whether the quarantine cleanup has been cancelled
/// (`check_quarantine_cancel`).
pub fn check_quarantine_cancel(registry: &CancelRegistry) -> (res: Result<(), String>)
    ensures
        match res {
            Ok(()) => !registry@.contains(QUARANTINE_TASK@),
            Err(e) => registry@.contains(QUARANTINE_TASK@) && e@ == "cleanup-quarantine cancelled"@,
        },
{
    if is_task_cancelled(registry, QUARANTINE_TASK) {
        Err(owned("cleanup-quarantine cancelled"))
    } else {
        Ok(())
    }
}

/// The running state of a quarantine cleanup: the tally of the entries
/// announced so far, the items moved and the bytes they carried. Every
/// moved item is counted as done, and the bytes moved are the sum of the
/// moved items' bytes, capped at `u64::MAX`.
pub struct QuarantineRun {
    tally: Tally,
    moved_bytes: u64,
    moved_items: Vec<MovedQuarantineItem>,
}

/// `a + b`, capped at `u64::MAX`.
pub open spec fn sat_sum(a: u64, b: u64) -> u64 {
    if a + b > u64::MAX {
        u64::MAX
    } else {
        (a + b) as u64
    }
}

/// The byte counts of items moved into quarantine.
pub open spec fn quarantine_bytes_of(items: Seq<MovedQuarantineItem>) -> Seq<u64> {
    items.map_values(|m: MovedQuarantineItem| m.bytes)
}

impl QuarantineRun {
    /// The tally of the entries announced so far.
    pub closed spec fn counts(&self) -> Tally {
        self.tally
    }

    /// The items moved, in order.
    pub closed spec fn moved(&self) -> Seq<MovedQuarantineItem> {
        self.moved_items@
    }

    /// The bytes moved.
    pub closed spec fn bytes(&self) -> u64 {
        self.moved_bytes
    }

    /// The tally is consistent, every moved item is counted as done, and
    /// the bytes moved are the capped sum of the moved items' bytes.
    pub open spec fn inv(&self) -> bool {
        &&& self.counts().inv()
        &&& self.moved().len() == self.counts().done()
        &&& self.bytes() == capped(byte_sum(quarantine_bytes_of(self.moved())))
    }

    /// Nothing announced and nothing moved yet.
    pub fn new() -> (r: QuarantineRun)
        ensures
            r.inv(),
            r.counts().total() == 0,
            r.counts().done() == 0,
            r.counts().skipped() == 0,
            r.counts().failure_list().len() == 0,
            r.moved().len() == 0,
    {
        let r = QuarantineRun { tally: Tally::new(0), moved_bytes: 0, moved_items: Vec::new() };
        assert(quarantine_bytes_of(r.moved_items@) =~= Seq::<u64>::empty());
        r
    }

    /// The number of items moved.
    pub fn moved_count(&self) -> (n: u64)
        ensures
            n == self.counts().done(),
    {
        self.tally.done()
    }

    /// The number of entries skipped.
    pub fn skipped_count(&self) -> (n: u64)
        ensures
            n == self.counts().skipped(),
    {
        self.tally.skipped()
    }

    /// The number of entries announced.
    pub fn total_count(&self) -> (n: u64)
        ensures
            n == self.counts().total(),
    {
        self.tally.total()
    }

    /// The bytes moved.
    pub fn moved_bytes(&self) -> (n: u64)
        ensures
            n == self.bytes(),
    {
        self.moved_bytes
    }

    /// The failures recorded, in order.
    pub fn failures(&self) -> (f: &Vec<PathFailure>)
        ensures
            f@ == self.counts().failure_list(),
    {
        self.tally.failures()
    }

    /// Whether every announced entry has been counted.
    pub fn is_complete(&self) -> (r: bool)
        requires
            self.inv(),
        ensures
            r == self.counts().complete(),
            !r ==> self.counts().has_room(),
    {
        self.tally.is_complete()
    }

    /// A readable directory listed `n` more entries.
    pub fn add_entries(&mut self, n: u64)
        requires
            old(self).inv(),
            old(self).counts().total() + n <= u64::MAX,
        ensures
            final(self).inv(),
            final(self).counts().total() == old(self).counts().total() + n,
            final(self).counts().done() == old(self).counts().done(),
            final(self).counts().skipped() == old(self).counts().skipped(),
            final(self).counts().failure_list() == old(self).counts().failure_list(),
            final(self).moved() == old(self).moved(),
            final(self).bytes() == old(self).bytes(),
    {
        self.tally.add_items(n);
    }

    /// Directory `dir` could not be read: it counts as one entry, skipped
    /// with the error.
    pub fn record_unreadable_dir(&mut self, dir: &str, err: &str)
        requires
            old(self).inv(),
            old(self).counts().total() < u64::MAX,
        ensures
            final(self).inv(),
            final(self).counts().total() == old(self).counts().total() + 1,
            final(self).counts().done() == old(self).counts().done(),
            final(self).counts().skipped() == old(self).counts().skipped() + 1,
            failure_views(final(self).counts().failure_list()) == failure_views(old(self).counts().failure_list()).push(
                (dir@, err@),
            ),
            final(self).moved() == old(self).moved(),
            final(self).bytes() == old(self).bytes(),
    {
        self.tally.add_items(1);
        let ghost before = self.tally.failure_list();
        self.tally.record_failure(failure(dir, err));
        assert(failure_views(self.tally.failure_list()) =~= failure_views(before).push((dir@, err@)));
    }

    /// An entry listed in `dir` could not be read: it is skipped with the
    /// error.
    pub fn record_entry_failure(&mut self, dir: &str, err: &str)
        requires
            old(self).inv(),
            old(self).counts().has_room(),
        ensures
            final(self).inv(),
            final(self).counts().total() == old(self).counts().total(),
            final(self).counts().done() == old(self).counts().done(),
            final(self).counts().skipped() == old(self).counts().skipped() + 1,
            failure_views(final(self).counts().failure_list()) == failure_views(old(self).counts().failure_list()).push(
                (dir@, err@),
            ),
            final(self).moved() == old(self).moved(),
            final(self).bytes() == old(self).bytes(),
    {
        let ghost before = self.tally.failure_list();
        self.tally.record_failure(failure(dir, err));
        assert(failure_views(self.tally.failure_list()) =~= failure_views(before).push((dir@, err@)));
    }

    /// An entry that is not quarantined (see [`should_quarantine`]) is
    /// skipped without a failure.
    pub fn record_excluded(&mut self)
        requires
            old(self).inv(),
            old(self).counts().has_room(),
        ensures
            final(self).inv(),
            final(self).counts().total() == old(self).counts().total(),
            final(self).counts().done() == old(self).counts().done(),
            final(self).counts().skipped() == old(self).counts().skipped() + 1,
            final(self).counts().failure_list() == old(self).counts().failure_list(),
            final(self).moved() == old(self).moved(),
            final(self).bytes() == old(self).bytes(),
    {
        self.tally.record_skip();
    }

    /// What became of the move of `original` to `destination`: the bytes
    /// moved, or the error. A cancellation stops the cleanup and is
    /// handed back with the run unchanged (see
    /// [`cancel_quarantine_cleanup`]); any other error skips the item.
    pub fn record_move(&mut self, original: &str, destination: &str, outcome: Result<u64, String>) -> (res: Result<
        (),
        String,
    >)
        requires
            old(self).inv(),
            old(self).counts().has_room(),
        ensures
            final(self).inv(),
            final(self).counts().total() == old(self).counts().total(),
            match outcome {
                Ok(bytes) => res is Ok && final(self).counts().done() == old(self).counts().done() + 1
                    && final(self).counts().skipped() == old(self).counts().skipped()
                    && final(self).counts().failure_list() == old(self).counts().failure_list()
                    && final(self).moved().len() == old(self).moved().len() + 1
                    && final(self).moved().drop_last() == old(self).moved()
                    && final(self).moved().last().original_path@ == original@
                    && final(self).moved().last().quarantine_path@ == destination@
                    && final(self).moved().last().bytes == bytes,
                Err(e) => if contains_seq(e@, "cancelled"@) {
                    res == Err::<(), String>(e) && *final(self) == *old(self)
                } else {
                    res is Ok && final(self).counts().done() == old(self).counts().done()
                        && final(self).counts().skipped() == old(self).counts().skipped() + 1
                        && failure_views(final(self).counts().failure_list()) == failure_views(
                        old(self).counts().failure_list(),
                    ).push((original@, e@)) && final(self).moved() == old(self).moved()
                        && final(self).bytes() == old(self).bytes()
                },
            },
    {
        match outcome {
            Ok(bytes) => {
                let ghost before = self.moved_items@;
                self.tally.record_done();
                proof {
                    lemma_capped_push(quarantine_bytes_of(before), bytes);
                }
                self.moved_bytes = self.moved_bytes.saturating_add(bytes);
                self.moved_items.push(
                    MovedQuarantineItem { original_path: owned(original), quarantine_path: owned(destination), bytes },
                );
                assert(quarantine_bytes_of(self.moved_items@) =~= quarantine_bytes_of(before).push(bytes));
                assert(self.moved_items@.drop_last() =~= before);
                Ok(())
            },
            Err(e) => {
                if contains_str(e.as_str(), "cancelled") {
                    Err(e)
                } else {
                    self.tally.record_result(original, Err(e));
                    Ok(())
                }
            },
        }
    }

    /// The counts reported while the cleanup runs.
    pub fn stats(&self) -> (s: CleanupProgressStats)
        ensures
            s.processed_items == Some(sat_sum(self.counts().done(), self.counts().skipped())),
            s.moved_count == Some(self.counts().done()),
            s.skipped_count == Some(self.counts().skipped()),
            s.processed_bytes == Some(self.bytes()),
            s.failure_count == Some(self.counts().failure_list().len() as u64),
            s.scanned_files is None,
            s.scanned_dirs is None,
            s.scanned_bytes is None,
            s.current_path is None,
            s.current_file_path is None,
            s.current_file_bytes is None,
            s.current_file_total_bytes is None,
    {
        let mut s = CleanupProgressStats::none();
        s.processed_items = Some(self.tally.done().saturating_add(self.tally.skipped()));
        s.moved_count = Some(self.tally.done());
        s.skipped_count = Some(self.tally.skipped());
        s.processed_bytes = Some(self.moved_bytes);
        s.failure_count = Some(self.tally.failures().len() as u64);
        s
    }

    /// The counts reported while file `path` is copied: `copied` of its
    /// `total` bytes are done.
    pub fn copy_stats(&self, path: &str, copied: u64, total: u64) -> (s: CleanupProgressStats)
        ensures
            s.processed_items == Some(sat_sum(self.counts().done(), self.counts().skipped())),
            s.moved_count == Some(self.counts().done()),
            s.skipped_count == Some(self.counts().skipped()),
            s.processed_bytes == Some(sat_sum(self.bytes(), copied)),
            s.failure_count == Some(self.counts().failure_list().len() as u64),
            s.scanned_files is None,
            s.scanned_dirs is None,
            s.scanned_bytes is None,
            s.current_path is None,
            s.current_file_path matches Some(p) && p@ == path@,
            s.current_file_bytes == Some(copied),
            s.current_file_total_bytes == Some(total),
    {
        let mut s = self.stats();
        s.processed_bytes = Some(self.moved_bytes.saturating_add(copied));
        s.current_file_path = Some(owned(path));
        s.current_file_bytes = Some(copied);
        s.current_file_total_bytes = Some(total);
        s
    }
}

/// The record of an item moved into quarantine.
pub open spec fn moved_quarantine_json(m: MovedQuarantineItem) -> Json {
    Json::Object(
        seq![
            ("originalPath"@, Json::Str(m.original_path@)),
            ("quarantinePath"@, Json::Str(m.quarantine_path@)),
            ("bytes"@, Json::UInt(m.bytes)),
        ],
    )
}

/// The records of the items moved into quarantine.
pub fn moved_quarantine_to_json(items: &Vec<MovedQuarantineItem>) -> (v: JsonValue)
    ensures
        v@ == Json::Array(items@.map_values(|m: MovedQuarantineItem| moved_quarantine_json(m))),
{
    let mut out: Vec<JsonValue> = Vec::new();
    let mut i: usize = 0;
    while i < items.len()
        invariant
            i <= items.len(),
            view_items(out@) == items@.subrange(0, i as int).map_values(|m: MovedQuarantineItem| moved_quarantine_json(m)),
        decreases items.len() - i,
    {
        let m = &items[i];
        let mut b = ObjectBuilder::new();
        b.str_field("originalPath", m.original_path.as_str());
        b.str_field("quarantinePath", m.quarantine_path.as_str());
        b.uint_field("bytes", m.bytes);
        proof {
            assert(view_fields(b.fields@) =~= seq![
                ("originalPath"@, Json::Str(m.original_path@)),
                ("quarantinePath"@, Json::Str(m.quarantine_path@)),
                ("bytes"@, Json::UInt(m.bytes)),
            ]);
        }
        let x = b.build();
        proof {
            lemma_view_items_push(out@, x);
            assert(items@.subrange(0, i + 1).map_values(|m: MovedQuarantineItem| moved_quarantine_json(m)) =~= items@.subrange(
                0,
                i as int,
            ).map_values(|m: MovedQuarantineItem| moved_quarantine_json(m)).push(moved_quarantine_json(items@[i as int])));
        }
        out.push(x);
        i = i + 1;
    }
    assert(items@.subrange(0, items@.len() as int) =~= items@);
    JsonValue::Array(out)
}

/// The details recorded with a quarantine cleanup.
pub open spec fn quarantine_details(
    moved: u64,
    skipped: u64,
    moved_bytes: u64,
    quarantine_path: Seq<char>,
    items: Seq<MovedQuarantineItem>,
    failures: Seq<(Seq<char>, Seq<char>)>,
) -> Json {
    Json::Object(
        seq![
            ("ruleId"@, Json::Str(TEMP_USER_RULE_ID@)),
            ("movedCount"@, Json::UInt(moved)),
            ("skippedCount"@, Json::UInt(skipped)),
            ("movedBytes"@, Json::UInt(moved_bytes)),
            ("quarantinePath"@, Json::Str(quarantine_path)),
            ("movedItems"@, Json::Array(items.map_values(|m: MovedQuarantineItem| moved_quarantine_json(m)))),
            ("failures"@, failures_json(failures)),
        ],
    )
}

/// The text that summarises a quarantine cleanup.
pub open spec fn quarantine_summary(moved: u64, skipped: u64, moved_bytes: u64) -> Seq<char> {
    "隔离清理完成：移动 "@ + decimal(moved as nat) + " 项，跳过 "@ + decimal(skipped as nat) + " 项，隔离 "@ + decimal(
        moved_bytes as nat,
    ) + " 字节"@
}

/// The status of a quarantine cleanup: whether some item failed.
pub open spec fn quarantine_status(failures: int) -> Seq<char> {
    if failures == 0 {
        "completed"@
    } else {
        "completed-with-skips"@
    }
}

/// The text that summarises a cancelled quarantine cleanup.
pub open spec fn quarantine_cancel_summary(moved: u64, skipped: u64, moved_bytes: u64) -> Seq<char> {
    "隔离清理已取消：移动 "@ + decimal(moved as nat) + " 项，跳过 "@ + decimal(skipped as nat) + " 项，隔离 "@
        + decimal(moved_bytes as nat) + " 字节"@
}

/// The log entry of quarantine cleanup `operation_id` as it stands: the
/// entry of a finished cleanup, or of a cancelled one.
fn quarantine_entry(
    run: &QuarantineRun,
    operation_id: &str,
    quarantine_path: &str,
    created_at_ms: u128,
    cancelled: bool,
) -> (e: OperationLogEntry)
    requires
        run.inv(),
    ensures
        ({
            let c = run.counts();
            &&& e.id@ == operation_id@
            &&& e.operation_type@ == "cleanup-quarantine"@
            &&& e.status@ == (if cancelled {
                "cancelled"@
            } else {
                quarantine_status(c.failure_list().len() as int)
            })
            &&& e.created_at_ms == created_at_ms
            &&& e.rollbackable == (c.done() > 0)
            &&& e.summary@ == (if cancelled {
                quarantine_cancel_summary(c.done(), c.skipped(), run.bytes())
            } else {
                quarantine_summary(c.done(), c.skipped(), run.bytes())
            })
            &&& e.details@ == quarantine_details(
                c.done(),
                c.skipped(),
                run.bytes(),
                quarantine_path@,
                run.moved(),
                failure_views(c.failure_list()),
            )
        }),
{
    let moved = run.tally.done();
    let skipped = run.tally.skipped();
    let status_text = if cancelled {
        "cancelled"
    } else if run.tally.failures().len() == 0 {
        "completed"
    } else {
        "completed-with-skips"
    };
    let mut summary = if cancelled {
        owned("隔离清理已取消：移动 ")
    } else {
        owned("隔离清理完成：移动 ")
    };
    push_decimal(&mut summary, moved as u128);
    push_str(&mut summary, " 项，跳过 ");
    push_decimal(&mut summary, skipped as u128);
    push_str(&mut summary, " 项，隔离 ");
    push_decimal(&mut summary, run.moved_bytes as u128);
    push_str(&mut summary, " 字节");
    let mut b = ObjectBuilder::new();
    b.str_field("ruleId", TEMP_USER_RULE_ID);
    b.uint_field("movedCount", moved);
    b.uint_field("skippedCount", skipped);
    b.uint_field("movedBytes", run.moved_bytes);
    b.str_field("quarantinePath", quarantine_path);
    b.field("movedItems", moved_quarantine_to_json(&run.moved_items));
    b.field("failures", failures_to_json(run.tally.failures()));
    proof {
        assert(view_fields(b.fields@) =~= match quarantine_details(
            moved,
            skipped,
            run.moved_bytes,
            quarantine_path@,
            run.moved_items@,
            failure_views(run.tally.failure_list()),
        ) {
            Json::Object(f) => f,
            _ => Seq::empty(),
        });
    }
    let details = b.build();
    OperationLogEntry {
        id: owned(operation_id),
        operation_type: owned("cleanup-quarantine"),
        status: owned(status_text),
        created_at_ms,
        rollbackable: moved > 0,
        summary,
        details,
    }
}

/// Records the end of quarantine cleanup `operation_id` once every
/// announced entry has been counted: each entry was moved or skipped, the log entry is rollbackable
/// when something was moved, and the result is made.
pub fn finish_quarantine_cleanup(run: QuarantineRun, operation_id: &str, quarantine_path: &str, created_at_ms: u128) -> (res: (
    OperationLogEntry,
    QuarantineCleanupResult,
))
    requires
        run.inv(),
        run.counts().complete(),
    ensures
        ({
            let c = run.counts();
            &&& res.1.moved_count + res.1.skipped_count == c.total()
            &&& res.1.failures@.len() <= res.1.skipped_count
            &&& res.1.moved_count == run.moved().len()
            &&& res.1.moved_bytes == capped(byte_sum(quarantine_bytes_of(run.moved())))
            &&& res.0.id@ == operation_id@
            &&& res.0.operation_type@ == "cleanup-quarantine"@
            &&& res.0.status@ == quarantine_status(c.failure_list().len() as int)
            &&& res.0.created_at_ms == created_at_ms
            &&& res.0.rollbackable == (c.done() > 0)
            &&& res.0.summary@ == quarantine_summary(c.done(), c.skipped(), run.bytes())
            &&& res.0.details@ == quarantine_details(
                c.done(),
                c.skipped(),
                run.bytes(),
                quarantine_path@,
                run.moved(),
                failure_views(c.failure_list()),
            )
            &&& res.1.id@ == operation_id@
            &&& res.1.status@ == quarantine_status(c.failure_list().len() as int)
            &&& res.1.moved_count == c.done()
            &&& res.1.skipped_count == c.skipped()
            &&& res.1.moved_bytes == run.bytes()
            &&& res.1.quarantine_path@ == quarantine_path@
            &&& res.1.failures@ == c.failure_list()
        }),
{
    let entry = quarantine_entry(&run, operation_id, quarantine_path, created_at_ms, false);
    let status_text = if run.tally.failures().len() == 0 {
        "completed"
    } else {
        "completed-with-skips"
    };
    let result = QuarantineCleanupResult {
        id: owned(operation_id),
        status: owned(status_text),
        moved_count: run.tally.done(),
        skipped_count: run.tally.skipped(),
        moved_bytes: run.moved_bytes,
        quarantine_path: owned(quarantine_path),
        failures: run.tally.into_failures(),
    };
    (entry, result)
}

/// Records a cancelled quarantine cleanup: when something was already
/// moved into quarantine, the log entry that lists exactly the items moved
/// so that they can be rolled back; `None` when nothing was moved.
pub fn cancel_quarantine_cleanup(run: &QuarantineRun, operation_id: &str, quarantine_path: &str, created_at_ms: u128) -> (res:
    Option<OperationLogEntry>)
    requires
        run.inv(),
    ensures
        match res {
            None => run.counts().done() == 0,
            Some(e) => {
                let c = run.counts();
                &&& c.done() > 0
                &&& e.id@ == operation_id@
                &&& e.operation_type@ == "cleanup-quarantine"@
                &&& e.status@ == "cancelled"@
                &&& e.created_at_ms == created_at_ms
                &&& e.rollbackable
                &&& e.summary@ == quarantine_cancel_summary(c.done(), c.skipped(), run.bytes())
                &&& e.details@ == quarantine_details(
                    c.done(),
                    c.skipped(),
                    run.bytes(),
                    quarantine_path@,
                    run.moved(),
                    failure_views(c.failure_list()),
                )
            },
        },
{
    if run.tally.done() == 0 {
        None
    } else {
        Some(quarantine_entry(run, operation_id, quarantine_path, created_at_ms, true))
    }
}

/// The record of a moved item reads back as its two paths.
proof fn lemma_moved_quarantine_parse(m: MovedQuarantineItem)
    ensures
        parse_moved_pair(moved_quarantine_json(m), "originalPath"@, "quarantinePath"@) == Some(
            (m.original_path@, m.quarantine_path@),
        ),
{
    reveal_strlit("originalPath");
    reveal_strlit("quarantinePath");
    let fields = seq![
        ("originalPath"@, Json::Str(m.original_path@)),
        ("quarantinePath"@, Json::Str(m.quarantine_path@)),
        ("bytes"@, Json::UInt(m.bytes)),
    ];
    assert(fields[0].0[0] != "quarantinePath"@[0]);
    lemma_field_lookup_at(fields, "originalPath"@, 0);
    lemma_field_lookup_at(fields, "quarantinePath"@, 1);
}

/// What a quarantine cleanup records is what its rollback restores: once
/// the record of a cleanup that moved something, finished or cancelled
/// ([`finish_quarantine_cleanup`], [`cancel_quarantine_cleanup`]), is in the
/// log (and it has not been rolled back), a confirmed rollback of it is accepted and moves
/// back exactly the items it moved, each from its quarantine path to its
/// original path, in the order they were moved.
pub proof fn law_quarantine_record_rolls_back(
    entries: Seq<OperationLogEntry>,
    record: OperationLogEntry,
    moved: u64,
    skipped: u64,
    moved_bytes: u64,
    quarantine_path: Seq<char>,
    items: Seq<MovedQuarantineItem>,
    failures: Seq<(Seq<char>, Seq<char>)>,
)
    requires
        record.operation_type@ == "cleanup-quarantine"@,
        record.rollbackable,
        record.details@ == quarantine_details(moved, skipped, moved_bytes, quarantine_path, items, failures),
        find_entry(entries, record.id@) is None,
        !rollback_targets_spec(entries, rollback_types()).contains(record.id@),
    ensures
        quarantine_rollback_spec(entries.push(record), record.id@, ROLLBACK_CONFIRMATION@) == Ok::<
            Seq<(Seq<char>, Seq<char>)>,
            Seq<char>,
        >(items.map_values(|m: MovedQuarantineItem| (m.original_path@, m.quarantine_path@))),
{
    reveal_strlit("cleanup-quarantine");
    reveal_strlit("rollback");
    reveal_strlit("user-folder-migration-rollback");
    reveal_strlit("devspace-env-migration-rollback");
    reveal_strlit("devspace-junction-migration-rollback");
    let types = rollback_types();
    assert(!types.contains("cleanup-quarantine"@)) by {
        assert forall|i: int| 0 <= i < types.len() implies types[i] != "cleanup-quarantine"@ by {
            assert(types[i].len() != "cleanup-quarantine"@.len() || types[i][0] != 'c');
        }
    }
    lemma_targets_push_other(entries, record, types);
    lemma_find_entry_push(entries, record);
    let all = entries.push(record);
    assert(all[entries.len() as int] == record);
    reveal_strlit("ruleId");
    reveal_strlit("movedCount");
    reveal_strlit("skippedCount");
    reveal_strlit("movedBytes");
    reveal_strlit("quarantinePath");
    reveal_strlit("movedItems");
    let jitems = items.map_values(|m: MovedQuarantineItem| moved_quarantine_json(m));
    let fields = seq![
        ("ruleId"@, Json::Str(TEMP_USER_RULE_ID@)),
        ("movedCount"@, Json::UInt(moved)),
        ("skippedCount"@, Json::UInt(skipped)),
        ("movedBytes"@, Json::UInt(moved_bytes)),
        ("quarantinePath"@, Json::Str(quarantine_path)),
        ("movedItems"@, Json::Array(jitems)),
        ("failures"@, failures_json(failures)),
    ];
    assert(record.details@ == Json::Object(fields));
    assert forall|i: int| 0 <= i < 5 implies (#[trigger] fields[i]).0 != "movedItems"@ by {
        assert(fields[i].0.len() != "movedItems"@.len() || fields[i].0[5] != "movedItems"@[5]);
    }
    lemma_field_lookup_at(fields, "movedItems"@, 5);
    assert forall|i: int| 0 <= i < jitems.len() implies (#[trigger] parse_moved_pair(
        jitems[i],
        "originalPath"@,
        "quarantinePath"@,
    )) is Some by {
        lemma_moved_quarantine_parse(items[i]);
    }
    assert(pairs_of(jitems, "originalPath"@, "quarantinePath"@) =~= items.map_values(
        |m: MovedQuarantineItem| (m.original_path@, m.quarantine_path@),
    )) by {
        assert forall|i: int| 0 <= i < items.len() implies pairs_of(jitems, "originalPath"@, "quarantinePath"@)[i] == (
            items[i].original_path@,
            items[i].quarantine_path@,
        ) by {
            lemma_moved_quarantine_parse(items[i]);
        }
    }
}

/// A quarantine cleanup that moved something is rolled back exactly once:
/// once its record, finished or cancelled, is in the log (and nothing has
/// rolled it back), a confirmed rollback of it is accepted and moves back
/// exactly the items it moved, in order; once the record of that rollback
/// (as `finish_quarantine_rollback` builds it) is in the log too, another
/// rollback of it is refused.
pub proof fn law_quarantine_rolls_back_once(
    entries: Seq<OperationLogEntry>,
    record: OperationLogEntry,
    moved: u64,
    skipped: u64,
    moved_bytes: u64,
    quarantine_path: Seq<char>,
    items: Seq<MovedQuarantineItem>,
    failures: Seq<(Seq<char>, Seq<char>)>,
    rollback: OperationLogEntry,
    restored: u64,
    rollback_skipped: u64,
    rollback_failures: Seq<(Seq<char>, Seq<char>)>,
)
    requires
        record.operation_type@ == "cleanup-quarantine"@,
        record.rollbackable,
        record.details@ == quarantine_details(moved, skipped, moved_bytes, quarantine_path, items, failures),
        find_entry(entries, record.id@) is None,
        !rollback_targets_spec(entries, rollback_types()).contains(record.id@),
        rollback.operation_type@ == "rollback"@,
        rollback.details@ == rollback_details(record.id@, restored, rollback_skipped, rollback_failures),
    ensures
        quarantine_rollback_spec(entries.push(record), record.id@, ROLLBACK_CONFIRMATION@) == Ok::<
            Seq<(Seq<char>, Seq<char>)>,
            Seq<char>,
        >(items.map_values(|m: MovedQuarantineItem| (m.original_path@, m.quarantine_path@))),
        quarantine_rollback_spec(entries.push(record).push(rollback), record.id@, ROLLBACK_CONFIRMATION@) == Err::<
            Seq<(Seq<char>, Seq<char>)>,
            Seq<char>,
        >("operation already has a rollback record"@),
{
    law_quarantine_record_rolls_back(entries, record, moved, skipped, moved_bytes, quarantine_path, items, failures);
    law_rollback_record_names_operation(record.id@, restored, rollback_skipped, rollback_failures);
    law_quarantine_rollback_once(entries.push(record), rollback, record.id@, ROLLBACK_CONFIRMATION@);
}

} // verus!
