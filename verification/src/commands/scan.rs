//! The cleanup scan: what each cleanup rule would free.
use vstd::prelude::*;
use crate::native::rules::{CleanupRule, RuleCatalog};
use crate::native::scan::{
    bytes_sum, files_sum, scan_totals, skipped_sum, PathScanSummary, ScanProgressSnapshot,
};
use crate::commands::tasks::{clear_task_cancel, CancelRegistry};
use crate::text::{owned, push_str};

verus! {

/// The task name of the cleanup scan.
pub const SCAN_TASK: &'static str = "scan-cleanup-rules";

/// A cleanup rule as offered for scanning.
pub struct ScanTarget {
    pub id: String,
    pub name: String,
    pub risk: String,
    pub status: String,
}

/// The space of the system drive.
pub struct DiskOverview {
    pub drive: String,
    pub total_bytes: u64,
    pub free_bytes: u64,
    pub used_bytes: u64,
}

/// What the scan of one cleanup rule found.
pub struct CleanupScanResult {
    pub id: String,
    pub name: String,
    pub risk: String,
    pub action: String,
    pub paths: Vec<PathScanSummary>,
    pub total_bytes: u64,
    pub file_count: u64,
    pub skipped_count: u64,
}

/// The progress of the cleanup scan.
pub struct TaskProgressEvent {
    pub task: String,
    pub current: u64,
    pub total: u64,
    pub label: String,
    pub status: String,
    pub scanned_files: Option<u64>,
    pub scanned_dirs: Option<u64>,
    pub scanned_bytes: Option<u64>,
    pub skipped_count: Option<u64>,
    pub current_path: Option<String>,
}

/// `t` offers cleanup rule `r` for scanning.
pub open spec fn offers(t: ScanTarget, r: CleanupRule) -> bool {
    &&& t.id@ == r.id@
    &&& t.name@ == r.name@
    &&& t.risk@ == r.risk@
    &&& t.status@ == "configured"@
}

/// The cleanup rules, offered for scanning (`get_scan_targets`).
pub fn get_scan_targets(catalog: &RuleCatalog) -> (res: Vec<ScanTarget>)
    ensures
        res@.len() == catalog.cleanup@.len(),
        forall|i: int| 0 <= i < res@.len() ==> offers(#[trigger] res@[i], catalog.cleanup@[i]),
{
    let mut res: Vec<ScanTarget> = Vec::new();
    let mut i: usize = 0;
    while i < catalog.cleanup.len()
        invariant
            i <= catalog.cleanup.len(),
            res@.len() == i,
            forall|k: int| 0 <= k < i ==> offers(#[trigger] res@[k], catalog.cleanup@[k]),
        decreases catalog.cleanup.len() - i,
    {
        let r = &catalog.cleanup[i];
        res.push(
            ScanTarget {
                id: owned(r.id.as_str()),
                name: owned(r.name.as_str()),
                risk: owned(r.risk.as_str()),
                status: owned("configured"),
            },
        );
        i = i + 1;
    }
    res
}

/// The space of the system drive, from what the system reported
/// (`get_disk_overview`): the used space is the total less the free space,
/// and never below zero.
pub fn get_disk_overview(drive: String, space: Result<(u64, u64), String>) -> (res: Result<DiskOverview, String>)
    ensures
        match space {
            Ok((total, free)) => res matches Ok(o) && o.drive == drive && o.total_bytes == total
                && o.free_bytes == free && o.used_bytes == (if total >= free {
                total - free
            } else {
                0
            }),
            Err(e) => res == Err::<DiskOverview, String>(e),
        },
{
    let (total_bytes, free_bytes) = space?;
    Ok(DiskOverview { drive, total_bytes, free_bytes, used_bytes: total_bytes.saturating_sub(free_bytes) })
}

/// What the scan of cleanup rule `rule` found at its paths.
pub fn cleanup_scan_result(rule: &CleanupRule, paths: Vec<PathScanSummary>) -> (res: CleanupScanResult)
    requires
        bytes_sum(paths@) <= u64::MAX,
        files_sum(paths@) <= u64::MAX,
        skipped_sum(paths@) <= u64::MAX,
    ensures
        res.id@ == rule.id@,
        res.name@ == rule.name@,
        res.risk@ == rule.risk@,
        res.action@ == rule.action@,
        res.paths == paths,
        res.total_bytes == bytes_sum(paths@),
        res.file_count == files_sum(paths@),
        res.skipped_count == skipped_sum(paths@),
{
    let (total_bytes, file_count, skipped_count, _) = scan_totals(&paths);
    CleanupScanResult {
        id: owned(rule.id.as_str()),
        name: owned(rule.name.as_str()),
        risk: owned(rule.risk.as_str()),
        action: owned(rule.action.as_str()),
        paths,
        total_bytes,
        file_count,
        skipped_count,
    }
}

/// What became of the scan of one cleanup rule: the scans of its paths,
/// or a cancellation that stopped the task there.
pub enum RuleScanOutcome {
    Scanned(Vec<PathScanSummary>),
    Cancelled,
}

/// The totals of the scanned paths fit in 64 bits.
pub open spec fn paths_fit(paths: Seq<PathScanSummary>) -> bool {
    &&& bytes_sum(paths) <= u64::MAX
    &&& files_sum(paths) <= u64::MAX
    &&& skipped_sum(paths) <= u64::MAX
}

/// Some rule's scan was cancelled.
pub open spec fn some_cancelled(outcomes: Seq<RuleScanOutcome>) -> bool {
    exists|i: int| 0 <= i < outcomes.len() && #[trigger] outcomes[i] is Cancelled
}

/// The outcomes of a scan over `rules`: one per rule, or a shorter list
/// that a cancellation cut short; every scanned rule's totals fit in 64
/// bits.
pub open spec fn rule_outcomes_ok(rules: Seq<CleanupRule>, outcomes: Seq<RuleScanOutcome>) -> bool {
    &&& outcomes.len() <= rules.len()
    &&& (outcomes.len() == rules.len() || some_cancelled(outcomes))
    &&& forall|i: int| 0 <= i < outcomes.len() ==> match #[trigger] outcomes[i] {
        RuleScanOutcome::Scanned(p) => paths_fit(p@),
        RuleScanOutcome::Cancelled => true,
    }
}

/// `r` is what the scan of `rule` found at the paths of `outcome`.
pub open spec fn scan_result_of(r: CleanupScanResult, rule: CleanupRule, outcome: RuleScanOutcome) -> bool {
    match outcome {
        RuleScanOutcome::Scanned(p) => {
            &&& r.id@ == rule.id@
            &&& r.name@ == rule.name@
            &&& r.risk@ == rule.risk@
            &&& r.action@ == rule.action@
            &&& r.paths == p
            &&& r.total_bytes == bytes_sum(p@)
            &&& r.file_count == files_sum(p@)
            &&& r.skipped_count == skipped_sum(p@)
        },
        RuleScanOutcome::Cancelled => false,
    }
}

/// The scan of all cleanup rules (`scan_cleanup_rules`), once each rule was
/// scanned in order or a cancellation request stopped the task: a
/// cancelled scan fails with `"scan-cleanup-rules cancelled"`, else there
/// is one result per rule. Either way the task's cancellation request is
/// cleared on return.
pub fn scan_cleanup_rules(
    registry: &mut CancelRegistry,
    rules: &Vec<CleanupRule>,
    outcomes: Vec<RuleScanOutcome>,
) -> (res: Result<Vec<CleanupScanResult>, String>)
    requires
        rule_outcomes_ok(rules@, outcomes@),
    ensures
        final(registry)@ == old(registry)@.remove(SCAN_TASK@),
        some_cancelled(outcomes@) ==> (res matches Err(e) && e@ == SCAN_TASK@ + " cancelled"@),
        !some_cancelled(outcomes@) ==> (res matches Ok(rs) && rs@.len() == rules@.len() && forall|i: int|
            0 <= i < rs@.len() ==> scan_result_of(#[trigger] rs@[i], rules@[i], outcomes@[i])),
{
    let ghost all = outcomes@;
    clear_task_cancel(registry, SCAN_TASK);
    let mut rest = outcomes;
    let mut results: Vec<CleanupScanResult> = Vec::new();
    let mut cancelled = false;
    let mut i: usize = 0;
    let n = rules.len();
    while rest.len() > 0 && !cancelled
        invariant
            n == rules@.len(),
            rule_outcomes_ok(rules@, all),
            i <= all.len(),
            !cancelled ==> rest@ == all.subrange(i as int, all.len() as int),
            results@.len() == i,
            cancelled ==> some_cancelled(all),
            forall|k: int| 0 <= k < i ==> scan_result_of(#[trigger] results@[k], rules@[k], all[k]),
        decreases rest.len(),
    {
        let ghost before = rest@;
        assert(i < all.len() && all.len() <= n);
        let o = rest.remove(0);
        proof {
            assert(before[0] == all[i as int]);
            assert(rest@ =~= all.subrange(i + 1, all.len() as int));
        }
        match o {
            RuleScanOutcome::Cancelled => {
                assert(all[i as int] is Cancelled);
                cancelled = true;
            },
            RuleScanOutcome::Scanned(paths) => {
                assert(paths_fit(paths@));
                let r = cleanup_scan_result(&rules[i], paths);
                results.push(r);
                i = i + 1;
            },
        }
    }
    if cancelled {
        let mut msg = owned(SCAN_TASK);
        push_str(&mut msg, " cancelled");
        return Err(msg);
    }
    assert(i == all.len());
    assert(!some_cancelled(all)) by {
        if some_cancelled(all) {
            let k = choose|k: int| 0 <= k < all.len() && #[trigger] all[k] is Cancelled;
            assert(scan_result_of(results@[k], rules@[k], all[k]));
        }
    }
    Ok(results)
}

/// A progress event of the cleanup scan, with the counts of the path
/// being scanned when there are some.
pub fn task_progress_event(
    current: u64,
    total: u64,
    label: String,
    status: &str,
    snapshot: Option<ScanProgressSnapshot>,
) -> (ev: TaskProgressEvent)
    ensures
        ev.task@ == SCAN_TASK@,
        ev.current == current,
        ev.total == total,
        ev.label == label,
        ev.status@ == status@,
        match snapshot {
            Some(s) => ev.scanned_files == Some(s.file_count) && ev.scanned_dirs == Some(s.dir_count)
                && ev.scanned_bytes == Some(s.total_bytes) && ev.skipped_count == Some(s.skipped_count)
                && ev.current_path == Some(s.current_path),
            None => ev.scanned_files is None && ev.scanned_dirs is None && ev.scanned_bytes is None
                && ev.skipped_count is None && ev.current_path is None,
        },
{
    match snapshot {
        Some(s) => TaskProgressEvent {
            task: owned(SCAN_TASK),
            current,
            total,
            label,
            status: owned(status),
            scanned_files: Some(s.file_count),
            scanned_dirs: Some(s.dir_count),
            scanned_bytes: Some(s.total_bytes),
            skipped_count: Some(s.skipped_count),
            current_path: Some(s.current_path),
        },
        None => TaskProgressEvent {
            task: owned(SCAN_TASK),
            current,
            total,
            label,
            status: owned(status),
            scanned_files: None,
            scanned_dirs: None,
            scanned_bytes: None,
            skipped_count: None,
            current_path: None,
        },
    }
}

} // verus!
