use clearc::commands::cleanup::{
    build_cleanup_preview, cancel_quarantine_cleanup, check_quarantine_cancel, cleanup_preview_items, check_quarantine_confirmation, cleanup_preview_item,
    cleanup_progress_event, create_cleanup_plan_draft, destination_candidate, finish_quarantine_cleanup, items_fit,
    is_excluded, quarantine_dir_path, select_quarantine_rule, should_quarantine, CleanupProgressStats,
    QuarantineRun, QUARANTINE_CONFIRMATION, QUARANTINE_TASK,
};
use clearc::commands::scan::{
    cleanup_scan_result, get_disk_overview, get_scan_targets, scan_cleanup_rules, task_progress_event, RuleScanOutcome,
};
use clearc::commands::system::get_app_status;
use clearc::commands::logs::{prepare_quarantine_rollback, ROLLBACK_CONFIRMATION};
use clearc::commands::tasks::{
    cancel_step, clear_task_cancel, is_task_cancelled, request_task_cancel, take_cancellation, CancelRegistry,
};
use clearc::native::rules::{CleanupRule, RuleCatalog};
use clearc::native::scan::{totals_fit, PathScanSummary, ScanProgressSnapshot};

fn cleanup_rule(id: &str, risk: &str, action: &str) -> CleanupRule {
    CleanupRule {
        id: id.to_string(),
        name: format!("{} files", id),
        paths: vec!["%TEMP%".to_string()],
        risk: risk.to_string(),
        action: action.to_string(),
        exclude: vec!["*.log".to_string(), "keep.txt".to_string()],
    }
}

fn summary(bytes: u64, files: u64, skipped: u64) -> PathScanSummary {
    PathScanSummary {
        raw_path: "%TEMP%".to_string(),
        resolved_path: "C:\\T".to_string(),
        exists: true,
        accessible: true,
        file_count: files,
        dir_count: 1,
        total_bytes: bytes,
        skipped_count: skipped,
        error: None,
    }
}

fn catalog(rules: Vec<CleanupRule>) -> RuleCatalog {
    RuleCatalog { rules_dir: "rules".to_string(), cleanup: rules, migration: vec![], devspace: vec![] }
}

#[test]
fn exclusion_patterns() {
    let excl = vec!["*.log".to_string(), "keep.txt".to_string()];
    assert!(is_excluded("app.log", &excl));
    assert!(is_excluded("keep.txt", &excl));
    assert!(!is_excluded("log", &excl));
    assert!(!is_excluded("app.log.bak", &excl));
    assert!(!is_excluded("keep.txt2", &excl));
    assert!(!is_excluded("anything", &Vec::new()));
    assert!(is_excluded(".log", &excl));
    assert!(should_quarantine(Some("a.tmp"), &excl));
    assert!(!should_quarantine(Some("a.log"), &excl));
    assert!(!should_quarantine(None, &excl));
}

#[test]
fn quarantine_destinations() {
    assert_eq!(quarantine_dir_path("C:\\Users\\me\\AppData\\ClearC", "cleanup-quarantine-1"), "C:\\Users\\me\\AppData\\ClearC\\quarantine\\cleanup-quarantine-1");
    assert_eq!(destination_candidate("D:\\q", "a.tmp", 0), "D:\\q\\a.tmp");
    assert_eq!(destination_candidate("D:\\q", "a.tmp", 1), "D:\\q\\1-a.tmp");
    assert_eq!(destination_candidate("D:\\q", "a.tmp", 12), "D:\\q\\12-a.tmp");
}

#[test]
fn selects_the_temp_rule() {
    assert_eq!(select_quarantine_rule(&catalog(vec![cleanup_rule("x", "safe", "delete"), cleanup_rule("temp-user", "safe", "delete")])), Ok(1));
    assert_eq!(
        select_quarantine_rule(&catalog(vec![cleanup_rule("x", "safe", "delete")])),
        Err("temp-user cleanup rule not found".to_string())
    );
    assert_eq!(
        select_quarantine_rule(&catalog(vec![cleanup_rule("temp-user", "low", "delete")])),
        Err("temp-user rule is not eligible for quarantine cleanup".to_string())
    );
    assert_eq!(
        select_quarantine_rule(&catalog(vec![cleanup_rule("temp-user", "safe", "review")])),
        Err("temp-user rule is not eligible for quarantine cleanup".to_string())
    );
    assert_eq!(check_quarantine_confirmation(QUARANTINE_CONFIRMATION), Ok(()));
    assert_eq!(check_quarantine_confirmation("MOVE"), Err("invalid cleanup confirmation".to_string()));
}

#[test]
fn quarantine_run_stops_on_cancellation() {
    let mut run = QuarantineRun::new();
    run.add_entries(3);
    assert_eq!(run.record_move("a", "qa", Ok(5)), Ok(()));
    assert_eq!(run.record_move("b", "qb", Err("cleanup-quarantine cancelled".to_string())), Err("cleanup-quarantine cancelled".to_string()));
    assert_eq!(run.moved_count(), 1);
    assert_eq!(run.skipped_count(), 0);
    run.record_excluded();
    let stats = run.stats();
    assert_eq!(stats.processed_items, Some(2));
    assert_eq!(stats.processed_bytes, Some(5));
    assert_eq!(stats.failure_count, Some(0));
    let copy = run.copy_stats("C:\\T\\big", 7, 100);
    assert_eq!(copy.processed_bytes, Some(12));
    assert_eq!(copy.current_file_path, Some("C:\\T\\big".to_string()));
    assert_eq!(copy.current_file_total_bytes, Some(100));
    let ev = cleanup_progress_event(QUARANTINE_TASK, 1, 3, "正在隔离 C:\\T".to_string(), "running", stats);
    assert_eq!(ev.task, "cleanup-quarantine");
    assert_eq!(ev.moved_count, Some(1));
    assert_eq!(ev.scanned_files, None);

    // The cancelled cleanup records the item it moved, ready to be rolled back.
    let record = cancel_quarantine_cleanup(&run, "cleanup-quarantine-4", "D:\\q\\op", 4).unwrap();
    assert_eq!(record.status, "cancelled");
    assert!(record.rollbackable);
    assert_eq!(record.summary, "隔离清理已取消：移动 1 项，跳过 1 项，隔离 5 字节");
    let items = prepare_quarantine_rollback(&vec![record], "cleanup-quarantine-4", ROLLBACK_CONFIRMATION).ok().unwrap();
    assert_eq!(items.len(), 1);
    assert_eq!(items[0].original_path, "a");
    assert_eq!(items[0].quarantine_path, "qa");
    assert!(cancel_quarantine_cleanup(&QuarantineRun::new(), "q", "D:\\q", 1).is_none());
}

#[test]
fn quarantine_run_counts_every_entry() {
    let mut run = QuarantineRun::new();
    run.record_unreadable_dir("C:\\Locked", "access denied");
    run.add_entries(4);
    assert!(!run.is_complete());
    run.record_entry_failure("C:\\Temp", "bad entry");
    run.record_excluded();
    assert_eq!(run.record_move("C:\\Temp\\a", "D:\\q\\a", Ok(u64::MAX)), Ok(()));
    assert_eq!(run.record_move("C:\\Temp\\b", "D:\\q\\b", Ok(3)), Ok(()));
    assert!(run.is_complete());
    assert_eq!(run.moved_bytes(), u64::MAX);
    assert_eq!(run.failures().len(), 2);
    assert_eq!(run.failures()[0].path, "C:\\Locked");
    assert_eq!(run.failures()[0].reason, "access denied");
    let (entry, result) = finish_quarantine_cleanup(run, "q", "D:\\q", 1);
    assert_eq!(result.moved_count + result.skipped_count, 5);
    assert_eq!(result.moved_count, 2);
    assert_eq!(result.skipped_count, 3);
    assert_eq!(result.moved_bytes, u64::MAX);
    assert_eq!(result.status, "completed-with-skips");
    assert!(entry.rollbackable);
}

#[test]
fn quarantine_cancel_flag() {
    let mut reg = CancelRegistry::new();
    assert_eq!(check_quarantine_cancel(&reg), Ok(()));
    request_task_cancel(&mut reg, QUARANTINE_TASK.to_string());
    assert!(is_task_cancelled(&reg, QUARANTINE_TASK));
    assert_eq!(check_quarantine_cancel(&reg), Err("cleanup-quarantine cancelled".to_string()));
    clear_task_cancel(&mut reg, QUARANTINE_TASK);
    assert!(!is_task_cancelled(&reg, QUARANTINE_TASK));
    request_task_cancel(&mut reg, "scan-cleanup-rules".to_string());
    assert_eq!(take_cancellation(&mut reg, "scan-cleanup-rules"), "scan-cleanup-rules cancelled");
    assert!(!is_task_cancelled(&reg, "scan-cleanup-rules"));
}

#[test]
fn empty_quarantine_is_not_rollbackable() {
    let (entry, result) = finish_quarantine_cleanup(QuarantineRun::new(), "q", "D:\\q", 1);
    assert!(!entry.rollbackable);
    assert_eq!(result.status, "completed");
    assert_eq!(entry.summary, "隔离清理完成：移动 0 项，跳过 0 项，隔离 0 字节");
    assert_eq!(result.quarantine_path, "D:\\q");
}

#[test]
fn preview_and_draft_sum_the_rules() {
    let a = cleanup_preview_item(&cleanup_rule("temp-user", "safe", "delete"), vec![summary(10, 2, 1), summary(5, 1, 0)]);
    assert_eq!(a.estimated_bytes, 15);
    assert_eq!(a.file_count, 3);
    assert_eq!(a.skipped_count, 1);
    let b = cleanup_preview_item(&cleanup_rule("cache", "low", "review"), vec![summary(100, 4, 2)]);
    let preview = build_cleanup_preview(vec![a, b]);
    assert_eq!(preview.estimated_bytes, 115);
    assert_eq!(preview.file_count, 7);
    assert_eq!(preview.skipped_count, 3);
    assert!(preview.requires_confirmation);
    assert!(!preview.executable);
    let (draft, entry) = create_cleanup_plan_draft("cleanup-plan-9", 9, &preview);
    assert_eq!(draft.summary, "清理预览草稿：7 个文件，预计释放 115 字节");
    assert_eq!(draft.status, "planned");
    assert!(!draft.executable);
    assert_eq!(entry.operation_type, "cleanup-plan");
    assert_eq!(entry.details.get("fileCount").is_some(), true);
    let empty = build_cleanup_preview(vec![]);
    assert_eq!(empty.estimated_bytes, 0);
}

#[test]
fn scan_targets_and_disk_overview() {
    let targets = get_scan_targets(&catalog(vec![cleanup_rule("temp-user", "safe", "delete")]));
    assert_eq!(targets.len(), 1);
    assert_eq!(targets[0].status, "configured");
    let o = get_disk_overview("C:\\".to_string(), Ok((100, 30))).ok().unwrap();
    assert_eq!(o.used_bytes, 70);
    let o = get_disk_overview("C:\\".to_string(), Ok((10, 30))).ok().unwrap();
    assert_eq!(o.used_bytes, 0);
    assert_eq!(get_disk_overview("C:\\".to_string(), Err("no".to_string())).err(), Some("no".to_string()));
    let r = cleanup_scan_result(&cleanup_rule("temp-user", "safe", "delete"), vec![summary(3, 1, 0)]);
    assert_eq!(r.total_bytes, 3);
    let snap = ScanProgressSnapshot { current_path: "C:\\T\\a".to_string(), file_count: 1, dir_count: 2, total_bytes: 3, skipped_count: 4 };
    let ev = task_progress_event(1, 2, "l".to_string(), "running", Some(snap));
    assert_eq!(ev.task, "scan-cleanup-rules");
    assert_eq!(ev.scanned_dirs, Some(2));
    let ev = task_progress_event(1, 2, "l".to_string(), "running", None);
    assert_eq!(ev.current_path, None);
    let none = CleanupProgressStats::none();
    assert_eq!(none.moved_count, None);
}

#[test]
fn app_status_reports_version() {
    let s = get_app_status("0.1.0");
    assert_eq!(s.app_name, "ClearC");
    assert_eq!(s.version, "0.1.0");
    assert!(s.native_core_ready);
    assert_eq!(s.rules_path, "rules");
}

#[test]
fn totals_fit_checks_overflow() {
    assert!(totals_fit(&vec![summary(u64::MAX, 1, 1)]));
    assert!(!totals_fit(&vec![summary(u64::MAX, 1, 1), summary(1, 1, 1)]));
    assert!(totals_fit(&Vec::new()));
    let a = cleanup_preview_item(&cleanup_rule("a", "safe", "delete"), vec![summary(u64::MAX, 0, 0)]);
    let b = cleanup_preview_item(&cleanup_rule("b", "safe", "delete"), vec![summary(1, 0, 0)]);
    assert!(!items_fit(&vec![a, b]));
    let c = cleanup_preview_item(&cleanup_rule("c", "safe", "delete"), vec![summary(7, 0, 0)]);
    assert!(items_fit(&vec![c]));
}

#[test]
fn cancel_step_stops_and_clears() {
    let mut reg = CancelRegistry::new();
    assert_eq!(cancel_step(&mut reg, "scan-devspace-targets"), Ok(()));
    request_task_cancel(&mut reg, "scan-devspace-targets".to_string());
    request_task_cancel(&mut reg, "migration-execute".to_string());
    assert_eq!(cancel_step(&mut reg, "scan-devspace-targets"), Err("scan-devspace-targets cancelled".to_string()));
    assert!(!is_task_cancelled(&reg, "scan-devspace-targets"));
    assert!(is_task_cancelled(&reg, "migration-execute"));
}

#[test]
fn rule_scan_gives_one_result_per_rule_or_stops_on_cancel() {
    let rules = vec![cleanup_rule("temp-user", "safe", "delete"), cleanup_rule("cache", "low", "delete")];
    let mut reg = CancelRegistry::new();
    request_task_cancel(&mut reg, "scan-cleanup-rules".to_string());
    let outcomes = vec![
        RuleScanOutcome::Scanned(vec![summary(10, 2, 1), summary(5, 1, 0)]),
        RuleScanOutcome::Scanned(vec![]),
    ];
    let results = scan_cleanup_rules(&mut reg, &rules, outcomes).ok().unwrap();
    assert!(!is_task_cancelled(&reg, "scan-cleanup-rules"));
    assert_eq!(results.len(), 2);
    assert_eq!(results[0].id, "temp-user");
    assert_eq!(results[0].total_bytes, 15);
    assert_eq!(results[0].file_count, 3);
    assert_eq!(results[0].skipped_count, 1);
    assert_eq!(results[1].total_bytes, 0);

    request_task_cancel(&mut reg, "scan-cleanup-rules".to_string());
    let outcomes = vec![RuleScanOutcome::Scanned(vec![summary(1, 1, 0)]), RuleScanOutcome::Cancelled];
    assert_eq!(scan_cleanup_rules(&mut reg, &rules, outcomes).err(), Some("scan-cleanup-rules cancelled".to_string()));
    assert!(!is_task_cancelled(&reg, "scan-cleanup-rules"));
}

#[test]
fn preview_items_stop_on_cancel() {
    let rules = vec![cleanup_rule("temp-user", "safe", "delete")];
    let mut reg = CancelRegistry::new();
    request_task_cancel(&mut reg, "cleanup-preview".to_string());
    let items = cleanup_preview_items(&mut reg, &rules, vec![RuleScanOutcome::Scanned(vec![summary(7, 2, 0)])]).ok().unwrap();
    assert!(!is_task_cancelled(&reg, "cleanup-preview"));
    assert_eq!(items.len(), 1);
    assert_eq!(items[0].estimated_bytes, 7);
    let preview = build_cleanup_preview(items);
    assert!(!preview.executable);
    assert_eq!(
        cleanup_preview_items(&mut reg, &rules, vec![RuleScanOutcome::Cancelled]).err(),
        Some("cleanup-preview cancelled".to_string())
    );
}
