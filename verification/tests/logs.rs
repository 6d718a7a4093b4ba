use clearc::commands::cleanup::{finish_quarantine_cleanup, QuarantineRun};
use clearc::commands::failures::Tally;
use clearc::commands::logs::{
    export_operation_failures, csv_escape, extract_failures, finish_quarantine_rollback, get_log_summary,
    prepare_quarantine_rollback, rollback_targets, safe_file_name, sort_newest_first, ROLLBACK_CONFIRMATION,
};
use clearc::json::JsonValue;
use clearc::storage::logs::{new_operation_id, OperationLogEntry};

fn obj(fields: Vec<(&str, JsonValue)>) -> JsonValue {
    JsonValue::Object(fields.into_iter().map(|(k, v)| (k.to_string(), v)).collect())
}

fn s(v: &str) -> JsonValue {
    JsonValue::Str(v.to_string())
}

fn entry(id: &str, kind: &str, status: &str, at: u128, rollbackable: bool, details: JsonValue) -> OperationLogEntry {
    OperationLogEntry {
        id: id.to_string(),
        operation_type: kind.to_string(),
        status: status.to_string(),
        created_at_ms: at,
        rollbackable,
        summary: format!("{} summary", id),
        details,
    }
}

#[test]
fn extracts_failures_from_details() {
    let failures = extract_failures(&obj(vec![(
        "failures",
        JsonValue::Array(vec![
            obj(vec![("path", s("C:\\a")), ("reason", s("busy"))]),
            obj(vec![("path", s("D:\\b")), ("reason", s("exists"))]),
        ]),
    )]));

    assert_eq!(failures.len(), 2);
    assert_eq!(failures[0].reason, "busy");
}

#[test]
fn escapes_csv_values() {
    assert_eq!(csv_escape("plain"), "plain");
    assert_eq!(csv_escape("a,b"), "\"a,b\"");
    assert_eq!(csv_escape("a\"b"), "\"a\"\"b\"");
}

#[test]
fn sanitizes_export_file_names() {
    assert_eq!(safe_file_name("bad:name*"), "bad-name-");
}

#[test]
fn csv_escape_quotes_line_breaks() {
    assert_eq!(csv_escape("a\nb"), "\"a\nb\"");
    assert_eq!(csv_escape("a\rb"), "\"a\rb\"");
    assert_eq!(csv_escape(""), "");
}

#[test]
fn extracts_failures_with_defaults() {
    let failures = extract_failures(&obj(vec![("failures", JsonValue::Array(vec![obj(vec![]), s("x")]))]));
    assert_eq!(failures.len(), 2);
    assert_eq!(failures[0].path, "");
    assert_eq!(failures[0].reason, "unknown");
    assert!(extract_failures(&obj(vec![])).is_empty());
    assert!(extract_failures(&obj(vec![("failures", s("none"))])).is_empty());
}

#[test]
fn operation_ids_join_prefix_and_time() {
    assert_eq!(new_operation_id("cleanup-plan", 1700000000123), "cleanup-plan-1700000000123");
    assert_eq!(new_operation_id("x", 0), "x-0");
}

#[test]
fn sorts_newest_first_keeping_ties_in_order() {
    let entries = vec![
        entry("a", "t", "planned", 1, false, obj(vec![])),
        entry("b", "t", "planned", 3, false, obj(vec![])),
        entry("c", "t", "planned", 1, false, obj(vec![])),
        entry("d", "t", "planned", 2, false, obj(vec![])),
    ];
    let ids: Vec<String> = sort_newest_first(entries).into_iter().map(|e| e.id).collect();
    assert_eq!(ids, vec!["b", "d", "a", "c"]);
}

#[test]
fn log_summary_counts_and_lists_recent() {
    let mut entries = Vec::new();
    for i in 0..25u128 {
        entries.push(entry(&format!("op-{}", i), "cleanup-plan", "planned", i, false, obj(vec![])));
    }
    entries.push(entry(
        "q",
        "cleanup-quarantine",
        "completed-with-skips",
        100,
        true,
        obj(vec![("failures", JsonValue::Array(vec![obj(vec![("path", s("p")), ("reason", s("r"))])]))]),
    ));
    entries.push(entry("r", "rollback", "rolled-back", 101, false, obj(vec![("rollbackOf", s("q"))])));
    let summary = get_log_summary(entries);
    assert_eq!(summary.total_operations, 27);
    assert_eq!(summary.rollbackable_operations, 1);
    assert_eq!(summary.planned_operations, 25);
    assert_eq!(summary.failed_operations, 1);
    assert_eq!(summary.recent.len(), 20);
    assert_eq!(summary.recent[0].id, "r");
    assert_eq!(summary.recent[1].id, "q");
    assert!(summary.recent[1].rollbackable);
    assert!(!summary.recent[1].can_rollback);
    assert_eq!(summary.recent[1].failure_count, 1);
}

#[test]
fn exports_failures_as_csv() {
    let entries = vec![entry(
        "op:1",
        "cleanup-quarantine",
        "completed-with-skips",
        5,
        true,
        obj(vec![("failures", JsonValue::Array(vec![obj(vec![("path", s("C:\\a,b")), ("reason", s("busy"))])]))]),
    )];
    let export = export_operation_failures(&entries, "op:1").ok().unwrap();
    assert_eq!(export.file_name, "failures-op-1.csv");
    assert_eq!(export.exported_count, 1);
    assert_eq!(
        export.content,
        "operationId,operationType,status,path,reason\nop:1,cleanup-quarantine,completed-with-skips,\"C:\\a,b\",busy\n"
    );
    assert_eq!(export_operation_failures(&entries, "nope").err(), Some("operation nope not found".to_string()));
    let quiet = vec![entry("x", "t", "completed", 1, false, obj(vec![]))];
    assert_eq!(export_operation_failures(&quiet, "x").err(), Some("operation has no failure items to export".to_string()));
}

#[test]
fn quarantine_cleanup_roundtrips_through_rollback() {
    let mut run = QuarantineRun::new();
    run.add_entries(2);
    assert_eq!(run.record_move("C:\\Temp\\a.tmp", "D:\\q\\op\\a.tmp", Ok(10)), Ok(()));
    assert_eq!(run.record_move("C:\\Temp\\b.tmp", "D:\\q\\op\\b.tmp", Err("busy".to_string())), Ok(()));
    let (record, result) = finish_quarantine_cleanup(run, "cleanup-quarantine-7", "D:\\q\\op", 7);
    assert_eq!(result.moved_count, 1);
    assert_eq!(result.skipped_count, 1);
    assert_eq!(result.status, "completed-with-skips");
    let mut entries = vec![record];
    let items = prepare_quarantine_rollback(&entries, "cleanup-quarantine-7", ROLLBACK_CONFIRMATION).ok().unwrap();
    assert_eq!(items.len(), 1);
    assert_eq!(items[0].original_path, "C:\\Temp\\a.tmp");
    assert_eq!(items[0].quarantine_path, "D:\\q\\op\\a.tmp");

    let mut tally = Tally::new(1);
    tally.record_result("C:\\Temp\\a.tmp", Ok(()));
    let (rollback, result) = finish_quarantine_rollback("cleanup-quarantine-7", "rollback-8", 8, tally);
    assert_eq!(result.status, "rolled-back");
    assert_eq!(rollback.summary, "隔离清理回滚：恢复 1 项，跳过 0 项");
    entries.push(rollback);
    assert_eq!(rollback_targets(&entries), vec!["cleanup-quarantine-7".to_string()]);
    assert_eq!(
        prepare_quarantine_rollback(&entries, "cleanup-quarantine-7", ROLLBACK_CONFIRMATION).err(),
        Some("operation already has a rollback record".to_string())
    );
}

#[test]
fn quarantine_rollback_refusals() {
    let entries = vec![
        entry("plan", "cleanup-plan", "planned", 1, false, obj(vec![])),
        entry("q", "cleanup-quarantine", "completed", 2, true, obj(vec![])),
        entry("bad", "cleanup-quarantine", "completed", 3, true, obj(vec![("movedItems", JsonValue::Array(vec![s("x")]))])),
    ];
    assert_eq!(prepare_quarantine_rollback(&entries, "q", "yes").err(), Some("invalid rollback confirmation".to_string()));
    assert_eq!(
        prepare_quarantine_rollback(&entries, "zz", ROLLBACK_CONFIRMATION).err(),
        Some("operation zz not found".to_string())
    );
    assert_eq!(
        prepare_quarantine_rollback(&entries, "plan", ROLLBACK_CONFIRMATION).err(),
        Some("operation is not rollbackable".to_string())
    );
    assert_eq!(
        prepare_quarantine_rollback(&entries, "q", ROLLBACK_CONFIRMATION).err(),
        Some("operation log does not include movedItems".to_string())
    );
    assert_eq!(
        prepare_quarantine_rollback(&entries, "bad", ROLLBACK_CONFIRMATION).err(),
        Some("failed to parse movedItems: expected a list of items with originalPath and quarantinePath".to_string())
    );
}

fn read_csv_field(field: &str) -> String {
    if field.len() >= 2 && field.starts_with('"') && field.ends_with('"') {
        field[1..field.len() - 1].replace("\"\"", "\"")
    } else {
        field.to_string()
    }
}

#[test]
fn csv_fields_read_back_unchanged() {
    for value in ["plain", "a,b", "say \"hi\"", "line\nbreak", "\"", "", "x\r\ny"] {
        assert_eq!(read_csv_field(&csv_escape(value)), value);
    }
}
