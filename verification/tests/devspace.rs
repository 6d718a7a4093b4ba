use clearc::commands::devspace::{
    blocked_item_failure, create_devspace_env_migration_plan, create_devspace_junction_plan, build_junction_plan_item,
    check_copied_size, check_env_confirmation, check_env_plan_executable, check_junction_confirmation,
    check_junction_removal, check_junction_restorable, check_junction_source, devspace_env_dir_name,
    devspace_scan_result, env_restore_action, finish_devspace_env_migration, finish_devspace_env_rollback,
    execute_devspace_env_migration, execute_devspace_junction_migration, finish_devspace_junction_rollback, find_devspace_rule,
    get_devspace_targets, is_under_system_root, junction_link_failure_message, junction_target_path,
    prepare_devspace_env_rollback, prepare_devspace_junction_rollback, record_env_outcome, safe_path_segment,
    env_names_unique, sorted_env_names, source_leaf_name, source_removal_failure_message, EnvChangeOutcome,
    EnvRestore, JunctionFacts, DEVSPACE_ENV_CONFIRMATION, DEVSPACE_ENV_ROLLBACK_CONFIRMATION,
    DEVSPACE_JUNCTION_ROLLBACK_CONFIRMATION,
};
use clearc::commands::failures::Tally;
use clearc::json::JsonValue;
use clearc::native::rules::{DevSpaceRule, RuleCatalog};
use clearc::native::scan::PathScanSummary;
use clearc::storage::logs::OperationLogEntry;

fn rule(id: &str, risk: &str, action: &str, mv: &str, fallback: &str, env: Vec<(&str, &str)>) -> DevSpaceRule {
    DevSpaceRule {
        id: id.to_string(),
        name: format!("{} tool", id),
        paths: vec!["%USERPROFILE%\\.cargo".to_string()],
        risk: risk.to_string(),
        category: "rust".to_string(),
        preferred_action: action.to_string(),
        preferred_move: mv.to_string(),
        env: env.into_iter().map(|(k, v)| (k.to_string(), v.to_string())).collect(),
        fallback: fallback.to_string(),
        rollback: true,
    }
}

fn summary(resolved: &str, exists: bool, bytes: u64) -> PathScanSummary {
    PathScanSummary {
        raw_path: resolved.to_string(),
        resolved_path: resolved.to_string(),
        exists,
        accessible: exists,
        file_count: 3,
        dir_count: 1,
        total_bytes: bytes,
        skipped_count: 0,
        error: None,
    }
}

#[test]
fn maps_env_names_to_target_dirs() {
    assert_eq!(devspace_env_dir_name("ANDROID_USER_HOME"), "android");
    assert_eq!(devspace_env_dir_name("CARGO_HOME"), "cargo");
    assert_eq!(devspace_env_dir_name("RUSTUP_HOME"), "rustup");
}

#[test]
fn sorts_env_names_for_stable_plans() {
    let env = vec![
        ("RUSTUP_HOME".to_string(), "D:\\DevData\\rustup".to_string()),
        ("CARGO_HOME".to_string(), "D:\\DevData\\cargo".to_string()),
    ];

    assert_eq!(sorted_env_names(&env), vec!["CARGO_HOME".to_string(), "RUSTUP_HOME".to_string()]);
}

#[test]
fn sanitizes_junction_target_segments() {
    assert_eq!(safe_path_segment("bad:name*"), "bad-name-");
}

#[test]
fn reads_source_leaf_name() {
    assert_eq!(source_leaf_name("C:\\Users\\me\\.bun"), ".bun");
}

#[test]
fn lowercases_unknown_env_names() {
    assert_eq!(devspace_env_dir_name("GRADLE_USER_HOME"), "gradle_user_home");
    assert_eq!(devspace_env_dir_name("Npm_Cache"), "npm_cache");
}

#[test]
fn sorted_env_names_are_ascending_whatever_the_order() {
    let a = vec![
        ("b".to_string(), String::new()),
        ("B".to_string(), String::new()),
        ("a".to_string(), String::new()),
        ("ab".to_string(), String::new()),
    ];
    let mut b = a.clone();
    b.reverse();
    let expected = vec!["B".to_string(), "a".to_string(), "ab".to_string(), "b".to_string()];
    assert_eq!(sorted_env_names(&a), expected);
    assert_eq!(sorted_env_names(&b), expected);
    assert_eq!(sorted_env_names(&Vec::new()), Vec::<String>::new());
}

#[test]
fn leaf_name_falls_back_to_source() {
    assert_eq!(source_leaf_name("C:\\"), "source");
    assert_eq!(source_leaf_name(""), "source");
    assert_eq!(source_leaf_name("D:\\cache\\ \\"), "source");
    assert_eq!(source_leaf_name("D:\\cache\\npm\\"), "npm");
}

#[test]
fn finds_devspace_rules_by_id() {
    let catalog = RuleCatalog {
        rules_dir: "rules".to_string(),
        cleanup: vec![],
        migration: vec![],
        devspace: vec![rule("cargo", "low", "move", "env", "", vec![]), rule("bun", "low", "move", "junction", "", vec![])],
    };
    assert_eq!(find_devspace_rule(&catalog, "bun"), Ok(1));
    assert_eq!(find_devspace_rule(&catalog, "npm"), Err("devspace rule npm not found".to_string()));
    let targets = get_devspace_targets(&catalog);
    assert_eq!(targets.len(), 2);
    assert_eq!(targets[1].id, "bun");
    assert_eq!(targets[1].preferred_action, "move");
}

#[test]
fn system_root_detection_ignores_case() {
    assert!(is_under_system_root("c:\\DevData", None));
    assert!(is_under_system_root("E:\\x", Some("e:")));
    assert!(!is_under_system_root("D:\\DevData", None));
    assert!(!is_under_system_root("C:", None));
}

#[test]
fn env_plan_lists_sorted_variables_and_blockers() {
    let r = rule("rust", "low", "move", "env", "", vec![("RUSTUP_HOME", ""), ("CARGO_HOME", "")]);
    let (plan, entry) = create_devspace_env_migration_plan(
        "devspace-env-migration-plan-5",
        5,
        &r,
        "D:\\DevData",
        vec![Some("C:\\Users\\me\\.cargo".to_string()), None],
        None,
    );
    assert!(plan.can_execute);
    assert!(plan.blockers.is_empty());
    assert!(plan.warnings.is_empty());
    assert_eq!(plan.variables.len(), 2);
    assert_eq!(plan.variables[0].name, "CARGO_HOME");
    assert_eq!(plan.variables[0].new_value, "D:\\DevData\\cargo");
    assert_eq!(plan.variables[0].original_value, Some("C:\\Users\\me\\.cargo".to_string()));
    assert_eq!(plan.variables[1].target_path, "D:\\DevData\\rustup");
    assert_eq!(plan.variables[1].original_value, None);
    assert_eq!(entry.operation_type, "devspace-env-migration-plan");
    assert_eq!(entry.summary, "开发工具环境变量迁移计划：rust tool");
    assert!(!entry.rollbackable);

    let high = rule("x", "high", "move", "junction", "", vec![]);
    let (plan, _) = create_devspace_env_migration_plan("p", 1, &high, "C:\\Dev", vec![], None);
    assert!(!plan.can_execute);
    assert_eq!(plan.blockers, vec!["高风险目录不允许自动迁移".to_string(), "该工具不支持环境变量迁移".to_string()]);
    assert_eq!(plan.warnings, vec!["目标根目录仍在系统盘".to_string()]);
    assert_eq!(
        check_env_plan_executable(&plan),
        Err("devspace env migration precheck failed: 高风险目录不允许自动迁移，该工具不支持环境变量迁移".to_string())
    );
}

#[test]
fn env_plan_keeps_read_only_tools() {
    let cred = rule("aws", "low", "readonly", "env", "", vec![("AWS_HOME", "")]);
    let (plan, _) = create_devspace_env_migration_plan("p", 1, &cred, "D:\\Dev", vec![None], None);
    assert!(!plan.can_execute);
    assert_eq!(plan.blockers, vec!["该规则当前推荐只读，不开放环境变量迁移".to_string()]);
    assert!(check_env_plan_executable(&plan).is_err());
    // A cache whose rule recommends cleaning may still be moved.
    let cache = rule("npm", "low", "cleanup", "env", "", vec![("NPM_HOME", "")]);
    let (plan, _) = create_devspace_env_migration_plan("p", 1, &cache, "D:\\Dev", vec![None], None);
    assert!(plan.can_execute);
    assert!(plan.blockers.is_empty());
}

#[test]
fn env_confirmation_is_checked() {
    assert_eq!(check_env_confirmation(DEVSPACE_ENV_CONFIRMATION), Ok(()));
    assert_eq!(check_env_confirmation("yes"), Err("invalid devspace env migration confirmation".to_string()));
    assert_eq!(check_junction_confirmation("yes"), Err("invalid devspace junction confirmation".to_string()));
}

#[test]
fn env_migration_records_outcomes_and_rolls_back_once() {
    let r = rule("rust", "low", "move", "env", "", vec![("CARGO_HOME", ""), ("RUSTUP_HOME", "")]);
    let (plan, _) = create_devspace_env_migration_plan("plan", 1, &r, "D:\\Dev", vec![Some("C:\\c".to_string()), None], None);
    let mut tally = Tally::new(2);
    record_env_outcome(&mut tally, &plan.variables[0], &EnvChangeOutcome::Written);
    record_env_outcome(&mut tally, &plan.variables[1], &EnvChangeOutcome::DirFailed("denied".to_string()));
    assert_eq!(tally.done(), 1);
    assert_eq!(tally.skipped(), 1);
    assert!(tally.is_complete());
    assert_eq!(tally.failures()[0].path, "D:\\Dev\\rustup");
    assert_eq!(tally.failures()[0].reason, "failed to create target dir: denied");
    let (step_entry, step_result) = finish_devspace_env_migration(&plan, tally, "devspace-env-migration-9", 9);
    let outcomes = vec![EnvChangeOutcome::Written, EnvChangeOutcome::DirFailed("denied".to_string())];
    let (entry, result) = execute_devspace_env_migration(&plan, &outcomes, "devspace-env-migration-9", 9);
    assert_eq!(step_entry.summary, entry.summary);
    assert_eq!(step_entry.status, entry.status);
    assert_eq!(step_result.changed_count, result.changed_count);
    assert_eq!(result.changed_count, 1);
    assert_eq!(result.skipped_count, 1);
    assert_eq!(result.failures.len(), 1);
    assert_eq!(result.failures[0].reason, "failed to create target dir: denied");
    assert_eq!(result.status, "completed-with-skips");
    assert_eq!(entry.status, "completed-with-skips");
    assert!(entry.rollbackable);
    assert_eq!(entry.summary, "开发工具环境变量迁移：rust tool，修改 1 项，跳过 1 项");

    let mut entries = vec![entry];
    let restored = match prepare_devspace_env_rollback(&entries, "devspace-env-migration-9", DEVSPACE_ENV_ROLLBACK_CONFIRMATION) {
        Ok(v) => v,
        Err(e) => panic!("rollback refused: {}", e),
    };
    assert_eq!(restored.len(), 2);
    assert_eq!(restored[0].name, "CARGO_HOME");
    assert_eq!(restored[0].original_value, Some("C:\\c".to_string()));
    assert_eq!(restored[1].original_value, None);
    assert!(matches!(env_restore_action(&restored[0]), EnvRestore::Write(v) if v == "C:\\c"));
    assert!(matches!(env_restore_action(&restored[1]), EnvRestore::Delete));

    let mut tally = Tally::new(2);
    tally.record_result("CARGO_HOME", Ok(()));
    tally.record_result("RUSTUP_HOME", Err("access denied".to_string()));
    let (record, result) = finish_devspace_env_rollback("devspace-env-migration-9", "devspace-env-migration-rollback-10", 10, tally);
    assert_eq!(result.status, "rolled-back-with-skips");
    assert_eq!(result.restored_count, 1);
    assert_eq!(record.summary, "开发工具环境变量迁移回滚：恢复 1 项，跳过 1 项");
    entries.push(record);
    assert_eq!(
        prepare_devspace_env_rollback(&entries, "devspace-env-migration-9", DEVSPACE_ENV_ROLLBACK_CONFIRMATION).err(),
        Some("devspace env migration already has a rollback record".to_string())
    );
}

#[test]
fn env_rollback_refusals() {
    let entries: Vec<OperationLogEntry> = vec![OperationLogEntry {
        id: "a".to_string(),
        operation_type: "devspace-env-migration".to_string(),
        status: "completed".to_string(),
        created_at_ms: 1,
        rollbackable: true,
        summary: String::new(),
        details: JsonValue::Object(vec![("variables".to_string(), JsonValue::Str("x".to_string()))]),
    }];
    assert_eq!(
        prepare_devspace_env_rollback(&entries, "a", "no").err(),
        Some("invalid devspace env rollback confirmation".to_string())
    );
    assert_eq!(
        prepare_devspace_env_rollback(&entries, "b", DEVSPACE_ENV_ROLLBACK_CONFIRMATION).err(),
        Some("devspace env migration b not found".to_string())
    );
    assert_eq!(
        prepare_devspace_env_rollback(&entries, "a", DEVSPACE_ENV_ROLLBACK_CONFIRMATION).err(),
        Some("failed to parse variables: expected a list of variable changes".to_string())
    );
    let mut other = entries;
    other[0].operation_type = "cleanup-quarantine".to_string();
    assert_eq!(
        prepare_devspace_env_rollback(&other, "a", DEVSPACE_ENV_ROLLBACK_CONFIRMATION).err(),
        Some("operation is not a rollbackable devspace env migration".to_string())
    );
    other[0].operation_type = "devspace-env-migration".to_string();
    other[0].details = JsonValue::Object(vec![]);
    assert_eq!(
        prepare_devspace_env_rollback(&other, "a", DEVSPACE_ENV_ROLLBACK_CONFIRMATION).err(),
        Some("devspace env log missing variables".to_string())
    );
    // A change recorded as a list of its four values is read too.
    other[0].details = JsonValue::Object(vec![(
        "variables".to_string(),
        JsonValue::Array(vec![JsonValue::Array(vec![
            JsonValue::Str("CARGO_HOME".to_string()),
            JsonValue::Null,
            JsonValue::Str("D:\\c".to_string()),
            JsonValue::Str("D:\\c".to_string()),
        ])]),
    )]);
    let read = prepare_devspace_env_rollback(&other, "a", DEVSPACE_ENV_ROLLBACK_CONFIRMATION).ok().unwrap();
    assert_eq!(read[0].name, "CARGO_HOME");
    assert_eq!(read[0].original_value, None);
}

#[test]
fn junction_items_compute_target_and_blockers() {
    assert_eq!(
        junction_target_path("D:\\DevData", "bun:cache", "C:\\Users\\me\\.bun"),
        "D:\\DevData\\junctions\\bun-cache\\.bun"
    );
    let facts = JunctionFacts { target_exists: false, target_drive_exists: true, target_space: Some((100, 50)), already_junction: false };
    let item = build_junction_plan_item("D:\\DevData", "bun", "%USERPROFILE%\\.bun", summary("C:\\Users\\me\\.bun", true, 10), &facts);
    assert_eq!(item.raw_source_path, "%USERPROFILE%\\.bun");
    assert_eq!(item.target_path, "D:\\DevData\\junctions\\bun\\.bun");
    assert_eq!(item.target_free_bytes, 50);
    assert!(item.blockers.is_empty());
    assert!(blocked_item_failure(&item).is_none());

    let facts = JunctionFacts { target_exists: true, target_drive_exists: false, target_space: None, already_junction: true };
    let item = build_junction_plan_item("D:\\DevData", "bun", "raw", summary("C:\\missing", false, 0), &facts);
    assert_eq!(
        item.blockers,
        vec![
            "源路径不存在".to_string(),
            "源路径不可访问".to_string(),
            "目标路径已存在".to_string(),
            "目标盘不存在".to_string(),
            "目标盘剩余空间不足".to_string(),
            "源路径已经是 Junction 或符号链接".to_string(),
        ]
    );
    let f = blocked_item_failure(&item).unwrap();
    assert_eq!(f.path, "C:\\missing");
    assert!(f.reason.starts_with("源路径不存在，源路径不可访问"));
}

#[test]
fn junction_free_space_must_exceed_size() {
    let facts = JunctionFacts { target_exists: false, target_drive_exists: true, target_space: Some((100, 10)), already_junction: false };
    let item = build_junction_plan_item("D:\\", "bun", "raw", summary("C:\\x", true, 10), &facts);
    assert_eq!(item.blockers, vec!["目标盘剩余空间不足".to_string()]);
}

#[test]
fn junction_plan_blockers_follow_rule_and_items() {
    let r = rule("node", "high", "readonly", "env", "none", vec![]);
    let (plan, entry) = create_devspace_junction_plan("junction-plan-1", 1, &r, "D:\\Dev", vec![], None);
    assert_eq!(
        plan.blockers,
        vec![
            "高风险目录不允许自动生成 Junction 执行预案".to_string(),
            "该工具不支持 Junction 迁移预案".to_string(),
            "该规则当前推荐只读，Junction 预案仅用于评估，不开放执行".to_string(),
            "规则没有可检测路径".to_string(),
        ]
    );
    assert!(!plan.can_execute);
    assert_eq!(entry.summary, "开发工具 Junction 迁移预案：node tool");

    let r = rule("bun", "low", "move", "env", "junction", vec![]);
    let facts = JunctionFacts { target_exists: false, target_drive_exists: true, target_space: Some((100, 50)), already_junction: false };
    let good = build_junction_plan_item("D:\\Dev", "bun", "raw", summary("C:\\b", true, 1), &facts);
    let (plan, _) = create_devspace_junction_plan("p", 1, &r, "D:\\Dev", vec![good], None);
    assert!(plan.can_execute);

    let bad_facts = JunctionFacts { target_exists: true, target_drive_exists: true, target_space: Some((100, 50)), already_junction: false };
    let bad = build_junction_plan_item("D:\\Dev", "bun", "raw", summary("C:\\b", true, 1), &bad_facts);
    let r = rule("bun", "low", "cleanup", "junction", "", vec![]);
    let (plan, _) = create_devspace_junction_plan("p", 1, &r, "C:\\Dev", vec![bad], None);
    assert_eq!(
        plan.blockers,
        vec!["该规则当前推荐清理，不开放 Junction 执行".to_string(), "存在路径级阻塞项".to_string()]
    );
    assert_eq!(plan.warnings, vec!["目标根目录仍在系统盘".to_string()]);
}

#[test]
fn junction_move_checks_and_messages() {
    assert_eq!(check_junction_source(true, true, false, false), Ok(()));
    assert_eq!(check_junction_source(false, true, true, true), Err("source path does not exist".to_string()));
    assert_eq!(check_junction_source(true, false, false, false), Err("source path is not a directory".to_string()));
    assert_eq!(check_junction_source(true, true, true, false), Err("source path is already a junction or symlink".to_string()));
    assert_eq!(check_junction_source(true, true, false, true), Err("target path already exists".to_string()));
    assert_eq!(
        junction_link_failure_message("denied", Ok(())),
        "failed to create junction and restored source: denied"
    );
    assert_eq!(
        junction_link_failure_message("denied", Err("busy".to_string())),
        "failed to create junction: denied; failed to restore source: busy"
    );
    assert_eq!(check_copied_size(5, 5), Ok(()));
    assert_eq!(check_copied_size(5, 12), Err("copied size mismatch: expected 5 bytes, copied 12 bytes".to_string()));
    assert_eq!(source_removal_failure_message("busy", Ok(())), "failed to remove source after copy: busy");
    assert_eq!(
        source_removal_failure_message("busy", Err("gone".to_string())),
        "failed to remove source after copy: busy; copied target cleanup also failed: gone"
    );
    assert_eq!(check_junction_removal(true, true), Ok(true));
    assert_eq!(check_junction_removal(false, false), Ok(false));
    assert_eq!(check_junction_removal(true, false), Err("source path exists but is not a junction or symlink".to_string()));
    assert_eq!(check_junction_restorable(true, false), Ok(()));
    assert_eq!(check_junction_restorable(false, false), Err("target path does not exist".to_string()));
    assert_eq!(check_junction_restorable(true, true), Err("source path still exists after removing junction".to_string()));
}

#[test]
fn junction_migration_roundtrips_through_its_record() {
    let r = rule("bun", "low", "move", "junction", "", vec![]);
    let facts = JunctionFacts { target_exists: false, target_drive_exists: true, target_space: Some((100, 50)), already_junction: false };
    let b = build_junction_plan_item("D:\\Dev", "bun", "raw", summary("C:\\b", true, 1), &facts);
    let c = build_junction_plan_item("D:\\Dev", "bun", "raw", summary("C:\\c", true, 1), &facts);
    let (plan, _) = create_devspace_junction_plan("p", 1, &r, "D:\\Dev", vec![b, c], None);
    assert!(plan.can_execute);
    let outcomes = vec![Some(Ok(7)), Some(Ok(u64::MAX))];
    let (entry, result) = execute_devspace_junction_migration(&plan, &outcomes, "devspace-junction-migration-3", 3);
    assert_eq!(result.moved_bytes, u64::MAX);
    assert!(entry.rollbackable);
    assert_eq!(result.moved_count, 2);
    assert_eq!(result.status, "completed");
    assert_eq!(entry.summary, "开发工具 Junction 迁移：bun tool，迁移 2 项，跳过 0 项");
    let mut entries = vec![entry];
    let moved = prepare_devspace_junction_rollback(&entries, "devspace-junction-migration-3", DEVSPACE_JUNCTION_ROLLBACK_CONFIRMATION)
        .ok()
        .unwrap();
    assert_eq!(moved.len(), 2);
    assert_eq!(moved[0].source_path, "C:\\b");
    assert_eq!(moved[0].target_path, "D:\\Dev\\junctions\\bun\\b");
    assert_eq!(moved[0].bytes, 7);
    assert_eq!(moved[1].bytes, u64::MAX);

    let mut tally = Tally::new(2);
    tally.record_result("C:\\b", Ok(()));
    tally.record_result("C:\\c", Ok(()));
    let (record, result) = finish_devspace_junction_rollback("devspace-junction-migration-3", "r-4", 4, tally);
    assert_eq!(result.status, "rolled-back");
    assert_eq!(record.operation_type, "devspace-junction-migration-rollback");
    entries.push(record);
    assert_eq!(
        prepare_devspace_junction_rollback(&entries, "devspace-junction-migration-3", DEVSPACE_JUNCTION_ROLLBACK_CONFIRMATION).err(),
        Some("devspace junction migration already has a rollback record".to_string())
    );
}

#[test]
fn junction_migration_without_moves_is_not_rollbackable() {
    let r = rule("bun", "low", "move", "junction", "", vec![]);
    let facts = JunctionFacts { target_exists: false, target_drive_exists: true, target_space: Some((100, 50)), already_junction: false };
    let busy = build_junction_plan_item("D:\\Dev", "bun", "raw", summary("C:\\b", true, 1), &facts);
    let missing = build_junction_plan_item("D:\\Dev", "bun", "raw", summary("C:\\gone", false, 0), &facts);
    assert!(missing.blockers.len() > 0);
    let (plan, _) = create_devspace_junction_plan("p", 1, &r, "D:\\Dev", vec![busy, missing], None);
    let outcomes = vec![Some(Err("busy".to_string())), None];
    let (entry, result) = execute_devspace_junction_migration(&plan, &outcomes, "m", 3);
    assert_eq!(result.moved_count, 0);
    assert_eq!(result.skipped_count, 2);
    assert_eq!(result.failures[0].path, "C:\\b");
    assert_eq!(result.failures[0].reason, "busy");
    assert_eq!(result.failures[1].path, "C:\\gone");
    assert_eq!(result.failures[1].reason, "源路径不存在，源路径不可访问");
    assert!(!entry.rollbackable);
    assert_eq!(result.status, "completed-with-skips");
    let entries = vec![entry];
    assert_eq!(
        prepare_devspace_junction_rollback(&entries, "m", DEVSPACE_JUNCTION_ROLLBACK_CONFIRMATION).err(),
        Some("operation is not a rollbackable devspace junction migration".to_string())
    );
}

#[test]
fn devspace_scan_result_sums_paths() {
    let r = rule("bun", "low", "move", "junction", "", vec![]);
    let res = devspace_scan_result(&r, vec![summary("C:\\a", true, 10), summary("C:\\b", false, 5)]);
    assert!(res.exists);
    assert_eq!(res.total_bytes, 15);
    assert_eq!(res.file_count, 6);
    assert_eq!(res.category, "rust");
    let none = devspace_scan_result(&r, vec![]);
    assert!(!none.exists);
    assert_eq!(none.total_bytes, 0);
}

#[test]
fn env_names_must_be_unique() {
    let env = vec![("CARGO_HOME".to_string(), "".to_string()), ("RUSTUP_HOME".to_string(), "".to_string())];
    assert!(env_names_unique(&env));
    let twice = vec![("CARGO_HOME".to_string(), "a".to_string()), ("CARGO_HOME".to_string(), "b".to_string())];
    assert!(!env_names_unique(&twice));
    assert!(env_names_unique(&Vec::new()));
}
