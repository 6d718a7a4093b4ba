use clearc::commands::failures::Tally;
use clearc::commands::migration::{
    create_user_folder_migration_plan, build_user_folder_target, check_copy_cancel, check_migration_confirmation,
    cancel_user_folder_migration, check_plan_executable, configured_path, precheck_user_folder_migration, finish_user_folder_migration,
    finish_user_folder_rollback, get_migration_targets, is_cancellation, is_on_system_drive,
    migration_target_path, prepare_user_folder_rollback, registry_value_name, safe_folder_dir_name, target_drive,
    MigrationRun, PrecheckFacts, MIGRATION_CONFIRMATION, MIGRATION_ROLLBACK_CONFIRMATION,
};
use clearc::commands::tasks::{request_task_cancel, CancelRegistry};
use clearc::native::paths::drive_root_for_path;
use clearc::native::registry::ShellFolderValue;
use clearc::native::rules::{MigrationRule, RuleCatalog};

fn downloads_rule() -> MigrationRule {
    MigrationRule {
        id: "downloads".to_string(),
        name: "下载".to_string(),
        source: "%USERPROFILE%\\Downloads".to_string(),
        risk: "low".to_string(),
        strategy: "registry".to_string(),
        rollback: true,
    }
}

fn facts(source_exists: bool, target_exists: bool, drive: bool, total: u64, free: u64, size: u64) -> PrecheckFacts {
    PrecheckFacts {
        source_exists,
        target_exists,
        target_drive_exists: drive,
        target_total_bytes: total,
        target_free_bytes: free,
        source_bytes: size,
    }
}

#[test]
fn maps_shell_folder_registry_values() {
    assert_eq!(registry_value_name("downloads"), "{374DE290-123F-4565-9164-39C4925E467B}");
    assert_eq!(registry_value_name("documents"), "Personal");
    assert_eq!(registry_value_name("pictures"), "My Pictures");
}

#[test]
fn maps_target_folder_names() {
    assert_eq!(safe_folder_dir_name("downloads", "下载"), "Downloads");
    assert_eq!(safe_folder_dir_name("desktop", "桌面"), "Desktop");
}

#[test]
fn detects_windows_drive_root() {
    assert_eq!(drive_root_for_path("D:\\Data\\Downloads"), Some("D:\\".to_string()));
}

#[test]
fn unknown_folders_keep_their_names() {
    assert_eq!(registry_value_name("games"), "games");
    assert_eq!(registry_value_name("music"), "My Music");
    assert_eq!(registry_value_name("videos"), "My Video");
    assert_eq!(safe_folder_dir_name("games", "游戏"), "游戏");
    assert_eq!(drive_root_for_path("relative\\path"), None);
}

#[test]
fn system_drive_and_target_drive() {
    assert!(is_on_system_drive("c:\\Users", None));
    assert!(is_on_system_drive("E:\\x", Some("e:")));
    assert!(!is_on_system_drive("D:\\x", None));
    assert_eq!(target_drive("D:\\Data\\Downloads", None), "D:\\");
    assert_eq!(target_drive("Data", Some("E:")), "E:\\");
    assert_eq!(target_drive("Data", None), "C:\\");
}

#[test]
fn migration_targets_and_user_folders() {
    let catalog = RuleCatalog { rules_dir: "rules".to_string(), cleanup: vec![], migration: vec![downloads_rule()], devspace: vec![] };
    let targets = get_migration_targets(&catalog);
    assert_eq!(targets.len(), 1);
    assert_eq!(targets[0].strategy, "registry");
    assert!(targets[0].rollback);
    let rule = downloads_rule();
    assert_eq!(configured_path(&rule, None), "%USERPROFILE%\\Downloads");
    assert_eq!(configured_path(&rule, Some("D:\\Down".to_string())), "D:\\Down");
    let t = build_user_folder_target(
        &rule,
        "D:\\Down".to_string(),
        "D:\\Down".to_string(),
        "C:\\Users\\me\\Downloads".to_string(),
        false,
        None,
    );
    assert_eq!(t.status, "missing");
    assert_eq!(t.registry_value, "{374DE290-123F-4565-9164-39C4925E467B}");
    assert!(!t.on_system_drive);
    assert_eq!(migration_target_path("E:\\Data", &rule), "E:\\Data\\Downloads");
}

#[test]
fn precheck_lists_blockers_in_order() {
    let rule = downloads_rule();
    let t = build_user_folder_target(&rule, "C:\\D".to_string(), "C:\\D".to_string(), "C:\\D".to_string(), true, None);
    let p = precheck_user_folder_migration(&rule, &t, "E:\\Downloads", &facts(true, false, true, 100, 50, 10), None);
    assert!(p.can_continue);
    assert!(p.has_enough_space);
    assert_eq!(p.writable_status, "not-verified");
    let p = precheck_user_folder_migration(&rule, &t, "C:\\Other", &facts(false, true, true, 0, 10, 10), None);
    assert!(!p.can_continue);
    assert_eq!(
        p.blockers,
        vec![
            "源目录不存在".to_string(),
            "目标目录已存在".to_string(),
            "目标盘不存在或无法读取容量".to_string(),
            "目标盘剩余空间不足".to_string(),
        ]
    );
    assert_eq!(p.warnings, vec!["目标路径仍在系统盘".to_string()]);
}

#[test]
fn migration_checks() {
    assert_eq!(check_migration_confirmation(MIGRATION_CONFIRMATION), Ok(()));
    assert_eq!(check_migration_confirmation("ok"), Err("invalid migration confirmation".to_string()));
    assert!(is_cancellation("migration-execute cancelled"));
    assert!(!is_cancellation("busy"));
    let mut registry = CancelRegistry::new();
    assert_eq!(check_copy_cancel(&registry, Some("migration-execute")), Ok(()));
    request_task_cancel(&mut registry, "migration-execute".to_string());
    assert_eq!(
        check_copy_cancel(&registry, Some("migration-execute")),
        Err("migration-execute cancelled".to_string())
    );
    assert_eq!(check_copy_cancel(&registry, None), Ok(()));
}

#[test]
fn user_folder_migration_roundtrips_through_rollback() {
    let rule = downloads_rule();
    let t = build_user_folder_target(&rule, "C:\\D".to_string(), "C:\\D".to_string(), "C:\\D".to_string(), true, None);
    let pre = precheck_user_folder_migration(&rule, &t, "E:\\Downloads", &facts(true, false, true, 100, 50, 10), None);
    let (plan, plan_entry) = create_user_folder_migration_plan(
        "user-folder-migration-plan-1",
        1,
        "downloads",
        pre,
        "{374DE290-123F-4565-9164-39C4925E467B}",
        Some(ShellFolderValue { value: "%USERPROFILE%\\Downloads".to_string(), value_type: "REG_EXPAND_SZ".to_string() }),
        3,
    );
    assert!(plan.can_execute);
    assert_eq!(check_plan_executable(&plan), Ok(()));
    assert_eq!(plan_entry.summary, "用户目录迁移计划：C:\\D -> E:\\Downloads");
    let mut run = MigrationRun::new(4);
    assert_eq!(run.record_move("C:\\D\\a.txt", "E:\\Downloads\\a.txt", 9, Ok(4)), Ok(()));
    assert_eq!(run.record_move("C:\\D\\b.txt", "E:\\Downloads\\b.txt", 1, Err("busy".to_string())), Ok(()));
    // An entry whose name is already taken in the target stays and is skipped.
    assert!(!run.check_destination("E:\\Downloads\\c.txt", true));
    assert!(run.check_destination("E:\\Downloads\\d.txt", false));
    run.record_nameless();
    assert!(run.is_complete());
    assert_eq!(run.tally().failures()[1].path, "E:\\Downloads\\c.txt");
    assert_eq!(run.tally().failures()[1].reason, "target item already exists");
    assert_eq!(run.moved_items()[0].bytes, 9);
    let (entry, result) = finish_user_folder_migration(&plan, run, Ok(()), "user-folder-migration-2", 2);
    assert_eq!(result.status, "completed-with-skips");
    assert_eq!(result.moved_count, 1);
    assert_eq!(result.skipped_count, 3);
    assert_eq!(result.moved_bytes, 4);
    assert_eq!(entry.summary, "用户目录迁移：C:\\D -> E:\\Downloads，移动 1 项，跳过 3 项");
    let mut entries = vec![plan_entry, entry];
    let input = prepare_user_folder_rollback(&entries, "user-folder-migration-2", MIGRATION_ROLLBACK_CONFIRMATION)
        .ok()
        .unwrap();
    assert_eq!(input.registry_value, "{374DE290-123F-4565-9164-39C4925E467B}");
    assert_eq!(input.original_registry_value, "%USERPROFILE%\\Downloads");
    assert_eq!(input.moved_items, vec![("C:\\D\\a.txt".to_string(), "E:\\Downloads\\a.txt".to_string())]);

    let mut tally = Tally::new(1);
    tally.record_result("C:\\D\\a.txt", Ok(()));
    let (record, result) = finish_user_folder_rollback(
        "user-folder-migration-2",
        "{374DE290-123F-4565-9164-39C4925E467B}",
        tally,
        Err("denied".to_string()),
        "user-folder-migration-rollback-3",
        3,
    );
    assert_eq!(result.status, "rolled-back-with-registry-failure");
    assert!(!result.restored_registry);
    assert_eq!(result.failures[0].reason, "failed to restore User Shell Folders: denied");
    entries.push(record);
    assert_eq!(
        prepare_user_folder_rollback(&entries, "user-folder-migration-2", MIGRATION_ROLLBACK_CONFIRMATION).err(),
        Some("migration already has a rollback record".to_string())
    );
}

#[test]
fn registry_failure_marks_migration() {
    let rule = downloads_rule();
    let t = build_user_folder_target(&rule, "C:\\D".to_string(), "C:\\D".to_string(), "C:\\D".to_string(), true, None);
    let pre = precheck_user_folder_migration(&rule, &t, "C:\\Downloads2", &facts(true, false, true, 100, 50, 10), None);
    let (plan, _) = create_user_folder_migration_plan("p", 1, "downloads", pre, "V", None, 0);
    let (entry, result) = finish_user_folder_migration(&plan, MigrationRun::new(0), Err("denied".to_string()), "m", 2);
    assert_eq!(result.status, "completed-with-registry-failure");
    assert_eq!(result.failures.len(), 1);
    assert_eq!(result.failures[0].path, "V");
    assert_eq!(result.failures[0].reason, "failed to update User Shell Folders: denied");
    // Without a recorded original value the rollback restores the source folder.
    let entries = vec![entry];
    let input = prepare_user_folder_rollback(&entries, "m", MIGRATION_ROLLBACK_CONFIRMATION).ok().unwrap();
    assert_eq!(input.original_registry_value, "C:\\D");
    assert!(input.moved_items.is_empty());
    assert_eq!(
        prepare_user_folder_rollback(&entries, "m", "no").err(),
        Some("invalid migration rollback confirmation".to_string())
    );
    assert_eq!(
        prepare_user_folder_rollback(&entries, "zz", MIGRATION_ROLLBACK_CONFIRMATION).err(),
        Some("migration zz not found".to_string())
    );
}

#[test]
fn plan_with_blockers_is_refused() {
    let rule = downloads_rule();
    let t = build_user_folder_target(&rule, "C:\\D".to_string(), "C:\\D".to_string(), "C:\\D".to_string(), false, None);
    let pre = precheck_user_folder_migration(&rule, &t, "E:\\Downloads", &facts(false, false, true, 100, 50, 10), None);
    let (plan, _) = create_user_folder_migration_plan("p", 1, "downloads", pre, "V", None, 0);
    assert_eq!(check_plan_executable(&plan), Err("migration precheck failed: 源目录不存在".to_string()));
}

#[test]
fn restore_and_destination_checks() {
    let ok = clearc::commands::failures::restore_precheck("E:\\D\\a", "C:\\D\\a", true, false, "migrated item does not exist");
    assert!(ok.is_ok());
    let gone = clearc::commands::failures::restore_precheck("E:\\D\\a", "C:\\D\\a", false, true, "migrated item does not exist")
        .err()
        .unwrap();
    assert_eq!(gone.path, "E:\\D\\a");
    assert_eq!(gone.reason, "migrated item does not exist");
    let taken = clearc::commands::failures::restore_precheck("q", "C:\\D\\a", true, true, "quarantine item does not exist")
        .err()
        .unwrap();
    assert_eq!(taken.path, "C:\\D\\a");
    assert_eq!(taken.reason, "original path already exists");
    assert!(clearc::commands::migration::check_destination_free("E:\\D\\a", false).is_ok());
    let f = clearc::commands::migration::check_destination_free("E:\\D\\a", true).err().unwrap();
    assert_eq!(f.reason, "target item already exists");
}

#[test]
fn finds_migration_rules() {
    let catalog = RuleCatalog { rules_dir: "rules".to_string(), cleanup: vec![], migration: vec![downloads_rule()], devspace: vec![] };
    assert_eq!(clearc::commands::migration::find_migration_rule(&catalog, "downloads"), Ok(0));
    assert_eq!(
        clearc::commands::migration::find_migration_rule(&catalog, "music"),
        Err("migration rule music not found".to_string())
    );
}

#[test]
fn cancelled_migration_records_moved_items() {
    let rule = downloads_rule();
    let t = build_user_folder_target(&rule, "C:\\D".to_string(), "C:\\D".to_string(), "C:\\D".to_string(), true, None);
    let pre = precheck_user_folder_migration(&rule, &t, "C:\\Downloads2", &facts(true, false, true, 100, 50, 10), None);
    let (plan, _) = create_user_folder_migration_plan("p", 1, "downloads", pre, "V", None, 0);
    let mut run = MigrationRun::new(2);
    assert!(cancel_user_folder_migration(&plan, &run, "m", 2).is_none());
    assert_eq!(run.record_move("C:\\D\\a", "C:\\Downloads2\\a", 0, Ok(3)), Ok(()));
    assert_eq!(
        run.record_move("C:\\D\\b", "C:\\Downloads2\\b", 0, Err("migration-execute cancelled".to_string())),
        Err("migration-execute cancelled".to_string())
    );
    assert!(!run.is_complete());
    let entry = cancel_user_folder_migration(&plan, &run, "m", 2).unwrap();
    assert_eq!(entry.status, "cancelled");
    assert!(entry.rollbackable);
    assert!(entry.summary.starts_with("用户目录迁移已取消："));
    let input = prepare_user_folder_rollback(&vec![entry], "m", MIGRATION_ROLLBACK_CONFIRMATION).ok().unwrap();
    assert_eq!(input.moved_items, vec![("C:\\D\\a".to_string(), "C:\\Downloads2\\a".to_string())]);
}
