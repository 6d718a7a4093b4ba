use clearc::native::paths::{expand_path, file_name, join_path_str, system_drive_root};
use clearc::native::registry::{
    raw_value_to_string, read_user_shell_folder, read_user_shell_folder_value, string_to_raw_value,
    value_type_name, write_user_shell_folder, RegistryLookup, RegistryValueType,
};
use clearc::native::rules::{find_rules_dir, load_catalog, rules_dir_candidates};
use clearc::native::scan::{
    disk_space, missing_summary, scan_rule_path, scan_rule_path_with_progress, scan_totals, ScanEvent, ScanState,
};

fn vars(pairs: Vec<(&str, &str)>) -> Vec<(String, String)> {
    pairs.into_iter().map(|(k, v)| (k.to_string(), v.to_string())).collect()
}

#[test]
fn expands_environment_placeholders() {
    let env = vars(vec![("USERPROFILE", "C:\\Users\\me"), ("TEMP", "C:\\Users\\me\\AppData\\Local\\Temp")]);
    assert_eq!(expand_path("%USERPROFILE%\\.cargo", &env, None), "C:\\Users\\me\\.cargo");
    assert_eq!(expand_path("%TEMP%", &env, None), "C:\\Users\\me\\AppData\\Local\\Temp");
    assert_eq!(expand_path("%UNKNOWN%\\x", &env, None), "%UNKNOWN%\\x");
    assert_eq!(expand_path("D:\\plain", &env, Some("E:")), "D:\\plain");
}

#[test]
fn recycle_bin_lives_on_the_system_drive() {
    assert_eq!(expand_path("$Recycle.Bin", &Vec::new(), None), "C:\\$Recycle.Bin");
    assert_eq!(expand_path("$Recycle.Bin", &Vec::new(), Some("E:")), "E:\\$Recycle.Bin");
    assert_eq!(system_drive_root(None), "C:\\");
    assert_eq!(system_drive_root(Some("D:")), "D:\\");
}

#[test]
fn joins_and_splits_windows_paths() {
    assert_eq!(join_path_str("D:\\Data", "x"), "D:\\Data\\x");
    assert_eq!(join_path_str("D:\\Data\\", "x"), "D:\\Data\\x");
    assert_eq!(join_path_str("D:", "x"), "D:x");
    assert_eq!(join_path_str("", "x"), "x");
    assert_eq!(file_name("C:\\Users\\me\\.bun"), Some(".bun".to_string()));
    assert_eq!(file_name("C:\\Users\\me\\"), Some("me".to_string()));
    assert_eq!(file_name("C:/a/b/."), Some("b".to_string()));
    assert_eq!(file_name("C:\\a\\.."), None);
    assert_eq!(file_name("C:\\"), None);
}

#[test]
fn decodes_registry_strings() {
    let bytes = vec![b'D', 0, b':', 0, b'\\', 0, 0, 0, b'x', 0];
    assert_eq!(raw_value_to_string(&bytes), Ok("D:\\".to_string()));
    assert_eq!(raw_value_to_string(&[]), Ok(String::new()));
    assert_eq!(raw_value_to_string(&[b'a', 0, b'b']), Ok("a".to_string()));
    assert_eq!(
        raw_value_to_string(&[0x00, 0xD8]),
        Err("failed to decode registry string: invalid utf-16: lone surrogate found".to_string())
    );
}

#[test]
fn registry_strings_roundtrip() {
    for text in ["D:\\Downloads", "", "下载\\文件", "😀 emoji"] {
        let raw = string_to_raw_value(text);
        assert_eq!(raw.len() % 2, 0);
        assert_eq!(&raw[raw.len() - 2..], &[0, 0]);
        assert_eq!(raw_value_to_string(&raw), Ok(text.to_string()));
    }
}

#[test]
fn reads_shell_folder_values() {
    let raw = string_to_raw_value("%USERPROFILE%\\Downloads");
    let v = read_user_shell_folder_value("Personal", RegistryLookup::Found(raw.clone(), RegistryValueType::RegExpandSz))
        .unwrap()
        .unwrap();
    assert_eq!(v.value, "%USERPROFILE%\\Downloads");
    assert_eq!(v.value_type, "REG_EXPAND_SZ");
    assert!(read_user_shell_folder_value("Personal", RegistryLookup::NotFound).unwrap().is_none());
    assert_eq!(
        read_user_shell_folder_value("Personal", RegistryLookup::OpenFailed("denied".to_string())).err(),
        Some("failed to open User Shell Folders: denied".to_string())
    );
    assert_eq!(
        read_user_shell_folder("Personal", RegistryLookup::ReadFailed("bad".to_string())),
        Err("failed to read Personal: bad".to_string())
    );
    assert_eq!(
        read_user_shell_folder("Personal", RegistryLookup::Found(raw, RegistryValueType::RegSz)),
        Ok(Some("%USERPROFILE%\\Downloads".to_string()))
    );
    assert_eq!(value_type_name(RegistryValueType::RegSz), "REG_SZ");
}

#[test]
fn writes_keep_plain_strings_plain() {
    let w = write_user_shell_folder("D:\\Down", Some(RegistryValueType::RegSz));
    assert!(matches!(w.value_type, RegistryValueType::RegSz));
    assert_eq!(w.bytes, string_to_raw_value("D:\\Down"));
    let w = write_user_shell_folder("D:\\Down", None);
    assert!(matches!(w.value_type, RegistryValueType::RegExpandSz));
    let w = write_user_shell_folder("D:\\Down", Some(RegistryValueType::RegBinary));
    assert!(matches!(w.value_type, RegistryValueType::RegExpandSz));
}

#[test]
fn locates_the_rules_directory() {
    let c = rules_dir_candidates("C:\\app");
    assert_eq!(c, vec!["C:\\app\\rules", "C:\\app\\..\\rules", "C:\\app\\..\\..\\rules"]);
    assert_eq!(find_rules_dir(&c, &vec![false, true, true]), Ok("C:\\app\\..\\rules".to_string()));
    assert_eq!(
        find_rules_dir(&c, &vec![false, false, false]),
        Err("failed to locate rules directory".to_string())
    );
    let catalog = load_catalog("C:\\app\\rules".to_string(), vec![], vec![], vec![]);
    assert_eq!(catalog.rules_dir, "C:\\app\\rules");
}

#[test]
fn scans_count_events() {
    let s = scan_rule_path(
        "%TEMP%",
        "C:\\T",
        true,
        vec![
            ScanEvent::Dir,
            ScanEvent::File(10),
            ScanEvent::File(u64::MAX),
            ScanEvent::EntryFailed("e1".to_string()),
            ScanEvent::ReadDirFailed("e2".to_string()),
            ScanEvent::Other,
        ],
    );
    assert!(s.exists);
    assert!(!s.accessible);
    assert_eq!(s.file_count, 2);
    assert_eq!(s.dir_count, 1);
    assert_eq!(s.total_bytes, u64::MAX);
    assert_eq!(s.skipped_count, 2);
    assert_eq!(s.error, Some("e1".to_string()));
    let m = scan_rule_path("x", "C:\\none", false, vec![ScanEvent::File(1)]);
    assert!(!m.exists);
    assert_eq!(m.file_count, 0);
    let m2 = missing_summary("x", "C:\\none");
    assert_eq!(m2.resolved_path, "C:\\none");
}

#[test]
fn scan_progress_every_64_nodes_and_cancellation() {
    let mut state = ScanState::begin("raw", "C:\\T");
    let mut reports = 0;
    for _ in 0..130 {
        if state.apply("C:\\T\\f", ScanEvent::File(1)).is_some() {
            reports += 1;
        }
    }
    assert_eq!(reports, 2);
    let (snapshot, res) = state.finish(true);
    assert_eq!(snapshot.file_count, 130);
    let cancelled = res.err().unwrap();
    assert_eq!(cancelled.error, Some("scan cancelled".to_string()));
    assert_eq!(cancelled.total_bytes, 130);
    let (_, ok) = ScanState::begin("raw", "C:\\T").finish(false);
    assert!(ok.is_ok());
}

#[test]
fn disk_space_reports_or_fails() {
    assert_eq!(disk_space("C:\\", Some((100, 40))), Ok((100, 40)));
    assert_eq!(disk_space("Q:\\", None), Err("failed to read disk space for Q:\\".to_string()));
    let (b, f, s, e) = scan_totals(&vec![missing_summary("a", "b")]);
    assert_eq!((b, f, s, e), (0, 0, 0, false));
}

#[test]
fn scan_with_progress_reports_final_counts() {
    let mut walk = Vec::new();
    walk.push(("C:\\T".to_string(), ScanEvent::Dir));
    for i in 0..70 {
        walk.push((format!("C:\\T\\f{}", i), ScanEvent::File(2)));
    }
    let (snaps, res) = scan_rule_path_with_progress("%TEMP%", "C:\\T", true, walk, false);
    assert_eq!(snaps.len(), 2);
    assert_eq!(snaps[0].current_path, "C:\\T\\f62");
    assert_eq!(snaps[0].file_count, 63);
    assert_eq!(snaps[1].current_path, "C:\\T");
    assert_eq!(snaps[1].total_bytes, 140);
    let s = res.ok().unwrap();
    assert_eq!(s.file_count, 70);
    assert_eq!(s.dir_count, 1);

    let (snaps, res) = scan_rule_path_with_progress("%TEMP%", "C:\\T", true, vec![("C:\\T".to_string(), ScanEvent::Dir)], true);
    assert_eq!(snaps.len(), 1);
    let s = res.err().unwrap();
    assert_eq!(s.error, Some("scan cancelled".to_string()));
    assert_eq!(s.dir_count, 1);

    let (snaps, res) = scan_rule_path_with_progress("%X%", "C:\\none", false, vec![], true);
    assert!(snaps.is_empty());
    assert!(!res.ok().unwrap().exists);
}

#[test]
fn clock_reads_milliseconds_since_the_epoch() {
    let a = clearc::storage::logs::now_ms();
    let b = clearc::storage::logs::now_ms();
    assert!(a > 1_600_000_000_000);
    assert!(b >= a);
}

#[test]
fn plain_scan_matches_uncancelled_progress_scan() {
    let walk = vec![
        ("C:\\T".to_string(), ScanEvent::Dir),
        ("C:\\T\\a".to_string(), ScanEvent::File(5)),
        ("C:\\T\\b".to_string(), ScanEvent::EntryFailed("denied".to_string())),
    ];
    let events = vec![ScanEvent::Dir, ScanEvent::File(5), ScanEvent::EntryFailed("denied".to_string())];
    let plain = scan_rule_path("%TEMP%", "C:\\T", true, events);
    let (snaps, res) = scan_rule_path_with_progress("%TEMP%", "C:\\T", true, walk, false);
    assert_eq!(snaps.len(), 1);
    let progress = res.ok().unwrap();
    assert_eq!(plain.file_count, progress.file_count);
    assert_eq!(plain.dir_count, progress.dir_count);
    assert_eq!(plain.total_bytes, progress.total_bytes);
    assert_eq!(plain.skipped_count, progress.skipped_count);
    assert_eq!(plain.error, progress.error);
    assert_eq!(plain.error, Some("denied".to_string()));
}

#[test]
fn written_shell_folder_reads_back() {
    let w = write_user_shell_folder("E:\\Downloads", None);
    let v = read_user_shell_folder_value("{374DE290-123F-4565-9164-39C4925E467B}", RegistryLookup::Found(w.bytes, w.value_type))
        .unwrap()
        .unwrap();
    assert_eq!(v.value, "E:\\Downloads");
    assert_eq!(v.value_type, "REG_EXPAND_SZ");
}
