use tuzi_switch::cache_root::RootError;
use tuzi_switch::global_env::{
    check_desired_within, desired_global_environment, global_status_from_readings,
    global_status_when_desired_fails, managed_variable_index, reconcile_action, sync_action,
    unsupported_global_status, variable_name_at, variable_state, DesiredEnvironment,
    GlobalSyncAction, VariableState, MANAGED_VARIABLE_COUNT,
};
use tuzi_switch::paths::PathStyle;
use tuzi_switch::registry_backup::{
    backup_temp_file_name, backup_to_raw_registry, check_backup_file_size, check_registry_read,
    ensure_backup_owned, plan_global_apply, plan_global_restore, raw_registry_to_backup, restored_variables,
    registry_type_from_name, registry_type_name, validate_global_backup, GlobalEnvironmentBackup,
    GlobalEnvironmentBackupEntry, RawRegistryValue, RegistryValue, RegistryValueType,
    GLOBAL_ENV_BACKUP_KIND,
};
use tuzi_switch::settings::DevelopmentCacheSettings;

fn global(route_temp: bool, route_node: bool, route_python: bool) -> DevelopmentCacheSettings {
    DevelopmentCacheSettings {
        enabled: true,
        global_mode: true,
        root_dir: Some("/d".to_string()),
        route_temp,
        route_node,
        route_python,
        ..DevelopmentCacheSettings::default()
    }
}

fn desired(route_temp: bool, route_node: bool, route_python: bool) -> DesiredEnvironment {
    desired_global_environment(
        &global(route_temp, route_node, route_python),
        &Some(Ok("/d/m".to_string())),
        PathStyle::Unix,
    )
    .unwrap()
}

fn raw(bytes: &[u8]) -> RawRegistryValue {
    RawRegistryValue { value_type: "REG_EXPAND_SZ".to_string(), bytes: bytes.to_vec() }
}

fn entry(original: Option<RawRegistryValue>, written: &str) -> GlobalEnvironmentBackupEntry {
    GlobalEnvironmentBackupEntry { original, written: written.to_string() }
}

fn backup(entries: Vec<(&str, GlobalEnvironmentBackupEntry)>) -> GlobalEnvironmentBackup {
    GlobalEnvironmentBackup {
        kind: GLOBAL_ENV_BACKUP_KIND.to_string(),
        managed_root: "/d/m".to_string(),
        entries: entries.into_iter().map(|(n, e)| (n.to_string(), e)).collect(),
    }
}

#[test]
fn managed_names_are_sorted_and_found() {
    let names: Vec<&str> = (0..MANAGED_VARIABLE_COUNT).map(variable_name_at).collect();
    let mut sorted = names.clone();
    sorted.sort();
    assert_eq!(names, sorted);
    assert_eq!(managed_variable_index("TMP"), Some(2));
    assert_eq!(managed_variable_index("PATH"), None);
}

#[test]
fn desired_values_follow_the_settings() {
    let d = desired(true, true, true);
    assert_eq!(d.managed_root, "/d/m");
    let by_name: Vec<(&str, Option<&str>)> =
        (0..8).map(|i| (variable_name_at(i), d.values[i].as_deref())).collect();
    assert_eq!(
        by_name,
        vec![
            ("PIP_CACHE_DIR", Some("/d/m/shared/pip")),
            ("TEMP", Some("/d/m/global-temp")),
            ("TMP", Some("/d/m/global-temp")),
            ("TMPDIR", Some("/d/m/global-temp")),
            ("UV_CACHE_DIR", Some("/d/m/shared/uv")),
            ("YARN_CACHE_FOLDER", Some("/d/m/shared/yarn")),
            ("npm_config_cache", Some("/d/m/shared/npm")),
            ("npm_config_store_dir", Some("/d/m/shared/pnpm-store")),
        ]
    );
    assert!(check_desired_within(&d, PathStyle::Unix).is_ok());
    let only_node = desired(false, true, false);
    assert_eq!(only_node.values.iter().filter(|v| v.is_some()).count(), 3);
}

#[test]
fn desired_environment_errors_and_off_state() {
    let off = DevelopmentCacheSettings::default();
    let d = desired_global_environment(&off, &None, PathStyle::Unix).unwrap();
    assert_eq!(d.managed_root, "");
    assert!(d.values.iter().all(|v| v.is_none()));
    let on = global(true, true, true);
    assert_eq!(
        desired_global_environment(&on, &None, PathStyle::Unix).err(),
        Some("启用全局开发缓存前必须指定缓存目录".to_string())
    );
    assert_eq!(
        desired_global_environment(&on, &Some(Err(RootError::DiskRoot)), PathStyle::Unix).err(),
        Some("不能将磁盘根目录用作缓存目录".to_string())
    );
}

#[test]
fn out_of_root_value_is_refused() {
    let mut d = desired(true, false, false);
    d.values[1] = Some("/elsewhere".to_string());
    assert_eq!(
        check_desired_within(&d, PathStyle::Unix),
        Err("拒绝写入越界的全局缓存目录: /elsewhere".to_string())
    );
}

#[test]
fn variable_states() {
    let s = |w: Option<&str>, e: Option<&str>, c: Option<&str>| {
        variable_state(&w.map(String::from), &e.map(String::from), &c.map(String::from))
    };
    assert_eq!(s(Some("a"), Some("a"), Some("a")), VariableState::Managed);
    assert_eq!(s(Some("a"), Some("b"), Some("a")), VariableState::Stale);
    assert_eq!(s(Some("a"), Some("a"), Some("x")), VariableState::Conflict);
    assert_eq!(s(Some("a"), None, None), VariableState::Conflict);
    assert_eq!(s(None, Some("a"), Some("a")), VariableState::Untracked);
    assert_eq!(s(None, Some("a"), None), VariableState::NotApplied);
    assert_eq!(VariableState::NotApplied.text(), "notApplied");
}

#[test]
fn status_when_fully_applied() {
    let d = desired(true, false, false);
    let b = backup(vec![
        ("TEMP", entry(None, "/d/m/global-temp")),
        ("TMP", entry(None, "/d/m/global-temp")),
        ("TMPDIR", entry(None, "/d/m/global-temp")),
    ]);
    let mut current = vec![None; 8];
    for i in 1..=3 {
        current[i] = Some("/d/m/global-temp".to_string());
    }
    let st = global_status_from_readings(true, &d, Some(&b), &current);
    assert!(st.supported && st.enabled && st.applied && st.has_backup && !st.has_conflict);
    assert_eq!(st.managed_root.as_deref(), Some("/d/m"));
    let names: Vec<&str> = st.variables.iter().map(|v| v.name.as_str()).collect();
    assert_eq!(names, vec!["TEMP", "TMP", "TMPDIR"]);
    assert!(st.variables.iter().all(|v| v.state == "managed"));
}

#[test]
fn status_with_conflict_and_stale_entries() {
    let d = desired(true, false, false);
    let b = backup(vec![
        ("PIP_CACHE_DIR", entry(None, "/d/m/shared/pip")),
        ("TEMP", entry(None, "/d/m/global-temp")),
    ]);
    let mut current = vec![None; 8];
    current[0] = Some("/d/m/shared/pip".to_string());
    current[1] = Some("C:\\Temp".to_string());
    current[2] = Some("/d/m/global-temp".to_string());
    let st = global_status_from_readings(true, &d, Some(&b), &current);
    assert!(!st.applied);
    assert!(st.has_conflict);
    let states: Vec<(&str, &str)> =
        st.variables.iter().map(|v| (v.name.as_str(), v.state.as_str())).collect();
    assert_eq!(
        states,
        vec![
            ("PIP_CACHE_DIR", "stale"),
            ("TEMP", "conflict"),
            ("TMP", "untracked"),
            ("TMPDIR", "notApplied")
        ]
    );
    let st = global_status_from_readings(false, &d, None, &vec![None; 8]);
    assert!(!st.applied && !st.has_backup && !st.has_conflict);
}

#[test]
fn status_fallbacks() {
    let st = global_status_when_desired_fails(true, "bad".to_string(), false);
    assert!(st.has_conflict && !st.applied && st.warnings == vec!["bad".to_string()]);
    let st = unsupported_global_status(&global(true, true, true));
    assert!(!st.supported && st.enabled);
    assert_eq!(st.warnings, vec!["全局开发缓存环境变量目前仅支持 Windows".to_string()]);
}

#[test]
fn backup_validation() {
    assert!(validate_global_backup(&backup(vec![("TEMP", entry(None, "x"))])).is_ok());
    let mut wrong_kind = backup(vec![]);
    wrong_kind.kind = "other".to_string();
    assert_eq!(validate_global_backup(&wrong_kind), Err("全局缓存环境变量备份标记无效".to_string()));
    assert_eq!(
        validate_global_backup(&backup(vec![("PATH", entry(None, "x"))])),
        Err("全局缓存环境变量备份包含非托管变量".to_string())
    );
    let ordered = "全局缓存环境变量备份中的变量重复或顺序错误".to_string();
    assert_eq!(
        validate_global_backup(&backup(vec![("TMP", entry(None, "x")), ("TEMP", entry(None, "y"))])),
        Err(ordered.clone())
    );
    assert_eq!(
        validate_global_backup(&backup(vec![("TEMP", entry(None, "x")), ("TEMP", entry(None, "y"))])),
        Err(ordered)
    );
    assert!(validate_global_backup(&backup(vec![("TEMP", entry(None, "x")), ("TMP", entry(None, "y"))])).is_ok());
    let big = "x".repeat(65537);
    assert_eq!(
        validate_global_backup(&backup(vec![("TEMP", entry(None, &big))])),
        Err("全局缓存环境变量备份超过安全大小限制".to_string())
    );
    let big_original = raw(&vec![0u8; 65537]);
    assert!(validate_global_backup(&backup(vec![("TEMP", entry(Some(big_original), "x"))])).is_err());
    assert!(check_backup_file_size(4 * 1024 * 1024).is_ok());
    assert!(check_backup_file_size(4 * 1024 * 1024 + 1).is_err());
}

#[test]
fn restored_variables_follow_the_plan() {
    let b = backup(vec![("PIP_CACHE_DIR", entry(None, "p")), ("TMP", entry(Some(raw(b"t")), "t"))]);
    let plan = plan_global_restore(&b);
    assert_eq!(restored_variables(&plan), vec![0, 2]);
    assert_eq!(restored_variables(&vec![None; 8]), Vec::<usize>::new());
}

#[test]
fn ownership_is_checked() {
    let b = backup(vec![("TEMP", entry(None, "a")), ("TMP", entry(None, "b"))]);
    assert!(ensure_backup_owned(&b, &vec![Some("a".to_string()), Some("b".to_string())]).is_ok());
    assert_eq!(
        ensure_backup_owned(&b, &vec![Some("z".to_string()), None]),
        Err("检测到环境变量被外部修改，已拒绝覆盖: TEMP, TMP".to_string())
    );
    assert_eq!(
        ensure_backup_owned(&b, &vec![Some("a".to_string()), None]),
        Err("检测到环境变量被外部修改，已拒绝覆盖: TMP".to_string())
    );
}

#[test]
fn registry_type_names_round_trip() {
    let all = [
        RegistryValueType::RegNone,
        RegistryValueType::RegSz,
        RegistryValueType::RegExpandSz,
        RegistryValueType::RegBinary,
        RegistryValueType::RegDword,
        RegistryValueType::RegDwordBigEndian,
        RegistryValueType::RegLink,
        RegistryValueType::RegMultiSz,
        RegistryValueType::RegResourceList,
        RegistryValueType::RegFullResourceDescriptor,
        RegistryValueType::RegResourceRequirementsList,
        RegistryValueType::RegQword,
    ];
    for t in all {
        assert_eq!(registry_type_from_name(registry_type_name(t)), Some(t));
    }
    assert_eq!(registry_type_name(RegistryValueType::RegExpandSz), "REG_EXPAND_SZ");
    assert_eq!(registry_type_from_name("REG_sz"), None);
}

#[test]
fn registry_values_convert() {
    let v = RegistryValue { vtype: RegistryValueType::RegSz, bytes: vec![65, 0, 0, 0] };
    let r = raw_registry_to_backup(v);
    assert_eq!(r.value_type, "REG_SZ");
    let back = backup_to_raw_registry(&r).unwrap();
    assert_eq!(back.vtype, RegistryValueType::RegSz);
    assert_eq!(back.bytes, vec![65, 0, 0, 0]);
    let unknown = RawRegistryValue { value_type: "REG_X".to_string(), bytes: vec![] };
    assert_eq!(backup_to_raw_registry(&unknown).err(), Some("备份包含未知注册表值类型: REG_X".to_string()));
    let big = RawRegistryValue { value_type: "REG_SZ".to_string(), bytes: vec![0; 65537] };
    assert_eq!(backup_to_raw_registry(&big).err(), Some("备份中的注册表值超过安全大小限制".to_string()));
    let read = RegistryValue { vtype: RegistryValueType::RegBinary, bytes: vec![0; 65537] };
    assert_eq!(
        check_registry_read("TEMP", read).err(),
        Some("用户环境变量 TEMP 超过安全备份大小限制".to_string())
    );
}

#[test]
fn apply_keeps_first_originals_and_restore_gives_them_back() {
    // first apply: temp only
    let d1 = desired(true, false, false);
    let mut originals = vec![None; 8];
    originals[1] = Some(raw(b"orig-temp"));
    originals[2] = None;
    originals[3] = Some(raw(b"orig-tmpdir"));
    let p1 = plan_global_apply(&d1, None, &originals);
    assert!(p1.restores.iter().all(|r| r.is_none()));
    assert_eq!(p1.writes[1].as_deref(), Some("/d/m/global-temp"));
    assert_eq!(p1.changed, vec![1, 2, 3]);
    let names: Vec<&str> = p1.backup.entries.iter().map(|e| e.0.as_str()).collect();
    assert_eq!(names, vec!["TEMP", "TMP", "TMPDIR"]);
    assert!(validate_global_backup(&p1.backup).is_ok());

    // second apply: python only; originals read now must be ignored for recorded names
    let d2 = desired(false, false, true);
    let mut later = vec![None; 8];
    later[0] = Some(raw(b"orig-pip"));
    later[1] = Some(raw(b"should-not-be-used"));
    later[4] = None;
    let p2 = plan_global_apply(&d2, Some(&p1.backup), &later);
    assert_eq!(p2.changed, vec![0, 1, 2, 3, 4]);
    assert_eq!(p2.restores[1].as_ref().unwrap().as_ref().unwrap().bytes, b"orig-temp".to_vec());
    assert!(p2.restores[2].as_ref().unwrap().is_none());
    assert!(p2.restores[0].is_none());
    let names: Vec<&str> = p2.backup.entries.iter().map(|e| e.0.as_str()).collect();
    assert_eq!(names, vec!["PIP_CACHE_DIR", "UV_CACHE_DIR"]);

    // restore
    let r = plan_global_restore(&p2.backup);
    assert_eq!(r[0].as_ref().unwrap().as_ref().unwrap().bytes, b"orig-pip".to_vec());
    assert!(r[4].as_ref().unwrap().is_none());
    assert!(r[1].is_none());
}

#[test]
fn sync_and_reconcile_decisions() {
    let on = global(true, true, true);
    let off = DevelopmentCacheSettings::default();
    assert_eq!(sync_action(&off, &on, false, true), GlobalSyncAction::Apply);
    assert_eq!(sync_action(&on, &off, false, true), GlobalSyncAction::Restore);
    assert_eq!(sync_action(&off, &off, true, true), GlobalSyncAction::Restore);
    assert_eq!(sync_action(&off, &off, false, true), GlobalSyncAction::Keep);
    assert_eq!(sync_action(&off, &on, false, false), GlobalSyncAction::Unsupported);
    assert_eq!(sync_action(&on, &off, true, false), GlobalSyncAction::Keep);
    assert_eq!(reconcile_action(&on, false, true), GlobalSyncAction::Apply);
    assert_eq!(reconcile_action(&off, true, true), GlobalSyncAction::Restore);
    assert_eq!(reconcile_action(&on, true, false), GlobalSyncAction::Keep);
}

#[test]
fn backup_temp_names_are_fresh() {
    let a = backup_temp_file_name();
    assert!(a.starts_with(".dev-cache-env-backup.json."));
    assert!(a.ends_with(".tmp"));
    assert_eq!(a.len(), ".dev-cache-env-backup.json.".len() + 32 + 4);
    assert_ne!(a, backup_temp_file_name());
}
