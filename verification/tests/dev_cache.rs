use std::path::{Path, PathBuf};

use tuzi_switch::cache_root::{validate_configured_root, RootEnvironment, RootError};
use tuzi_switch::cache_routing::{
    launch_context, new_session_id, prepare_launch_context, routed_environment, routes_below, routing_root,
};
use tuzi_switch::cache_scan::{
    account_entry, add_expired, admit_session_entry, clean_precheck, contains_str, empty_clean_result, empty_scan,
    expiry_threshold, lease_content, marker_content, push_diagnostic, record_removal_outcome,
    removal_allowed, session_completed_before, summarize_scan, verify_marker, EntryKind,
    RemovalOutcome, TreeStat, MAX_DIAGNOSTICS, NANOS_PER_HOUR,
};
use tuzi_switch::paths::{is_within, join, same_path, PathStyle};
use tuzi_switch::settings::DevelopmentCacheSettings;

fn unix_env() -> RootEnvironment {
    RootEnvironment {
        style: PathStyle::Unix,
        home_dir: "/home/user".to_string(),
        app_config_dir: "/home/user/.tuzi-switch".to_string(),
        current_dir: Some("/work/project".to_string()),
    }
}

#[test]
fn managed_child_cannot_escape_root() {
    let root = r"D:\cache\tuzi-switch-cache";
    let child = join(PathStyle::Unix, root, r"sessions\abc");
    assert!(is_within(PathStyle::Unix, &child, root));
    assert!(!is_within(PathStyle::Unix, root, root));
    assert!(!is_within(PathStyle::Unix, r"D:\cache\other", root));
}

#[test]
fn managed_child_cannot_escape_root_on_windows() {
    let root = r"D:\cache\tuzi-switch-cache";
    let child = join(PathStyle::Windows, root, r"sessions\abc");
    assert_eq!(child, r"D:\cache\tuzi-switch-cache\sessions\abc");
    assert!(is_within(PathStyle::Windows, &child, root));
    assert!(is_within(PathStyle::Windows, r"d:/CACHE/Tuzi-Switch-Cache/x", root));
    assert!(!is_within(PathStyle::Windows, root, root));
    assert!(!is_within(PathStyle::Windows, r"D:\cache\other", root));
    assert!(!is_within(PathStyle::Windows, r"D:\cache\tuzi-switch-cache-2", root));
    assert!(same_path(PathStyle::Windows, r"D:\Ä\", r"d:/ä"));
    assert!(same_path(PathStyle::Windows, r"C:\Users\ΟΔΟΣ", r"c:/users/οδος"));
    assert!(!same_path(PathStyle::Windows, r"C:\Users\ΟΔΟΣ", r"C:\Users\οδοσ"));
    assert!(is_within(PathStyle::Windows, r"C:\ΑΣ\ΒΣ", r"c:\ας"));
}

/// Lower-casing component by component gives what lower-casing the whole
/// path and splitting it gives, final sigma included.
#[test]
fn windows_folding_matches_whole_path_lowercase() {
    let samples = [
        r"C:\Users\ΟΔΟΣ", r"C:\Users\οδοσ", r"C:\Users\οδος", r"C:\ΑΣ\Σ", r"c:/ας/σ",
        r"C:\ΣΑ\ΑΣ.", r"C:\σα\ας.", r"C:\Ä\x", r"c:\ä\X", r"C:\Α'Σ\Β",
    ];
    let whole = |p: &str| -> Vec<String> {
        p.replace('/', "\\")
            .to_lowercase()
            .split('\\')
            .filter(|c| !c.is_empty() && *c != ".")
            .map(str::to_owned)
            .collect()
    };
    for p in samples {
        for q in samples {
            assert_eq!(same_path(PathStyle::Windows, p, q), whole(p) == whole(q), "{p} same {q}");
        }
    }
}

#[test]
fn default_cache_settings_keep_routing_disabled() {
    let settings = DevelopmentCacheSettings::default();
    assert!(!settings.enabled);
    assert!(settings.route_temp);
    assert!(settings.route_node);
    assert!(settings.route_python);
    assert!(settings.cleanup_on_session_end);
    assert!(!settings.global_mode);
    assert_eq!(settings.retention_hours, 24);
}

#[test]
fn active_session_without_completion_marker_is_never_expired() {
    let now: i128 = 1_700_000_000 * 1_000_000_000;
    let threshold = expiry_threshold(now, 1);
    assert!(!session_completed_before(false, None, threshold));
    assert!(!session_completed_before(false, Some(0), threshold));
}

#[test]
fn only_plain_session_directories_are_cleaned() {
    let mut result = empty_clean_result();
    assert!(admit_session_entry(&mut result, true));
    assert_eq!(result.skipped_items, 0);
    assert!(!admit_session_entry(&mut result, false));
    assert_eq!(result.skipped_items, 1);
    assert!(result.errors.is_empty());
}

#[test]
fn completion_marker_allows_expiry_after_protection_period() {
    let now: i128 = 1_700_000_000 * 1_000_000_000;
    let future = now + 1_000_000_000;
    assert!(session_completed_before(true, Some(now), future));
    assert!(!session_completed_before(true, Some(future + 1), future));
}

#[test]
fn expiry_threshold_uses_at_least_one_hour() {
    assert_eq!(expiry_threshold(10 * NANOS_PER_HOUR, 0), 9 * NANOS_PER_HOUR);
    assert_eq!(expiry_threshold(10 * NANOS_PER_HOUR, 1), 9 * NANOS_PER_HOUR);
    assert_eq!(expiry_threshold(10 * NANOS_PER_HOUR, 24), -14 * NANOS_PER_HOUR);
}

#[test]
fn root_validation_accepts_a_plain_directory() {
    let managed = validate_configured_root("  /data/cache \n", &unix_env()).unwrap();
    assert_eq!(managed, "/data/cache/tuzi-switch-cache");
    let managed = validate_configured_root("/data/cache/", &unix_env()).unwrap();
    assert_eq!(managed, "/data/cache/tuzi-switch-cache");
}

#[test]
fn root_validation_refuses_each_rule() {
    let env = unix_env();
    assert!(matches!(validate_configured_root("   ", &env), Err(RootError::Empty)));
    assert!(matches!(validate_configured_root("/a\nb", &env), Err(RootError::LineBreak)));
    assert!(matches!(validate_configured_root("/a\rb", &env), Err(RootError::LineBreak)));
    assert!(matches!(validate_configured_root("data/cache", &env), Err(RootError::NotAbsolute)));
    assert!(matches!(validate_configured_root("/data/../etc", &env), Err(RootError::ParentSegment)));
    assert!(matches!(validate_configured_root("/", &env), Err(RootError::DiskRoot)));
    assert!(matches!(validate_configured_root("/home/user/", &env), Err(RootError::HomeDirectory)));
    assert!(matches!(
        validate_configured_root("/home/user/.tuzi-switch", &env),
        Err(RootError::InsideAppConfig)
    ));
    assert!(matches!(
        validate_configured_root("/home/user/.tuzi-switch/cache", &env),
        Err(RootError::InsideAppConfig)
    ));
    assert!(matches!(
        validate_configured_root("/work/project/cache", &env),
        Err(RootError::InsideCurrentDir)
    ));
    let no_cwd = RootEnvironment { current_dir: None, ..unix_env() };
    assert!(validate_configured_root("/work/project/cache", &no_cwd).is_ok());
}

#[test]
fn root_validation_on_windows() {
    let env = RootEnvironment {
        style: PathStyle::Windows,
        home_dir: r"C:\Users\me".to_string(),
        app_config_dir: r"C:\Users\me\.tuzi-switch".to_string(),
        current_dir: None,
    };
    assert_eq!(validate_configured_root(r"D:\cache", &env).unwrap(), r"D:\cache\tuzi-switch-cache");
    assert!(matches!(validate_configured_root(r"D:\", &env), Err(RootError::DiskRoot)));
    assert!(matches!(validate_configured_root(r"D:cache", &env), Err(RootError::NotAbsolute)));
    assert!(matches!(validate_configured_root(r"\cache", &env), Err(RootError::NotAbsolute)));
    assert!(matches!(validate_configured_root(r"\\server\share", &env), Err(RootError::DiskRoot)));
    assert!(validate_configured_root(r"\\server\share\cache", &env).is_ok());
    assert!(matches!(validate_configured_root(r"c:/users/ME", &env), Err(RootError::HomeDirectory)));
    let greek = RootEnvironment { home_dir: r"C:\Users\οδοσ".to_string(), ..env.clone() };
    assert!(validate_configured_root(r"C:\Users\ΟΔΟΣ", &greek).is_ok());
    assert!(matches!(
        validate_configured_root(r"C:\Users\ΟΔΟΣ", &RootEnvironment { home_dir: r"c:\users\οδος".to_string(), ..env }),
        Err(RootError::HomeDirectory)
    ));
}

#[test]
fn root_error_messages() {
    assert_eq!(RootError::Empty.message(), "缓存目录不能为空");
    assert_eq!(
        RootError::LinkedAncestor("/a/b".to_string()).message(),
        "缓存目录不能经过符号链接或重解析点: /a/b"
    );
    assert_eq!(
        RootError::LinkCheckFailed("denied".to_string()).message(),
        "验证缓存目录失败: denied"
    );
}

fn all_routes(enabled: bool) -> DevelopmentCacheSettings {
    DevelopmentCacheSettings { enabled, ..DevelopmentCacheSettings::default() }
}

#[test]
fn routing_sets_variables_in_order() {
    let root = Some(Ok("/m".to_string()));
    let routed = routed_environment(&all_routes(true), &root, None, PathStyle::Unix).unwrap();
    assert_eq!(routed.managed_root.as_deref(), Some("/m"));
    let expected: Vec<(String, String)> = vec![
        ("TEMP", "/m/global-temp"),
        ("TMP", "/m/global-temp"),
        ("npm_config_cache", "/m/shared/npm"),
        ("YARN_CACHE_FOLDER", "/m/shared/yarn"),
        ("npm_config_store_dir", "/m/shared/pnpm-store"),
        ("PIP_CACHE_DIR", "/m/shared/pip"),
        ("UV_CACHE_DIR", "/m/shared/uv"),
    ]
    .into_iter()
    .map(|(a, b)| (a.to_string(), b.to_string()))
    .collect();
    assert_eq!(routed.env_vars, expected);
    assert_eq!(routed.temp_dir.as_deref(), Some("/m/global-temp"));

    let only_python = DevelopmentCacheSettings {
        route_temp: false,
        route_node: false,
        ..all_routes(true)
    };
    let routed = routes_below(&only_python, "/m", Some("/s/temp"), PathStyle::Unix);
    assert_eq!(routed.env_vars.len(), 2);
    assert_eq!(routed.temp_dir, None);
}

#[test]
fn routing_off_gives_nothing_and_on_needs_a_root() {
    let off = routed_environment(&DevelopmentCacheSettings::default(), &None, None, PathStyle::Unix).unwrap();
    assert!(off.env_vars.is_empty() && off.managed_root.is_none() && off.temp_dir.is_none());
    let relative = DevelopmentCacheSettings { root_dir: Some("relative".to_string()), ..all_routes(false) };
    let off = routed_environment(&relative, &Some(Err(RootError::NotAbsolute)), None, PathStyle::Unix).unwrap();
    assert!(off.env_vars.is_empty());
    assert_eq!(
        routed_environment(&all_routes(true), &None, None, PathStyle::Unix).unwrap_err(),
        "已启用开发缓存，但尚未指定缓存目录"
    );
    assert_eq!(
        routed_environment(&all_routes(true), &Some(Err(RootError::NotAbsolute)), None, PathStyle::Unix)
            .unwrap_err(),
        "缓存目录必须使用绝对路径"
    );
}

#[test]
fn preparing_a_launch_follows_the_routing_decision() {
    assert!(prepare_launch_context(&all_routes(false), &None, PathStyle::Unix).unwrap().is_none());
    assert_eq!(
        prepare_launch_context(&all_routes(true), &None, PathStyle::Unix).unwrap_err(),
        "已启用开发缓存，但尚未指定缓存目录"
    );
    let ctx = prepare_launch_context(&all_routes(true), &Some(Ok("/m".to_string())), PathStyle::Unix)
        .unwrap()
        .unwrap();
    let id = ctx.session_dir.strip_prefix("/m/sessions/").unwrap();
    assert_eq!(id.len(), 32);
    assert!(id.chars().all(|c| c.is_ascii_digit() || ('a'..='f').contains(&c)));
    assert_eq!(ctx.completion_marker, format!("/m/sessions/{id}/.completed"));
    assert_eq!(ctx.env_vars.len(), 8);
}

#[test]
fn routing_root_decisions() {
    assert_eq!(routing_root(&all_routes(false), &None), Ok(None));
    assert_eq!(
        routing_root(&all_routes(true), &None),
        Err("已启用开发缓存，但尚未指定缓存目录".to_string())
    );
    assert_eq!(
        routing_root(&all_routes(true), &Some(Err(RootError::NotAbsolute))),
        Err("缓存目录必须使用绝对路径".to_string())
    );
    assert_eq!(
        routing_root(&all_routes(true), &Some(Ok("/m".to_string()))),
        Ok(Some("/m".to_string()))
    );
}

#[test]
fn launch_context_uses_the_session_directory() {
    let ctx = launch_context(&all_routes(true), "/m", "abc", PathStyle::Unix);
    assert_eq!(ctx.session_dir, "/m/sessions/abc");
    assert_eq!(ctx.completion_marker, "/m/sessions/abc/.completed");
    assert!(ctx.cleanup_on_session_end);
    assert_eq!(ctx.env_vars[0], ("TEMP".to_string(), "/m/sessions/abc/temp".to_string()));
    assert_eq!(ctx.env_vars.last().unwrap(), &("TMPDIR".to_string(), "/m/sessions/abc/temp".to_string()));
    assert_eq!(ctx.env_vars.len(), 8);
}

#[test]
fn session_ids_are_lower_hex() {
    let a = new_session_id();
    let b = new_session_id();
    assert_eq!(a.len(), 32);
    assert!(a.chars().all(|c| c.is_ascii_hexdigit() && !c.is_ascii_uppercase()));
    assert_ne!(a, b);
}

#[test]
fn marker_round_trip() {
    let marker = marker_content();
    assert_eq!(marker, "{\"kind\":\"tuzi-switch-development-cache-v1\",\"version\":1}");
    assert!(verify_marker(Some(&marker)).is_ok());
    assert_eq!(
        verify_marker(Some("{}")),
        Err("缓存管理标记无效，已拒绝扫描或清理".to_string())
    );
    assert_eq!(verify_marker(None), Err("缓存管理标记不存在，已拒绝扫描或清理".to_string()));
    assert!(contains_str("abc", ""));
    assert!(!contains_str("ab", "abc"));
}

#[test]
fn lease_records_creation_time() {
    assert_eq!(
        lease_content(1700000000),
        "{\"kind\":\"tuzi-switch-development-cache-v1\",\"createdAt\":1700000000}"
    );
    assert_eq!(
        lease_content(0),
        "{\"kind\":\"tuzi-switch-development-cache-v1\",\"createdAt\":0}"
    );
    assert!(lease_content(u64::MAX).ends_with("18446744073709551615}"));
}

#[test]
fn diagnostics_are_capped() {
    let mut list = Vec::new();
    for i in 0..MAX_DIAGNOSTICS + 5 {
        push_diagnostic(&mut list, format!("m{i}"));
    }
    assert_eq!(list.len(), MAX_DIAGNOSTICS);
    assert_eq!(list.last().unwrap(), "m99");
}

#[test]
fn walk_accounting() {
    let mut stat = TreeStat::new();
    let mut warnings = Vec::new();
    assert!(account_entry(&mut stat, &mut warnings, EntryKind::Directory, "/a", 0));
    assert!(!account_entry(&mut stat, &mut warnings, EntryKind::File, "/a/f", 10));
    assert!(!account_entry(&mut stat, &mut warnings, EntryKind::Link, "/a/l", 99));
    assert!(!account_entry(&mut stat, &mut warnings, EntryKind::Other, "/a/s", 5));
    assert_eq!(stat, TreeStat { size_bytes: 10, file_count: 1, directory_count: 1 });
    assert_eq!(warnings, vec!["已跳过链接: /a/l".to_string()]);
    let mut full = TreeStat { size_bytes: u64::MAX, file_count: u64::MAX, directory_count: 0 };
    account_entry(&mut full, &mut warnings, EntryKind::File, "/x", 7);
    assert_eq!(full.size_bytes, u64::MAX);
    assert_eq!(full.file_count, u64::MAX);
}

#[test]
fn scan_summary_totals() {
    let stats = vec![
        TreeStat { size_bytes: 1, file_count: 2, directory_count: 3 },
        TreeStat { size_bytes: 10, file_count: 20, directory_count: 30 },
        TreeStat { size_bytes: u64::MAX, file_count: 0, directory_count: 0 },
        TreeStat { size_bytes: 5, file_count: 5, directory_count: 5 },
    ];
    let r = summarize_scan(true, Some("/d".to_string()), "/d/m".to_string(), &stats, 2, 7, vec![]);
    assert!(r.exists);
    assert_eq!(r.size_bytes, u64::MAX);
    assert_eq!(r.file_count, 27);
    assert_eq!(r.directory_count, 38);
    let ids: Vec<&str> = r.categories.iter().map(|c| c.id.as_str()).collect();
    assert_eq!(ids, vec!["sessions", "shared", "global-temp", "projects"]);
    assert_eq!(r.expired_session_count, 2);
    let e = empty_scan(false, None, None);
    assert!(!e.exists);
    assert_eq!(e.size_bytes, 0);
    assert_eq!(add_expired(1, 5, stats[1]), (2, 15));
}

#[test]
fn cleaning_shared_caches_requires_caching_off() {
    let on = all_routes(true);
    assert_eq!(
        clean_precheck(&on, true),
        Err("请先关闭开发缓存并退出相关终端或 IDE，再清理共享缓存".to_string())
    );
    assert_eq!(clean_precheck(&on, false), Err("尚未指定缓存目录".to_string()));
    let with_root = DevelopmentCacheSettings { root_dir: Some("/d".to_string()), ..all_routes(false) };
    assert_eq!(clean_precheck(&with_root, true), Ok("/d".to_string()));
}

#[test]
fn removal_stays_inside_the_root() {
    assert!(removal_allowed(PathStyle::Unix, "/d/m", "/d/m/sessions/x"));
    assert!(!removal_allowed(PathStyle::Unix, "/d/m", "/d/m"));
    assert!(!removal_allowed(PathStyle::Unix, "/d/m", "/d/m/"));
    assert!(!removal_allowed(PathStyle::Unix, "/d/m", "/d/other"));
    assert!(!removal_allowed(PathStyle::Unix, "/d/m", "/d"));
}

#[test]
fn removal_outcomes_are_booked() {
    let mut r = empty_clean_result();
    record_removal_outcome(&mut r, "/x", RemovalOutcome::OutsideRoot);
    record_removal_outcome(&mut r, "/l", RemovalOutcome::Link);
    record_removal_outcome(&mut r, "/u", RemovalOutcome::Unverifiable("denied".to_string()));
    record_removal_outcome(
        &mut r,
        "/ok",
        RemovalOutcome::Removed(
            Some(TreeStat { size_bytes: 9, file_count: 2, directory_count: 1 }),
            vec!["w".to_string()],
        ),
    );
    record_removal_outcome(&mut r, "/f", RemovalOutcome::Failed(vec![], "busy".to_string()));
    assert_eq!(r.skipped_items, 4);
    assert_eq!(r.removed_bytes, 9);
    assert_eq!(r.removed_files, 2);
    assert_eq!(r.removed_directories, 2);
    assert_eq!(
        r.errors,
        vec![
            "拒绝越界清理: /x".to_string(),
            "已拒绝清理链接或重解析点: /l".to_string(),
            "无法验证清理目标 /u: denied".to_string(),
            "w".to_string(),
            "清理 /f 失败: busy".to_string(),
        ]
    );
}

/// The library's reading of Unix paths agrees with `std::path` on these.
#[test]
fn unix_path_model_agrees_with_std() {
    let samples = [
        "/a/b", "/a/b/", "/a//b", "/a/./b", "/a/b/c", "/a", "/", "/ab", "/a/bc", "a/b", "/a/..", "./a",
    ];
    for p in samples {
        for q in samples {
            let std_within = Path::new(p).starts_with(q) && Path::new(p) != Path::new(q);
            if !p.starts_with("./") && !q.starts_with("./") {
                assert_eq!(is_within(PathStyle::Unix, p, q), std_within, "{p} within {q}");
                assert_eq!(same_path(PathStyle::Unix, p, q), Path::new(p) == Path::new(q), "{p} same {q}");
            }
        }
        let joined: PathBuf = Path::new(p).join("x");
        assert_eq!(join(PathStyle::Unix, p, "x"), joined.to_string_lossy());
    }
}
