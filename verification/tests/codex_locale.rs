use tuzi_switch::codex_locale::{
    codex_locale_override, detect_installation, eq_ignore_ascii_case, get_status, package_version,
    pick_codex_package, set_simplified_chinese, status_from_config, update_codex_locale_override,
    CodexConfigError, CodexInstallation,
};

#[test]
fn invalid_toml_is_not_overwritten() {
    let source = "[desktop\ninvalid";
    let result = set_simplified_chinese(source, true, None);
    assert!(result.is_err());
    assert!(matches!(result, Err(CodexConfigError::InvalidToml(_))));
}

#[test]
fn enabling_an_already_enabled_locale_is_idempotent() {
    let source = "[desktop]\nlocaleOverride = \"zh-CN\"\n";
    let update = set_simplified_chinese(source, true, None).unwrap();
    assert!(!update.status.restart_required);
    assert_eq!(update.config_text, source);
    assert!(!update.changed);
}

#[test]
fn enabling_adds_the_override_and_requires_restart() {
    let source = "model = \"gpt-5\"\n";
    let update = set_simplified_chinese(source, true, None).unwrap();
    assert!(update.changed);
    assert!(update.status.restart_required);
    assert!(update.status.chinese_enabled);
    assert_eq!(update.status.locale_override.as_deref(), Some("zh-CN"));
    assert!(update.config_text.contains("model = \"gpt-5\""));
    assert_eq!(codex_locale_override(&update.config_text).unwrap().as_deref(), Some("zh-CN"));
}

#[test]
fn disabling_removes_the_override() {
    let source = "[desktop]\nlocaleOverride = \"zh-CN\"\nother = 1\n";
    let update = set_simplified_chinese(source, false, None).unwrap();
    assert!(update.changed);
    assert!(!update.status.chinese_enabled);
    assert_eq!(update.status.locale_override, None);
    assert!(update.config_text.contains("other = 1"));
    assert!(!update.config_text.contains("localeOverride"));
}

#[test]
fn disabling_without_override_keeps_text() {
    let source = "# comment\n[desktop]\n";
    let update = set_simplified_chinese(source, false, None).unwrap();
    assert!(!update.changed);
    assert_eq!(update.config_text, source);
}

#[test]
fn desktop_that_is_not_a_table_is_refused() {
    let source = "desktop = 5\n";
    assert!(matches!(
        update_codex_locale_override(source, Some("zh-CN")),
        Err(CodexConfigError::DesktopNotTable)
    ));
}

#[test]
fn other_locale_is_replaced() {
    let source = "[desktop]\nlocaleOverride = \"en-US\"\n";
    let updated = update_codex_locale_override(source, Some("zh-CN")).unwrap();
    assert_ne!(updated, source);
    assert_eq!(codex_locale_override(&updated).unwrap().as_deref(), Some("zh-CN"));
}

#[test]
fn chinese_is_recognised_without_case() {
    let status = get_status("[desktop]\nlocaleOverride = \"ZH-cn\"\n", None).unwrap();
    assert!(status.chinese_enabled);
    assert!(!status.restart_required);
    let status = get_status("[desktop]\nlocaleOverride = \"zh-TW\"\n", None).unwrap();
    assert!(!status.chinese_enabled);
    assert!(eq_ignore_ascii_case("Zh-Cn", "zH-cN"));
    assert!(!eq_ignore_ascii_case("zh-CN", "zh-CN "));
    assert!(!eq_ignore_ascii_case("É", "é"));
}

#[test]
fn status_reports_installation() {
    let installation = CodexInstallation { version: Some("1.2.3".to_string()) };
    let status = status_from_config("", true, Some(installation)).unwrap();
    assert!(status.installed);
    assert!(status.chinese_resources_available);
    assert_eq!(status.version.as_deref(), Some("1.2.3"));
    assert!(status.restart_required);
    assert_eq!(status.locale_override, None);
    let status = get_status("", None).unwrap();
    assert!(!status.installed);
    assert!(!status.chinese_resources_available);
    assert_eq!(status.version, None);
}

#[test]
fn invalid_toml_fails_status() {
    assert!(get_status("[desktop\n", None).is_err());
}

#[test]
fn newest_codex_package_is_picked() {
    let names = vec![
        "Microsoft.Something_1.0".to_string(),
        "OpenAI.Codex_1.2.0_x64__abc".to_string(),
        "OpenAI.Codex_1.10.0_x64__abc".to_string(),
        "OpenAI.Codex_1.3.0_x64__abc".to_string(),
    ];
    assert_eq!(pick_codex_package(&names).as_deref(), Some("OpenAI.Codex_1.3.0_x64__abc"));
    assert_eq!(pick_codex_package(&vec!["Other".to_string()]), None);
    assert_eq!(pick_codex_package(&Vec::new()), None);
}

#[test]
fn package_version_is_read_from_name() {
    assert_eq!(package_version("OpenAI.Codex_26.1.2_x64__2p2nqsd0c76g0").as_deref(), Some("26.1.2"));
    assert_eq!(package_version("OpenAI.Codex_").as_deref(), Some(""));
    assert_eq!(package_version("OpenAI.Codex_7").as_deref(), Some("7"));
    assert_eq!(package_version("Other_1.0"), None);
}

#[test]
fn installation_detection_prefers_windows_package() {
    let found = detect_installation(Some("OpenAI.Codex_2.0_x64"), true).unwrap();
    assert_eq!(found.version.as_deref(), Some("2.0"));
    let found = detect_installation(None, true).unwrap();
    assert_eq!(found.version, None);
    assert!(detect_installation(None, false).is_none());
}

#[test]
fn unchanged_switch_reports_the_whole_status() {
    let source = "[desktop]\nlocaleOverride = \"zh-CN\"\n";
    let installation = CodexInstallation { version: Some("26.1.0".to_string()) };
    let update = set_simplified_chinese(source, true, Some(installation)).unwrap();
    let s = update.status;
    assert!(s.installed && s.chinese_resources_available && s.chinese_enabled && !s.restart_required);
    assert_eq!(s.version.as_deref(), Some("26.1.0"));
    assert_eq!(s.locale_override.as_deref(), Some("zh-CN"));
}

#[test]
fn switching_again_changes_nothing_and_status_agrees() {
    let source = "[desktop]\ntheme = \"dark\"\n";
    let first = set_simplified_chinese(source, true, None).unwrap();
    assert!(first.changed);
    assert!(first.config_text.contains("theme = \"dark\""));
    let second = set_simplified_chinese(&first.config_text, true, None).unwrap();
    assert!(!second.changed && !second.status.restart_required);
    assert_eq!(second.config_text, first.config_text);
    assert_eq!(second.status.locale_override, first.status.locale_override);
    let status = get_status(&first.config_text, None).unwrap();
    assert_eq!(status.locale_override, first.status.locale_override);
    assert_eq!(status.chinese_enabled, first.status.chinese_enabled);
    assert!(!status.restart_required);
}
