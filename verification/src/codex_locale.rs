//! The Codex desktop app's interface language: reading and switching the
//! `localeOverride` setting of the `[desktop]` table in Codex's
//! `config.toml`, and reporting whether Simplified Chinese is on.

use vstd::prelude::*;
use crate::global_env::{opt_view, str_equals};
use crate::text::{ascii_lower, lex_le, lemma_lex_total, lemma_lex_transitive};
use crate::text::{chars_of, push_str};

verus! {

/// The locale that switches the Codex desktop app to Simplified Chinese.
pub const CODEX_SIMPLIFIED_CHINESE_LOCALE: &'static str = "zh-CN";

#[verifier::external_type_specification]
#[verifier::external_body]
pub struct ExTomlError(toml_edit::TomlError);

/// The table of Codex's configuration that holds the desktop app's settings.
pub const DESKTOP_TABLE: &'static str = "desktop";

/// The key in `DESKTOP_TABLE` that overrides the desktop app's locale.
pub const LOCALE_OVERRIDE_KEY: &'static str = "localeOverride";

/// Whether `toml_edit` accepts `text` as a TOML document.
pub uninterp spec fn toml_parses(text: Seq<char>) -> bool;

/// The string stored under `key` in the item `table` of the TOML document
/// `text`, as `toml_edit` reads it (`None` when the item or the key is
/// missing, or the value is not a string).
pub uninterp spec fn toml_string_at(text: Seq<char>, table: Seq<char>, key: Seq<char>) -> Option<Seq<char>>;

/// Whether the TOML document `text` holds a top-level item `table`.
pub uninterp spec fn toml_has_item(text: Seq<char>, table: Seq<char>) -> bool;

/// The document `text` as `toml_edit` prints it after inserting an empty
/// table `table` at the top level.
pub uninterp spec fn toml_with_table(text: Seq<char>, table: Seq<char>) -> Seq<char>;

/// The document `text` as `toml_edit` prints it after setting `key` to the
/// string `value` in the table-like item `table`; `None` when there is no
/// such item or it is not table-like.
pub uninterp spec fn toml_with_string(text: Seq<char>, table: Seq<char>, key: Seq<char>, value: Seq<char>) -> Option<
    Seq<char>,
>;

/// The document `text` as `toml_edit` prints it after removing `key` from
/// the table-like item `table`; `None` when there is no such item or it is
/// not table-like.
pub uninterp spec fn toml_without_key(text: Seq<char>, table: Seq<char>, key: Seq<char>) -> Option<Seq<char>>;

/// `toml_edit`: parses `text` as a `DocumentMut` and reads the string at
/// `table.key`.  Claims that the parse fails exactly when `toml_parses` is
/// false, and that the value read is `toml_string_at`.
#[verifier::external_body]
fn toml_read_string(text: &str, table: &str, key: &str) -> (r: Result<Option<String>, toml_edit::TomlError>)
    ensures
        r is Ok <==> toml_parses(text@),
        r matches Ok(v) ==> opt_view(v) == toml_string_at(text@, table@, key@),
{
    let doc = text.parse::<toml_edit::DocumentMut>()?;
    Ok(doc.get(table).and_then(|item| item.get(key)).and_then(|item| item.as_str()).map(|s| s.to_owned()))
}

/// `toml_edit`: parses `text` as a `DocumentMut` and asks whether it holds a
/// top-level item `table`.  Claims that the parse fails exactly when
/// `toml_parses` is false, and that the answer is `toml_has_item`.
#[verifier::external_body]
fn toml_contains(text: &str, table: &str) -> (r: Result<bool, toml_edit::TomlError>)
    ensures
        r is Ok <==> toml_parses(text@),
        r matches Ok(b) ==> b == toml_has_item(text@, table@),
{
    let doc = text.parse::<toml_edit::DocumentMut>()?;
    Ok(doc.contains_key(table))
}

/// `toml_edit`: parses `text` as a `DocumentMut`, inserts an empty table
/// `table` at the top level and prints the document.  Claims that the parse
/// fails exactly when `toml_parses` is false, and that the result is
/// `toml_with_table`.
#[verifier::external_body]
fn toml_insert_table(text: &str, table: &str) -> (r: Result<String, toml_edit::TomlError>)
    ensures
        r is Ok <==> toml_parses(text@),
        r matches Ok(t) ==> t@ == toml_with_table(text@, table@),
{
    let mut doc = text.parse::<toml_edit::DocumentMut>()?;
    doc.insert(table, toml_edit::table());
    Ok(doc.to_string())
}

/// `toml_edit`: parses `text` as a `DocumentMut`, sets `key` to the string
/// `value` in the table-like item `table` and prints the document.  Claims
/// that the parse fails exactly when `toml_parses` is false, that the result
/// is `toml_with_string`, and that a printed document parses again and reads
/// `value` back at `table.key` (the printer writes a header for a table once
/// it holds a value, and quotes keys and strings as needed).
#[verifier::external_body]
fn toml_set_string(text: &str, table: &str, key: &str, value: &str) -> (r: Result<
    Option<String>,
    toml_edit::TomlError,
>)
    ensures
        r is Ok <==> toml_parses(text@),
        r matches Ok(v) ==> opt_view(v) == toml_with_string(text@, table@, key@, value@),
        r matches Ok(Some(t)) ==> toml_parses(t@) && toml_string_at(t@, table@, key@) == Some(value@),
{
    let mut doc = text.parse::<toml_edit::DocumentMut>()?;
    let Some(t) = doc.get_mut(table).and_then(|item| item.as_table_like_mut()) else {
        return Ok(None);
    };
    t.insert(key, toml_edit::value(value));
    Ok(Some(doc.to_string()))
}

/// `toml_edit`: parses `text` as a `DocumentMut`, removes `key` from the
/// table-like item `table` and prints the document.  Claims that the parse
/// fails exactly when `toml_parses` is false, that the result is
/// `toml_without_key`, and that a printed document parses again and holds no
/// string at `table.key`.
#[verifier::external_body]
fn toml_remove_key(text: &str, table: &str, key: &str) -> (r: Result<Option<String>, toml_edit::TomlError>)
    ensures
        r is Ok <==> toml_parses(text@),
        r matches Ok(v) ==> opt_view(v) == toml_without_key(text@, table@, key@),
        r matches Ok(Some(t)) ==> toml_parses(t@) && toml_string_at(t@, table@, key@) is None,
{
    let mut doc = text.parse::<toml_edit::DocumentMut>()?;
    let Some(t) = doc.get_mut(table).and_then(|item| item.as_table_like_mut()) else {
        return Ok(None);
    };
    t.remove(key);
    Ok(Some(doc.to_string()))
}

pub open spec fn opt_str_view(o: Option<&str>) -> Option<Seq<char>> {
    match o {
        Some(s) => Some(s@),
        None => None,
    }
}

/// The locale override that the configuration text `text` sets.
pub open spec fn toml_desktop_locale(text: Seq<char>) -> Option<Seq<char>> {
    toml_string_at(text, DESKTOP_TABLE@, LOCALE_OVERRIDE_KEY@)
}

/// What setting the locale override of `text` to `locale` (removing it for
/// `None`) gives: `None` when a document does not parse, `Some(None)` when
/// `desktop` is not a table, and otherwise the new text.  Text that already
/// holds that override stays as it is; a missing `desktop` table is created
/// to set an override, and nothing is created to remove one.
pub open spec fn locale_update_spec(text: Seq<char>, locale: Option<Seq<char>>) -> Option<Option<Seq<char>>> {
    if !toml_parses(text) {
        None
    } else if toml_desktop_locale(text) == locale {
        Some(Some(text))
    } else {
        match locale {
            Some(l) => {
                let base = if toml_has_item(text, DESKTOP_TABLE@) {
                    text
                } else {
                    toml_with_table(text, DESKTOP_TABLE@)
                };
                if toml_parses(base) {
                    Some(toml_with_string(base, DESKTOP_TABLE@, LOCALE_OVERRIDE_KEY@, l))
                } else {
                    None
                }
            },
            None => Some(toml_without_key(text, DESKTOP_TABLE@, LOCALE_OVERRIDE_KEY@)),
        }
    }
}

/// `toml_edit::TomlError`'s `Display` text.
#[verifier::external_body]
fn toml_error_text(e: &toml_edit::TomlError) -> String {
    e.to_string()
}

/// Why Codex's configuration could not be read or changed.
#[derive(Debug, Clone)]
pub enum CodexConfigError {
    /// The file is not valid TOML; the parser's explanation.
    InvalidToml(String),
    /// `desktop` exists but is not a table, so no setting can go into it.
    DesktopNotTable,
}

impl CodexConfigError {
    /// The message shown for this error.
    pub fn message(&self) -> (r: String)
        ensures
            match self {
                CodexConfigError::InvalidToml(m) => r@ == "Codex 配置文件不是有效的 TOML: "@ + m@,
                CodexConfigError::DesktopNotTable => r@ == "Codex 配置中的 desktop 不是表".view(),
            },
    {
        match self {
            CodexConfigError::InvalidToml(m) => {
                let mut s = "Codex 配置文件不是有效的 TOML: ".to_owned();
                push_str(&mut s, m.as_str());
                s
            },
            CodexConfigError::DesktopNotTable => "Codex 配置中的 desktop 不是表".to_owned(),
        }
    }
}

/// The locale override set in Codex's configuration text, if any.
/// Fails when the text is not valid TOML.
pub fn codex_locale_override(config_text: &str) -> (r: Result<Option<String>, CodexConfigError>)
    ensures
        r is Ok <==> toml_parses(config_text@),
        r matches Ok(v) ==> opt_view(v) == toml_desktop_locale(config_text@),
        r matches Err(e) ==> e is InvalidToml,
{
    match toml_read_string(config_text, DESKTOP_TABLE, LOCALE_OVERRIDE_KEY) {
        Ok(v) => Ok(v),
        Err(e) => Err(CodexConfigError::InvalidToml(toml_error_text(&e))),
    }
}

fn invalid_toml(e: toml_edit::TomlError) -> (r: CodexConfigError)
    ensures
        r is InvalidToml,
{
    CodexConfigError::InvalidToml(toml_error_text(&e))
}

/// The configuration text with the locale override set to `locale` (removed
/// for `None`).  Text that already holds exactly that override is returned
/// unchanged; invalid TOML is refused; a missing `desktop` table is created
/// to hold a new override.
pub fn update_codex_locale_override(config_text: &str, locale: Option<&str>) -> (r: Result<
    String,
    CodexConfigError,
>)
    ensures
        match locale_update_spec(config_text@, opt_str_view(locale)) {
            None => r matches Err(e) && e is InvalidToml,
            Some(None) => r matches Err(e) && e is DesktopNotTable,
            Some(Some(t)) => r matches Ok(s) && s@ == t,
        },
        r matches Ok(s) ==> toml_parses(s@) && toml_desktop_locale(s@) == opt_str_view(locale),
{
    let current = codex_locale_override(config_text)?;
    let same = match (&current, locale) {
        (Some(c), Some(l)) => str_equals(c.as_str(), l),
        (None, None) => true,
        _ => false,
    };
    if same {
        return Ok(config_text.to_owned());
    }
    let updated = match locale {
        Some(l) => {
            let has_table = match toml_contains(config_text, DESKTOP_TABLE) {
                Ok(b) => b,
                Err(e) => return Err(invalid_toml(e)),
            };
            let base = if has_table {
                config_text.to_owned()
            } else {
                match toml_insert_table(config_text, DESKTOP_TABLE) {
                    Ok(t) => t,
                    Err(e) => return Err(invalid_toml(e)),
                }
            };
            toml_set_string(base.as_str(), DESKTOP_TABLE, LOCALE_OVERRIDE_KEY, l)
        },
        None => toml_remove_key(config_text, DESKTOP_TABLE, LOCALE_OVERRIDE_KEY),
    };
    match updated {
        Ok(Some(t)) => Ok(t),
        Ok(None) => Err(CodexConfigError::DesktopNotTable),
        Err(e) => Err(invalid_toml(e)),
    }
}

/// Whether two strings agree when ASCII letters are compared without case,
/// as `str::eq_ignore_ascii_case` decides.
pub open spec fn eq_ignore_ascii_case_spec(a: Seq<char>, b: Seq<char>) -> bool {
    a.len() == b.len() && forall|i: int| 0 <= i < a.len() ==> ascii_lower(#[trigger] a[i]) == ascii_lower(b[i])
}

/// Compares two strings, ignoring the case of ASCII letters.
pub fn eq_ignore_ascii_case(a: &str, b: &str) -> (r: bool)
    ensures
        r == eq_ignore_ascii_case_spec(a@, b@),
{
    let x = chars_of(a);
    let y = chars_of(b);
    if x.len() != y.len() {
        return false;
    }
    let mut i: usize = 0;
    while i < x.len()
        invariant
            i <= x.len(),
            x.len() == y.len(),
            x@ == a@,
            y@ == b@,
            forall|k: int| 0 <= k < i ==> ascii_lower(#[trigger] x@[k]) == ascii_lower(y@[k]),
        decreases x.len() - i,
    {
        let c = x[i];
        let d = y[i];
        let lc = if 'A' <= c && c <= 'Z' { ((c as u8) + 32) as char } else { c };
        let ld = if 'A' <= d && d <= 'Z' { ((d as u8) + 32) as char } else { d };
        assert(lc == ascii_lower(c) && ld == ascii_lower(d));
        if lc != ld {
            return false;
        }
        i += 1;
    }
    true
}

/// An installed Codex desktop app.
#[derive(Debug, Clone)]
pub struct CodexInstallation {
    /// The installed version, where it can be told.
    pub version: Option<String>,
}

/// Whether Codex is installed, whether Chinese is on, and whether Codex must
/// restart to pick up a change.
#[derive(Debug, Clone)]
pub struct CodexLocaleStatus {
    pub installed: bool,
    pub version: Option<String>,
    pub chinese_resources_available: bool,
    pub locale_override: Option<String>,
    pub chinese_enabled: bool,
    pub restart_required: bool,
}

/// Whether the locale override switches Codex to Simplified Chinese.
pub open spec fn chinese_enabled_spec(locale: Option<Seq<char>>) -> bool {
    locale matches Some(l) && eq_ignore_ascii_case_spec(l, CODEX_SIMPLIFIED_CHINESE_LOCALE@)
}

pub open spec fn installation_version(i: Option<CodexInstallation>) -> Option<Seq<char>> {
    match i {
        Some(x) => opt_view(x.version),
        None => None,
    }
}

/// `s` is the status that the configuration text `text` gives for the
/// installation found, with `restart_required` as given.
pub open spec fn is_status_of(
    s: CodexLocaleStatus,
    text: Seq<char>,
    restart_required: bool,
    installation: Option<CodexInstallation>,
) -> bool {
    &&& s.installed == installation is Some
    &&& opt_view(s.version) == installation_version(installation)
    &&& s.chinese_resources_available == installation is Some
    &&& opt_view(s.locale_override) == toml_desktop_locale(text)
    &&& s.chinese_enabled == chinese_enabled_spec(toml_desktop_locale(text))
    &&& s.restart_required == restart_required
}

/// A status counts the Chinese resources as available exactly when the app
/// was found, whether or not its version is known; that is, exactly when it
/// reports the app as installed.
pub proof fn lemma_resources_follow_installation(
    s: CodexLocaleStatus,
    text: Seq<char>,
    restart_required: bool,
    installation: Option<CodexInstallation>,
)
    requires
        is_status_of(s, text, restart_required, installation),
    ensures
        s.chinese_resources_available <==> installation is Some,
        s.chinese_resources_available == s.installed,
        installation matches Some(i) && i.version is None ==> s.chinese_resources_available,
{
}

/// The status that `config_text` gives, for the installation found.  The
/// official desktop app ships Chinese, so the resources count as available
/// whenever the app is found.
pub fn status_from_config(
    config_text: &str,
    restart_required: bool,
    installation: Option<CodexInstallation>,
) -> (r: Result<CodexLocaleStatus, CodexConfigError>)
    ensures
        r is Ok <==> toml_parses(config_text@),
        r matches Err(e) ==> e is InvalidToml,
        r matches Ok(s) ==> is_status_of(s, config_text@, restart_required, installation),
{
    let locale_override = codex_locale_override(config_text)?;
    let chinese_enabled = match &locale_override {
        Some(l) => eq_ignore_ascii_case(l.as_str(), CODEX_SIMPLIFIED_CHINESE_LOCALE),
        None => false,
    };
    let installed = installation.is_some();
    let version = match installation {
        Some(i) => i.version,
        None => None,
    };
    Ok(
        CodexLocaleStatus {
            installed,
            version,
            chinese_resources_available: installed,
            locale_override,
            chinese_enabled,
            restart_required,
        },
    )
}

/// The status of Codex's interface language, read from the configuration
/// text; nothing needs a restart.
pub fn get_status(config_text: &str, installation: Option<CodexInstallation>) -> (r: Result<
    CodexLocaleStatus,
    CodexConfigError,
>)
    ensures
        r is Ok <==> toml_parses(config_text@),
        r matches Err(e) ==> e is InvalidToml,
        r matches Ok(s) ==> is_status_of(s, config_text@, false, installation),
{
    status_from_config(config_text, false, installation)
}

/// The outcome of switching the language: the new configuration text,
/// whether it differs from the old one (and so must be written and Codex
/// restarted), and the resulting status.
#[derive(Debug, Clone)]
pub struct LocaleUpdate {
    pub config_text: String,
    pub changed: bool,
    pub status: CodexLocaleStatus,
}

/// The locale that the switch asks for.
pub open spec fn requested_locale(enabled: bool) -> Option<Seq<char>> {
    if enabled {
        Some(CODEX_SIMPLIFIED_CHINESE_LOCALE@)
    } else {
        None
    }
}

/// Switches Codex's interface to Simplified Chinese (`enabled`) or back to
/// its default, given the current configuration text.  Invalid TOML is
/// refused and left alone; text that already has the requested setting is
/// kept byte for byte, so nothing is written and no restart is needed.
pub fn set_simplified_chinese(
    current_config: &str,
    enabled: bool,
    installation: Option<CodexInstallation>,
) -> (r: Result<LocaleUpdate, CodexConfigError>)
    ensures
        match locale_update_spec(current_config@, requested_locale(enabled)) {
            None => r matches Err(e) && e is InvalidToml,
            Some(None) => r matches Err(e) && e is DesktopNotTable,
            Some(Some(t)) => if toml_parses(t) {
                r matches Ok(u) && u.config_text@ == t && u.changed == (t != current_config@)
                    && is_status_of(u.status, t, u.changed, installation)
            } else {
                r matches Err(e) && e is InvalidToml
            },
        },
        toml_parses(current_config@) && toml_desktop_locale(current_config@) == requested_locale(enabled) ==> (r matches Ok(
            u,
        ) && u.config_text@ == current_config@ && !u.changed && is_status_of(u.status, current_config@, false, installation)),
        r matches Ok(u) ==> toml_desktop_locale(u.config_text@) == requested_locale(enabled)
            && u.status.chinese_enabled == enabled,
{
    let locale: Option<&str> = if enabled { Some(CODEX_SIMPLIFIED_CHINESE_LOCALE) } else { None };
    let updated = update_codex_locale_override(current_config, locale)?;
    let changed = !str_equals(updated.as_str(), current_config);
    let status = status_from_config(updated.as_str(), changed, installation)?;
    proof {
        if enabled {
            reveal_strlit("zh-CN");
            assert(eq_ignore_ascii_case_spec(CODEX_SIMPLIFIED_CHINESE_LOCALE@, CODEX_SIMPLIFIED_CHINESE_LOCALE@));
        }
    }
    Ok(LocaleUpdate { config_text: updated, changed, status })
}


/// Switching again, on the text that a switch produced, changes nothing: that
/// text reads back the requested locale (as `set_simplified_chinese`
/// ensures), so the update keeps it as it is.
pub proof fn lemma_switch_again_unchanged(text: Seq<char>, enabled: bool)
    requires
        toml_parses(text),
        toml_desktop_locale(text) == requested_locale(enabled),
    ensures
        locale_update_spec(text, requested_locale(enabled)) == Some(Some(text)),
{
}

/// The registry package names of the Codex desktop app start with this.
pub const CODEX_PACKAGE_PREFIX: &'static str = "OpenAI.Codex_";

/// Compares two strings as `String`'s order does.
pub fn str_lex_le(a: &str, b: &str) -> (r: bool)
    ensures
        r == lex_le(a@, b@),
{
    let x = chars_of(a);
    let y = chars_of(b);
    let mut i: usize = 0;
    assert(x@.skip(0) =~= x@);
    assert(y@.skip(0) =~= y@);
    while i < x.len() && i < y.len() && x[i] == y[i]
        invariant
            i <= x.len(),
            i <= y.len(),
            x@ == a@,
            y@ == b@,
            lex_le(a@, b@) == lex_le(x@.skip(i as int), y@.skip(i as int)),
        decreases x.len() - i,
    {
        assert(x@.skip(i as int).drop_first() =~= x@.skip(i + 1));
        assert(y@.skip(i as int).drop_first() =~= y@.skip(i + 1));
        i += 1;
    }
    if i == x.len() {
        return true;
    }
    if i == y.len() {
        return false;
    }
    assert(x@.skip(i as int)[0] == x@[i as int]);
    assert(y@.skip(i as int)[0] == y@[i as int]);
    x[i] < y[i]
}

pub open spec fn has_prefix(s: Seq<char>, p: Seq<char>) -> bool {
    p.len() <= s.len() && s.take(p.len() as int) == p
}

/// Whether `s` starts with `p`.
pub fn starts_with(s: &str, p: &str) -> (r: bool)
    ensures
        r == has_prefix(s@, p@),
{
    let x = chars_of(s);
    let y = chars_of(p);
    if y.len() > x.len() {
        return false;
    }
    let mut i: usize = 0;
    while i < y.len()
        invariant
            i <= y.len() <= x.len(),
            x@ == s@,
            y@ == p@,
            forall|k: int| 0 <= k < i ==> x@[k] == y@[k],
        decreases y.len() - i,
    {
        if x[i] != y[i] {
            assert(x@.take(y.len() as int)[i as int] != y@[i as int]);
            return false;
        }
        i += 1;
    }
    assert(x@.take(y.len() as int) =~= y@);
    true
}

/// The package of the newest Codex desktop app among the registry package
/// names: the greatest name, in `String` order, that starts with
/// `CODEX_PACKAGE_PREFIX`.
pub fn pick_codex_package(names: &Vec<String>) -> (r: Option<String>)
    ensures
        r is None <==> forall|k: int| 0 <= k < names.len() ==> !has_prefix(#[trigger] names@[k]@, CODEX_PACKAGE_PREFIX@),
        r matches Some(best) ==> {
            &&& exists|k: int| 0 <= k < names.len() && #[trigger] names@[k]@ == best@
            &&& has_prefix(best@, CODEX_PACKAGE_PREFIX@)
            &&& forall|k: int|
                0 <= k < names.len() && has_prefix(#[trigger] names@[k]@, CODEX_PACKAGE_PREFIX@) ==> lex_le(
                    names@[k]@,
                    best@,
                )
        },
{
    let mut best: Option<String> = None;
    let mut i: usize = 0;
    while i < names.len()
        invariant
            i <= names.len(),
            best is None <==> forall|k: int| 0 <= k < i ==> !has_prefix(#[trigger] names@[k]@, CODEX_PACKAGE_PREFIX@),
            best matches Some(b) ==> {
                &&& exists|k: int| 0 <= k < i && #[trigger] names@[k]@ == b@
                &&& has_prefix(b@, CODEX_PACKAGE_PREFIX@)
                &&& forall|k: int|
                    0 <= k < i && has_prefix(#[trigger] names@[k]@, CODEX_PACKAGE_PREFIX@) ==> lex_le(
                        names@[k]@,
                        b@,
                    )
            },
        decreases names.len() - i,
    {
        let n = &names[i];
        if starts_with(n.as_str(), CODEX_PACKAGE_PREFIX) {
            let take = match &best {
                None => true,
                Some(b) => str_lex_le(b.as_str(), n.as_str()),
            };
            if take {
                proof {
                    if let Some(b) = best {
                        assert forall|k: int|
                            0 <= k < i + 1 && has_prefix(#[trigger] names@[k]@, CODEX_PACKAGE_PREFIX@) implies lex_le(
                            names@[k]@,
                            n@,
                        ) by {
                            if k < i {
                                lemma_lex_transitive(names@[k]@, b@, n@);
                            } else {
                                lemma_lex_total(n@, n@);
                            }
                        }
                    } else {
                        assert forall|k: int|
                            0 <= k < i + 1 && has_prefix(#[trigger] names@[k]@, CODEX_PACKAGE_PREFIX@) implies lex_le(
                            names@[k]@,
                            n@,
                        ) by {
                            lemma_lex_total(n@, n@);
                        }
                    }
                }
                best = Some(n.clone());
            } else {
                proof {
                    let b = best->Some_0;
                    lemma_lex_total(b@, n@);
                }
            }
        }
        i += 1;
    }
    best
}

/// The version part of a Codex package name: what follows the prefix, up to
/// the first `_`.
pub open spec fn package_version_spec(name: Seq<char>) -> Option<Seq<char>> {
    if has_prefix(name, CODEX_PACKAGE_PREFIX@) {
        let rest = name.skip(CODEX_PACKAGE_PREFIX@.len() as int);
        Some(
            if exists|i: int| 0 <= i < rest.len() && rest[i] == '_' {
                rest.take(choose|i: int| 0 <= i < rest.len() && rest[i] == '_' && forall|j: int| 0 <= j < i ==> rest[j] != '_')
            } else {
                rest
            },
        )
    } else {
        None
    }
}

/// The version of the Codex desktop app that a package name carries.
pub fn package_version(name: &str) -> (r: Option<String>)
    ensures
        opt_view(r) == package_version_spec(name@),
{
    if !starts_with(name, CODEX_PACKAGE_PREFIX) {
        return None;
    }
    let x = chars_of(name);
    let p = chars_of(CODEX_PACKAGE_PREFIX);
    let ghost rest = name@.skip(CODEX_PACKAGE_PREFIX@.len() as int);
    let mut i: usize = p.len();
    let mut v: Vec<char> = Vec::new();
    while i < x.len() && x[i] != '_'
        invariant
            p@ == CODEX_PACKAGE_PREFIX@,
            p.len() <= i <= x.len(),
            x@ == name@,
            rest == x@.skip(p.len() as int),
            v@ == rest.take(i - p.len()),
            forall|j: int| 0 <= j < i - p.len() ==> rest[j] != '_',
        decreases x.len() - i,
    {
        v.push(x[i]);
        i += 1;
        assert(v@ =~= rest.take(i - p.len()));
    }
    proof {
        if i < x.len() {
            let w = (i - p.len()) as int;
            assert(rest[w] == '_');
            let c = choose|k: int| 0 <= k < rest.len() && rest[k] == '_' && forall|j: int| 0 <= j < k ==> rest[j] != '_';
            assert(0 <= w < rest.len() && rest[w] == '_' && forall|j: int| 0 <= j < w ==> rest[j] != '_');
            if c < w {
                assert(rest[c] != '_');
            }
            if c > w {
                assert(rest[w] != '_');
            }
        } else {
            assert(rest.take(i - p.len()) =~= rest);
        }
    }
    Some(crate::text::string_from_chars(&v))
}

/// Where the Codex desktop app was found: the Windows package that the
/// registry names (when its folder exists), or else one of the usual install
/// folders on macOS and Linux (`fallback_found`).  Only a Windows package
/// tells the version.
pub fn detect_installation(windows_package: Option<&str>, fallback_found: bool) -> (r: Option<CodexInstallation>)
    ensures
        match windows_package {
            Some(p) => r matches Some(i) && opt_view(i.version) == package_version_spec(p@),
            None => if fallback_found {
                r matches Some(i) && i.version is None
            } else {
                r is None
            },
        },
{
    match windows_package {
        Some(p) => Some(CodexInstallation { version: package_version(p) }),
        None => if fallback_found {
            Some(CodexInstallation { version: None })
        } else {
            None
        },
    }
}

} // verus!
