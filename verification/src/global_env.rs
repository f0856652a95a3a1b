//! Routing the development caches through the user's global environment
//! (the `HKCU\Environment` registry key on Windows): which values are wanted,
//! how the current state is classified, and what a settings change does.

use vstd::prelude::*;
use crate::cache_root::{lemma_layout_names_plain, root_error_text, RootError};
use crate::paths::{
    is_absolute_spec, is_within, is_within_spec, join, join_spec, lemma_join2_within, PathStyle,
};
use crate::registry_backup::{find_entry, find_entry_index, GlobalEnvironmentBackup};
use crate::settings::DevelopmentCacheSettings;
use crate::text::{lex_le, lemma_lex_transitive, push_str};

verus! {

/// How many variables global routing manages.
pub const MANAGED_VARIABLE_COUNT: usize = 8;

/// The managed variable names, numbered in the order in which a sorted map of
/// names walks them.
pub open spec fn variable_name(i: int) -> Seq<char> {
    if i == 0 {
        "PIP_CACHE_DIR"@
    } else if i == 1 {
        "TEMP"@
    } else if i == 2 {
        "TMP"@
    } else if i == 3 {
        "TMPDIR"@
    } else if i == 4 {
        "UV_CACHE_DIR"@
    } else if i == 5 {
        "YARN_CACHE_FOLDER"@
    } else if i == 6 {
        "npm_config_cache"@
    } else {
        "npm_config_store_dir"@
    }
}

/// The name of managed variable `i`.
pub fn variable_name_at(i: usize) -> (r: &'static str)
    requires
        i < MANAGED_VARIABLE_COUNT,
    ensures
        r@ == variable_name(i as int),
{
    if i == 0 {
        "PIP_CACHE_DIR"
    } else if i == 1 {
        "TEMP"
    } else if i == 2 {
        "TMP"
    } else if i == 3 {
        "TMPDIR"
    } else if i == 4 {
        "UV_CACHE_DIR"
    } else if i == 5 {
        "YARN_CACHE_FOLDER"
    } else if i == 6 {
        "npm_config_cache"
    } else {
        "npm_config_store_dir"
    }
}

/// The lengths of the managed variable names.
pub proof fn lemma_variable_name_lengths()
    ensures
        variable_name(0).len() == 13,
        variable_name(1).len() == 4,
        variable_name(2).len() == 3,
        variable_name(3).len() == 6,
        variable_name(4).len() == 12,
        variable_name(5).len() == 17,
        variable_name(6).len() == 16,
        variable_name(7).len() == 20,
{
    reveal_strlit("PIP_CACHE_DIR");
    reveal_strlit("TEMP");
    reveal_strlit("TMP");
    reveal_strlit("TMPDIR");
    reveal_strlit("UV_CACHE_DIR");
    reveal_strlit("YARN_CACHE_FOLDER");
    reveal_strlit("npm_config_cache");
    reveal_strlit("npm_config_store_dir");
}

/// No two managed variables share a name.
pub proof fn lemma_variable_names_distinct(i: int, j: int)
    requires
        0 <= i < 8,
        0 <= j < 8,
        i != j,
    ensures
        variable_name(i) != variable_name(j),
{
    lemma_variable_name_lengths();
}


proof fn lemma_adjacent_names_ascending(k: int)
    requires
        0 <= k < 7,
    ensures
        lex_le(variable_name(k), variable_name(k + 1)),
{
    reveal_strlit("PIP_CACHE_DIR");
    reveal_strlit("TEMP");
    reveal_strlit("TMP");
    reveal_strlit("TMPDIR");
    reveal_strlit("UV_CACHE_DIR");
    reveal_strlit("YARN_CACHE_FOLDER");
    reveal_strlit("npm_config_cache");
    reveal_strlit("npm_config_store_dir");
    reveal_with_fuel(lex_le, 13);
}

/// The managed variable names, by number, are in strictly ascending string
/// order.
pub proof fn lemma_variable_names_ascending(i: int, j: int)
    requires
        0 <= i < j < 8,
    ensures
        lex_le(variable_name(i), variable_name(j)),
        variable_name(i) != variable_name(j),
    decreases j - i,
{
    lemma_variable_names_distinct(i, j);
    if j == i + 1 {
        lemma_adjacent_names_ascending(i);
    } else {
        lemma_variable_names_ascending(i, j - 1);
        lemma_adjacent_names_ascending(j - 1);
        lemma_lex_transitive(variable_name(i), variable_name(j - 1), variable_name(j));
    }
}

/// The number of the managed variable called `name`, if there is one.
pub open spec fn variable_index(name: Seq<char>) -> Option<int> {
    if exists|i: int| 0 <= i < 8 && variable_name(i) == name {
        Some(choose|i: int| 0 <= i < 8 && variable_name(i) == name)
    } else {
        None
    }
}

/// Variable `i`'s name is the name of variable `i` only.
pub proof fn lemma_variable_index_of(i: int)
    requires
        0 <= i < 8,
    ensures
        variable_index(variable_name(i)) == Some(i),
{
    let c = choose|k: int| 0 <= k < 8 && variable_name(k) == variable_name(i);
    if c != i {
        lemma_variable_names_distinct(c, i);
    }
}

/// Whether two strings hold the same characters.
pub fn str_equals(a: &str, b: &str) -> (r: bool)
    ensures
        r == (a@ == b@),
{
    let x = crate::text::chars_of(a);
    let y = crate::text::chars_of(b);
    crate::paths::chars_eq(&x, &y)
}

/// The number of the managed variable called `name`, if there is one.
pub fn managed_variable_index(name: &str) -> (r: Option<usize>)
    ensures
        match r {
            Some(i) => i < MANAGED_VARIABLE_COUNT && variable_name(i as int) == name@
                && variable_index(name@) == Some(i as int),
            None => variable_index(name@) is None,
        },
{
    let mut i: usize = 0;
    while i < MANAGED_VARIABLE_COUNT
        invariant
            i <= MANAGED_VARIABLE_COUNT,
            forall|k: int| 0 <= k < i ==> variable_name(k) != name@,
        decreases MANAGED_VARIABLE_COUNT - i,
    {
        if str_equals(variable_name_at(i), name) {
            proof {
                let c = choose|k: int| 0 <= k < 8 && variable_name(k) == name@;
                if c != i as int {
                    lemma_variable_names_distinct(c, i as int);
                }
            }
            return Some(i);
        }
        i += 1;
    }
    None
}

/// Global routing is on when caching is enabled in global mode.
pub open spec fn global_mode_enabled_spec(settings: DevelopmentCacheSettings) -> bool {
    settings.enabled && settings.global_mode
}

/// Whether the settings ask for global routing.
pub fn global_mode_enabled(settings: &DevelopmentCacheSettings) -> (r: bool)
    ensures
        r == global_mode_enabled_spec(*settings),
{
    settings.enabled && settings.global_mode
}

/// The value that global routing wants for variable `i` below managed root `m`.
pub open spec fn desired_value_spec(
    settings: DevelopmentCacheSettings,
    style: PathStyle,
    m: Seq<char>,
    i: int,
) -> Option<Seq<char>> {
    let shared = join_spec(style, m, "shared"@);
    if 1 <= i <= 3 {
        if settings.route_temp {
            Some(join_spec(style, m, "global-temp"@))
        } else {
            None
        }
    } else if i == 5 || i == 6 || i == 7 {
        if settings.route_node {
            Some(
                join_spec(
                    style,
                    shared,
                    if i == 6 {
                        "npm"@
                    } else if i == 5 {
                        "yarn"@
                    } else {
                        "pnpm-store"@
                    },
                ),
            )
        } else {
            None
        }
    } else if settings.route_python {
        Some(join_spec(style, shared, if i == 0 { "pip"@ } else { "uv"@ }))
    } else {
        None
    }
}

/// The wanted global environment: the managed root and, for each managed
/// variable in order, the value wanted for it or `None` if it is not routed.
#[derive(Debug)]
pub struct DesiredEnvironment {
    pub managed_root: String,
    pub values: Vec<Option<String>>,
}

pub open spec fn opt_view(o: Option<String>) -> Option<Seq<char>> {
    match o {
        Some(s) => Some(s@),
        None => None,
    }
}

/// `desired` holds the values wanted below its managed root, or nothing at
/// all when global routing is off.
pub open spec fn desired_matches(
    desired: DesiredEnvironment,
    settings: DevelopmentCacheSettings,
    style: PathStyle,
) -> bool {
    &&& desired.values.len() == 8
    &&& forall|i: int|
        0 <= i < 8 ==> #[trigger] opt_view(desired.values@[i]) == if !global_mode_enabled_spec(settings) {
            None
        } else {
            desired_value_spec(settings, style, desired.managed_root@, i)
        }
}

pub open spec fn missing_root_text() -> Seq<char> {
    "启用全局开发缓存前必须指定缓存目录"@
}

/// Computes the wanted global environment.
///
/// `root` is the outcome of checking `settings.root_dir`, or `None` when no
/// directory is configured.  With global routing off nothing is wanted and
/// the managed root is empty.
pub fn desired_global_environment(
    settings: &DevelopmentCacheSettings,
    root: &Option<Result<String, RootError>>,
    style: PathStyle,
) -> (r: Result<DesiredEnvironment, String>)
    ensures
        !global_mode_enabled_spec(*settings) ==> (r matches Ok(d) && d.managed_root@.len() == 0
            && desired_matches(d, *settings, style)),
        global_mode_enabled_spec(*settings) ==> match root {
            None => r matches Err(e) && e@ == missing_root_text(),
            Some(Err(re)) => r matches Err(e) && e@ == root_error_text(*re),
            Some(Ok(m)) => r matches Ok(d) && d.managed_root@ == m@ && desired_matches(d, *settings, style),
        },
{
    if !global_mode_enabled(settings) {
        let mut values: Vec<Option<String>> = Vec::new();
        let mut i: usize = 0;
        while i < MANAGED_VARIABLE_COUNT
            invariant
                i <= MANAGED_VARIABLE_COUNT,
                values.len() == i,
                forall|k: int| 0 <= k < i ==> values@[k] is None,
            decreases MANAGED_VARIABLE_COUNT - i,
        {
            values.push(None);
            i += 1;
        }
        let d = DesiredEnvironment { managed_root: String::new(), values };
        assert(forall|k: int| 0 <= k < 8 ==> #[trigger] opt_view(d.values@[k]) is None);
        return Ok(d);
    }
    let m = match root {
        None => return Err("启用全局开发缓存前必须指定缓存目录".to_owned()),
        Some(Err(e)) => return Err(e.message()),
        Some(Ok(m)) => m,
    };
    let shared = join(style, m.as_str(), "shared");
    let temp = join(style, m.as_str(), "global-temp");
    let mut values: Vec<Option<String>> = Vec::new();
    let mut i: usize = 0;
    while i < MANAGED_VARIABLE_COUNT
        invariant
            i <= MANAGED_VARIABLE_COUNT,
            values.len() == i,
            shared@ == join_spec(style, m@, "shared"@),
            temp@ == join_spec(style, m@, "global-temp"@),
            forall|k: int|
                0 <= k < i ==> #[trigger] opt_view(values@[k]) == desired_value_spec(*settings, style, m@, k),
        decreases MANAGED_VARIABLE_COUNT - i,
    {
        let v: Option<String> = if 1 <= i && i <= 3 {
            if settings.route_temp {
                Some(temp.clone())
            } else {
                None
            }
        } else if i == 5 || i == 6 || i == 7 {
            if settings.route_node {
                let leaf = if i == 6 {
                    "npm"
                } else if i == 5 {
                    "yarn"
                } else {
                    "pnpm-store"
                };
                Some(join(style, shared.as_str(), leaf))
            } else {
                None
            }
        } else if settings.route_python {
            Some(join(style, shared.as_str(), if i == 0 { "pip" } else { "uv" }))
        } else {
            None
        };
        values.push(v);
        i += 1;
    }
    Ok(DesiredEnvironment { managed_root: m.clone(), values })
}


/// Every value that global routing wants lies within the managed root, so
/// the in-root check made before an apply never refuses one.
pub proof fn lemma_desired_within_root(
    settings: DevelopmentCacheSettings,
    style: PathStyle,
    m: Seq<char>,
    i: int,
)
    requires
        is_absolute_spec(style, m),
        0 <= i < 8,
        desired_value_spec(settings, style, m, i) is Some,
    ensures
        is_within_spec(style, desired_value_spec(settings, style, m, i)->Some_0, m),
{
    lemma_layout_names_plain(style);
    if 1 <= i <= 3 {
        lemma_join2_within(style, m, "global-temp"@, "shared"@);
    } else if i == 6 {
        lemma_join2_within(style, m, "shared"@, "npm"@);
    } else if i == 5 {
        lemma_join2_within(style, m, "shared"@, "yarn"@);
    } else if i == 7 {
        lemma_join2_within(style, m, "shared"@, "pnpm-store"@);
    } else if i == 0 {
        lemma_join2_within(style, m, "shared"@, "pip"@);
    } else {
        lemma_join2_within(style, m, "shared"@, "uv"@);
    }
}

pub open spec fn outside_root_text(path: Seq<char>) -> Seq<char> {
    "拒绝写入越界的全局缓存目录: "@ + path
}

/// Refuses a wanted value that would lie outside the managed root; the first
/// such value, in variable order, is named in the error.
pub fn check_desired_within(desired: &DesiredEnvironment, style: PathStyle) -> (r: Result<(), String>)
    requires
        desired.values.len() == 8,
    ensures
        r is Ok <==> forall|i: int|
            0 <= i < 8 && #[trigger] desired.values@[i] is Some ==> is_within_spec(
                style,
                desired.values@[i]->Some_0@,
                desired.managed_root@,
            ),
        r matches Err(e) ==> exists|i: int|
            0 <= i < 8 && #[trigger] desired.values@[i] is Some && !is_within_spec(
                style,
                desired.values@[i]->Some_0@,
                desired.managed_root@,
            ) && e@ == outside_root_text(desired.values@[i]->Some_0@) && forall|k: int|
                0 <= k < i && desired.values@[k] is Some ==> is_within_spec(
                    style,
                    desired.values@[k]->Some_0@,
                    desired.managed_root@,
                ),
{
    let mut i: usize = 0;
    while i < MANAGED_VARIABLE_COUNT
        invariant
            i <= MANAGED_VARIABLE_COUNT,
            desired.values.len() == 8,
            forall|k: int|
                0 <= k < i && #[trigger] desired.values@[k] is Some ==> is_within_spec(
                    style,
                    desired.values@[k]->Some_0@,
                    desired.managed_root@,
                ),
        decreases MANAGED_VARIABLE_COUNT - i,
    {
        match &desired.values[i] {
            Some(v) => {
                if !is_within(style, v.as_str(), desired.managed_root.as_str()) {
                    let mut e = "拒绝写入越界的全局缓存目录: ".to_owned();
                    push_str(&mut e, v.as_str());
                    assert(desired.values@[i as int] is Some);
                    return Err(e);
                }
            },
            None => {},
        }
        i += 1;
    }
    Ok(())
}

/// How one managed variable stands against the backup and the wanted value.
#[derive(Clone, Copy, Debug, PartialEq, Eq, Structural)]
pub enum VariableState {
    /// Changed by someone else since routing wrote it.
    Conflict,
    /// Holds what routing wrote, which is also what is wanted now.
    Managed,
    /// Holds what routing wrote, but something else is wanted now.
    Stale,
    /// Holds the wanted value, but routing did not write it.
    Untracked,
    /// Routing has not written the wanted value.
    NotApplied,
}

pub open spec fn variable_state_spec(
    written: Option<Seq<char>>,
    expected: Option<Seq<char>>,
    current: Option<Seq<char>>,
) -> VariableState {
    match written {
        Some(w) => if current != Some(w) {
            VariableState::Conflict
        } else if expected == current {
            VariableState::Managed
        } else {
            VariableState::Stale
        },
        None => if expected == current {
            VariableState::Untracked
        } else {
            VariableState::NotApplied
        },
    }
}

/// A variable that the backup does not record is never a conflict, whatever
/// it holds now: it is untracked when it already holds the wanted value, and
/// not applied otherwise.
pub proof fn lemma_unrecorded_never_conflicts(expected: Option<Seq<char>>, current: Option<Seq<char>>)
    ensures
        variable_state_spec(None, expected, current) != VariableState::Conflict,
        variable_state_spec(None, expected, current) == VariableState::Untracked <==> expected == current,
        variable_state_spec(None, expected, current) == VariableState::NotApplied <==> expected != current,
{
}

/// Only a recorded variable whose present value differs from what routing
/// wrote is a conflict.
pub proof fn lemma_conflict_means_changed(
    written: Option<Seq<char>>,
    expected: Option<Seq<char>>,
    current: Option<Seq<char>>,
)
    ensures
        variable_state_spec(written, expected, current) == VariableState::Conflict <==> (written is Some
            && current != written),
{
}

pub open spec fn state_text(s: VariableState) -> Seq<char> {
    match s {
        VariableState::Conflict => "conflict"@,
        VariableState::Managed => "managed"@,
        VariableState::Stale => "stale"@,
        VariableState::Untracked => "untracked"@,
        VariableState::NotApplied => "notApplied"@,
    }
}

impl VariableState {
    /// The name under which the state is reported.
    pub fn text(&self) -> (r: String)
        ensures
            r@ == state_text(*self),
    {
        match self {
            VariableState::Conflict => "conflict".to_owned(),
            VariableState::Managed => "managed".to_owned(),
            VariableState::Stale => "stale".to_owned(),
            VariableState::Untracked => "untracked".to_owned(),
            VariableState::NotApplied => "notApplied".to_owned(),
        }
    }
}

fn opt_eq(a: &Option<String>, b: &Option<String>) -> (r: bool)
    ensures
        r == (opt_view(*a) == opt_view(*b)),
{
    match (a, b) {
        (Some(x), Some(y)) => str_equals(x.as_str(), y.as_str()),
        (None, None) => true,
        _ => false,
    }
}

fn opt_clone(a: &Option<String>) -> (r: Option<String>)
    ensures
        opt_view(r) == opt_view(*a),
{
    match a {
        Some(x) => Some(x.clone()),
        None => None,
    }
}

/// Classifies one variable.
pub fn variable_state(
    written: &Option<String>,
    expected: &Option<String>,
    current: &Option<String>,
) -> (r: VariableState)
    ensures
        r == variable_state_spec(opt_view(*written), opt_view(*expected), opt_view(*current)),
{
    match written {
        Some(w) => {
            let is_written = match current {
                Some(c) => str_equals(c.as_str(), w.as_str()),
                None => false,
            };
            if !is_written {
                VariableState::Conflict
            } else if opt_eq(expected, current) {
                VariableState::Managed
            } else {
                VariableState::Stale
            }
        },
        None => {
            if opt_eq(expected, current) {
                VariableState::Untracked
            } else {
                VariableState::NotApplied
            }
        },
    }
}

/// How one managed variable stands, as reported to the user.
#[derive(Debug, Clone)]
pub struct GlobalEnvironmentVariableStatus {
    pub name: String,
    pub expected: Option<String>,
    pub current: Option<String>,
    pub state: String,
}

/// How global routing stands as a whole.
#[derive(Debug, Clone)]
pub struct GlobalEnvironmentStatus {
    pub supported: bool,
    pub enabled: bool,
    pub applied: bool,
    pub has_backup: bool,
    pub has_conflict: bool,
    pub managed_root: Option<String>,
    pub variables: Vec<GlobalEnvironmentVariableStatus>,
    pub warnings: Vec<String>,
}

/// The text routing last wrote to variable `i`, as the backup records it.
pub open spec fn backup_written(backup: Option<GlobalEnvironmentBackup>, i: int) -> Option<Seq<char>> {
    match backup {
        Some(b) => match find_entry(b.entries@, variable_name(i)) {
            Some(e) => Some(e.written@),
            None => None,
        },
        None => None,
    }
}

/// Whether variable `i` is reported: it is wanted or recorded in the backup.
pub open spec fn reported(desired: DesiredEnvironment, backup: Option<GlobalEnvironmentBackup>, i: int) -> bool {
    ||| desired.values@[i] is Some
    ||| (backup matches Some(b) && find_entry(b.entries@, variable_name(i)) is Some)
}

/// The reported variables among the first `n`, in order.
pub open spec fn reported_upto(
    desired: DesiredEnvironment,
    backup: Option<GlobalEnvironmentBackup>,
    n: int,
) -> Seq<int>
    decreases n,
{
    if n <= 0 {
        seq![]
    } else if reported(desired, backup, n - 1) {
        reported_upto(desired, backup, n - 1).push(n - 1)
    } else {
        reported_upto(desired, backup, n - 1)
    }
}

/// The reported variables, in order.
pub open spec fn reported_variables(desired: DesiredEnvironment, backup: Option<GlobalEnvironmentBackup>) -> Seq<int> {
    reported_upto(desired, backup, 8)
}

/// The variables reported among the first `n` are each below `n`.
pub proof fn lemma_reported_upto_bounds(
    desired: DesiredEnvironment,
    backup: Option<GlobalEnvironmentBackup>,
    n: int,
)
    requires
        0 <= n,
    ensures
        forall|k: int|
            0 <= k < reported_upto(desired, backup, n).len() ==> 0 <= #[trigger] reported_upto(
                desired,
                backup,
                n,
            )[k] < n,
        reported_upto(desired, backup, n).len() <= n,
    decreases n,
{
    if n > 0 {
        lemma_reported_upto_bounds(desired, backup, n - 1);
    }
}

pub open spec fn reported_state(
    desired: DesiredEnvironment,
    backup: Option<GlobalEnvironmentBackup>,
    current: Seq<Option<String>>,
    i: int,
) -> VariableState {
    variable_state_spec(backup_written(backup, i), opt_view(desired.values@[i]), opt_view(current[i]))
}

pub open spec fn opt_backup_view(b: Option<&GlobalEnvironmentBackup>) -> Option<GlobalEnvironmentBackup> {
    match b {
        Some(x) => Some(*x),
        None => None,
    }
}

/// The managed variables that a status reports, in order: those wanted or
/// recorded in the backup.  Their present values are what the status needs
/// read from the registry.
pub fn status_variables(desired: &DesiredEnvironment, backup: Option<&GlobalEnvironmentBackup>) -> (r: Vec<
    usize,
>)
    requires
        desired.values.len() == 8,
    ensures
        r@.map_values(|i: usize| i as int) == reported_variables(*desired, opt_backup_view(backup)),
{
    let ghost b = opt_backup_view(backup);
    let mut r: Vec<usize> = Vec::new();
    let mut i: usize = 0;
    while i < MANAGED_VARIABLE_COUNT
        invariant
            i <= MANAGED_VARIABLE_COUNT,
            desired.values.len() == 8,
            b == opt_backup_view(backup),
            r@.map_values(|j: usize| j as int) == reported_upto(*desired, b, i as int),
        decreases MANAGED_VARIABLE_COUNT - i,
    {
        let recorded = match backup {
            Some(bk) => find_entry_index(&bk.entries, variable_name_at(i)).is_some(),
            None => false,
        };
        if desired.values[i].is_some() || recorded {
            r.push(i);
        }
        i += 1;
        assert(r@.map_values(|j: usize| j as int) =~= reported_upto(*desired, b, i as int));
    }
    r
}

/// Different states are reported under different names.
proof fn lemma_state_texts_distinct(a: VariableState, b: VariableState)
    requires
        a != b,
    ensures
        state_text(a) != state_text(b),
{
    reveal_strlit("conflict");
    reveal_strlit("managed");
    reveal_strlit("stale");
    reveal_strlit("untracked");
    reveal_strlit("notApplied");
    assert("conflict"@.len() == 8);
    assert("managed"@.len() == 7);
    assert("stale"@.len() == 5);
    assert("untracked"@.len() == 9);
    assert("notApplied"@.len() == 10);
    assert(state_text(a).len() != state_text(b).len());
}

/// The reported variables come in strictly ascending order.
proof fn lemma_reported_ascending(desired: DesiredEnvironment, backup: Option<GlobalEnvironmentBackup>, n: int)
    requires
        0 <= n,
    ensures
        forall|j: int, k: int|
            0 <= j < k < reported_upto(desired, backup, n).len() ==> reported_upto(desired, backup, n)[j]
                < reported_upto(desired, backup, n)[k],
    decreases n,
{
    if n > 0 {
        lemma_reported_ascending(desired, backup, n - 1);
        lemma_reported_upto_bounds(desired, backup, n - 1);
    }
}

/// How the reported variables determine the status's flags: it conflicts
/// exactly when some variable is reported as `conflict`, every variable is
/// `managed` exactly when each state is, and the names come in strictly
/// ascending order.
proof fn lemma_status_law(
    desired: DesiredEnvironment,
    b: Option<GlobalEnvironmentBackup>,
    current: Seq<Option<String>>,
    vars: Seq<GlobalEnvironmentVariableStatus>,
)
    requires
        vars.len() == reported_variables(desired, b).len(),
        forall|k: int|
            0 <= k < vars.len() ==> {
                let i = reported_variables(desired, b)[k];
                &&& (#[trigger] vars[k]).name@ == variable_name(i)
                &&& vars[k].state@ == state_text(reported_state(desired, b, current, i))
            },
    ensures
        (exists|k: int|
            0 <= k < vars.len() && reported_state(desired, b, current, #[trigger] reported_variables(desired, b)[k])
                == VariableState::Conflict) == (exists|k: int|
            0 <= k < vars.len() && (#[trigger] vars[k]).state@ == "conflict"@),
        (forall|k: int|
            0 <= k < vars.len() ==> reported_state(desired, b, current, #[trigger] reported_variables(desired, b)[k])
                == VariableState::Managed) == (forall|k: int|
            0 <= k < vars.len() ==> (#[trigger] vars[k]).state@ == "managed"@),
        forall|j: int, k: int|
            #![trigger vars[j], vars[k]]
            0 <= j < k < vars.len() ==> lex_le(vars[j].name@, vars[k].name@) && vars[j].name@ != vars[k].name@,
{
    let order = reported_variables(desired, b);
    lemma_reported_upto_bounds(desired, b, 8);
    lemma_reported_ascending(desired, b, 8);
    assert forall|k: int| 0 <= k < vars.len() implies ((#[trigger] vars[k]).state@ == "conflict"@
        <==> reported_state(desired, b, current, order[k]) == VariableState::Conflict) && (vars[k].state@
        == "managed"@ <==> reported_state(desired, b, current, order[k]) == VariableState::Managed) by {
        let s = reported_state(desired, b, current, order[k]);
        if s != VariableState::Conflict {
            lemma_state_texts_distinct(s, VariableState::Conflict);
        }
        if s != VariableState::Managed {
            lemma_state_texts_distinct(s, VariableState::Managed);
        }
    }
    if exists|k: int| 0 <= k < vars.len() && (#[trigger] vars[k]).state@ == "conflict"@ {
        let w = choose|k: int| 0 <= k < vars.len() && (#[trigger] vars[k]).state@ == "conflict"@;
        assert(reported_state(desired, b, current, order[w]) == VariableState::Conflict);
    }
    if exists|k: int|
        0 <= k < vars.len() && reported_state(desired, b, current, #[trigger] order[k]) == VariableState::Conflict {
        let w = choose|k: int|
            0 <= k < vars.len() && reported_state(desired, b, current, #[trigger] order[k])
                == VariableState::Conflict;
        assert(vars[w].state@ == "conflict"@);
    }
    if forall|k: int| 0 <= k < vars.len() ==> (#[trigger] vars[k]).state@ == "managed"@ {
        assert forall|k: int| 0 <= k < vars.len() implies reported_state(desired, b, current, #[trigger] order[k])
            == VariableState::Managed by {
            assert(vars[k].state@ == "managed"@);
        }
    }
    if forall|k: int|
        0 <= k < vars.len() ==> reported_state(desired, b, current, #[trigger] order[k]) == VariableState::Managed {
        assert forall|k: int| 0 <= k < vars.len() implies (#[trigger] vars[k]).state@ == "managed"@ by {
            assert(reported_state(desired, b, current, order[k]) == VariableState::Managed);
        }
    }
    assert forall|j: int, k: int|
        #![trigger vars[j], vars[k]]
        0 <= j < k < vars.len() implies lex_le(vars[j].name@, vars[k].name@) && vars[j].name@ != vars[k].name@ by {
        assert(order[j] < order[k]);
        lemma_variable_names_ascending(order[j], order[k]);
        assert(vars[j].name@ == variable_name(order[j]));
        assert(vars[k].name@ == variable_name(order[k]));
    }
}

/// The status of global routing from what the registry holds now.
///
/// `current` holds, for each managed variable that is reported, the text the
/// registry holds for it (`None` when absent or not text); the entries of
/// variables that are not reported are ignored.
pub fn global_status_from_readings(
    enabled: bool,
    desired: &DesiredEnvironment,
    backup: Option<&GlobalEnvironmentBackup>,
    current: &Vec<Option<String>>,
) -> (r: GlobalEnvironmentStatus)
    requires
        desired.values.len() == 8,
        current.len() == 8,
    ensures
        r.supported,
        r.enabled == enabled,
        r.has_backup == backup is Some,
        r.warnings.len() == 0,
        opt_view(r.managed_root) == if desired.managed_root@.len() == 0 {
            None
        } else {
            Some(desired.managed_root@)
        },
        r.variables.len() == reported_variables(*desired, opt_backup_view(backup)).len(),
        forall|k: int|
            0 <= k < r.variables.len() ==> {
                let i = reported_variables(*desired, opt_backup_view(backup))[k];
                let v = #[trigger] r.variables@[k];
                &&& v.name@ == variable_name(i)
                &&& opt_view(v.expected) == opt_view(desired.values@[i])
                &&& opt_view(v.current) == opt_view(current@[i])
                &&& v.state@ == state_text(reported_state(*desired, opt_backup_view(backup), current@, i))
            },
        r.has_conflict == exists|k: int|
            0 <= k < r.variables.len() && reported_state(
                *desired,
                opt_backup_view(backup),
                current@,
                #[trigger] reported_variables(*desired, opt_backup_view(backup))[k],
            ) == VariableState::Conflict,
        r.applied == (enabled && backup is Some && forall|k: int|
            0 <= k < r.variables.len() ==> reported_state(
                *desired,
                opt_backup_view(backup),
                current@,
                #[trigger] reported_variables(*desired, opt_backup_view(backup))[k],
            ) == VariableState::Managed),
        r.has_conflict == exists|k: int| 0 <= k < r.variables.len() && (#[trigger] r.variables@[k]).state@ == "conflict"@,
        r.applied == (r.enabled && r.has_backup && forall|k: int|
            0 <= k < r.variables.len() ==> (#[trigger] r.variables@[k]).state@ == "managed"@),
        forall|j: int, k: int|
            #![trigger r.variables@[j], r.variables@[k]]
            0 <= j < k < r.variables.len() ==> lex_le(r.variables@[j].name@, r.variables@[k].name@)
                && r.variables@[j].name@ != r.variables@[k].name@,
{
    let ghost b = opt_backup_view(backup);
    let ghost order = reported_variables(*desired, b);
    let mut variables: Vec<GlobalEnvironmentVariableStatus> = Vec::new();
    let mut has_conflict = false;
    let mut all_managed = true;
    let mut i: usize = 0;
    while i < MANAGED_VARIABLE_COUNT
        invariant
            i <= MANAGED_VARIABLE_COUNT,
            desired.values.len() == 8,
            current.len() == 8,
            b == opt_backup_view(backup),
            variables.len() == reported_upto(*desired, b, i as int).len(),
            forall|k: int|
                0 <= k < variables.len() ==> {
                    let j = reported_upto(*desired, b, i as int)[k];
                    let v = #[trigger] variables@[k];
                    &&& v.name@ == variable_name(j)
                    &&& opt_view(v.expected) == opt_view(desired.values@[j])
                    &&& opt_view(v.current) == opt_view(current@[j])
                    &&& v.state@ == state_text(reported_state(*desired, b, current@, j))
                },
            has_conflict == exists|k: int|
                0 <= k < variables.len() && reported_state(
                    *desired,
                    b,
                    current@,
                    #[trigger] reported_upto(*desired, b, i as int)[k],
                ) == VariableState::Conflict,
            all_managed == forall|k: int|
                0 <= k < variables.len() ==> reported_state(
                    *desired,
                    b,
                    current@,
                    #[trigger] reported_upto(*desired, b, i as int)[k],
                ) == VariableState::Managed,
        decreases MANAGED_VARIABLE_COUNT - i,
    {
        let name = variable_name_at(i);
        let written: Option<String> = match backup {
            Some(bk) => match find_entry_index(&bk.entries, name) {
                Some(k) => Some(bk.entries[k].1.written.clone()),
                None => None,
            },
            None => None,
        };
        assert(opt_view(written) == backup_written(b, i as int));
        let in_backup = written.is_some();
        let ghost prev = reported_upto(*desired, b, i as int);
        if desired.values[i].is_some() || in_backup {
            assert(reported(*desired, b, i as int));
            let state = variable_state(&written, &desired.values[i], &current[i]);
            let ghost pv = variables@;
            variables.push(
                GlobalEnvironmentVariableStatus {
                    name: name.to_owned(),
                    expected: opt_clone(&desired.values[i]),
                    current: opt_clone(&current[i]),
                    state: state.text(),
                },
            );
            let is_conflict = matches!(state, VariableState::Conflict);
            let is_managed = matches!(state, VariableState::Managed);
            has_conflict = has_conflict || is_conflict;
            all_managed = all_managed && is_managed;
            let ghost now = reported_upto(*desired, b, i + 1);
            assert(now == prev.push(i as int));
            assert forall|k: int| 0 <= k < variables.len() implies {
                let j = now[k];
                let v = #[trigger] variables@[k];
                &&& v.name@ == variable_name(j)
                &&& opt_view(v.expected) == opt_view(desired.values@[j])
                &&& opt_view(v.current) == opt_view(current@[j])
                &&& v.state@ == state_text(reported_state(*desired, b, current@, j))
            } by {
                if k < pv.len() {
                    assert(variables@[k] == pv[k]);
                    assert(now[k] == prev[k]);
                }
            }
            if has_conflict {
                if is_conflict {
                    assert(now[pv.len() as int] == i as int);
                } else {
                    let ghost w = choose|k: int|
                        0 <= k < pv.len() && reported_state(*desired, b, current@, #[trigger] prev[k])
                            == VariableState::Conflict;
                    assert(now[w] == prev[w]);
                }
            } else {
                assert forall|k: int| 0 <= k < variables.len() implies reported_state(
                    *desired,
                    b,
                    current@,
                    #[trigger] now[k],
                ) != VariableState::Conflict by {
                    if k < pv.len() {
                        assert(now[k] == prev[k]);
                    }
                }
            }
            if all_managed {
                assert forall|k: int| 0 <= k < variables.len() implies reported_state(
                    *desired,
                    b,
                    current@,
                    #[trigger] now[k],
                ) == VariableState::Managed by {
                    if k < pv.len() {
                        assert(now[k] == prev[k]);
                    }
                }
            } else {
                if !is_managed {
                    assert(now[pv.len() as int] == i as int);
                } else {
                    let ghost w = choose|k: int|
                        0 <= k < pv.len() && reported_state(*desired, b, current@, #[trigger] prev[k])
                            != VariableState::Managed;
                    assert(now[w] == prev[w]);
                }
            }
        } else {
            assert(!reported(*desired, b, i as int));
            assert(reported_upto(*desired, b, i + 1) == prev);
        }
        i += 1;
    }
    let managed_root = if desired.managed_root.as_str().is_empty() {
        None
    } else {
        Some(desired.managed_root.clone())
    };
    let r = GlobalEnvironmentStatus {
        supported: true,
        enabled,
        applied: enabled && backup.is_some() && all_managed,
        has_backup: backup.is_some(),
        has_conflict,
        managed_root,
        variables,
        warnings: Vec::new(),
    };
    proof {
        lemma_status_law(*desired, b, current@, r.variables@);
    }
    r
}

/// The status when the wanted environment cannot be computed: the reason is
/// reported as a warning and the state counts as conflicting.
pub fn global_status_when_desired_fails(enabled: bool, error: String, has_backup: bool) -> (r:
    GlobalEnvironmentStatus)
    ensures
        r.supported,
        r.enabled == enabled,
        !r.applied,
        r.has_backup == has_backup,
        r.has_conflict,
        r.managed_root is None,
        r.variables.len() == 0,
        r.warnings@.len() == 1 && r.warnings@[0]@ == error@,
{
    let mut warnings: Vec<String> = Vec::new();
    warnings.push(error);
    GlobalEnvironmentStatus {
        supported: true,
        enabled,
        applied: false,
        has_backup,
        has_conflict: true,
        managed_root: None,
        variables: Vec::new(),
        warnings,
    }
}

pub open spec fn unsupported_text() -> Seq<char> {
    "全局开发缓存环境变量目前仅支持 Windows"@
}

/// The status on platforms without a global environment to route.
pub fn unsupported_global_status(settings: &DevelopmentCacheSettings) -> (r: GlobalEnvironmentStatus)
    ensures
        !r.supported,
        r.enabled == global_mode_enabled_spec(*settings),
        !r.applied,
        !r.has_backup,
        !r.has_conflict,
        r.managed_root is None,
        r.variables.len() == 0,
        r.warnings@.len() == 1 && r.warnings@[0]@ == unsupported_text(),
{
    let mut warnings: Vec<String> = Vec::new();
    warnings.push("全局开发缓存环境变量目前仅支持 Windows".to_owned());
    GlobalEnvironmentStatus {
        supported: false,
        enabled: global_mode_enabled(settings),
        applied: false,
        has_backup: false,
        has_conflict: false,
        managed_root: None,
        variables: Vec::new(),
        warnings,
    }
}


/// What a change of settings, or the start of the app, does to the global
/// environment.
#[derive(Clone, Copy, Debug, PartialEq, Eq, Structural)]
pub enum GlobalSyncAction {
    /// Write the wanted values (and the backup).
    Apply,
    /// Write back the recorded originals and remove the backup.
    Restore,
    /// Leave everything as it is.
    Keep,
    /// Refuse: global routing is not available on this platform.
    Unsupported,
}

/// What a settings change from `old` to `new` does.  On Windows: apply when
/// global routing is wanted, restore when it was on before or a backup is
/// left over, and otherwise nothing.  Elsewhere global routing is refused.
pub fn sync_action(
    old: &DevelopmentCacheSettings,
    new: &DevelopmentCacheSettings,
    backup_exists: bool,
    windows: bool,
) -> (r: GlobalSyncAction)
    ensures
        r == if windows {
            if global_mode_enabled_spec(*new) {
                GlobalSyncAction::Apply
            } else if global_mode_enabled_spec(*old) || backup_exists {
                GlobalSyncAction::Restore
            } else {
                GlobalSyncAction::Keep
            }
        } else if global_mode_enabled_spec(*new) {
            GlobalSyncAction::Unsupported
        } else {
            GlobalSyncAction::Keep
        },
{
    if windows {
        if global_mode_enabled(new) {
            GlobalSyncAction::Apply
        } else if global_mode_enabled(old) || backup_exists {
            GlobalSyncAction::Restore
        } else {
            GlobalSyncAction::Keep
        }
    } else if global_mode_enabled(new) {
        GlobalSyncAction::Unsupported
    } else {
        GlobalSyncAction::Keep
    }
}

/// What the start of the app does with the saved settings: on Windows apply
/// when global routing is on, restore a left-over backup otherwise; nothing
/// elsewhere.
pub fn reconcile_action(settings: &DevelopmentCacheSettings, backup_exists: bool, windows: bool) -> (r:
    GlobalSyncAction)
    ensures
        r == if !windows {
            GlobalSyncAction::Keep
        } else if global_mode_enabled_spec(*settings) {
            GlobalSyncAction::Apply
        } else if backup_exists {
            GlobalSyncAction::Restore
        } else {
            GlobalSyncAction::Keep
        },
{
    if !windows {
        GlobalSyncAction::Keep
    } else if global_mode_enabled(settings) {
        GlobalSyncAction::Apply
    } else if backup_exists {
        GlobalSyncAction::Restore
    } else {
        GlobalSyncAction::Keep
    }
}

/// The refusal given when global routing is asked for where it is not
/// available.
pub fn unsupported_message() -> (r: String)
    ensures
        r@ == unsupported_text(),
{
    "全局开发缓存环境变量目前仅支持 Windows".to_owned()
}

} // verus!
