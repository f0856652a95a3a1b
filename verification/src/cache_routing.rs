//! Routing tool caches and temporary directories into the managed root,
//! for the whole app and for one launched session.

use vstd::prelude::*;
use crate::cache_root::{lemma_layout_names_plain, root_error_text, RootError};
use crate::cache_scan::SESSION_COMPLETED_FILE;
use crate::paths::{
    is_absolute_spec, is_name_char, is_plain_name, is_within_spec, join, join_spec, lemma_name_chars_plain,
    lemma_join2_within, lemma_join_absolute, PathStyle,
};
use crate::settings::DevelopmentCacheSettings;

verus! {

pub open spec fn routing_without_root_text() -> Seq<char> {
    "已启用开发缓存，但尚未指定缓存目录"@
}

/// Decides whether routing applies: not when caching is off; an error when
/// it is on without a usable root; otherwise the managed root.  `root` is the
/// outcome of checking `settings.root_dir`, or `None` when none is set.
pub fn routing_root(settings: &DevelopmentCacheSettings, root: &Option<Result<String, RootError>>) -> (r:
    Result<Option<String>, String>)
    ensures
        !settings.enabled ==> (r matches Ok(x) && x is None),
        settings.enabled ==> match root {
            None => r matches Err(e) && e@ == routing_without_root_text(),
            Some(Err(re)) => r matches Err(e) && e@ == root_error_text(*re),
            Some(Ok(m)) => r matches Ok(x) && x matches Some(y) && y@ == m@,
        },
{
    if !settings.enabled {
        return Ok(None);
    }
    match root {
        None => Err("已启用开发缓存，但尚未指定缓存目录".to_owned()),
        Some(Err(e)) => Err(e.message()),
        Some(Ok(m)) => Ok(Some(m.clone())),
    }
}

pub open spec fn pair_views(v: Seq<(String, String)>) -> Seq<(Seq<char>, Seq<char>)> {
    v.map_values(|p: (String, String)| (p.0@, p.1@))
}

/// The variables that routing sets, in order, below managed root `m`, with
/// `temp` as the temporary directory.
pub open spec fn routed_vars_spec(
    settings: DevelopmentCacheSettings,
    style: PathStyle,
    m: Seq<char>,
    temp: Seq<char>,
) -> Seq<(Seq<char>, Seq<char>)> {
    let shared = join_spec(style, m, "shared"@);
    let t: Seq<(Seq<char>, Seq<char>)> = if settings.route_temp {
        seq![("TEMP"@, temp), ("TMP"@, temp)]
    } else {
        seq![]
    };
    let n: Seq<(Seq<char>, Seq<char>)> = if settings.route_node {
        seq![
            ("npm_config_cache"@, join_spec(style, shared, "npm"@)),
            ("YARN_CACHE_FOLDER"@, join_spec(style, shared, "yarn"@)),
            ("npm_config_store_dir"@, join_spec(style, shared, "pnpm-store"@)),
        ]
    } else {
        seq![]
    };
    let p: Seq<(Seq<char>, Seq<char>)> = if settings.route_python {
        seq![("PIP_CACHE_DIR"@, join_spec(style, shared, "pip"@)), ("UV_CACHE_DIR"@, join_spec(style, shared, "uv"@))]
    } else {
        seq![]
    };
    t + n + p
}

/// Whether `name` is one of the temporary-directory variables.
pub open spec fn is_temp_variable(name: Seq<char>) -> bool {
    name == "TEMP"@ || name == "TMP"@ || name == "TMPDIR"@
}

proof fn lemma_cache_names_not_temp()
    ensures
        !is_temp_variable("npm_config_cache"@),
        !is_temp_variable("YARN_CACHE_FOLDER"@),
        !is_temp_variable("npm_config_store_dir"@),
        !is_temp_variable("PIP_CACHE_DIR"@),
        !is_temp_variable("UV_CACHE_DIR"@),
        is_temp_variable("TEMP"@),
        is_temp_variable("TMP"@),
        is_temp_variable("TMPDIR"@),
{
    reveal_strlit("TEMP");
    reveal_strlit("TMP");
    reveal_strlit("TMPDIR");
    reveal_strlit("npm_config_cache");
    reveal_strlit("YARN_CACHE_FOLDER");
    reveal_strlit("npm_config_store_dir");
    reveal_strlit("PIP_CACHE_DIR");
    reveal_strlit("UV_CACHE_DIR");
    assert("TEMP"@.len() == 4 && "TMP"@.len() == 3 && "TMPDIR"@.len() == 6);
    assert("npm_config_cache"@.len() == 16);
    assert("YARN_CACHE_FOLDER"@.len() == 17);
    assert("npm_config_store_dir"@.len() == 20);
    assert("PIP_CACHE_DIR"@.len() == 13);
    assert("UV_CACHE_DIR"@.len() == 12);
}

/// Routing points every temporary-directory variable it sets to the one
/// temporary directory: when temporary files are routed, `TEMP` and `TMP`
/// both come first and hold `temp`, and no variable of those names ever
/// holds anything else; when they are not, none is set.
pub proof fn lemma_temp_variables_agree(
    settings: DevelopmentCacheSettings,
    style: PathStyle,
    m: Seq<char>,
    temp: Seq<char>,
)
    ensures
        settings.route_temp ==> ({
            let v = routed_vars_spec(settings, style, m, temp);
            &&& v.len() >= 2
            &&& v[0] == ("TEMP"@, temp)
            &&& v[1] == ("TMP"@, temp)
        }),
        forall|k: int|
            0 <= k < routed_vars_spec(settings, style, m, temp).len() && is_temp_variable(
                #[trigger] routed_vars_spec(settings, style, m, temp)[k].0,
            ) ==> settings.route_temp && routed_vars_spec(settings, style, m, temp)[k].1 == temp,
{
    lemma_cache_names_not_temp();
    let v = routed_vars_spec(settings, style, m, temp);
    let t: Seq<(Seq<char>, Seq<char>)> = if settings.route_temp {
        seq![("TEMP"@, temp), ("TMP"@, temp)]
    } else {
        seq![]
    };
    assert forall|k: int| 0 <= k < v.len() && is_temp_variable(#[trigger] v[k].0) implies settings.route_temp
        && v[k].1 == temp by {
        if k >= t.len() {
            let j = k - t.len();
            let shared = join_spec(style, m, "shared"@);
            let n: Seq<(Seq<char>, Seq<char>)> = if settings.route_node {
                seq![
                    ("npm_config_cache"@, join_spec(style, shared, "npm"@)),
                    ("YARN_CACHE_FOLDER"@, join_spec(style, shared, "yarn"@)),
                    ("npm_config_store_dir"@, join_spec(style, shared, "pnpm-store"@)),
                ]
            } else {
                seq![]
            };
            let p: Seq<(Seq<char>, Seq<char>)> = if settings.route_python {
                seq![("PIP_CACHE_DIR"@, join_spec(style, shared, "pip"@)), ("UV_CACHE_DIR"@, join_spec(style, shared, "uv"@))]
            } else {
                seq![]
            };
            assert(v == t + n + p);
            if j < n.len() {
                assert(v[k] == n[j]);
            } else {
                assert(v[k] == p[j - n.len()]);
            }
        }
    }
}

/// In a launched session every temporary-directory variable points to the
/// session's own `temp` directory, and when temporary files are routed all
/// three of `TEMP`, `TMP` and `TMPDIR` are set.
pub proof fn lemma_launch_temp_variables_agree(
    c: LaunchCacheContext,
    settings: DevelopmentCacheSettings,
    style: PathStyle,
    m: Seq<char>,
    id: Seq<char>,
)
    requires
        is_launch_context(c, settings, style, m, id),
    ensures
        forall|k: int|
            0 <= k < c.env_vars.len() && is_temp_variable(#[trigger] c.env_vars@[k].0@) ==> c.env_vars@[k].1@
                == join_spec(style, c.session_dir@, "temp"@),
        settings.route_temp ==> c.env_vars.len() >= 3 && c.env_vars@[0].0@ == "TEMP"@ && c.env_vars@[1].0@
            == "TMP"@ && c.env_vars@[c.env_vars.len() - 1].0@ == "TMPDIR"@,
{
    let dir = session_dir_spec(style, m, id);
    let temp = join_spec(style, dir, "temp"@);
    let base = routed_vars_spec(settings, style, m, temp);
    lemma_temp_variables_agree(settings, style, m, temp);
    let pv = pair_views(c.env_vars@);
    assert(pv.len() == c.env_vars.len());
    assert forall|k: int| 0 <= k < c.env_vars.len() implies #[trigger] pv[k] == (c.env_vars@[k].0@, c.env_vars@[k].1@) by {}
    assert forall|k: int| 0 <= k < c.env_vars.len() && is_temp_variable(#[trigger] c.env_vars@[k].0@) implies c.env_vars@[k].1@
        == join_spec(style, c.session_dir@, "temp"@) by {
        assert(pv[k] == (c.env_vars@[k].0@, c.env_vars@[k].1@));
        if k < base.len() {
            assert(pv[k] == base[k]);
            assert(is_temp_variable(base[k].0));
        } else {
            assert(settings.route_temp);
            assert(pv[k] == ("TMPDIR"@, temp));
        }
    }
    if settings.route_temp {
        assert(pv[0] == base[0]);
        assert(pv[1] == base[1]);
        assert(pv[pv.len() - 1] == ("TMPDIR"@, temp));
    }
}

/// The environment that routing gives a process, the managed root it routes
/// into (none when routing is off), and the temporary directory that must
/// exist for it (when temporary files are routed).
#[derive(Debug)]
pub struct RoutedEnvironment {
    pub managed_root: Option<String>,
    pub temp_dir: Option<String>,
    pub env_vars: Vec<(String, String)>,
}

fn push_var(vars: &mut Vec<(String, String)>, name: &str, value: String)
    ensures
        pair_views(final(vars)@) == pair_views(old(vars)@).push((name@, value@)),
{
    let ghost v = value@;
    vars.push((name.to_owned(), value));
    assert(pair_views(vars@) =~= pair_views(old(vars)@).push((name@, v)));
}

/// The environment variables routing sets, when it is on, below managed root
/// `managed_root`:
/// `TEMP` and `TMP` point to `session_temp`, or to the root's `global-temp`
/// when there is no session; the npm, Yarn and pnpm caches and the pip and
/// uv caches point below the root's `shared` directory.
pub fn routes_below(
    settings: &DevelopmentCacheSettings,
    managed_root: &str,
    session_temp: Option<&str>,
    style: PathStyle,
) -> (r: RoutedEnvironment)
    requires
        settings.enabled,
    ensures
        r.managed_root matches Some(m) && m@ == managed_root@,
        ({
            let temp = match session_temp {
                Some(t) => t@,
                None => join_spec(style, managed_root@, "global-temp"@),
            };
            &&& pair_views(r.env_vars@) == routed_vars_spec(*settings, style, managed_root@, temp)
            &&& if settings.route_temp {
                r.temp_dir matches Some(d) && d@ == temp
            } else {
                r.temp_dir is None
            }
        }),
{
    let ghost temp_view = match session_temp {
        Some(t) => t@,
        None => join_spec(style, managed_root@, "global-temp"@),
    };
    let mut vars: Vec<(String, String)> = Vec::new();
    let mut temp_dir: Option<String> = None;
    if settings.route_temp {
        let temp = match session_temp {
            Some(t) => t.to_owned(),
            None => join(style, managed_root, "global-temp"),
        };
        push_var(&mut vars, "TEMP", temp.clone());
        push_var(&mut vars, "TMP", temp.clone());
        temp_dir = Some(temp);
    }
    let ghost after_temp = pair_views(vars@);
    let shared = join(style, managed_root, "shared");
    if settings.route_node {
        push_var(&mut vars, "npm_config_cache", join(style, shared.as_str(), "npm"));
        push_var(&mut vars, "YARN_CACHE_FOLDER", join(style, shared.as_str(), "yarn"));
        push_var(&mut vars, "npm_config_store_dir", join(style, shared.as_str(), "pnpm-store"));
    }
    let ghost after_node = pair_views(vars@);
    if settings.route_python {
        push_var(&mut vars, "PIP_CACHE_DIR", join(style, shared.as_str(), "pip"));
        push_var(&mut vars, "UV_CACHE_DIR", join(style, shared.as_str(), "uv"));
    }
    proof {
        let sh = join_spec(style, managed_root@, "shared"@);
        let t: Seq<(Seq<char>, Seq<char>)> = if settings.route_temp {
            seq![("TEMP"@, temp_view), ("TMP"@, temp_view)]
        } else {
            seq![]
        };
        assert(after_temp =~= t);
        let n: Seq<(Seq<char>, Seq<char>)> = if settings.route_node {
            seq![
                ("npm_config_cache"@, join_spec(style, sh, "npm"@)),
                ("YARN_CACHE_FOLDER"@, join_spec(style, sh, "yarn"@)),
                ("npm_config_store_dir"@, join_spec(style, sh, "pnpm-store"@)),
            ]
        } else {
            seq![]
        };
        assert(after_node =~= t + n);
        assert(pair_views(vars@) =~= routed_vars_spec(*settings, style, managed_root@, temp_view));
    }
    RoutedEnvironment { managed_root: Some(managed_root.to_owned()), temp_dir, env_vars: vars }
}

/// The environment that routing gives a process.  Routing off gives
/// nothing, without looking at the root; routing on needs a usable root
/// (`root` is the outcome of checking `settings.root_dir`, `None` when none
/// is set) and then gives the variables of `routes_below`.
pub fn routed_environment(
    settings: &DevelopmentCacheSettings,
    root: &Option<Result<String, RootError>>,
    session_temp: Option<&str>,
    style: PathStyle,
) -> (r: Result<RoutedEnvironment, String>)
    ensures
        !settings.enabled ==> (r matches Ok(x) && x.managed_root is None && x.temp_dir is None
            && x.env_vars.len() == 0),
        settings.enabled ==> match root {
            None => r matches Err(e) && e@ == routing_without_root_text(),
            Some(Err(re)) => r matches Err(e) && e@ == root_error_text(*re),
            Some(Ok(m)) => r matches Ok(x) && x.managed_root matches Some(y) && y@ == m@ && ({
                let temp = match session_temp {
                    Some(t) => t@,
                    None => join_spec(style, m@, "global-temp"@),
                };
                &&& pair_views(x.env_vars@) == routed_vars_spec(*settings, style, m@, temp)
                &&& if settings.route_temp {
                    x.temp_dir matches Some(d) && d@ == temp
                } else {
                    x.temp_dir is None
                }
            }),
        },
{
    match routing_root(settings, root) {
        Err(e) => Err(e),
        Ok(None) => Ok(RoutedEnvironment { managed_root: None, temp_dir: None, env_vars: Vec::new() }),
        Ok(Some(m)) => Ok(routes_below(settings, m.as_str(), session_temp, style)),
    }
}

/// Whether `s` is a lowercase hexadecimal session id of 32 digits.
pub open spec fn is_session_id(s: Seq<char>) -> bool {
    &&& s.len() == 32
    &&& forall|i: int| 0 <= i < 32 ==> ('0' <= #[trigger] s[i] <= '9' || 'a' <= s[i] <= 'f')
}

/// A new random session id: `uuid::Uuid::new_v4().simple()`, as text.
#[verifier::external_body]
pub fn new_session_id() -> (r: String)
    ensures
        is_session_id(r@),
{
    uuid::Uuid::new_v4().simple().to_string()
}

/// A session id is one plain path component.
pub proof fn lemma_session_id_plain(style: PathStyle, id: Seq<char>)
    requires
        is_session_id(id),
    ensures
        is_plain_name(style, id),
{
    assert forall|i: int| 0 <= i < id.len() implies is_name_char(#[trigger] id[i]) by {}
    lemma_name_chars_plain(style, id);
}

/// What a launched session needs: its environment, its directory, the
/// marker file that completes it, and whether its directory is removed when
/// it ends.
#[derive(Debug)]
pub struct LaunchCacheContext {
    pub env_vars: Vec<(String, String)>,
    pub session_dir: String,
    pub completion_marker: String,
    pub cleanup_on_session_end: bool,
}

pub open spec fn session_dir_spec(style: PathStyle, m: Seq<char>, id: Seq<char>) -> Seq<char> {
    join_spec(style, join_spec(style, m, "sessions"@), id)
}

/// `c` is the launch context of session `id` below managed root `m`.
pub open spec fn is_launch_context(
    c: LaunchCacheContext,
    settings: DevelopmentCacheSettings,
    style: PathStyle,
    m: Seq<char>,
    id: Seq<char>,
) -> bool {
    let dir = session_dir_spec(style, m, id);
    let temp = join_spec(style, dir, "temp"@);
    let base = routed_vars_spec(settings, style, m, temp);
    &&& c.session_dir@ == dir
    &&& c.completion_marker@ == join_spec(style, dir, SESSION_COMPLETED_FILE@)
    &&& c.cleanup_on_session_end == settings.cleanup_on_session_end
    &&& pair_views(c.env_vars@) == if settings.route_temp {
        base.push(("TMPDIR"@, temp))
    } else {
        base
    }
}

/// The launch context of session `session_id` below managed root
/// `managed_root`, when routing is on: the session's `temp` directory takes
/// the place of the global one, and `TMPDIR` is routed there too when
/// temporary files are.
pub fn launch_context(
    settings: &DevelopmentCacheSettings,
    managed_root: &str,
    session_id: &str,
    style: PathStyle,
) -> (r: LaunchCacheContext)
    requires
        settings.enabled,
    ensures
        is_launch_context(r, *settings, style, managed_root@, session_id@),
{
    let sessions = join(style, managed_root, "sessions");
    let session_dir = join(style, sessions.as_str(), session_id);
    let temp = join(style, session_dir.as_str(), "temp");
    let routed = routes_below(settings, managed_root, Some(temp.as_str()), style);
    let mut env_vars = routed.env_vars;
    if settings.route_temp {
        push_var(&mut env_vars, "TMPDIR", temp.clone());
    }
    let completion_marker = join(style, session_dir.as_str(), SESSION_COMPLETED_FILE);
    LaunchCacheContext {
        env_vars,
        completion_marker,
        session_dir,
        cleanup_on_session_end: settings.cleanup_on_session_end,
    }
}

/// `c` is the launch context of some session below `m` with a well-formed id.
pub open spec fn is_new_session_context(
    c: LaunchCacheContext,
    settings: DevelopmentCacheSettings,
    style: PathStyle,
    m: Seq<char>,
) -> bool {
    exists|id: Seq<char>| is_session_id(id) && #[trigger] is_launch_context(c, settings, style, m, id)
}

/// Prepares a launched session: nothing when routing is off, an error when
/// it is on without a usable root (`root` as for `routed_environment`), and
/// otherwise the launch context of a new random session below the managed
/// root.
pub fn prepare_launch_context(
    settings: &DevelopmentCacheSettings,
    root: &Option<Result<String, RootError>>,
    style: PathStyle,
) -> (r: Result<Option<LaunchCacheContext>, String>)
    ensures
        !settings.enabled ==> (r matches Ok(x) && x is None),
        settings.enabled ==> match root {
            None => r matches Err(e) && e@ == routing_without_root_text(),
            Some(Err(re)) => r matches Err(e) && e@ == root_error_text(*re),
            Some(Ok(m)) => r matches Ok(x) && x matches Some(c) && is_new_session_context(c, *settings, style, m@),
        },
{
    match routing_root(settings, root) {
        Err(e) => Err(e),
        Ok(None) => Ok(None),
        Ok(Some(managed)) => {
            let id = new_session_id();
            let c = launch_context(settings, managed.as_str(), id.as_str(), style);
            proof {
                if let Some(Ok(m)) = root {
                    assert(managed@ == m@);
                    assert(is_session_id(id@) && is_launch_context(c, *settings, style, m@, id@));
                    assert(is_new_session_context(c, *settings, style, m@));
                }
            }
            Ok(Some(c))
        },
    }
}

/// A session's directory and its temporary directory lie within the managed
/// root.
pub proof fn lemma_session_dirs_within_root(style: PathStyle, m: Seq<char>, id: Seq<char>)
    requires
        is_absolute_spec(style, m),
        is_session_id(id),
    ensures
        is_within_spec(style, session_dir_spec(style, m, id), m),
        is_within_spec(style, join_spec(style, session_dir_spec(style, m, id), "temp"@), m),
{
    lemma_layout_names_plain(style);
    lemma_session_id_plain(style, id);
    lemma_join2_within(style, m, "sessions"@, id);
    let s = join_spec(style, m, "sessions"@);
    lemma_join_absolute(style, m, "sessions"@);
    lemma_join2_within(style, s, id, "temp"@);
    crate::paths::lemma_within_transitive(style, join_spec(style, session_dir_spec(style, m, id), "temp"@), s, m);
}

} // verus!
