//! Choosing and checking the directory that holds the managed cache.

use vstd::prelude::*;
use crate::paths::{
    is_plain_name, lemma_join_stays_within, lemma_join_absolute, lemma_name_chars_plain, is_name_char,
    components, components_of, is_absolute_spec, is_separator, is_within, is_within_spec, join,
    join_spec, same_path, same_path_spec, segments, views, has_root, lemma_within_not_same, PathStyle,
};
use crate::text::{chars_of, contains_char, lemma_trim_idempotent, push_str, string_from_chars, trim_chars, trim_spec};

verus! {

/// The directory created below the configured root; everything the library
/// manages lives inside it.
pub const MANAGED_DIR_NAME: &'static str = "tuzi-switch-cache";

/// Facts about the machine that the root check compares against.
#[derive(Debug, Clone)]
pub struct RootEnvironment {
    pub style: PathStyle,
    /// The user's home directory.
    pub home_dir: String,
    /// The application's own configuration directory.
    pub app_config_dir: String,
    /// The process's working directory, where it could be read.
    pub current_dir: Option<String>,
}

/// Why a configured root is refused.
#[derive(Debug, Clone)]
pub enum RootError {
    Empty,
    LineBreak,
    NotAbsolute,
    ParentSegment,
    DiskRoot,
    HomeDirectory,
    InsideAppConfig,
    InsideCurrentDir,
    /// The root or one of its ancestors is a link or reparse point.
    LinkedAncestor(String),
    /// The file system could not say whether an ancestor is a link; its
    /// explanation.
    LinkCheckFailed(String),
}

pub open spec fn dot_dot() -> Seq<char> {
    seq!['.', '.']
}

/// How many leading pieces of an absolute path form its prefix
/// (`C:` or `\\server\share` on Windows).
pub open spec fn prefix_count(style: PathStyle, s: Seq<char>) -> int {
    if style == PathStyle::Windows && s.len() >= 2 && s[1] == ':' {
        1
    } else if style == PathStyle::Windows && s.len() >= 2 && is_separator(style, s[0])
        && is_separator(style, s[1]) {
        2
    } else {
        0
    }
}

/// Whether an absolute path has a parent, i.e. is not a disk or share root.
pub open spec fn has_parent_spec(style: PathStyle, s: Seq<char>) -> bool {
    segments(style, s).len() > prefix_count(style, s)
}

pub open spec fn current_dir_view(env: RootEnvironment) -> Option<Seq<char>> {
    match env.current_dir {
        Some(d) => Some(d@),
        None => None,
    }
}

/// The outcome of checking a configured root: the managed root below it, or
/// the first rule it breaks.
pub open spec fn validate_root_spec(raw: Seq<char>, env: RootEnvironment) -> Result<Seq<char>, RootError> {
    let style = env.style;
    let t = trim_spec(raw);
    if t.len() == 0 {
        Err(RootError::Empty)
    } else if t.contains('\n') || t.contains('\r') {
        Err(RootError::LineBreak)
    } else if !is_absolute_spec(style, t) {
        Err(RootError::NotAbsolute)
    } else if components(style, t).contains(dot_dot()) {
        Err(RootError::ParentSegment)
    } else if !has_parent_spec(style, t) {
        Err(RootError::DiskRoot)
    } else if same_path_spec(style, t, env.home_dir@) {
        Err(RootError::HomeDirectory)
    } else if same_path_spec(style, t, env.app_config_dir@) || is_within_spec(style, t, env.app_config_dir@) {
        Err(RootError::InsideAppConfig)
    } else if current_dir_view(env) matches Some(cd) && (same_path_spec(style, t, cd)
        || is_within_spec(style, t, cd)) {
        Err(RootError::InsideCurrentDir)
    } else {
        Ok(join_spec(style, t, MANAGED_DIR_NAME@))
    }
}

fn has_root_exec(style: PathStyle, s: &Vec<char>) -> (r: bool)
    ensures
        r == has_root(style, s@),
{
    let sep0 = s.len() > 0 && (s[0] == '/' || (matches!(style, PathStyle::Windows) && s[0] == '\\'));
    let drive = matches!(style, PathStyle::Windows) && s.len() >= 3 && s[1] == ':' && (s[2] == '/'
        || s[2] == '\\');
    sep0 || drive
}

fn is_absolute_exec(style: PathStyle, s: &Vec<char>) -> (r: bool)
    ensures
        r == is_absolute_spec(style, s@),
{
    match style {
        PathStyle::Unix => s.len() > 0 && s[0] == '/',
        PathStyle::Windows => {
            let sep = |c: char| -> (b: bool)
                ensures
                    b == is_separator(PathStyle::Windows, c),
                { c == '/' || c == '\\' };
            (s.len() >= 3 && (('A' <= s[0] && s[0] <= 'Z') || ('a' <= s[0] && s[0] <= 'z')) && s[1]
                == ':' && sep(s[2])) || (s.len() >= 2 && sep(s[0]) && sep(s[1]))
        },
    }
}

fn has_dot_dot(comps: &Vec<Vec<char>>) -> (r: bool)
    ensures
        r == views(comps@).contains(dot_dot()),
{
    let mut i: usize = 0;
    while i < comps.len()
        invariant
            i <= comps.len(),
            forall|k: int| 0 <= k < i ==> comps@[k]@ != dot_dot(),
        decreases comps.len() - i,
    {
        let c = &comps[i];
        if c.len() == 2 && c[0] == '.' && c[1] == '.' {
            assert(c@ =~= dot_dot());
            assert(views(comps@)[i as int] == dot_dot());
            return true;
        }
        assert(c@ != dot_dot()) by {
            if c@ == dot_dot() {
                assert(c@.len() == 2 && c@[0] == '.' && c@[1] == '.');
            }
        }
        i += 1;
    }
    assert forall|k: int| 0 <= k < views(comps@).len() implies views(comps@)[k] != dot_dot() by {
        assert(views(comps@)[k] == comps@[k]@);
    }
    false
}

/// Checks a configured cache directory and gives the managed root below it.
///
/// The directory is trimmed and must be non-empty, free of line breaks,
/// absolute, free of `..`, not a disk root, not the home directory, and
/// neither the application's configuration directory, nor the working
/// directory, nor inside either of them.  Links among its ancestors are
/// checked by the caller, which reads the file system.
pub fn validate_configured_root(raw: &str, env: &RootEnvironment) -> (r: Result<String, RootError>)
    ensures
        match r {
            Ok(m) => validate_root_spec(raw@, *env) == Ok::<Seq<char>, RootError>(m@),
            Err(e) => validate_root_spec(raw@, *env) == Err::<Seq<char>, RootError>(e),
        },
{
    let style = env.style;
    let t = trim_chars(&chars_of(raw));
    if t.len() == 0 {
        return Err(RootError::Empty);
    }
    if contains_char(&t, '\n') || contains_char(&t, '\r') {
        return Err(RootError::LineBreak);
    }
    if !is_absolute_exec(style, &t) {
        return Err(RootError::NotAbsolute);
    }
    let comps = components_of(style, &t);
    if has_dot_dot(&comps) {
        return Err(RootError::ParentSegment);
    }
    let root: usize = if has_root_exec(style, &t) { 1 } else { 0 };
    proof {
        assert(views(comps@).len() == comps@.len());
        if root == 1 {
            assert(components(style, t@).len() == 1 + segments(style, t@).len());
        } else {
            assert(components(style, t@) == segments(style, t@));
        }
    }
    let seg_count = comps.len() - root;
    let prefix: usize = if matches!(style, PathStyle::Windows) && t.len() >= 2 && t[1] == ':' {
        1
    } else if matches!(style, PathStyle::Windows) && t.len() >= 2 && (t[0] == '/' || t[0] == '\\')
        && (t[1] == '/' || t[1] == '\\') {
        2
    } else {
        0
    };
    if seg_count <= prefix {
        return Err(RootError::DiskRoot);
    }
    let candidate = string_from_chars(&t);
    if same_path(style, candidate.as_str(), env.home_dir.as_str()) {
        return Err(RootError::HomeDirectory);
    }
    if same_path(style, candidate.as_str(), env.app_config_dir.as_str()) || is_within(
        style,
        candidate.as_str(),
        env.app_config_dir.as_str(),
    ) {
        return Err(RootError::InsideAppConfig);
    }
    match &env.current_dir {
        Some(cd) => {
            if same_path(style, candidate.as_str(), cd.as_str()) || is_within(
                style,
                candidate.as_str(),
                cd.as_str(),
            ) {
                return Err(RootError::InsideCurrentDir);
            }
        },
        None => {},
    }
    Ok(join(style, candidate.as_str(), MANAGED_DIR_NAME))
}


/// The message shown for a refused root.
pub open spec fn root_error_text(e: RootError) -> Seq<char> {
    match e {
        RootError::Empty => "缓存目录不能为空"@,
        RootError::LineBreak => "缓存目录包含非法换行符"@,
        RootError::NotAbsolute => "缓存目录必须使用绝对路径"@,
        RootError::ParentSegment => "缓存目录不能包含上级路径片段"@,
        RootError::DiskRoot => "不能将磁盘根目录用作缓存目录"@,
        RootError::HomeDirectory => "不能将用户主目录用作缓存目录"@,
        RootError::InsideAppConfig => "缓存目录不能位于兔子 Switch 配置目录中"@,
        RootError::InsideCurrentDir => "缓存目录不能位于当前项目目录中"@,
        RootError::LinkedAncestor(p) => "缓存目录不能经过符号链接或重解析点: "@ + p@,
        RootError::LinkCheckFailed(why) => "验证缓存目录失败: "@ + why@,
    }
}

impl RootError {
    /// The message shown for this refusal.
    pub fn message(&self) -> (r: String)
        ensures
            r@ == root_error_text(*self),
    {
        match self {
            RootError::Empty => "缓存目录不能为空".to_owned(),
            RootError::LineBreak => "缓存目录包含非法换行符".to_owned(),
            RootError::NotAbsolute => "缓存目录必须使用绝对路径".to_owned(),
            RootError::ParentSegment => "缓存目录不能包含上级路径片段".to_owned(),
            RootError::DiskRoot => "不能将磁盘根目录用作缓存目录".to_owned(),
            RootError::HomeDirectory => "不能将用户主目录用作缓存目录".to_owned(),
            RootError::InsideAppConfig => "缓存目录不能位于兔子 Switch 配置目录中".to_owned(),
            RootError::InsideCurrentDir => "缓存目录不能位于当前项目目录中".to_owned(),
            RootError::LinkedAncestor(p) => {
                let mut m = "缓存目录不能经过符号链接或重解析点: ".to_owned();
                push_str(&mut m, p.as_str());
                m
            },
            RootError::LinkCheckFailed(why) => {
                let mut m = "验证缓存目录失败: ".to_owned();
                push_str(&mut m, why.as_str());
                m
            },
        }
    }
}

/// Checking a root that is already trimmed gives what checking the untrimmed
/// text gives.
pub proof fn lemma_validate_trimmed(raw: Seq<char>, env: RootEnvironment)
    ensures
        validate_root_spec(trim_spec(raw), env) == validate_root_spec(raw, env),
{
    lemma_trim_idempotent(raw);
}

/// A root that is, once trimmed, non-empty without line breaks, absolute,
/// free of `..`, not a disk root, not the home directory itself, and neither
/// the configuration directory nor the working directory nor inside either of
/// them, is accepted, and its managed root is that directory joined with
/// `MANAGED_DIR_NAME`.
pub proof fn lemma_acceptable_root_accepted(raw: Seq<char>, env: RootEnvironment)
    requires
        !trim_spec(raw).contains('\n'),
        !trim_spec(raw).contains('\r'),
        is_absolute_spec(env.style, trim_spec(raw)),
        !components(env.style, trim_spec(raw)).contains(dot_dot()),
        has_parent_spec(env.style, trim_spec(raw)),
        !same_path_spec(env.style, trim_spec(raw), env.home_dir@),
        !same_path_spec(env.style, trim_spec(raw), env.app_config_dir@),
        !is_within_spec(env.style, trim_spec(raw), env.app_config_dir@),
        env.current_dir matches Some(cd) ==> !same_path_spec(env.style, trim_spec(raw), cd@)
            && !is_within_spec(env.style, trim_spec(raw), cd@),
    ensures
        validate_root_spec(raw, env) == Ok::<Seq<char>, RootError>(
            join_spec(env.style, trim_spec(raw), MANAGED_DIR_NAME@),
        ),
{
}

/// Only the home directory itself is refused: a directory strictly below it
/// that meets the other rules is accepted.
pub proof fn lemma_root_below_home_accepted(raw: Seq<char>, env: RootEnvironment)
    requires
        is_within_spec(env.style, trim_spec(raw), env.home_dir@),
        !trim_spec(raw).contains('\n'),
        !trim_spec(raw).contains('\r'),
        is_absolute_spec(env.style, trim_spec(raw)),
        !components(env.style, trim_spec(raw)).contains(dot_dot()),
        has_parent_spec(env.style, trim_spec(raw)),
        !same_path_spec(env.style, trim_spec(raw), env.app_config_dir@),
        !is_within_spec(env.style, trim_spec(raw), env.app_config_dir@),
        env.current_dir matches Some(cd) ==> !same_path_spec(env.style, trim_spec(raw), cd@)
            && !is_within_spec(env.style, trim_spec(raw), cd@),
    ensures
        validate_root_spec(raw, env) is Ok,
{
    lemma_within_not_same(env.style, trim_spec(raw), env.home_dir@);
    lemma_acceptable_root_accepted(raw, env);
}

/// The managed directory's name is one plain component.
pub proof fn lemma_managed_dir_name_plain(style: PathStyle)
    ensures
        is_plain_name(style, MANAGED_DIR_NAME@),
{
    reveal_strlit("tuzi-switch-cache");
    let n = MANAGED_DIR_NAME@;
    assert(n.len() == 17);
    assert forall|i: int| 0 <= i < n.len() implies is_name_char(#[trigger] n[i]) by {
        assert(n =~= seq!['t', 'u', 'z', 'i', '-', 's', 'w', 'i', 't', 'c', 'h', '-', 'c', 'a', 'c', 'h', 'e']);
    }
    lemma_name_chars_plain(style, n);
}

/// An accepted root's managed directory is absolute, lies inside the
/// configured directory, and everything named below it stays inside it.
pub proof fn lemma_managed_root_contains_children(raw: Seq<char>, env: RootEnvironment, name: Seq<char>)
    requires
        validate_root_spec(raw, env) is Ok,
        is_plain_name(env.style, name),
    ensures
        is_absolute_spec(env.style, validate_root_spec(raw, env)->Ok_0),
        is_within_spec(env.style, validate_root_spec(raw, env)->Ok_0, trim_spec(raw)),
        is_within_spec(
            env.style,
            join_spec(env.style, validate_root_spec(raw, env)->Ok_0, name),
            validate_root_spec(raw, env)->Ok_0,
        ),
{
    let style = env.style;
    let t = trim_spec(raw);
    let m = join_spec(style, t, MANAGED_DIR_NAME@);
    lemma_managed_dir_name_plain(style);
    lemma_join_stays_within(style, t, MANAGED_DIR_NAME@);
    lemma_join_absolute(style, t, MANAGED_DIR_NAME@);
    lemma_join_stays_within(style, m, name);
}


/// The names of the directories and files the library lays out below a
/// managed root are each one plain component.
pub proof fn lemma_layout_names_plain(style: PathStyle)
    ensures
        is_plain_name(style, "shared"@),
        is_plain_name(style, "global-temp"@),
        is_plain_name(style, "npm"@),
        is_plain_name(style, "yarn"@),
        is_plain_name(style, "pnpm-store"@),
        is_plain_name(style, "pip"@),
        is_plain_name(style, "uv"@),
        is_plain_name(style, "sessions"@),
        is_plain_name(style, "projects"@),
        is_plain_name(style, "temp"@),
        is_plain_name(style, ".completed"@),
        is_plain_name(style, "lease.json"@),
{
    reveal_strlit("shared");
    lemma_name_chars_plain(style, "shared"@);
    reveal_strlit("global-temp");
    lemma_name_chars_plain(style, "global-temp"@);
    reveal_strlit("npm");
    lemma_name_chars_plain(style, "npm"@);
    reveal_strlit("yarn");
    lemma_name_chars_plain(style, "yarn"@);
    reveal_strlit("pnpm-store");
    lemma_name_chars_plain(style, "pnpm-store"@);
    reveal_strlit("pip");
    lemma_name_chars_plain(style, "pip"@);
    reveal_strlit("uv");
    lemma_name_chars_plain(style, "uv"@);
    reveal_strlit("sessions");
    lemma_name_chars_plain(style, "sessions"@);
    reveal_strlit("projects");
    lemma_name_chars_plain(style, "projects"@);
    reveal_strlit("temp");
    lemma_name_chars_plain(style, "temp"@);
    reveal_strlit(".completed");
    lemma_name_chars_plain(style, ".completed"@);
    reveal_strlit("lease.json");
    lemma_name_chars_plain(style, "lease.json"@);
}

} // verus!
