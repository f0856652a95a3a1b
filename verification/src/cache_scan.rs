//! Measuring and cleaning the managed cache: the marker that proves a
//! directory is managed, the bookkeeping of a directory walk, expiry of
//! finished sessions, and the guard that keeps removal inside the root.

use vstd::prelude::*;
use crate::paths::{
    is_absolute_spec, is_plain_name, is_within, is_within_spec, join_spec, lemma_join2_within,
    lemma_within_not_same, same_path, same_path_spec, PathStyle,
};
use crate::cache_root::lemma_layout_names_plain;
use crate::settings::DevelopmentCacheSettings;
use crate::text::{chars_of, push_char, push_str};

verus! {

/// The file whose presence marks a directory as a managed cache root.
pub const MARKER_FILE: &'static str = ".managed-cache.json";

/// The text that a marker file, and a session lease, must contain.
pub const MARKER_KIND: &'static str = "tuzi-switch-development-cache-v1";

/// The file that marks a session as finished.
pub const SESSION_COMPLETED_FILE: &'static str = ".completed";

/// At most this many diagnostics are kept in one list.
pub const MAX_DIAGNOSTICS: usize = 100;

/// Whether `t` occurs in `s` as a contiguous piece.
pub open spec fn contains_seq(s: Seq<char>, t: Seq<char>) -> bool {
    exists|i: int| 0 <= i && i + t.len() <= s.len() && #[trigger] s.subrange(i, i + t.len()) == t
}

/// Whether `t` occurs in `s`.
pub fn contains_str(s: &str, t: &str) -> (r: bool)
    ensures
        r == contains_seq(s@, t@),
{
    let a = chars_of(s);
    let b = chars_of(t);
    if b.len() > a.len() {
        return false;
    }
    let mut i: usize = 0;
    while i <= a.len() - b.len()
        invariant
            b.len() <= a.len(),
            i <= a.len() - b.len() + 1,
            a@ == s@,
            b@ == t@,
            forall|k: int| 0 <= k < i ==> #[trigger] a@.subrange(k, k + b.len()) != b@,
        decreases a.len() - i,
    {
        let mut j: usize = 0;
        while j < b.len() && a[i + j] == b[j]
            invariant
                j <= b.len(),
                i + b.len() <= a.len(),
                forall|q: int| 0 <= q < j ==> a@[i + q] == b@[q],
            decreases b.len() - j,
        {
            j += 1;
        }
        if j == b.len() {
            assert(a@.subrange(i as int, i + b.len()) =~= b@);
            return true;
        }
        assert(a@.subrange(i as int, i + b.len())[j as int] != b@[j as int]);
        i += 1;
    }
    assert forall|k: int| 0 <= k && k + b.len() <= a.len() implies #[trigger] a@.subrange(k, k + b.len())
        != b@ by {
        assert(k < i);
    }
    false
}

pub open spec fn missing_marker_text() -> Seq<char> {
    "缓存管理标记不存在，已拒绝扫描或清理"@
}

pub open spec fn invalid_marker_text() -> Seq<char> {
    "缓存管理标记无效，已拒绝扫描或清理"@
}

/// Checks the marker file of a managed root, given its text (`None` when it
/// could not be read): it must exist and contain the marker kind.
pub fn verify_marker(content: Option<&str>) -> (r: Result<(), String>)
    ensures
        match content {
            None => r matches Err(e) && e@ == missing_marker_text(),
            Some(c) => if contains_seq(c@, MARKER_KIND@) {
                r is Ok
            } else {
                r matches Err(e) && e@ == invalid_marker_text()
            },
        },
{
    match content {
        None => Err("缓存管理标记不存在，已拒绝扫描或清理".to_owned()),
        Some(c) => {
            if contains_str(c, MARKER_KIND) {
                Ok(())
            } else {
                Err("缓存管理标记无效，已拒绝扫描或清理".to_owned())
            }
        },
    }
}

pub open spec fn marker_content_spec() -> Seq<char> {
    "{\"kind\":\""@ + MARKER_KIND@ + "\",\"version\":1}"@
}

/// The text written into a new marker file.
pub fn marker_content() -> (r: String)
    ensures
        r@ == marker_content_spec(),
{
    let mut s = "{\"kind\":\"".to_owned();
    push_str(&mut s, MARKER_KIND);
    push_str(&mut s, "\",\"version\":1}");
    s
}

proof fn lemma_contains_middle(a: Seq<char>, t: Seq<char>, b: Seq<char>)
    ensures
        contains_seq(a + t + b, t),
{
    let s = a + t + b;
    assert(s.subrange(a.len() as int, (a.len() + t.len()) as int) =~= t);
}

/// A freshly written marker passes the marker check.
pub proof fn lemma_marker_content_verifies()
    ensures
        contains_seq(marker_content_spec(), MARKER_KIND@),
{
    lemma_contains_middle("{\"kind\":\""@, MARKER_KIND@, "\",\"version\":1}"@);
}

/// The decimal digits of `n`.
pub open spec fn decimal(n: nat) -> Seq<char>
    decreases n,
{
    if n < 10 {
        seq![((n + 48) as u8) as char]
    } else {
        decimal(n / 10).push((((n % 10) + 48) as u8) as char)
    }
}

/// Appends the decimal digits of `n`.
pub fn push_decimal(out: &mut String, n: u64)
    ensures
        final(out)@ == old(out)@ + decimal(n as nat),
    decreases n,
{
    if n >= 10 {
        push_decimal(out, n / 10);
    }
    let d = (n % 10) as u8;
    push_char(out, (d + 48) as char);
    assert(final(out)@ =~= old(out)@ + decimal(n as nat)) by {
        if n < 10 {
            assert(old(out)@ + decimal(n as nat) =~= old(out)@.push(((n as nat + 48) as u8) as char));
        }
    }
}

pub open spec fn lease_content_spec(created_at: u64) -> Seq<char> {
    "{\"kind\":\""@ + MARKER_KIND@ + "\",\"createdAt\":"@ + decimal(created_at as nat) + "}"@
}

/// The text of the lease file of a new session created at `created_at`
/// (seconds since the Unix epoch).
pub fn lease_content(created_at: u64) -> (r: String)
    ensures
        r@ == lease_content_spec(created_at),
{
    let mut s = "{\"kind\":\"".to_owned();
    push_str(&mut s, MARKER_KIND);
    push_str(&mut s, "\",\"createdAt\":");
    push_decimal(&mut s, created_at);
    push_str(&mut s, "}");
    s
}

/// The views of a list of strings.
pub open spec fn string_views(v: Seq<String>) -> Seq<Seq<char>> {
    v.map_values(|s: String| s@)
}

/// `list` with `message` appended, unless it already holds
/// `MAX_DIAGNOSTICS` items.
pub open spec fn push_capped(list: Seq<Seq<char>>, message: Seq<char>) -> Seq<Seq<char>> {
    if list.len() < MAX_DIAGNOSTICS {
        list.push(message)
    } else {
        list
    }
}

/// Appends `message` unless the list already holds `MAX_DIAGNOSTICS` items.
pub fn push_diagnostic(target: &mut Vec<String>, message: String)
    ensures
        string_views(final(target)@) == push_capped(string_views(old(target)@), message@),
        old(target).len() <= MAX_DIAGNOSTICS ==> final(target).len() <= MAX_DIAGNOSTICS,
{
    if target.len() < MAX_DIAGNOSTICS {
        let ghost m = message@;
        target.push(message);
        assert(string_views(target@) =~= string_views(old(target)@).push(m));
    }
}

/// Sizes and counts found by walking a directory tree.
#[derive(Debug, Clone, Copy, PartialEq, Eq, Structural)]
pub struct TreeStat {
    pub size_bytes: u64,
    pub file_count: u64,
    pub directory_count: u64,
}

impl TreeStat {
    /// Nothing found yet.
    pub fn new() -> (s: TreeStat)
        ensures
            s.size_bytes == 0 && s.file_count == 0 && s.directory_count == 0,
    {
        TreeStat { size_bytes: 0, file_count: 0, directory_count: 0 }
    }
}

/// What a directory walk finds at one entry, judged without following links.
#[derive(Debug, Clone, Copy, PartialEq, Eq, Structural)]
pub enum EntryKind {
    /// A symbolic link or reparse point; never followed.
    Link,
    Directory,
    File,
    /// Anything else (a device, a socket, ...); not counted.
    Other,
}

pub open spec fn skipped_link_text(path: Seq<char>) -> Seq<char> {
    "已跳过链接: "@ + path
}

/// Records one entry of a directory walk and says whether the walk descends
/// into it: a link is skipped with a warning, a directory is counted and
/// entered, a file is counted with its length, anything else is ignored.
/// Counts saturate.
pub fn account_entry(
    stat: &mut TreeStat,
    warnings: &mut Vec<String>,
    kind: EntryKind,
    path: &str,
    len: u64,
) -> (descend: bool)
    ensures
        descend == (kind == EntryKind::Directory),
        kind == EntryKind::Link ==> string_views(final(warnings)@) == push_capped(
            string_views(old(warnings)@),
            skipped_link_text(path@),
        ),
        kind != EntryKind::Link ==> final(warnings)@ == old(warnings)@,
        old(warnings).len() <= MAX_DIAGNOSTICS ==> final(warnings).len() <= MAX_DIAGNOSTICS,
        final(stat).directory_count == if kind == EntryKind::Directory {
            old(stat).directory_count.saturating_add(1)
        } else {
            old(stat).directory_count
        },
        final(stat).file_count == if kind == EntryKind::File {
            old(stat).file_count.saturating_add(1)
        } else {
            old(stat).file_count
        },
        final(stat).size_bytes == if kind == EntryKind::File {
            old(stat).size_bytes.saturating_add(len)
        } else {
            old(stat).size_bytes
        },
{
    match kind {
        EntryKind::Link => {
            let mut m = "已跳过链接: ".to_owned();
            push_str(&mut m, path);
            push_diagnostic(warnings, m);
            false
        },
        EntryKind::Directory => {
            stat.directory_count = stat.directory_count.saturating_add(1);
            true
        },
        EntryKind::File => {
            stat.file_count = stat.file_count.saturating_add(1);
            stat.size_bytes = stat.size_bytes.saturating_add(len);
            false
        },
        EntryKind::Other => false,
    }
}


/// Size and counts of one top-level area of the managed root.
#[derive(Debug, Clone)]
pub struct CacheCategoryStat {
    pub id: String,
    pub size_bytes: u64,
    pub file_count: u64,
    pub directory_count: u64,
}

/// What a scan of the managed cache found.
#[derive(Debug, Clone)]
pub struct DevCacheScanResult {
    pub enabled: bool,
    pub configured_root: Option<String>,
    pub managed_root: Option<String>,
    pub exists: bool,
    pub size_bytes: u64,
    pub file_count: u64,
    pub directory_count: u64,
    pub expired_session_count: u64,
    pub expired_session_bytes: u64,
    pub categories: Vec<CacheCategoryStat>,
    pub warnings: Vec<String>,
}

/// What a clean removed, skipped and failed at.
#[derive(Debug, Clone)]
pub struct DevCacheCleanResult {
    pub removed_bytes: u64,
    pub removed_files: u64,
    pub removed_directories: u64,
    pub skipped_items: u64,
    pub errors: Vec<String>,
}

/// The result of scanning a cache that does not exist (yet).
pub fn empty_scan(enabled: bool, configured_root: Option<String>, managed_root: Option<String>) -> (r:
    DevCacheScanResult)
    ensures
        r.enabled == enabled,
        r.configured_root == configured_root,
        r.managed_root == managed_root,
        !r.exists,
        r.size_bytes == 0 && r.file_count == 0 && r.directory_count == 0,
        r.expired_session_count == 0 && r.expired_session_bytes == 0,
        r.categories.len() == 0,
        r.warnings.len() == 0,
{
    DevCacheScanResult {
        enabled,
        configured_root,
        managed_root,
        exists: false,
        size_bytes: 0,
        file_count: 0,
        directory_count: 0,
        expired_session_count: 0,
        expired_session_bytes: 0,
        categories: Vec::new(),
        warnings: Vec::new(),
    }
}

/// The areas of a managed root that a scan measures, in order.
pub open spec fn category_name(i: int) -> Seq<char> {
    if i == 0 {
        "sessions"@
    } else if i == 1 {
        "shared"@
    } else if i == 2 {
        "global-temp"@
    } else {
        "projects"@
    }
}

/// How many areas a scan measures.
pub const CATEGORY_COUNT: usize = 4;

/// The name of area `i`.
pub fn category_name_at(i: usize) -> (r: &'static str)
    requires
        i < CATEGORY_COUNT,
    ensures
        r@ == category_name(i as int),
{
    if i == 0 {
        "sessions"
    } else if i == 1 {
        "shared"
    } else if i == 2 {
        "global-temp"
    } else {
        "projects"
    }
}

/// The saturating sum of one count over the first `n` areas.
pub open spec fn total_size(stats: Seq<TreeStat>, n: int) -> u64
    decreases n,
{
    if n <= 0 {
        0
    } else {
        total_size(stats, n - 1).saturating_add(stats[n - 1].size_bytes)
    }
}

pub open spec fn total_files(stats: Seq<TreeStat>, n: int) -> u64
    decreases n,
{
    if n <= 0 {
        0
    } else {
        total_files(stats, n - 1).saturating_add(stats[n - 1].file_count)
    }
}

pub open spec fn total_directories(stats: Seq<TreeStat>, n: int) -> u64
    decreases n,
{
    if n <= 0 {
        0
    } else {
        total_directories(stats, n - 1).saturating_add(stats[n - 1].directory_count)
    }
}

/// The result of scanning an existing managed root, from what was measured
/// in each area (`stats`, in the order of `category_name`) and among the
/// expired sessions.  The warnings are gathered with `push_diagnostic`, and
/// so are never more than `MAX_DIAGNOSTICS`.
pub fn summarize_scan(
    enabled: bool,
    configured_root: Option<String>,
    managed_root: String,
    stats: &Vec<TreeStat>,
    expired_session_count: u64,
    expired_session_bytes: u64,
    warnings: Vec<String>,
) -> (r: DevCacheScanResult)
    requires
        stats.len() == CATEGORY_COUNT,
        warnings.len() <= MAX_DIAGNOSTICS,
    ensures
        r.enabled == enabled,
        r.configured_root == configured_root,
        r.managed_root == Some(managed_root),
        r.exists,
        r.size_bytes == total_size(stats@, 4),
        r.file_count == total_files(stats@, 4),
        r.directory_count == total_directories(stats@, 4),
        r.expired_session_count == expired_session_count,
        r.expired_session_bytes == expired_session_bytes,
        r.categories.len() == 4,
        forall|i: int|
            0 <= i < 4 ==> {
                let c = #[trigger] r.categories@[i];
                &&& c.id@ == category_name(i)
                &&& c.size_bytes == stats@[i].size_bytes
                &&& c.file_count == stats@[i].file_count
                &&& c.directory_count == stats@[i].directory_count
            },
        r.warnings == warnings,
        r.warnings.len() <= MAX_DIAGNOSTICS,
{
    let mut categories: Vec<CacheCategoryStat> = Vec::new();
    let mut total = TreeStat::new();
    let mut i: usize = 0;
    while i < CATEGORY_COUNT
        invariant
            i <= CATEGORY_COUNT,
            stats.len() == CATEGORY_COUNT,
            categories.len() == i,
            total.size_bytes == total_size(stats@, i as int),
            total.file_count == total_files(stats@, i as int),
            total.directory_count == total_directories(stats@, i as int),
            forall|k: int|
                0 <= k < i ==> {
                    let c = #[trigger] categories@[k];
                    &&& c.id@ == category_name(k)
                    &&& c.size_bytes == stats@[k].size_bytes
                    &&& c.file_count == stats@[k].file_count
                    &&& c.directory_count == stats@[k].directory_count
                },
        decreases CATEGORY_COUNT - i,
    {
        let s = stats[i];
        total.size_bytes = total.size_bytes.saturating_add(s.size_bytes);
        total.file_count = total.file_count.saturating_add(s.file_count);
        total.directory_count = total.directory_count.saturating_add(s.directory_count);
        categories.push(
            CacheCategoryStat {
                id: category_name_at(i).to_owned(),
                size_bytes: s.size_bytes,
                file_count: s.file_count,
                directory_count: s.directory_count,
            },
        );
        i += 1;
    }
    DevCacheScanResult {
        enabled,
        configured_root,
        managed_root: Some(managed_root),
        exists: true,
        size_bytes: total.size_bytes,
        file_count: total.file_count,
        directory_count: total.directory_count,
        expired_session_count,
        expired_session_bytes,
        categories,
        warnings,
    }
}

/// Nanoseconds in an hour.
pub const NANOS_PER_HOUR: i128 = 3_600_000_000_000;

/// The moment before which a session must have completed to count as
/// expired: `now` less the retention period, which is at least one hour.
/// Times are nanoseconds relative to the Unix epoch.  A moment before 1970 is a
/// valid time here, as it is for `SystemTime::checked_sub`.
pub open spec fn expiry_threshold_spec(now: i128, retention_hours: u32) -> int {
    now - (if retention_hours < 1 { 1 } else { retention_hours as int }) * NANOS_PER_HOUR
}

/// The expiry threshold lies exactly the retention period before `now`: for
/// a retention of at least one hour it is `now` less that many hours, a
/// retention of zero counts as one hour, and a longer retention always gives
/// an earlier threshold.
pub proof fn lemma_expiry_threshold_law(now: i128, h1: u32, h2: u32)
    ensures
        h1 >= 1 ==> expiry_threshold_spec(now, h1) == now - h1 * NANOS_PER_HOUR,
        expiry_threshold_spec(now, 0) == expiry_threshold_spec(now, 1),
        1 <= h1 < h2 ==> expiry_threshold_spec(now, h2) < expiry_threshold_spec(now, h1),
        expiry_threshold_spec(now, h1) < now,
{
}

/// Computes the expiry threshold.
pub fn expiry_threshold(now: i128, retention_hours: u32) -> (r: i128)
    requires
        -(1i128 << 100) <= now <= (1i128 << 100),
    ensures
        r == expiry_threshold_spec(now, retention_hours),
{
    let hours: i128 = if retention_hours < 1 { 1 } else { retention_hours as i128 };
    assert(hours * NANOS_PER_HOUR <= 4294967295 * 3_600_000_000_000) by (nonlinear_arith)
        requires
            1 <= hours <= 4294967295,
    ;
    assert((1i128 << 100) == 1267650600228229401496703205376i128) by (bit_vector);
    now - hours * NANOS_PER_HOUR
}

/// Whether a session directory counts as expired: its completion marker is a
/// file and was last modified no later than `threshold`.  A session without a
/// completion marker never expires.
pub fn session_completed_before(marker_is_file: bool, completed_at: Option<i128>, threshold: i128) -> (r:
    bool)
    ensures
        r == (marker_is_file && (completed_at matches Some(t) && t <= threshold)),
{
    marker_is_file && match completed_at {
        Some(t) => t <= threshold,
        None => false,
    }
}

/// A clean that has done nothing yet.
pub fn empty_clean_result() -> (r: DevCacheCleanResult)
    ensures
        r.removed_bytes == 0 && r.removed_files == 0 && r.removed_directories == 0,
        r.skipped_items == 0,
        r.errors.len() == 0,
{
    DevCacheCleanResult {
        removed_bytes: 0,
        removed_files: 0,
        removed_directories: 0,
        skipped_items: 0,
        errors: Vec::new(),
    }
}

/// Whether `target` may be removed by a clean of `root`: it must lie
/// strictly inside the root.
pub fn removal_allowed(style: PathStyle, root: &str, target: &str) -> (r: bool)
    ensures
        r == (is_within_spec(style, target@, root@) && !same_path_spec(style, target@, root@)),
{
    is_within(style, target, root) && !same_path(style, target, root)
}

/// Counts a skipped item and records why.
pub fn record_skip(result: &mut DevCacheCleanResult, message: String)
    ensures
        final(result).skipped_items == old(result).skipped_items.saturating_add(1),
        string_views(final(result).errors@) == push_capped(string_views(old(result).errors@), message@),
        final(result).removed_bytes == old(result).removed_bytes,
        final(result).removed_files == old(result).removed_files,
        final(result).removed_directories == old(result).removed_directories,
{
    result.skipped_items = result.skipped_items.saturating_add(1);
    push_diagnostic(&mut result.errors, message);
}

/// Whether a clean looks further at one entry of the sessions directory:
/// only a plain directory (not a link) is a session; anything else is
/// counted as skipped and left alone.
pub fn admit_session_entry(result: &mut DevCacheCleanResult, plain_dir: bool) -> (admitted: bool)
    ensures
        admitted == plain_dir,
        final(result).skipped_items == if plain_dir {
            old(result).skipped_items
        } else {
            old(result).skipped_items.saturating_add(1)
        },
        final(result).errors@ == old(result).errors@,
        final(result).removed_bytes == old(result).removed_bytes,
        final(result).removed_files == old(result).removed_files,
        final(result).removed_directories == old(result).removed_directories,
{
    if !plain_dir {
        result.skipped_items = result.skipped_items.saturating_add(1);
    }
    plain_dir
}

pub open spec fn outside_clean_text(target: Seq<char>) -> Seq<char> {
    "拒绝越界清理: "@ + target
}

pub open spec fn link_clean_text(target: Seq<char>) -> Seq<char> {
    "已拒绝清理链接或重解析点: "@ + target
}

/// The message for a target refused because it lies outside the root.
pub fn outside_clean_message(target: &str) -> (r: String)
    ensures
        r@ == outside_clean_text(target@),
{
    let mut m = "拒绝越界清理: ".to_owned();
    push_str(&mut m, target);
    m
}

/// The message for a target refused because it is a link.
pub fn link_clean_message(target: &str) -> (r: String)
    ensures
        r@ == link_clean_text(target@),
{
    let mut m = "已拒绝清理链接或重解析点: ".to_owned();
    push_str(&mut m, target);
    m
}

/// Counts a removed tree: its files and bytes, and its directories plus the
/// tree's own directory, when the tree could be measured first.
pub fn record_removal(result: &mut DevCacheCleanResult, stat: Option<TreeStat>)
    ensures
        match stat {
            Some(s) => {
                &&& final(result).removed_bytes == old(result).removed_bytes.saturating_add(s.size_bytes)
                &&& final(result).removed_files == old(result).removed_files.saturating_add(s.file_count)
                &&& final(result).removed_directories == old(result).removed_directories.saturating_add(
                    s.directory_count.saturating_add(1),
                )
            },
            None => {
                &&& final(result).removed_bytes == old(result).removed_bytes
                &&& final(result).removed_files == old(result).removed_files
                &&& final(result).removed_directories == old(result).removed_directories
            },
        },
        final(result).skipped_items == old(result).skipped_items,
        final(result).errors == old(result).errors,
{
    if let Some(s) = stat {
        result.removed_bytes = result.removed_bytes.saturating_add(s.size_bytes);
        result.removed_files = result.removed_files.saturating_add(s.file_count);
        result.removed_directories = result.removed_directories.saturating_add(
            s.directory_count.saturating_add(1),
        );
    }
}

/// Adds a measured expired session to a running count and byte total.
pub fn add_expired(count: u64, bytes: u64, stat: TreeStat) -> (r: (u64, u64))
    ensures
        r == (count.saturating_add(1), bytes.saturating_add(stat.size_bytes)),
{
    (count.saturating_add(1), bytes.saturating_add(stat.size_bytes))
}

pub open spec fn shared_in_use_text() -> Seq<char> {
    "请先关闭开发缓存并退出相关终端或 IDE，再清理共享缓存"@
}

pub open spec fn no_root_text() -> Seq<char> {
    "尚未指定缓存目录"@
}

/// Checks the settings before a clean and gives the configured root: shared
/// caches may only be cleaned while caching is off, and a root must be set.
pub fn clean_precheck(settings: &DevelopmentCacheSettings, include_shared: bool) -> (r: Result<String, String>)
    ensures
        include_shared && settings.enabled ==> (r matches Err(e) && e@ == shared_in_use_text()),
        !(include_shared && settings.enabled) ==> match settings.root_dir {
            None => r matches Err(e) && e@ == no_root_text(),
            Some(d) => r matches Ok(x) && x@ == d@,
        },
{
    if include_shared && settings.enabled {
        return Err("请先关闭开发缓存并退出相关终端或 IDE，再清理共享缓存".to_owned());
    }
    match &settings.root_dir {
        None => Err("尚未指定缓存目录".to_owned()),
        Some(d) => Ok(d.clone()),
    }
}

/// The areas that a clean of shared caches empties and recreates, in order.
pub fn shared_clean_area(i: usize) -> (r: &'static str)
    requires
        i < 2,
    ensures
        r@ == category_name(i as int + 1),
{
    category_name_at(i + 1)
}


/// A clean may remove any plainly named entry of the managed root's
/// `sessions` directory, and the root's `shared` and `global-temp`
/// directories, but never the root itself.
pub proof fn lemma_managed_targets_removable(style: PathStyle, root: Seq<char>, name: Seq<char>)
    requires
        is_absolute_spec(style, root),
        is_plain_name(style, name),
    ensures
        is_within_spec(style, join_spec(style, join_spec(style, root, "sessions"@), name), root),
        !same_path_spec(style, join_spec(style, join_spec(style, root, "sessions"@), name), root),
        is_within_spec(style, join_spec(style, root, "shared"@), root),
        !same_path_spec(style, join_spec(style, root, "shared"@), root),
        is_within_spec(style, join_spec(style, root, "global-temp"@), root),
        !same_path_spec(style, join_spec(style, root, "global-temp"@), root),
        !(is_within_spec(style, root, root) && !same_path_spec(style, root, root)),
{
    lemma_layout_names_plain(style);
    lemma_join2_within(style, root, "sessions"@, name);
    lemma_join2_within(style, root, "shared"@, name);
    lemma_join2_within(style, root, "global-temp"@, name);
    lemma_within_not_same(style, join_spec(style, join_spec(style, root, "sessions"@), name), root);
    lemma_within_not_same(style, join_spec(style, root, "shared"@), root);
    lemma_within_not_same(style, join_spec(style, root, "global-temp"@), root);
}


/// How the removal of one target went, as far as the file system could tell.
#[derive(Debug)]
pub enum RemovalOutcome {
    /// The target does not lie strictly inside the root; nothing was touched.
    OutsideRoot,
    /// The target is a link or reparse point; nothing was touched.
    Link,
    /// The target could not be inspected; the file system's explanation.
    Unverifiable(String),
    /// The tree was removed; what it held, when it could be measured first,
    /// and the warnings of that measurement.
    Removed(Option<TreeStat>, Vec<String>),
    /// Removal failed; the warnings of the measurement and the file system's
    /// explanation.
    Failed(Vec<String>, String),
}

pub open spec fn unverifiable_text(target: Seq<char>, why: Seq<char>) -> Seq<char> {
    "无法验证清理目标 "@ + target + ": "@ + why
}

pub open spec fn removal_failed_text(target: Seq<char>, why: Seq<char>) -> Seq<char> {
    "清理 "@ + target + " 失败: "@ + why
}

/// Appends each message in turn, each subject to the cap.
pub open spec fn push_all_capped(list: Seq<Seq<char>>, messages: Seq<Seq<char>>) -> Seq<Seq<char>>
    decreases messages.len(),
{
    if messages.len() == 0 {
        list
    } else {
        push_capped(push_all_capped(list, messages.drop_last()), messages.last())
    }
}

fn push_all_diagnostics(target: &mut Vec<String>, messages: Vec<String>)
    ensures
        string_views(final(target)@) == push_all_capped(string_views(old(target)@), string_views(messages@)),
{
    let mut i: usize = 0;
    let ghost start = string_views(target@);
    let ghost all = string_views(messages@);
    while i < messages.len()
        invariant
            i <= messages.len(),
            all == string_views(messages@),
            string_views(target@) == push_all_capped(start, all.take(i as int)),
        decreases messages.len() - i,
    {
        let m = messages[i].clone();
        push_diagnostic(target, m);
        i += 1;
        assert(all.take(i as int).drop_last() =~= all.take(i - 1));
    }
    assert(all.take(messages.len() as int) =~= all);
}

/// Books the outcome of removing `target`: refusals and failures count as
/// skipped items with a message, the measurement's warnings are kept among
/// the errors, and a removed tree adds what it held.
pub fn record_removal_outcome(result: &mut DevCacheCleanResult, target: &str, outcome: RemovalOutcome)
    ensures
        match outcome {
            RemovalOutcome::OutsideRoot => {
                &&& final(result).skipped_items == old(result).skipped_items.saturating_add(1)
                &&& string_views(final(result).errors@) == push_capped(
                    string_views(old(result).errors@),
                    outside_clean_text(target@),
                )
                &&& final(result).removed_bytes == old(result).removed_bytes
                &&& final(result).removed_files == old(result).removed_files
                &&& final(result).removed_directories == old(result).removed_directories
            },
            RemovalOutcome::Link => {
                &&& final(result).skipped_items == old(result).skipped_items.saturating_add(1)
                &&& string_views(final(result).errors@) == push_capped(
                    string_views(old(result).errors@),
                    link_clean_text(target@),
                )
                &&& final(result).removed_bytes == old(result).removed_bytes
                &&& final(result).removed_files == old(result).removed_files
                &&& final(result).removed_directories == old(result).removed_directories
            },
            RemovalOutcome::Unverifiable(why) => {
                &&& final(result).skipped_items == old(result).skipped_items.saturating_add(1)
                &&& string_views(final(result).errors@) == push_capped(
                    string_views(old(result).errors@),
                    unverifiable_text(target@, why@),
                )
                &&& final(result).removed_bytes == old(result).removed_bytes
                &&& final(result).removed_files == old(result).removed_files
                &&& final(result).removed_directories == old(result).removed_directories
            },
            RemovalOutcome::Removed(stat, warnings) => {
                &&& final(result).skipped_items == old(result).skipped_items
                &&& string_views(final(result).errors@) == push_all_capped(
                    string_views(old(result).errors@),
                    string_views(warnings@),
                )
                &&& match stat {
                    Some(s) => {
                        &&& final(result).removed_bytes == old(result).removed_bytes.saturating_add(
                            s.size_bytes,
                        )
                        &&& final(result).removed_files == old(result).removed_files.saturating_add(
                            s.file_count,
                        )
                        &&& final(result).removed_directories
                            == old(result).removed_directories.saturating_add(
                            s.directory_count.saturating_add(1),
                        )
                    },
                    None => {
                        &&& final(result).removed_bytes == old(result).removed_bytes
                        &&& final(result).removed_files == old(result).removed_files
                        &&& final(result).removed_directories == old(result).removed_directories
                    },
                }
            },
            RemovalOutcome::Failed(warnings, why) => {
                &&& final(result).skipped_items == old(result).skipped_items.saturating_add(1)
                &&& string_views(final(result).errors@) == push_capped(
                    push_all_capped(string_views(old(result).errors@), string_views(warnings@)),
                    removal_failed_text(target@, why@),
                )
                &&& final(result).removed_bytes == old(result).removed_bytes
                &&& final(result).removed_files == old(result).removed_files
                &&& final(result).removed_directories == old(result).removed_directories
            },
        },
{
    match outcome {
        RemovalOutcome::OutsideRoot => {
            record_skip(result, outside_clean_message(target));
        },
        RemovalOutcome::Link => {
            record_skip(result, link_clean_message(target));
        },
        RemovalOutcome::Unverifiable(why) => {
            let mut m = "无法验证清理目标 ".to_owned();
            push_str(&mut m, target);
            push_str(&mut m, ": ");
            push_str(&mut m, why.as_str());
            record_skip(result, m);
        },
        RemovalOutcome::Removed(stat, warnings) => {
            push_all_diagnostics(&mut result.errors, warnings);
            record_removal(result, stat);
        },
        RemovalOutcome::Failed(warnings, why) => {
            push_all_diagnostics(&mut result.errors, warnings);
            let mut m = "清理 ".to_owned();
            push_str(&mut m, target);
            push_str(&mut m, " 失败: ");
            push_str(&mut m, why.as_str());
            record_skip(result, m);
        },
    }
}

} // verus!
