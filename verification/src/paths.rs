//! The library's model of file-system paths.
//!
//! A path is a string.  Its components are the pieces between separators,
//! with empty pieces and `.` dropped, preceded by a root marker when the path
//! starts at a root.  Two paths are the same when their components agree
//! after lower-casing (on Windows), and a path lies within another when the
//! other's components are a proper prefix of its own.

use vstd::prelude::*;
use crate::text::{chars_of, push_char, push_str, string_from_chars};

verus! {

/// How path strings are read on the platform at hand.
#[derive(Clone, Copy, Debug, PartialEq, Eq, Structural)]
pub enum PathStyle {
    /// `/` separates components and comparison is exact.
    Unix,
    /// `/` and `\` separate components and comparison ignores case.
    Windows,
}

pub open spec fn is_separator(style: PathStyle, c: char) -> bool {
    c == '/' || (style == PathStyle::Windows && c == '\\')
}

/// The separator that joining inserts.
pub open spec fn main_separator(style: PathStyle) -> char {
    match style {
        PathStyle::Unix => '/',
        PathStyle::Windows => '\\',
    }
}

/// A piece between separators that counts as a component.
pub open spec fn keeps_segment(seg: Seq<char>) -> bool {
    seg.len() > 0 && seg != seq!['.']
}

pub open spec fn close_segment(done: Seq<Seq<char>>, seg: Seq<char>) -> Seq<Seq<char>> {
    if keeps_segment(seg) {
        done.push(seg)
    } else {
        done
    }
}

pub open spec fn scan_step(
    style: PathStyle,
    state: (Seq<Seq<char>>, Seq<char>),
    c: char,
) -> (Seq<Seq<char>>, Seq<char>) {
    if is_separator(style, c) {
        (close_segment(state.0, state.1), seq![])
    } else {
        (state.0, state.1.push(c))
    }
}

/// Components found so far, and the piece being read, after reading `s`.
pub open spec fn scan_segments(style: PathStyle, s: Seq<char>) -> (Seq<Seq<char>>, Seq<char>)
    decreases s.len(),
{
    if s.len() == 0 {
        (seq![], seq![])
    } else {
        scan_step(style, scan_segments(style, s.drop_last()), s.last())
    }
}

pub open spec fn segments(style: PathStyle, s: Seq<char>) -> Seq<Seq<char>> {
    let st = scan_segments(style, s);
    close_segment(st.0, st.1)
}

/// Whether `s` starts at a root (`/x`, `\x`, or `C:\x` on Windows).
pub open spec fn has_root(style: PathStyle, s: Seq<char>) -> bool {
    ||| (s.len() > 0 && is_separator(style, s[0]))
    ||| (style == PathStyle::Windows && s.len() >= 3 && s[1] == ':' && is_separator(style, s[2]))
}

/// The component that stands for the root; no other component holds a `/`.
pub open spec fn root_marker() -> Seq<char> {
    seq!['/']
}

pub open spec fn components(style: PathStyle, s: Seq<char>) -> Seq<Seq<char>> {
    if has_root(style, s) {
        seq![root_marker()] + segments(style, s)
    } else {
        segments(style, s)
    }
}

/// What `str::to_lowercase` gives for the string `s`.
pub uninterp spec fn str_lowercase(s: Seq<char>) -> Seq<char>;

/// The form in which one component is compared: as it is on Unix, and
/// lower-cased with `str::to_lowercase` on Windows.
pub open spec fn fold_component(style: PathStyle, c: Seq<char>) -> Seq<char> {
    match style {
        PathStyle::Unix => c,
        PathStyle::Windows => str_lowercase(c),
    }
}

/// The form in which paths are compared: their components, each folded.
///
/// On Windows this is what splitting the path after lower-casing it whole
/// with `str::to_lowercase` gives: a separator is neither cased nor
/// case-ignorable, so it ends the word around any `Σ` and lower-casing never
/// looks across it, and nothing lower-cases to a separator.
pub open spec fn compare_form(style: PathStyle, s: Seq<char>) -> Seq<Seq<char>> {
    components(style, s).map_values(|c: Seq<char>| fold_component(style, c))
}

/// Whether `path` names the same location as `other`.
pub open spec fn same_path_spec(style: PathStyle, path: Seq<char>, other: Seq<char>) -> bool {
    compare_form(style, path) == compare_form(style, other)
}

/// Whether `path` lies strictly below `root`.
pub open spec fn is_within_spec(style: PathStyle, path: Seq<char>, root: Seq<char>) -> bool {
    let p = compare_form(style, path);
    let r = compare_form(style, root);
    r.len() < p.len() && p.take(r.len() as int) == r
}

/// `str::to_lowercase`.
#[verifier::external_body]
fn lowercase_of(s: &str) -> (r: String)
    ensures
        r@ == str_lowercase(s@),
{
    s.to_lowercase()
}

fn fold_component_exec(style: PathStyle, c: &Vec<char>) -> (r: Vec<char>)
    ensures
        r@ == fold_component(style, c@),
{
    match style {
        PathStyle::Unix => copy_chars(c),
        PathStyle::Windows => {
            let text = string_from_chars(c);
            let lower = lowercase_of(text.as_str());
            chars_of(lower.as_str())
        },
    }
}

/// The comparison form of a path: its components, each folded.
pub fn normalize_for_compare(style: PathStyle, s: &str) -> (r: Vec<Vec<char>>)
    ensures
        views(r@) == compare_form(style, s@),
{
    let comps = components_of(style, &chars_of(s));
    let ghost cv = views(comps@);
    let mut r: Vec<Vec<char>> = Vec::new();
    let mut i: usize = 0;
    while i < comps.len()
        invariant
            i <= comps.len(),
            cv == views(comps@),
            cv == components(style, s@),
            views(r@) == cv.take(i as int).map_values(|c: Seq<char>| fold_component(style, c)),
        decreases comps.len() - i,
    {
        let ghost before = views(r@);
        r.push(fold_component_exec(style, &comps[i]));
        i += 1;
        assert(views(r@) =~= before.push(fold_component(style, cv[i - 1])));
        assert(views(r@) =~= cv.take(i as int).map_values(|c: Seq<char>| fold_component(style, c)));
    }
    assert(cv.take(comps.len() as int) =~= cv);
    r
}

pub open spec fn views(v: Seq<Vec<char>>) -> Seq<Seq<char>> {
    v.map_values(|x: Vec<char>| x@)
}

fn is_separator_exec(style: PathStyle, c: char) -> (r: bool)
    ensures
        r == is_separator(style, c),
{
    c == '/' || (matches!(style, PathStyle::Windows) && c == '\\')
}

fn keeps_segment_exec(seg: &Vec<char>) -> (r: bool)
    ensures
        r == keeps_segment(seg@),
{
    if seg.len() == 0 {
        false
    } else if seg.len() == 1 && seg[0] == '.' {
        assert(seg@ == seq!['.']);
        false
    } else {
        assert(seg@ != seq!['.']) by {
            if seg@ == seq!['.'] {
                assert(seg@.len() == 1 && seg@[0] == '.');
            }
        }
        true
    }
}

/// A fresh copy of a character vector.
pub fn copy_chars(v: &Vec<char>) -> (r: Vec<char>)
    ensures
        r@ == v@,
{
    let mut r: Vec<char> = Vec::new();
    let mut i: usize = 0;
    while i < v.len()
        invariant
            i <= v.len(),
            r@ == v@.take(i as int),
        decreases v.len() - i,
    {
        r.push(v[i]);
        i += 1;
        assert(r@ =~= v@.take(i as int));
    }
    assert(v@.take(v.len() as int) =~= v@);
    r
}

/// Whether two character vectors hold the same characters.
pub fn chars_eq(a: &Vec<char>, b: &Vec<char>) -> (r: bool)
    ensures
        r == (a@ == b@),
{
    if a.len() != b.len() {
        return false;
    }
    let mut i: usize = 0;
    while i < a.len()
        invariant
            i <= a.len(),
            a.len() == b.len(),
            forall|j: int| 0 <= j < i ==> a@[j] == b@[j],
        decreases a.len() - i,
    {
        if a[i] != b[i] {
            return false;
        }
        i += 1;
    }
    assert(a@ == b@);
    true
}

/// The components of a path, in order.
pub fn components_of(style: PathStyle, s: &Vec<char>) -> (r: Vec<Vec<char>>)
    ensures
        views(r@) == components(style, s@),
{
    let mut done: Vec<Vec<char>> = Vec::new();
    let mut cur: Vec<char> = Vec::new();
    let mut i: usize = 0;
    while i < s.len()
        invariant
            i <= s.len(),
            views(done@) == scan_segments(style, s@.take(i as int)).0,
            cur@ == scan_segments(style, s@.take(i as int)).1,
        decreases s.len() - i,
    {
        let c = s[i];
        assert(s@.take(i + 1).drop_last() == s@.take(i as int));
        if is_separator_exec(style, c) {
            if keeps_segment_exec(&cur) {
                let ghost before = done@;
                let ghost seg = cur@;
                done.push(cur);
                assert(views(done@) =~= views(before).push(seg));
            }
            cur = Vec::new();
        } else {
            cur.push(c);
        }
        i += 1;
    }
    assert(s@.take(s.len() as int) == s@);
    if keeps_segment_exec(&cur) {
        let ghost before = done@;
        let ghost seg = cur@;
        done.push(cur);
        assert(views(done@) =~= views(before).push(seg));
    }
    let root = (s.len() > 0 && is_separator_exec(style, s[0])) || (matches!(style, PathStyle::Windows)
        && s.len() >= 3 && s[1] == ':' && is_separator_exec(style, s[2]));
    if root {
        let mut r: Vec<Vec<char>> = Vec::new();
        let mut marker: Vec<char> = Vec::new();
        marker.push('/');
        assert(marker@ =~= root_marker());
        r.push(marker);
        assert(views(r@) =~= seq![root_marker()] + views(done@).take(0));
        let mut j: usize = 0;
        while j < done.len()
            invariant
                j <= done.len(),
                views(r@) == seq![root_marker()] + views(done@).take(j as int),
            decreases done.len() - j,
        {
            let ghost before = r@;
            r.push(copy_chars(&done[j]));
            j += 1;
            assert(views(r@) =~= views(before).push(done@[j - 1]@));
            assert(views(done@).take(j as int) =~= views(done@).take(j - 1).push(done@[j - 1]@));
            assert(views(r@) =~= seq![root_marker()] + views(done@).take(j as int));
        }
        assert(views(done@).take(done.len() as int) =~= views(done@));
        r
    } else {
        done
    }
}

/// Whether the components of `p` start with those of `r` (strictly or not).
fn components_prefix(p: &Vec<Vec<char>>, r: &Vec<Vec<char>>) -> (b: bool)
    requires
        r.len() <= p.len(),
    ensures
        b == (views(p@).take(r.len() as int) == views(r@)),
{
    let mut j: usize = 0;
    while j < r.len()
        invariant
            j <= r.len(),
            r.len() <= p.len(),
            forall|k: int| 0 <= k < j ==> p@[k]@ == r@[k]@,
        decreases r.len() - j,
    {
        if !chars_eq(&p[j], &r[j]) {
            assert(views(p@).take(r.len() as int)[j as int] != views(r@)[j as int]);
            return false;
        }
        j += 1;
    }
    assert(views(p@).take(r.len() as int) =~= views(r@));
    true
}

/// Whether `path` names the same location as `other`.
pub fn same_path(style: PathStyle, path: &str, other: &str) -> (r: bool)
    ensures
        r == same_path_spec(style, path@, other@),
{
    let a = normalize_for_compare(style, path);
    let b = normalize_for_compare(style, other);
    if a.len() != b.len() {
        assert(views(a@).len() != views(b@).len());
        return false;
    }
    let eq = components_prefix(&a, &b);
    assert(views(a@).take(b.len() as int) =~= views(a@));
    eq
}

/// Whether `path` lies strictly below `root`.
pub fn is_within(style: PathStyle, path: &str, root: &str) -> (r: bool)
    ensures
        r == is_within_spec(style, path@, root@),
{
    let p = normalize_for_compare(style, path);
    let q = normalize_for_compare(style, root);
    if q.len() >= p.len() {
        return false;
    }
    components_prefix(&p, &q)
}


/// `base` with `child` appended as a further component.
pub open spec fn join_spec(style: PathStyle, base: Seq<char>, child: Seq<char>) -> Seq<char> {
    if base.len() == 0 {
        child
    } else if is_separator(style, base.last()) {
        base + child
    } else {
        base.push(main_separator(style)) + child
    }
}

pub open spec fn is_ascii_alpha(c: char) -> bool {
    ('A' <= c && c <= 'Z') || ('a' <= c && c <= 'z')
}

/// Whether `s` is an absolute path (`/x`; on Windows `C:\x` or `\\server\x`).
pub open spec fn is_absolute_spec(style: PathStyle, s: Seq<char>) -> bool {
    match style {
        PathStyle::Unix => s.len() > 0 && s[0] == '/',
        PathStyle::Windows => {
            ||| (s.len() >= 3 && is_ascii_alpha(s[0]) && s[1] == ':' && is_separator(style, s[2]))
            ||| (s.len() >= 2 && is_separator(style, s[0]) && is_separator(style, s[1]))
        },
    }
}

/// A name that is exactly one ordinary component: not empty, not `.` or
/// `..`, and free of separators and drive colons.
pub open spec fn is_plain_name(style: PathStyle, name: Seq<char>) -> bool {
    &&& keeps_segment(name)
    &&& name != seq!['.', '.']
    &&& forall|i: int| 0 <= i < name.len() ==> !is_separator(style, #[trigger] name[i]) && name[i] != ':'
}

/// `child` appended to `base` with a separator when one is needed.
pub fn join(style: PathStyle, base: &str, child: &str) -> (r: String)
    ensures
        r@ == join_spec(style, base@, child@),
{
    let mut r = base.to_owned();
    let b = chars_of(base);
    if b.len() > 0 && !is_separator_exec(style, b[b.len() - 1]) {
        let sep = match style {
            PathStyle::Unix => '/',
            PathStyle::Windows => '\\',
        };
        push_char(&mut r, sep);
    }
    push_str(&mut r, child);
    r
}

/// Reading `b` from the state `st`.
pub open spec fn scan_from(
    style: PathStyle,
    st: (Seq<Seq<char>>, Seq<char>),
    b: Seq<char>,
) -> (Seq<Seq<char>>, Seq<char>)
    decreases b.len(),
{
    if b.len() == 0 {
        st
    } else {
        scan_step(style, scan_from(style, st, b.drop_last()), b.last())
    }
}

/// Splitting `a + b` into components continues the split of `a` over `b`.
pub proof fn lemma_scan_concat(style: PathStyle, a: Seq<char>, b: Seq<char>)
    ensures
        scan_segments(style, a + b) == scan_from(style, scan_segments(style, a), b),
    decreases b.len(),
{
    if b.len() == 0 {
        assert(a + b =~= a);
    } else {
        lemma_scan_concat(style, a, b.drop_last());
        assert((a + b).drop_last() =~= a + b.drop_last());
        assert((a + b).last() == b.last());
    }
}

/// Characters without separators extend the component being read.
pub proof fn lemma_scan_plain(style: PathStyle, st: (Seq<Seq<char>>, Seq<char>), b: Seq<char>)
    requires
        forall|i: int| 0 <= i < b.len() ==> !is_separator(style, #[trigger] b[i]),
    ensures
        scan_from(style, st, b) == (st.0, st.1 + b),
    decreases b.len(),
{
    if b.len() == 0 {
        assert(st.1 + b =~= st.1);
    } else {
        lemma_scan_plain(style, st, b.drop_last());
        assert(!is_separator(style, b[b.len() - 1]));
        assert((st.1 + b.drop_last()).push(b.last()) =~= st.1 + b);
    }
}

proof fn lemma_root_prefix(style: PathStyle, n: Seq<char>, x: Seq<char>)
    requires
        n.len() > 0,
        is_separator(style, n[0]) || (n.len() >= 3 && n[1] == ':' && is_separator(style, n[2])),
    ensures
        has_root(style, n + x) == has_root(style, n),
{
    assert((n + x)[0] == n[0]);
    if n.len() >= 3 {
        assert((n + x)[1] == n[1]);
        assert((n + x)[2] == n[2]);
    }
}

/// Joining a plain name to an absolute path adds that name as one more
/// component.
pub proof fn lemma_join_components(style: PathStyle, base: Seq<char>, name: Seq<char>)
    requires
        is_absolute_spec(style, base),
        is_plain_name(style, name),
    ensures
        components(style, join_spec(style, base, name)) == components(style, base).push(name),
{
    let st = scan_segments(style, base);
    if is_separator(style, base.last()) {
        assert(base.drop_last().push(base.last()) =~= base);
        assert(st.1 =~= seq![]);
        lemma_scan_concat(style, base, name);
        lemma_scan_plain(style, st, name);
        assert(st.1 + name =~= name);
        lemma_root_prefix(style, base, name);
        assert(segments(style, base) == st.0);
        assert(segments(style, join_spec(style, base, name)) =~= st.0.push(name));
    } else {
        let sep = main_separator(style);
        let bs = base.push(sep);
        lemma_scan_concat(style, bs, name);
        assert(bs.drop_last() =~= base);
        lemma_scan_plain(style, scan_segments(style, bs), name);
        assert(scan_segments(style, bs).1 + name =~= name);
        lemma_root_prefix(style, base, seq![sep] + name);
        assert(base + (seq![sep] + name) =~= bs + name);
        assert(segments(style, join_spec(style, base, name)) =~= segments(style, base).push(name));
    }
    assert(components(style, join_spec(style, base, name)) =~= components(style, base).push(name));
}

/// Joining a plain name to an absolute path gives a path with one more
/// component, and so a path that lies within the original one.
pub proof fn lemma_join_stays_within(style: PathStyle, base: Seq<char>, name: Seq<char>)
    requires
        is_absolute_spec(style, base),
        is_plain_name(style, name),
    ensures
        compare_form(style, join_spec(style, base, name)) == compare_form(style, base).push(
            fold_component(style, name),
        ),
        is_within_spec(style, join_spec(style, base, name), base),
{
    lemma_join_components(style, base, name);
    let p = compare_form(style, join_spec(style, base, name));
    let r = compare_form(style, base);
    assert(p =~= r.push(fold_component(style, name)));
    assert(p.take(r.len() as int) =~= r);
}

/// Joining a name to an absolute path gives an absolute path.
pub proof fn lemma_join_absolute(style: PathStyle, base: Seq<char>, name: Seq<char>)
    requires
        is_absolute_spec(style, base),
    ensures
        is_absolute_spec(style, join_spec(style, base, name)),
{
    let j = join_spec(style, base, name);
    assert(j.len() >= base.len());
    assert(j[0] == base[0]);
    if base.len() >= 2 {
        assert(j[1] == base[1]);
    }
    if base.len() >= 3 {
        assert(j[2] == base[2]);
    }
}

/// Characters that a plain name may hold: no separator and no colon.
pub open spec fn is_name_char(c: char) -> bool {
    c != '/' && c != '\\' && c != ':'
}

/// A non-empty name without separators or colons, other than `.` and `..`,
/// is one plain component.
pub proof fn lemma_name_chars_plain(style: PathStyle, s: Seq<char>)
    requires
        s.len() > 0,
        s.len() >= 3 || s[0] != '.',
        forall|i: int| 0 <= i < s.len() ==> is_name_char(#[trigger] s[i]),
    ensures
        is_plain_name(style, s),
{
    if s =~= seq!['.'] {
        assert(s.len() == 1);
    }
    if s =~= seq!['.', '.'] {
        assert(s.len() == 2);
    }
}

/// Two plain names joined below an absolute path stay within it.
pub proof fn lemma_join2_within(style: PathStyle, m: Seq<char>, a: Seq<char>, b: Seq<char>)
    requires
        is_absolute_spec(style, m),
        is_plain_name(style, a),
        is_plain_name(style, b),
    ensures
        is_within_spec(style, join_spec(style, join_spec(style, m, a), b), m),
        is_within_spec(style, join_spec(style, m, a), m),
{
    lemma_join_stays_within(style, m, a);
    lemma_join_absolute(style, m, a);
    lemma_join_stays_within(style, join_spec(style, m, a), b);
    let c = compare_form(style, m);
    let p = compare_form(style, join_spec(style, join_spec(style, m, a), b));
    assert(p =~= c.push(fold_component(style, a)).push(fold_component(style, b)));
    assert(p.take(c.len() as int) =~= c);
}


/// A path within a path that lies within a root lies within the root.
pub proof fn lemma_within_transitive(style: PathStyle, a: Seq<char>, b: Seq<char>, c: Seq<char>)
    requires
        is_within_spec(style, a, b),
        is_within_spec(style, b, c),
    ensures
        is_within_spec(style, a, c),
{
    let pa = compare_form(style, a);
    let pb = compare_form(style, b);
    let pc = compare_form(style, c);
    assert(pa.take(pc.len() as int) =~= pb.take(pc.len() as int));
}

/// No path lies within itself.
pub proof fn lemma_within_irreflexive(style: PathStyle, a: Seq<char>)
    ensures
        !is_within_spec(style, a, a),
{
}

/// A path within another is not the same path.
pub proof fn lemma_within_not_same(style: PathStyle, a: Seq<char>, b: Seq<char>)
    requires
        is_within_spec(style, a, b),
    ensures
        !same_path_spec(style, a, b),
{
}

} // verus!
