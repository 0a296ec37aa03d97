//! Release checks: comparing dotted version numbers, and what a release
//! description yields (its tag without the `v`, its bullet notes, the
//! installer asset, the summary line).
use vstd::prelude::*;
use crate::text::{
    chars_of, ends_with_seq, is_white, is_white_exec, join_seq, owned, parse_u32, parse_u32_spec,
    push_chars, push_str, slice_chars, split_chars, split_on, split_seq, str_ends_with,
    string_of, trim_chars, trim_spec, views,
};

verus! {

// ── comparing versions ─────────────────────────────────────────────────

/// The numbers of the `.`-separated pieces that read as `u32`, in order
/// (pieces that do not are left out).
pub open spec fn numeric_parts(pieces: Seq<Seq<char>>) -> Seq<u32>
    decreases pieces.len(),
{
    if pieces.len() == 0 {
        Seq::empty()
    } else {
        match parse_u32_spec(pieces.last()) {
            Some(n) => numeric_parts(pieces.drop_last()).push(n),
            None => numeric_parts(pieces.drop_last()),
        }
    }
}

/// The numbers of a version string.
pub open spec fn version_parts(s: Seq<char>) -> Seq<u32> {
    numeric_parts(split_seq(s, seq!['.']))
}

/// Number `i` of a version, zero past its end.
pub open spec fn part(p: Seq<u32>, i: int) -> int {
    if 0 <= i < p.len() {
        p[i] as int
    } else {
        0
    }
}

/// The comparison of `a` and `b` from position `i` up to `n`: the sign of
/// the first difference, zero when there is none.
pub open spec fn order_from(a: Seq<u32>, b: Seq<u32>, i: int, n: int) -> int
    decreases n - i,
{
    if i >= n {
        0
    } else if part(a, i) > part(b, i) {
        1
    } else if part(a, i) < part(b, i) {
        -1
    } else {
        order_from(a, b, i + 1, n)
    }
}

/// The longer of two lengths.
pub open spec fn max_len(a: Seq<u32>, b: Seq<u32>) -> int {
    if a.len() >= b.len() {
        a.len() as int
    } else {
        b.len() as int
    }
}

/// The comparison of two version strings: 1 when `a` is newer, -1 when older,
/// 0 when equal; missing numbers count as zero.
pub open spec fn compare_versions_spec(a: Seq<char>, b: Seq<char>) -> int {
    let pa = version_parts(a);
    let pb = version_parts(b);
    order_from(pa, pb, 0, max_len(pa, pb))
}

fn version_numbers(s: &str) -> (r: Vec<u32>)
    ensures
        r@ == version_parts(s@),
{
    let pieces = split_on(s, '.');
    let mut out: Vec<u32> = Vec::new();
    let mut i: usize = 0;
    while i < pieces.len()
        invariant
            i <= pieces.len(),
            views(pieces@) == split_seq(s@, seq!['.']),
            out@ == numeric_parts(views(pieces@).take(i as int)),
        decreases pieces.len() - i,
    {
        let ghost vs = views(pieces@);
        proof {
            assert(vs.take(i + 1).drop_last() =~= vs.take(i as int));
            assert(vs.take(i + 1).last() == pieces@[i as int]@);
        }
        match parse_u32(pieces[i].as_slice()) {
            Some(n) => {
                out.push(n);
            },
            None => {},
        }
        i = i + 1;
    }
    assert(views(pieces@).take(pieces.len() as int) =~= views(pieces@));
    out
}

/// Compares two dotted version strings (1 newer, -1 older, 0 equal).
pub fn compare_versions(a: &str, b: &str) -> (r: i32)
    ensures
        r == compare_versions_spec(a@, b@),
{
    let pa = version_numbers(a);
    let pb = version_numbers(b);
    let n = if pa.len() >= pb.len() { pa.len() } else { pb.len() };
    let mut i: usize = 0;
    while i < n
        invariant
            i <= n,
            n == max_len(pa@, pb@),
            pa@ == version_parts(a@),
            pb@ == version_parts(b@),
            order_from(pa@, pb@, i as int, n as int) == order_from(pa@, pb@, 0, n as int),
        decreases n - i,
    {
        let na: u32 = if i < pa.len() { pa[i] } else { 0 };
        let nb: u32 = if i < pb.len() { pb[i] } else { 0 };
        if na > nb {
            return 1;
        }
        if na < nb {
            return -1;
        }
        i = i + 1;
    }
    0
}

proof fn lemma_order_antisym(a: Seq<u32>, b: Seq<u32>, i: int, n: int)
    ensures
        order_from(a, b, i, n) == -order_from(b, a, i, n),
    decreases n - i,
{
    if i < n && part(a, i) == part(b, i) {
        lemma_order_antisym(a, b, i + 1, n);
    }
}

proof fn lemma_order_refl(a: Seq<u32>, i: int, n: int)
    ensures
        order_from(a, a, i, n) == 0,
    decreases n - i,
{
    if i < n {
        lemma_order_refl(a, i + 1, n);
    }
}

proof fn lemma_order_range(a: Seq<u32>, b: Seq<u32>, i: int, n: int)
    ensures
        -1 <= order_from(a, b, i, n) <= 1,
    decreases n - i,
{
    if i < n && part(a, i) == part(b, i) {
        lemma_order_range(a, b, i + 1, n);
    }
}

/// Past both lengths every number is zero, so a longer range compares the same.
proof fn lemma_order_extend(a: Seq<u32>, b: Seq<u32>, i: int, n: int, m: int)
    requires
        max_len(a, b) <= n <= m,
    ensures
        order_from(a, b, i, n) == order_from(a, b, i, m),
    decreases m - i,
{
    if i < m {
        if i >= n {
            lemma_order_extend(a, b, i + 1, n, m);
            assert(part(a, i) == 0 && part(b, i) == 0);
            assert(order_from(a, b, i, m) == order_from(a, b, i + 1, m));
            lemma_order_zero_tail(a, b, i + 1, m);
        } else if part(a, i) == part(b, i) {
            lemma_order_extend(a, b, i + 1, n, m);
        }
    }
}

proof fn lemma_order_zero_tail(a: Seq<u32>, b: Seq<u32>, i: int, m: int)
    requires
        i >= max_len(a, b),
    ensures
        order_from(a, b, i, m) == 0,
    decreases m - i,
{
    if i < m {
        lemma_order_zero_tail(a, b, i + 1, m);
    }
}

proof fn lemma_order_trans(a: Seq<u32>, b: Seq<u32>, c: Seq<u32>, i: int, n: int)
    requires
        order_from(a, b, i, n) > 0,
        order_from(b, c, i, n) > 0,
    ensures
        order_from(a, c, i, n) > 0,
    decreases n - i,
{
    if i < n && part(a, i) == part(b, i) && part(b, i) == part(c, i) {
        lemma_order_trans(a, b, c, i + 1, n);
    } else if i < n && part(a, i) == part(b, i) {
        lemma_order_range(a, b, i + 1, n);
    } else if i < n && part(b, i) == part(c, i) {
        lemma_order_range(b, c, i + 1, n);
    }
}

/// Comparing versions is antisymmetric and reflexive: swapping the versions
/// negates the answer, and a version equals itself.
pub proof fn lemma_compare_versions_antisymmetric(a: Seq<char>, b: Seq<char>)
    ensures
        compare_versions_spec(a, b) == -compare_versions_spec(b, a),
        compare_versions_spec(a, a) == 0,
        -1 <= compare_versions_spec(a, b) <= 1,
{
    let pa = version_parts(a);
    let pb = version_parts(b);
    lemma_order_antisym(pa, pb, 0, max_len(pa, pb));
    assert(max_len(pa, pb) == max_len(pb, pa));
    lemma_order_refl(pa, 0, max_len(pa, pa));
    lemma_order_range(pa, pb, 0, max_len(pa, pb));
}

/// Being newer is transitive.
pub proof fn lemma_compare_versions_transitive(a: Seq<char>, b: Seq<char>, c: Seq<char>)
    requires
        compare_versions_spec(a, b) > 0,
        compare_versions_spec(b, c) > 0,
    ensures
        compare_versions_spec(a, c) > 0,
{
    let pa = version_parts(a);
    let pb = version_parts(b);
    let pc = version_parts(c);
    let m = if max_len(pa, pb) >= pc.len() { max_len(pa, pb) } else { pc.len() as int };
    lemma_order_extend(pa, pb, 0, max_len(pa, pb), m);
    lemma_order_extend(pb, pc, 0, max_len(pb, pc), m);
    lemma_order_extend(pa, pc, 0, max_len(pa, pc), m);
    lemma_order_trans(pa, pb, pc, 0, m);
}

// ── release description ────────────────────────────────────────────────

/// A release tag without its leading `v` characters.
pub open spec fn strip_v(s: Seq<char>) -> Seq<char>
    decreases s.len(),
{
    if s.len() > 0 && s[0] == 'v' {
        strip_v(s.drop_first())
    } else {
        s
    }
}

/// The version named by a release tag (`trim_start_matches('v')`).
pub fn release_version(tag: &str) -> (r: String)
    ensures
        r@ == strip_v(tag@),
{
    let v = chars_of(tag);
    let mut a: usize = 0;
    assert(v@.subrange(0, v@.len() as int) =~= v@);
    while a < v.len() && v[a] == 'v'
        invariant
            a <= v.len(),
            v@ == tag@,
            strip_v(v@.subrange(a as int, v@.len() as int)) == strip_v(tag@),
        decreases v.len() - a,
    {
        assert(v@.subrange(a as int, v@.len() as int).drop_first() =~= v@.subrange(a + 1, v@.len() as int));
        a = a + 1;
    }
    string_of(slice_chars(v.as_slice(), a, v.len()).as_slice())
}

/// Whether a release with the tag `tag` is newer than the running version
/// `current`.
pub fn update_available(tag: &str, current: &str) -> (r: bool)
    ensures
        r == (compare_versions_spec(strip_v(tag@), current@) > 0),
{
    let latest = release_version(tag);
    compare_versions(latest.as_str(), current) > 0
}

/// The summary line of a release check.
pub fn update_summary(has_update: bool, latest: &str) -> (r: String)
    ensures
        r@ == (if has_update {
            "发现新版本 v"@ + latest@
        } else {
            "已是最新版本"@
        }),
{
    if has_update {
        let mut m = chars_of("发现新版本 v");
        push_str(&mut m, latest);
        string_of(m.as_slice())
    } else {
        owned("已是最新版本")
    }
}

/// A line is a bullet: after trimming it starts with `-` or `*`.
pub open spec fn is_bullet(l: Seq<char>) -> bool {
    trim_spec(l).len() > 0 && (trim_spec(l)[0] == '-' || trim_spec(l)[0] == '*')
}

/// `l` without its leading white space, `-` and `*` characters.
pub open spec fn strip_bullet(l: Seq<char>) -> Seq<char>
    decreases l.len(),
{
    if l.len() > 0 && (is_white(l[0]) || l[0] == '-' || l[0] == '*') {
        strip_bullet(l.drop_first())
    } else {
        l
    }
}

/// The bullet lines among `lines[i..]`, at most `k` of them.
pub open spec fn first_bullets(lines: Seq<Seq<char>>, i: int, k: nat) -> Seq<Seq<char>>
    decreases lines.len() - i,
{
    if k == 0 || i < 0 || i >= lines.len() {
        Seq::empty()
    } else if is_bullet(lines[i]) {
        seq![lines[i]] + first_bullets(lines, i + 1, (k - 1) as nat)
    } else {
        first_bullets(lines, i + 1, k)
    }
}

/// The notes of a release description: its first four bullet lines, each
/// without the bullet and trimmed, the empty ones left out.
pub open spec fn release_notes_spec(body: Seq<char>) -> Seq<Seq<char>> {
    let b = first_bullets(crate::text::text_lines(body), 0, 4);
    let cleaned = Seq::new(b.len(), |i: int| trim_spec(strip_bullet(b[i])));
    non_empty(cleaned)
}

/// The non-empty lines of `s`, in order.
pub open spec fn non_empty(s: Seq<Seq<char>>) -> Seq<Seq<char>>
    decreases s.len(),
{
    if s.len() == 0 {
        Seq::empty()
    } else if s.last().len() > 0 {
        non_empty(s.drop_last()).push(s.last())
    } else {
        non_empty(s.drop_last())
    }
}

fn strip_bullet_exec(l: &[char]) -> (r: Vec<char>)
    ensures
        r@ == strip_bullet(l@),
{
    let mut a: usize = 0;
    assert(l@.subrange(0, l@.len() as int) =~= l@);
    while a < l.len() && (is_white_exec(l[a]) || l[a] == '-' || l[a] == '*')
        invariant
            a <= l.len(),
            strip_bullet(l@.subrange(a as int, l@.len() as int)) == strip_bullet(l@),
        decreases l.len() - a,
    {
        assert(l@.subrange(a as int, l@.len() as int).drop_first() =~= l@.subrange(a + 1, l@.len() as int));
        a = a + 1;
    }
    slice_chars(l, a, l.len())
}

/// The notes of a release description (see `release_notes_spec`).
pub fn release_notes(body: &str) -> (r: Vec<String>)
    ensures
        crate::cookie::str_views(r@) == release_notes_spec(body@),
{
    let lines = crate::text::lines_of(body);
    let ghost ls = views(lines@);
    let mut picked: Vec<Vec<char>> = Vec::new();
    let mut i: usize = 0;
    let mut k: usize = 4;
    while i < lines.len() && k > 0
        invariant
            i <= lines.len(),
            k <= 4,
            ls == views(lines@),
            ls == crate::text::text_lines(body@),
            first_bullets(ls, 0, 4) == views(picked@) + first_bullets(ls, i as int, k as nat),
        decreases lines.len() - i,
    {
        let l = &lines[i];
        assert(ls[i as int] == l@);
        let t = trim_chars(l.as_slice());
        if t.len() > 0 && (t[0] == '-' || t[0] == '*') {
            let ghost before = views(picked@);
            picked.push(slice_chars(l.as_slice(), 0, l.len()));
            proof {
                assert(l@.subrange(0, l@.len() as int) =~= l@);
                assert(views(picked@) =~= before.push(l@));
                assert(before + (seq![l@] + first_bullets(ls, i + 1, (k - 1) as nat)) =~= views(picked@)
                    + first_bullets(ls, i + 1, (k - 1) as nat));
            }
            k = k - 1;
        }
        i = i + 1;
    }
    assert(first_bullets(ls, i as int, k as nat) =~= Seq::<Seq<char>>::empty());
    assert(views(picked@) =~= first_bullets(ls, 0, 4));
    let ghost b = first_bullets(ls, 0, 4);
    let ghost cleaned = Seq::new(b.len(), |j: int| trim_spec(strip_bullet(b[j])));
    let mut out: Vec<String> = Vec::new();
    let mut j: usize = 0;
    while j < picked.len()
        invariant
            j <= picked.len(),
            views(picked@) == b,
            cleaned == Seq::new(b.len(), |x: int| trim_spec(strip_bullet(b[x]))),
            crate::cookie::str_views(out@) == non_empty(cleaned.take(j as int)),
        decreases picked.len() - j,
    {
        assert(b[j as int] == picked@[j as int]@);
        let s = strip_bullet_exec(picked[j].as_slice());
        let c = trim_chars(s.as_slice());
        proof {
            assert(cleaned.take(j + 1) =~= cleaned.take(j as int).push(cleaned[j as int]));
            assert(cleaned.take(j + 1).drop_last() =~= cleaned.take(j as int));
        }
        if c.len() > 0 {
            let ghost before = crate::cookie::str_views(out@);
            out.push(string_of(c.as_slice()));
            assert(crate::cookie::str_views(out@) =~= before.push(c@));
        }
        j = j + 1;
    }
    assert(cleaned.take(picked.len() as int) =~= cleaned);
    out
}

/// The notes shown for a release: those of its description, or two generic
/// notes when it has none.
pub fn shown_release_notes(body: &str) -> (r: Vec<String>)
    ensures
        crate::cookie::str_views(r@) == (if release_notes_spec(body@).len() == 0 {
            seq!["性能优化"@, "Bug 修复"@]
        } else {
            release_notes_spec(body@)
        }),
{
    let notes = release_notes(body);
    if notes.len() == 0 {
        let r = vec![crate::text::owned("性能优化"), crate::text::owned("Bug 修复")];
        assert(crate::cookie::str_views(r@) =~= seq!["性能优化"@, "Bug 修复"@]);
        r
    } else {
        notes
    }
}

/// An asset name marks the installer: it ends with `Setup.exe`.
pub open spec fn is_setup(name: Option<String>) -> bool {
    name matches Some(n) && ends_with_seq(n@, "Setup.exe"@)
}

/// The index of the asset a release offers for download, among the asset
/// names (`None` for an asset without a string name): the first installer,
/// else the first asset.
pub fn pick_asset(names: &Vec<Option<String>>) -> (r: Option<usize>)
    ensures
        match r {
            Some(i) => i < names.len() && ((is_setup(names@[i as int]) && forall|j: int|
                0 <= j < i ==> !is_setup(#[trigger] names@[j])) || (i == 0 && forall|j: int|
                0 <= j < names.len() ==> !is_setup(#[trigger] names@[j]))),
            None => names.len() == 0,
        },
{
    let mut i: usize = 0;
    while i < names.len()
        invariant
            i <= names.len(),
            forall|j: int| 0 <= j < i ==> !is_setup(#[trigger] names@[j]),
        decreases names.len() - i,
    {
        match &names[i] {
            Some(n) => {
                if str_ends_with(n.as_str(), "Setup.exe") {
                    return Some(i);
                }
            },
            None => {},
        }
        i = i + 1;
    }
    if names.len() > 0 {
        Some(0)
    } else {
        None
    }
}

/// The release feed of the repository `owner/repo`, or `None` when the update
/// check has no repository configured (either part empty).
pub fn release_api_url(owner: &str, repo: &str) -> (r: Option<String>)
    ensures
        match r {
            Some(u) => owner@.len() > 0 && repo@.len() > 0 && u@ == "https://api.github.com/repos/"@
                + owner@ + "/"@ + repo@ + "/releases/latest"@,
            None => owner@.len() == 0 || repo@.len() == 0,
        },
{
    if crate::text::chars_of(owner).len() == 0 || crate::text::chars_of(repo).len() == 0 {
        return None;
    }
    let mut v = crate::text::chars_of("https://api.github.com/repos/");
    crate::text::push_str(&mut v, owner);
    crate::text::push_str(&mut v, "/");
    crate::text::push_str(&mut v, repo);
    crate::text::push_str(&mut v, "/releases/latest");
    Some(crate::text::string_of(v.as_slice()))
}

/// The summary shown when the update check has no repository configured.
pub fn unconfigured_update_summary() -> (r: String)
    ensures
        r@ == "更新检测未配置，请在 online_api.rs 中设置 GitHub 仓库地址。"@,
{
    crate::text::owned("更新检测未配置，请在 online_api.rs 中设置 GitHub 仓库地址。")
}

} // verus!
