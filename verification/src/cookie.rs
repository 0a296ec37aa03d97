//! Cookie strings: looking a value up in a `name=value; name=value` header,
//! the fixed cookie headers sent with the Netease requests, and merging the
//! `Set-Cookie` pairs of a response into a cookie jar kept as a list.
use vstd::prelude::*;
use crate::crypto::random_below;
use crate::text::{
    chars_of, dec_digits, find_char, first_char, join_chars, join_seq, owned, push_chars,
    push_dec, push_str, seq_eq, slice_chars, split_chars, split_on, split_seq, str_eq,
    string_of, trim_chars, trim_spec, views,
};

verus! {

// ── looking a value up ─────────────────────────────────────────────────

/// The value that one `;`-separated piece of a cookie header gives for `key`:
/// the piece is trimmed, split at its first `=`, and the trimmed name must
/// equal `key`; the value is the trimmed rest.
pub open spec fn part_value(p: Seq<char>, key: Seq<char>) -> Option<Seq<char>> {
    let t = trim_spec(p);
    let j = first_char(t, '=', 0);
    if j < t.len() && trim_spec(t.subrange(0, j)) == key {
        Some(trim_spec(t.subrange(j + 1, t.len() as int)))
    } else {
        None
    }
}

/// The value of the first piece from index `i` on that names `key`.
pub open spec fn cookie_lookup(parts: Seq<Seq<char>>, key: Seq<char>, i: int) -> Option<Seq<char>>
    decreases parts.len() - i,
{
    if i < 0 || i >= parts.len() {
        None
    } else {
        match part_value(parts[i], key) {
            Some(v) => Some(v),
            None => cookie_lookup(parts, key, i + 1),
        }
    }
}

/// The value of `key` in the cookie header `cookie`: the first `;`-separated
/// piece that names it.
pub open spec fn cookie_value(cookie: Seq<char>, key: Seq<char>) -> Option<Seq<char>> {
    cookie_lookup(split_seq(cookie, seq![';']), key, 0)
}

fn part_value_exec(p: &[char], key: &[char]) -> (r: Option<Vec<char>>)
    ensures
        match r {
            Some(v) => part_value(p@, key@) == Some(v@),
            None => part_value(p@, key@) is None,
        },
{
    let t = trim_chars(p);
    let j = find_char(t.as_slice(), '=', 0);
    if j < t.len() {
        let name = trim_chars(slice_chars(t.as_slice(), 0, j).as_slice());
        if seq_eq(name.as_slice(), key) {
            let rest = slice_chars(t.as_slice(), j + 1, t.len());
            return Some(trim_chars(rest.as_slice()));
        }
    }
    None
}

/// The value of `key` in the cookie header `cookie`, if a piece names it.
pub fn parse_cookie_value(cookie: &str, key: &str) -> (r: Option<String>)
    ensures
        match r {
            Some(v) => cookie_value(cookie@, key@) == Some(v@),
            None => cookie_value(cookie@, key@) is None,
        },
{
    let parts = split_on(cookie, ';');
    let k = chars_of(key);
    let mut i: usize = 0;
    while i < parts.len()
        invariant
            i <= parts.len(),
            k@ == key@,
            views(parts@) == split_seq(cookie@, seq![';']),
            cookie_lookup(views(parts@), key@, i as int) == cookie_value(cookie@, key@),
        decreases parts.len() - i,
    {
        assert(views(parts@)[i as int] == parts@[i as int]@);
        match part_value_exec(parts[i].as_slice(), k.as_slice()) {
            Some(v) => {
                return Some(string_of(v.as_slice()));
            },
            None => {},
        }
        i = i + 1;
    }
    None
}

/// The value of `key`, or the empty string (`unwrap_or_default`).
pub open spec fn cookie_value_or_empty(cookie: Seq<char>, key: Seq<char>) -> Seq<char> {
    match cookie_value(cookie, key) {
        Some(v) => v,
        None => Seq::empty(),
    }
}

fn cookie_value_chars(cookie: &str, key: &str) -> (r: Vec<char>)
    ensures
        r@ == cookie_value_or_empty(cookie@, key@),
{
    match parse_cookie_value(cookie, key) {
        Some(v) => chars_of(v.as_str()),
        None => Vec::new(),
    }
}

// ── request cookie headers ─────────────────────────────────────────────

/// The `; MUSIC_U=…` tail appended when the stored cookie holds a `MUSIC_U`.
pub open spec fn music_u_tail(raw: Seq<char>) -> Seq<char> {
    match cookie_value(raw, "MUSIC_U"@) {
        Some(u) => "; MUSIC_U="@ + u,
        None => Seq::empty(),
    }
}

/// The cookie header of a `weapi` request built from the stored cookie: fixed
/// client fields, the stored `__csrf` (empty when absent) and the stored
/// `MUSIC_U` when present.
pub open spec fn weapi_cookie(raw: Seq<char>) -> Seq<char> {
    "__remember_me=true; ntes_kaola_ad=1; os=pc; appver=3.1.17.204416; osver=Microsoft-Windows-10-Professional-build-19045-64bit; channel=netease; __csrf="@
        + cookie_value_or_empty(raw, "__csrf"@) + music_u_tail(raw)
}

fn push_music_u(out: &mut Vec<char>, raw: &str)
    ensures
        final(out)@ == old(out)@ + music_u_tail(raw@),
{
    match parse_cookie_value(raw, "MUSIC_U") {
        Some(u) => {
            push_str(out, "; MUSIC_U=");
            push_str(out, u.as_str());
        },
        None => {
            assert(old(out)@ + music_u_tail(raw@) =~= old(out)@);
        },
    }
}

/// The cookie header of a `weapi` request.
pub fn build_weapi_cookie(raw_cookie: &str) -> (r: String)
    ensures
        r@ == weapi_cookie(raw_cookie@),
{
    let mut out = chars_of(
        "__remember_me=true; ntes_kaola_ad=1; os=pc; appver=3.1.17.204416; osver=Microsoft-Windows-10-Professional-build-19045-64bit; channel=netease; __csrf=",
    );
    let csrf = cookie_value_chars(raw_cookie, "__csrf");
    push_chars(&mut out, csrf.as_slice());
    push_music_u(&mut out, raw_cookie);
    string_of(out.as_slice())
}

/// `n` in decimal, left-padded with zeros to at least four digits (`{:04}`).
pub open spec fn pad4(n: nat) -> Seq<char> {
    let d = dec_digits(n);
    if d.len() >= 4 {
        d
    } else {
        Seq::new((4 - d.len()) as nat, |i: int| '0') + d
    }
}

/// The request id of an `eapi` request: the millisecond clock, `_`, and a
/// number below 1000 padded to four digits.
pub open spec fn request_id(millis: u64, rand: u32) -> Seq<char> {
    dec_digits(millis as nat) + "_"@ + pad4(rand as nat)
}

/// The cookie header of an `eapi` request made at `millis` with the random
/// request-id suffix `rand`.
pub open spec fn eapi_cookie(raw: Seq<char>, millis: u64, rand: u32) -> Seq<char> {
    "os=pc; appver=3.1.17.204416; osver=Microsoft-Windows-10-Professional-build-19045-64bit; channel=netease; versioncode=140; buildver="@
        + dec_digits((millis / 1000) as nat) + "; resolution=1920x1080; __csrf="@
        + cookie_value_or_empty(raw, "__csrf"@) + "; requestId="@ + request_id(millis, rand)
        + music_u_tail(raw)
}

/// Appends `n` padded to four digits.
pub fn push_pad4(out: &mut Vec<char>, n: u32)
    ensures
        final(out)@ == old(out)@ + pad4(n as nat),
{
    let mut d: Vec<char> = Vec::new();
    push_dec(&mut d, n as u64);
    assert(d@ =~= dec_digits(n as nat));
    let mut k = d.len();
    let ghost start = out@;
    while k < 4
        invariant
            d@ == dec_digits(n as nat),
            d.len() <= k,
            k <= 4 || k == d.len(),
            out@ == start + Seq::new((k - d.len()) as nat, |i: int| '0'),
        decreases 4 - k,
    {
        out.push('0');
        k = k + 1;
        assert(out@ =~= start + Seq::new((k - d.len()) as nat, |i: int| '0'));
    }
    let ghost mid = out@;
    push_chars(out, d.as_slice());
    proof {
        if d.len() >= 4 {
            assert(mid =~= start);
        } else {
            assert(mid =~= start + Seq::new((4 - d.len()) as nat, |i: int| '0'));
        }
        assert(final(out)@ =~= start + pad4(n as nat));
    }
}

/// The cookie header of an `eapi` request made at the millisecond clock value
/// `millis`, with the random request-id suffix `rand`.
pub fn build_eapi_cookie_at(raw_cookie: &str, millis: u64, rand: u32) -> (r: String)
    ensures
        r@ == eapi_cookie(raw_cookie@, millis, rand),
{
    let mut out = chars_of(
        "os=pc; appver=3.1.17.204416; osver=Microsoft-Windows-10-Professional-build-19045-64bit; channel=netease; versioncode=140; buildver=",
    );
    push_dec(&mut out, millis / 1000);
    push_str(&mut out, "; resolution=1920x1080; __csrf=");
    let csrf = cookie_value_chars(raw_cookie, "__csrf");
    push_chars(&mut out, csrf.as_slice());
    push_str(&mut out, "; requestId=");
    push_dec(&mut out, millis);
    push_str(&mut out, "_");
    push_pad4(&mut out, rand);
    push_music_u(&mut out, raw_cookie);
    proof {
        let ghost o = out@;
        assert(o =~= eapi_cookie(raw_cookie@, millis, rand));
    }
    string_of(out.as_slice())
}

/// Milliseconds since the Unix epoch on the system clock
/// (`SystemTime::now().duration_since(UNIX_EPOCH)`, zero before the epoch).
/// The value comes from the clock; nothing is stated of it.
#[verifier::external_body]
pub(crate) fn current_millis() -> (r: u64) {
    std::time::SystemTime::now().duration_since(std::time::UNIX_EPOCH).unwrap_or_default().as_millis() as u64
}

/// The cookie header of an `eapi` request made now, with a fresh random
/// request-id suffix.
pub fn build_eapi_cookie(raw_cookie: &str) -> (r: String)
    ensures
        exists|millis: u64, rand: u32| rand < 1000 && r@ == eapi_cookie(raw_cookie@, millis, rand),
{
    let millis = current_millis();
    let rand = random_below(1000);
    build_eapi_cookie_at(raw_cookie, millis, rand)
}

// ── merging Set-Cookie pairs ───────────────────────────────────────────

/// The name of a `name=value` pair: the text before its first `=` (all of it
/// when there is none).
pub open spec fn cookie_name(p: Seq<char>) -> Seq<char> {
    p.subrange(0, first_char(p, '=', 0))
}

/// The first index from `i` on whose pair has the name `name`, or `parts.len()`.
pub open spec fn find_name(parts: Seq<Seq<char>>, name: Seq<char>, i: int) -> int
    decreases parts.len() - i,
{
    if i < 0 || i >= parts.len() {
        parts.len() as int
    } else if cookie_name(parts[i]) == name {
        i
    } else {
        find_name(parts, name, i + 1)
    }
}

/// The jar after taking in one pair: an empty pair changes nothing, a pair
/// whose name is already there replaces the first pair of that name, and any
/// other pair is appended.
pub open spec fn merge_one(parts: Seq<Seq<char>>, p: Seq<char>) -> Seq<Seq<char>> {
    if p.len() == 0 {
        parts
    } else {
        let k = find_name(parts, cookie_name(p), 0);
        if k < parts.len() {
            parts.update(k, p)
        } else {
            parts.push(p)
        }
    }
}

/// The jar after taking in the pairs `pieces[i..]` in order.
pub open spec fn merge_from(parts: Seq<Seq<char>>, pieces: Seq<Seq<char>>, i: int) -> Seq<Seq<char>>
    decreases pieces.len() - i,
{
    if i < 0 || i >= pieces.len() {
        parts
    } else {
        merge_from(merge_one(parts, pieces[i]), pieces, i + 1)
    }
}

/// The jar after taking in the pairs of a `"; "`-joined `Set-Cookie` string.
pub open spec fn merge_cookies(parts: Seq<Seq<char>>, set_cookies: Seq<char>) -> Seq<Seq<char>> {
    merge_from(parts, split_seq(set_cookies, "; "@), 0)
}

/// The views of a vector of strings.
pub open spec fn str_views(v: Seq<String>) -> Seq<Seq<char>> {
    Seq::new(v.len(), |i: int| v[i]@)
}

fn cookie_name_exec(p: &[char]) -> (r: Vec<char>)
    ensures
        r@ == cookie_name(p@),
{
    let j = find_char(p, '=', 0);
    slice_chars(p, 0, j)
}

fn find_name_exec(parts: &Vec<String>, name: &[char]) -> (r: usize)
    ensures
        r == find_name(str_views(parts@), name@, 0),
        r <= parts.len(),
{
    let mut i: usize = 0;
    while i < parts.len()
        invariant
            i <= parts.len(),
            find_name(str_views(parts@), name@, i as int) == find_name(str_views(parts@), name@, 0),
        decreases parts.len() - i,
    {
        let pc = chars_of(parts[i].as_str());
        let n = cookie_name_exec(pc.as_slice());
        assert(str_views(parts@)[i as int] == parts@[i as int]@);
        if seq_eq(n.as_slice(), name) {
            return i;
        }
        i = i + 1;
    }
    i
}

/// Takes the pairs of the `"; "`-joined string `set_cookies` into the jar
/// `parts`, in order.
pub fn merge_set_cookies(parts: &mut Vec<String>, set_cookies: &str)
    ensures
        str_views(final(parts)@) == merge_cookies(str_views(old(parts)@), set_cookies@),
{
    let sc = chars_of(set_cookies);
    let sep = chars_of("; ");
    proof {
        reveal_strlit("; ");
    }
    let pieces = split_chars(sc.as_slice(), sep.as_slice());
    let mut i: usize = 0;
    while i < pieces.len()
        invariant
            i <= pieces.len(),
            views(pieces@) == split_seq(set_cookies@, "; "@),
            merge_cookies(str_views(old(parts)@), set_cookies@) == merge_from(
                str_views(parts@),
                views(pieces@),
                i as int,
            ),
        decreases pieces.len() - i,
    {
        let piece = &pieces[i];
        assert(views(pieces@)[i as int] == piece@);
        let ghost before = str_views(parts@);
        if piece.len() > 0 {
            let name = cookie_name_exec(piece.as_slice());
            let k = find_name_exec(parts, name.as_slice());
            let s = string_of(piece.as_slice());
            if k < parts.len() {
                parts.set(k, s);
                assert(str_views(parts@) =~= before.update(k as int, piece@));
            } else {
                parts.push(s);
                assert(str_views(parts@) =~= before.push(piece@));
            }
        }
        assert(str_views(parts@) == merge_one(before, views(pieces@)[i as int]));
        i = i + 1;
    }
}

/// The names of the pairs are pairwise different.
pub open spec fn names_distinct(parts: Seq<Seq<char>>) -> bool {
    forall|a: int, b: int|
        0 <= a < parts.len() && 0 <= b < parts.len() && a != b ==> cookie_name(#[trigger] parts[a])
            != cookie_name(#[trigger] parts[b])
}

proof fn lemma_find_name(parts: Seq<Seq<char>>, name: Seq<char>, i: int)
    requires
        0 <= i <= parts.len(),
    ensures
        i <= find_name(parts, name, i) <= parts.len(),
        find_name(parts, name, i) < parts.len() ==> cookie_name(parts[find_name(parts, name, i)])
            == name,
        forall|j: int| i <= j < find_name(parts, name, i) ==> cookie_name(#[trigger] parts[j]) != name,
    decreases parts.len() - i,
{
    if i < parts.len() && cookie_name(parts[i]) != name {
        lemma_find_name(parts, name, i + 1);
    }
}

proof fn lemma_merge_one(parts: Seq<Seq<char>>, p: Seq<char>)
    requires
        names_distinct(parts),
    ensures
        names_distinct(merge_one(parts, p)),
        p.len() > 0 ==> merge_one(parts, p).contains(p),
        forall|q: Seq<char>|
            parts.contains(q) && cookie_name(q) != cookie_name(p) ==> merge_one(parts, p).contains(q),
{
    if p.len() > 0 {
        lemma_find_name(parts, cookie_name(p), 0);
        let k = find_name(parts, cookie_name(p), 0);
        let m = merge_one(parts, p);
        if k < parts.len() {
            assert(m[k] == p);
            assert forall|q: Seq<char>|
                parts.contains(q) && cookie_name(q) != cookie_name(p) implies m.contains(q) by {
                let j = choose|j: int| 0 <= j < parts.len() && parts[j] == q;
                assert(j != k);
                assert(m[j] == q);
            }
        } else {
            assert(m[parts.len() as int] == p);
            assert forall|q: Seq<char>|
                parts.contains(q) && cookie_name(q) != cookie_name(p) implies m.contains(q) by {
                let j = choose|j: int| 0 <= j < parts.len() && parts[j] == q;
                assert(m[j] == q);
            }
            assert forall|a: int, b: int|
                0 <= a < m.len() && 0 <= b < m.len() && a != b implies cookie_name(#[trigger] m[a])
                != cookie_name(#[trigger] m[b]) by {
                if a == parts.len() {
                    assert(cookie_name(parts[b]) != cookie_name(p));
                } else if b == parts.len() {
                    assert(cookie_name(parts[a]) != cookie_name(p));
                }
            }
        }
    }
}

/// The name of a piece occurs again among `pieces[i+1..]`.
pub open spec fn name_later(pieces: Seq<Seq<char>>, i: int) -> bool {
    exists|j: int| i < j < pieces.len() && cookie_name(#[trigger] pieces[j]) == cookie_name(pieces[i])
}

/// Merging keeps the names of the jar pairwise different, and every
/// non-empty pair whose name no later pair repeats ends up in the jar as it
/// was written.
pub proof fn lemma_merge_cookies(parts: Seq<Seq<char>>, set_cookies: Seq<char>)
    requires
        names_distinct(parts),
    ensures
        names_distinct(merge_cookies(parts, set_cookies)),
        forall|i: int|
            0 <= i < split_seq(set_cookies, "; "@).len() && split_seq(set_cookies, "; "@)[i].len() > 0
                && !name_later(split_seq(set_cookies, "; "@), i) ==> merge_cookies(
                parts,
                set_cookies,
            ).contains(#[trigger] split_seq(set_cookies, "; "@)[i]),
{
    lemma_merge_from(parts, split_seq(set_cookies, "; "@), 0);
}

proof fn lemma_merge_from(parts: Seq<Seq<char>>, pieces: Seq<Seq<char>>, i: int)
    requires
        names_distinct(parts),
        0 <= i <= pieces.len(),
    ensures
        names_distinct(merge_from(parts, pieces, i)),
        forall|q: Seq<char>|
            parts.contains(q) && (forall|j: int|
                i <= j < pieces.len() ==> cookie_name(#[trigger] pieces[j]) != cookie_name(q))
                ==> merge_from(parts, pieces, i).contains(q),
        forall|k: int|
            i <= k < pieces.len() && pieces[k].len() > 0 && !name_later(pieces, k) ==> merge_from(
                parts,
                pieces,
                i,
            ).contains(#[trigger] pieces[k]),
    decreases pieces.len() - i,
{
    if i < pieces.len() {
        lemma_merge_one(parts, pieces[i]);
        let m = merge_one(parts, pieces[i]);
        lemma_merge_from(m, pieces, i + 1);
        assert forall|k: int|
            i <= k < pieces.len() && pieces[k].len() > 0 && !name_later(pieces, k) implies merge_from(
            parts,
            pieces,
            i,
        ).contains(#[trigger] pieces[k]) by {
            if k == i {
                assert forall|j: int| i + 1 <= j < pieces.len() implies cookie_name(
                    #[trigger] pieces[j],
                ) != cookie_name(pieces[i]) by {
                    if cookie_name(pieces[j]) == cookie_name(pieces[i]) {
                        assert(name_later(pieces, i));
                    }
                }
            }
        }
    }
}

// ── reading Set-Cookie headers ─────────────────────────────────────────

/// The `name=value` pair of a `Set-Cookie` header value: its text before the
/// first `;`, trimmed.
pub open spec fn set_cookie_pair(v: Seq<char>) -> Seq<char> {
    trim_spec(split_seq(v, seq![';'])[0])
}

/// The pairs of the `Set-Cookie` header values, joined with `"; "`.
pub open spec fn joined_set_cookies(values: Seq<Seq<char>>) -> Seq<char> {
    join_seq(Seq::new(values.len(), |i: int| set_cookie_pair(values[i])), "; "@)
}

/// The `name=value` pairs of the `Set-Cookie` header values of a response,
/// joined with `"; "` (empty when there are none).
pub fn join_set_cookie_values(values: &Vec<String>) -> (r: String)
    ensures
        r@ == joined_set_cookies(str_views(values@)),
{
    let mut pairs: Vec<Vec<char>> = Vec::new();
    let mut i: usize = 0;
    while i < values.len()
        invariant
            i <= values.len(),
            views(pairs@) =~= Seq::new(i as nat, |k: int| set_cookie_pair(str_views(values@)[k])),
        decreases values.len() - i,
    {
        let pieces = split_on(values[i].as_str(), ';');
        proof {
            crate::text::lemma_split_nonempty(values@[i as int]@, seq![';'], 0, 0);
        }
        assert(views(pieces@)[0] == pieces@[0]@);
        let p = trim_chars(pieces[0].as_slice());
        let ghost before = views(pairs@);
        pairs.push(p);
        assert(views(pairs@) =~= before.push(p@));
        i = i + 1;
    }
    let sep = chars_of("; ");
    let joined = join_chars(&pairs, sep.as_slice());
    string_of(joined.as_slice())
}

/// `s` with every leading copy of `p` removed (`str::trim_start_matches`).
pub open spec fn strip_all_prefix(s: Seq<char>, p: Seq<char>) -> Seq<char>
    decreases s.len(),
{
    if p.len() > 0 && p.len() <= s.len() && s.subrange(0, p.len() as int) == p {
        strip_all_prefix(s.subrange(p.len() as int, s.len() as int), p)
    } else {
        s
    }
}

/// The login signature that the QR-image response sets: the first
/// `Set-Cookie` value beginning with `qrsig=`, cut at its first `;`, with the
/// leading `qrsig=` copies removed; empty when there is none.
pub open spec fn qrsig_of(values: Seq<Seq<char>>, i: int) -> Seq<char>
    decreases values.len() - i,
{
    if i < 0 || i >= values.len() {
        Seq::empty()
    } else if crate::text::starts_with_seq(values[i], "qrsig="@) {
        strip_all_prefix(split_seq(values[i], seq![';'])[0], "qrsig="@)
    } else {
        qrsig_of(values, i + 1)
    }
}

fn strip_all_prefix_exec(s: &[char], p: &[char]) -> (r: Vec<char>)
    ensures
        r@ == strip_all_prefix(s@, p@),
{
    let mut a: usize = 0;
    assert(s@.subrange(0, s.len() as int) =~= s@);
    while p.len() > 0 && p.len() <= s.len() - a && crate::text::occurs_at_exec(s, p, a)
        invariant
            a <= s.len(),
            strip_all_prefix(s@.subrange(a as int, s.len() as int), p@) == strip_all_prefix(s@, p@),
        decreases s.len() - a,
    {
        proof {
            let rest = s@.subrange(a as int, s.len() as int);
            assert(rest.subrange(0, p.len() as int) =~= s@.subrange(a as int, a + p.len()));
            assert(rest.subrange(p.len() as int, rest.len() as int) =~= s@.subrange(
                a + p.len(),
                s.len() as int,
            ));
        }
        a = a + p.len();
    }
    proof {
        let rest = s@.subrange(a as int, s.len() as int);
        if p.len() > 0 && p.len() <= rest.len() {
            assert(rest.subrange(0, p.len() as int) =~= s@.subrange(a as int, a + p.len()));
        }
    }
    slice_chars(s, a, s.len())
}

/// The `qrsig` login signature among the `Set-Cookie` header values of the
/// QR-image response (empty when none sets it).
pub fn qrsig_from_set_cookies(values: &Vec<String>) -> (r: String)
    ensures
        r@ == qrsig_of(str_views(values@), 0),
{
    let pre = chars_of("qrsig=");
    let mut i: usize = 0;
    while i < values.len()
        invariant
            i <= values.len(),
            pre@ == "qrsig="@,
            qrsig_of(str_views(values@), i as int) == qrsig_of(str_views(values@), 0),
        decreases values.len() - i,
    {
        let v = chars_of(values[i].as_str());
        assert(str_views(values@)[i as int] == values@[i as int]@);
        if crate::text::starts_with_exec(v.as_slice(), pre.as_slice()) {
            let pieces = split_on(values[i].as_str(), ';');
            proof {
                crate::text::lemma_split_nonempty(values@[i as int]@, seq![';'], 0, 0);
            }
            assert(views(pieces@)[0] == pieces@[0]@);
            let r = strip_all_prefix_exec(pieces[0].as_slice(), pre.as_slice());
            return string_of(r.as_slice());
        }
        i = i + 1;
    }
    proof {
        reveal_strlit("");
    }
    owned("")
}

// ── the stored cookies ─────────────────────────────────────────────────

/// The cookies kept for the two services: the Netease cookie and the QQ
/// Music cookie.
pub struct CookieStore {
    netease: String,
    qq: String,
}

impl CookieStore {
    /// The stored Netease cookie.
    pub closed spec fn netease_view(&self) -> Seq<char> {
        self.netease@
    }

    /// The stored QQ Music cookie.
    pub closed spec fn qq_view(&self) -> Seq<char> {
        self.qq@
    }

    /// A store holding the given cookies (those read at start-up).
    pub fn new(netease: String, qq: String) -> (r: CookieStore)
        ensures
            r.netease_view() == netease@,
            r.qq_view() == qq@,
    {
        CookieStore { netease, qq }
    }

    /// The Netease cookie.
    pub fn netease(&self) -> (r: String)
        ensures
            r@ == self.netease_view(),
    {
        self.netease.clone()
    }

    /// The QQ Music cookie.
    pub fn qq(&self) -> (r: String)
        ensures
            r@ == self.qq_view(),
    {
        self.qq.clone()
    }

    /// Replaces the Netease cookie; the QQ Music cookie is kept.
    pub fn set_netease(&mut self, cookie: &str)
        ensures
            final(self).netease_view() == cookie@,
            final(self).qq_view() == old(self).qq_view(),
    {
        self.netease = crate::text::owned(cookie);
    }

    /// Replaces the QQ Music cookie; the Netease cookie is kept.
    pub fn set_qq(&mut self, cookie: &str)
        ensures
            final(self).qq_view() == cookie@,
            final(self).netease_view() == old(self).netease_view(),
    {
        self.qq = crate::text::owned(cookie);
    }
}


/// A `name=value` cookie gives back its value, trimmed, for its name: the
/// pair is split at the first `=`, so the value may itself hold `=` (as
/// base64 padding does). The name has no `=` or `;` and does not start or end
/// with white space; the value has no `;`.
pub proof fn lemma_cookie_pair_value(k: Seq<char>, v: Seq<char>)
    requires
        k.len() > 0,
        forall|j: int| 0 <= j < k.len() ==> k[j] != '=' && k[j] != ';',
        !crate::text::is_white(k[0]),
        !crate::text::is_white(k.last()),
        forall|j: int| 0 <= j < v.len() ==> v[j] != ';',
    ensures
        cookie_value(k + seq!['='] + v, k) == Some(trim_spec(v)),
{
    let p = k + seq!['='] + v;
    assert forall|j: int| 0 <= j < p.len() implies p[j] != ';' by {
        if j < k.len() {
            assert(p[j] == k[j]);
        } else if j > k.len() {
            assert(p[j] == v[j - k.len() - 1]);
        }
    }
    crate::text::lemma_split_without(p, ';', 0, 0);
    assert(p.subrange(0, p.len() as int) =~= p);
    assert(split_seq(p, seq![';']) == seq![p]);
    assert(p[0] == k[0]);
    crate::text::lemma_lead_white(p, 0);
    let x = k + seq!['='];
    assert(p =~= x + v);
    crate::text::lemma_trail_white_concat(x, v);
    crate::text::lemma_white_runs(v);
    let m = crate::text::trail_white(v) as int;
    let t = trim_spec(p);
    assert(t =~= p.take(p.len() - m));
    assert forall|j: int| 0 <= j < k.len() implies t[j] != '=' by {
        assert(t[j] == k[j]);
    }
    assert(t[k.len() as int] == '=');
    crate::text::lemma_first_char_at(t, '=', 0, k.len() as int);
    assert(t.subrange(0, k.len() as int) =~= k);
    crate::text::lemma_lead_white(k, 0);
    crate::text::lemma_trail_white(k, 0);
    assert(trim_spec(k) =~= k);
    assert(t.subrange(k.len() + 1int, t.len() as int) =~= v.take(v.len() - m));
    crate::text::lemma_trim_without_trailing(v);
    assert(part_value(p, k) == Some(trim_spec(v)));
    assert(cookie_lookup(seq![p], k, 0) == Some(trim_spec(v)));
}

} // verus!
