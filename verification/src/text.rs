//! Character-sequence helpers shared by the parsers of this crate: conversions
//! between `str` and character vectors, substring tests, whitespace trimming
//! and the decimal and hexadecimal rendering of integers.
use vstd::prelude::*;

verus! {

// ── conversions ────────────────────────────────────────────────────────

/// The characters of `s`, in order (`str::chars` collected into a vector).
#[verifier::external_body]
pub(crate) fn chars_of(s: &str) -> (r: Vec<char>)
    ensures
        r@ == s@,
{
    s.chars().collect()
}

/// A `String` holding exactly the characters of `v` (`FromIterator<&char>`).
#[verifier::external_body]
pub(crate) fn string_of(v: &[char]) -> (r: String)
    ensures
        r@ == v@,
{
    v.iter().collect()
}

/// What `String::from_utf8_lossy` makes of the bytes: their UTF-8 decoding,
/// with U+FFFD for each invalid sequence.
pub uninterp spec fn lossy_utf8(b: Seq<u8>) -> Seq<char>;

/// Decodes UTF-8 bytes, replacing invalid sequences by U+FFFD
/// (`String::from_utf8_lossy`). The contract names the result and states
/// the documented case: valid UTF-8 decodes as it is.
#[verifier::external_body]
pub(crate) fn utf8_lossy(b: &[u8]) -> (r: String)
    ensures
        r@ == lossy_utf8(b@),
        vstd::utf8::valid_utf8(b@) ==> r@ == vstd::utf8::decode_utf8(b@),
{
    String::from_utf8_lossy(b).into_owned()
}

/// A string literal (or any `str`) as an owned `String` with the same characters.
pub fn owned(s: &str) -> (r: String)
    ensures
        r@ == s@,
{
    let v = chars_of(s);
    string_of(v.as_slice())
}

/// Appends the characters of `s` to `out`.
pub fn push_str(out: &mut Vec<char>, s: &str)
    ensures
        final(out)@ == old(out)@ + s@,
{
    let v = chars_of(s);
    push_chars(out, v.as_slice());
}

/// Appends the characters of `v` to `out`.
pub fn push_chars(out: &mut Vec<char>, v: &[char])
    ensures
        final(out)@ == old(out)@ + v@,
{
    let ghost start = out@;
    let mut i: usize = 0;
    while i < v.len()
        invariant
            i <= v.len(),
            out@ == start + v@.subrange(0, i as int),
        decreases v.len() - i,
    {
        out.push(v[i]);
        i = i + 1;
        assert(out@ =~= start + v@.subrange(0, i as int));
    }
    assert(v@.subrange(0, v.len() as int) =~= v@);
}

/// The concatenation of two strings.
pub fn concat(a: &str, b: &str) -> (r: String)
    ensures
        r@ == a@ + b@,
{
    let mut v = chars_of(a);
    push_str(&mut v, b);
    string_of(v.as_slice())
}

/// Whether two strings hold the same characters.
pub fn str_eq(a: &str, b: &str) -> (r: bool)
    ensures
        r == (a@ == b@),
{
    let x = chars_of(a);
    let y = chars_of(b);
    seq_eq(x.as_slice(), y.as_slice())
}

/// Whether two character slices are equal.
pub fn seq_eq(x: &[char], y: &[char]) -> (r: bool)
    ensures
        r == (x@ == y@),
{
    if x.len() != y.len() {
        return false;
    }
    let mut i: usize = 0;
    while i < x.len()
        invariant
            x.len() == y.len(),
            i <= x.len(),
            forall|j: int| 0 <= j < i ==> x@[j] == y@[j],
        decreases x.len() - i,
    {
        if x[i] != y[i] {
            return false;
        }
        i = i + 1;
    }
    assert(x@ =~= y@);
    true
}

// ── substring tests ────────────────────────────────────────────────────

/// `t` occurs in `s` starting at index `i`.
pub open spec fn occurs_at<A>(s: Seq<A>, t: Seq<A>, i: int) -> bool {
    0 <= i && i + t.len() <= s.len() && s.subrange(i, i + t.len()) == t
}

/// `t` occurs somewhere in `s`.
pub open spec fn contains_seq<A>(s: Seq<A>, t: Seq<A>) -> bool {
    exists|i: int| occurs_at(s, t, i)
}

/// `s` begins with `t`.
pub open spec fn starts_with_seq<A>(s: Seq<A>, t: Seq<A>) -> bool {
    occurs_at(s, t, 0)
}

/// `s` ends with `t`.
pub open spec fn ends_with_seq<A>(s: Seq<A>, t: Seq<A>) -> bool {
    occurs_at(s, t, s.len() - t.len())
}

/// Whether `t` occurs in `s` at index `i`.
pub fn occurs_at_exec(s: &[char], t: &[char], i: usize) -> (r: bool)
    ensures
        r == occurs_at(s@, t@, i as int),
{
    if i > s.len() || t.len() > s.len() - i {
        return false;
    }
    let mut k: usize = 0;
    while k < t.len()
        invariant
            i + t.len() <= s.len(),
            k <= t.len(),
            forall|j: int| 0 <= j < k ==> s@[i + j] == t@[j],
        decreases t.len() - k,
    {
        if s[i + k] != t[k] {
            assert(s@.subrange(i as int, i + t.len())[k as int] != t@[k as int]);
            return false;
        }
        k = k + 1;
    }
    assert(s@.subrange(i as int, i + t.len()) =~= t@);
    true
}

/// The first index at which `t` occurs in `s`, if any.
pub fn find_seq(s: &[char], t: &[char]) -> (r: Option<usize>)
    ensures
        match r {
            Some(i) => occurs_at(s@, t@, i as int) && forall|j: int|
                0 <= j < i ==> !occurs_at(s@, t@, j),
            None => !contains_seq(s@, t@),
        },
{
    let mut i: usize = 0;
    while i < s.len()
        invariant
            i <= s.len(),
            forall|j: int| 0 <= j < i ==> !occurs_at(s@, t@, j),
        decreases s.len() - i,
    {
        if occurs_at_exec(s, t, i) {
            return Some(i);
        }
        i = i + 1;
    }
    if occurs_at_exec(s, t, i) {
        return Some(i);
    }
    assert forall|j: int| !occurs_at(s@, t@, j) by {
        if 0 <= j < i {
        } else if j > i {
            assert(j + t@.len() > s@.len());
        }
    }
    None
}

/// Whether `t` occurs in `s`.
pub fn contains_exec(s: &[char], t: &[char]) -> (r: bool)
    ensures
        r == contains_seq(s@, t@),
{
    match find_seq(s, t) {
        Some(i) => true,
        None => false,
    }
}

/// Whether the string `s` contains the string `t`.
pub fn str_contains(s: &str, t: &str) -> (r: bool)
    ensures
        r == contains_seq(s@, t@),
{
    let x = chars_of(s);
    let y = chars_of(t);
    contains_exec(x.as_slice(), y.as_slice())
}

/// Whether `s` begins with `t`.
pub fn starts_with_exec(s: &[char], t: &[char]) -> (r: bool)
    ensures
        r == starts_with_seq(s@, t@),
{
    occurs_at_exec(s, t, 0)
}

/// Whether `s` ends with `t`.
pub fn ends_with_exec(s: &[char], t: &[char]) -> (r: bool)
    ensures
        r == ends_with_seq(s@, t@),
{
    if t.len() > s.len() {
        return false;
    }
    occurs_at_exec(s, t, s.len() - t.len())
}

/// Whether the string `s` ends with the string `t`.
pub fn str_ends_with(s: &str, t: &str) -> (r: bool)
    ensures
        r == ends_with_seq(s@, t@),
{
    let x = chars_of(s);
    let y = chars_of(t);
    ends_with_exec(x.as_slice(), y.as_slice())
}

/// Whether the string `s` begins with the string `t`.
pub fn str_starts_with(s: &str, t: &str) -> (r: bool)
    ensures
        r == starts_with_seq(s@, t@),
{
    let x = chars_of(s);
    let y = chars_of(t);
    starts_with_exec(x.as_slice(), y.as_slice())
}


// ── splitting ──────────────────────────────────────────────────────────

/// The pieces of `s` between the non-overlapping occurrences of the pattern
/// `t`, found from left to right; `start` is where the current piece began and
/// `i` is the position being examined (`str::split` with a `&str` or `char`
/// pattern is `split_from(s, t, 0, 0)`).
pub open spec fn split_from(s: Seq<char>, t: Seq<char>, start: int, i: int) -> Seq<Seq<char>>
    decreases s.len() - i,
{
    if i >= s.len() || i + t.len() > s.len() || t.len() == 0 {
        seq![s.subrange(start, s.len() as int)]
    } else if occurs_at(s, t, i) {
        seq![s.subrange(start, i)] + split_from(s, t, i + t.len(), i + t.len())
    } else {
        split_from(s, t, start, i + 1)
    }
}

/// Splitting always yields at least one piece.
pub proof fn lemma_split_nonempty(s: Seq<char>, t: Seq<char>, start: int, i: int)
    requires
        0 <= start <= i,
    ensures
        split_from(s, t, start, i).len() > 0,
    decreases s.len() - i,
{
    if !(i >= s.len() || i + t.len() > s.len() || t.len() == 0) && !occurs_at(s, t, i) {
        lemma_split_nonempty(s, t, start, i + 1);
    }
}

/// `s` split at every occurrence of the non-empty pattern `t`.
pub open spec fn split_seq(s: Seq<char>, t: Seq<char>) -> Seq<Seq<char>> {
    split_from(s, t, 0, 0)
}

/// The views of a vector of character vectors.
pub open spec fn views(v: Seq<Vec<char>>) -> Seq<Seq<char>> {
    Seq::new(v.len(), |i: int| v[i]@)
}

/// `s[a..b]` as a vector.
pub fn slice_chars(s: &[char], a: usize, b: usize) -> (r: Vec<char>)
    requires
        a <= b <= s.len(),
    ensures
        r@ == s@.subrange(a as int, b as int),
{
    let mut out: Vec<char> = Vec::new();
    let mut i = a;
    while i < b
        invariant
            a <= i <= b <= s.len(),
            out@ == s@.subrange(a as int, i as int),
        decreases b - i,
    {
        out.push(s[i]);
        i = i + 1;
        assert(out@ =~= s@.subrange(a as int, i as int));
    }
    out
}

/// `s` split at every occurrence of the non-empty pattern `t`.
pub fn split_chars(s: &[char], t: &[char]) -> (r: Vec<Vec<char>>)
    requires
        t.len() > 0,
    ensures
        views(r@) == split_seq(s@, t@),
{
    let mut r: Vec<Vec<char>> = Vec::new();
    let mut start: usize = 0;
    let mut i: usize = 0;
    while i < s.len() && t.len() <= s.len() - i
        invariant
            start <= i <= s.len(),
            t.len() > 0,
            split_seq(s@, t@) == views(r@) + split_from(s@, t@, start as int, i as int),
        decreases s.len() - i,
    {
        if occurs_at_exec(s, t, i) {
            let piece = slice_chars(s, start, i);
            let ghost before = r@;
            r.push(piece);
            proof {
                assert(views(r@) =~= views(before) + seq![s@.subrange(start as int, i as int)]);
                assert(split_from(s@, t@, start as int, i as int) == seq![s@.subrange(start as int, i as int)]
                    + split_from(s@, t@, (i + t.len()) as int, (i + t.len()) as int));
                assert(views(before) + (seq![s@.subrange(start as int, i as int)] + split_from(s@, t@, (i + t.len()) as int, (i + t.len()) as int))
                    =~= views(r@) + split_from(s@, t@, (i + t.len()) as int, (i + t.len()) as int));
            }
            i = i + t.len();
            start = i;
        } else {
            i = i + 1;
        }
    }
    let last = slice_chars(s, start, s.len());
    let ghost before = r@;
    r.push(last);
    assert(views(r@) =~= views(before) + seq![s@.subrange(start as int, s.len() as int)]);
    r
}

/// `s` split at every occurrence of the character `c` (`str::split(c)`).
pub fn split_on(s: &str, c: char) -> (r: Vec<Vec<char>>)
    ensures
        views(r@) == split_seq(s@, seq![c]),
{
    let v = chars_of(s);
    let t: Vec<char> = vec![c];
    assert(t@ =~= seq![c]);
    split_chars(v.as_slice(), t.as_slice())
}


/// The first index at or after `i` holding `c`, or `s.len()`.
pub open spec fn first_char(s: Seq<char>, c: char, i: int) -> int
    decreases s.len() - i,
{
    if i >= s.len() {
        s.len() as int
    } else if s[i] == c {
        i
    } else {
        first_char(s, c, i + 1)
    }
}

/// The first index at or after `i` holding `c`, or `s.len()`.
pub fn find_char(s: &[char], c: char, i: usize) -> (r: usize)
    requires
        i <= s.len(),
    ensures
        r == first_char(s@, c, i as int),
        i <= r <= s.len(),
{
    let mut j = i;
    while j < s.len() && s[j] != c
        invariant
            i <= j <= s.len(),
            first_char(s@, c, j as int) == first_char(s@, c, i as int),
        decreases s.len() - j,
    {
        j = j + 1;
    }
    j
}

/// The pieces of `parts` joined with `sep` between consecutive pieces
/// (`[String]::join`).
pub open spec fn join_seq(parts: Seq<Seq<char>>, sep: Seq<char>) -> Seq<char>
    decreases parts.len(),
{
    if parts.len() == 0 {
        Seq::empty()
    } else if parts.len() == 1 {
        parts[0]
    } else {
        join_seq(parts.drop_last(), sep) + sep + parts.last()
    }
}

/// Joins the pieces with `sep` between consecutive pieces.
pub fn join_chars(parts: &Vec<Vec<char>>, sep: &[char]) -> (r: Vec<char>)
    ensures
        r@ == join_seq(views(parts@), sep@),
{
    let mut out: Vec<char> = Vec::new();
    let mut i: usize = 0;
    while i < parts.len()
        invariant
            i <= parts.len(),
            out@ == join_seq(views(parts@).take(i as int), sep@),
        decreases parts.len() - i,
    {
        let ghost before = out@;
        if i > 0 {
            push_chars(&mut out, sep);
        }
        push_chars(&mut out, parts[i].as_slice());
        proof {
            let vs = views(parts@);
            assert(vs.take(i + 1).drop_last() =~= vs.take(i as int));
            assert(vs.take(i + 1).last() == parts@[i as int]@);
            if i == 0 {
                assert(out@ =~= parts@[0]@);
            }
        }
        i = i + 1;
    }
    assert(views(parts@).take(parts.len() as int) =~= views(parts@));
    out
}


// ── integer parsing ────────────────────────────────────────────────────

/// `c` is an ASCII decimal digit.
pub open spec fn is_digit(c: char) -> bool {
    '0' <= c && c <= '9'
}

/// Every character of `d` is an ASCII decimal digit.
pub open spec fn all_digits(d: Seq<char>) -> bool {
    forall|i: int| 0 <= i < d.len() ==> is_digit(#[trigger] d[i])
}

/// The number written by the decimal digits `d`.
pub open spec fn digits_value(d: Seq<char>) -> nat
    decreases d.len(),
{
    if d.len() == 0 {
        0
    } else {
        digits_value(d.drop_last()) * 10 + ((d.last() as u32) - 48) as nat
    }
}

/// The integer that `FromStr` for the integer types reads from `s`: an
/// optional sign (`-` only when `signed`) followed by at least one decimal
/// digit, with nothing else; the range check is left to the caller.
pub open spec fn parse_int_spec(s: Seq<char>, signed: bool) -> Option<int> {
    if s.len() > 0 && (s[0] == '+' || (signed && s[0] == '-')) {
        let d = s.drop_first();
        if d.len() > 0 && all_digits(d) {
            if s[0] == '-' {
                Some(-(digits_value(d) as int))
            } else {
                Some(digits_value(d) as int)
            }
        } else {
            None
        }
    } else if s.len() > 0 && all_digits(s) {
        Some(digits_value(s) as int)
    } else {
        None
    }
}

/// What `str::parse::<i64>` returns, as an option.
pub open spec fn parse_i64_spec(s: Seq<char>) -> Option<i64> {
    match parse_int_spec(s, true) {
        Some(v) => if i64::MIN <= v <= i64::MAX {
            Some(v as i64)
        } else {
            None
        },
        None => None,
    }
}

/// What `str::parse::<u32>` returns, as an option.
pub open spec fn parse_u32_spec(s: Seq<char>) -> Option<u32> {
    match parse_int_spec(s, false) {
        Some(v) => if 0 <= v <= u32::MAX {
            Some(v as u32)
        } else {
            None
        },
        None => None,
    }
}

proof fn lemma_digits_value_grows(d: Seq<char>, k: int)
    requires
        0 <= k <= d.len(),
        all_digits(d),
    ensures
        digits_value(d.take(k)) <= digits_value(d),
    decreases d.len() - k,
{
    if k < d.len() {
        lemma_digits_value_grows(d, k + 1);
        assert(d.take(k + 1).drop_last() =~= d.take(k));
        assert(d.take(k + 1).last() == d[k]);
        assert(is_digit(d[k]));
    } else {
        assert(d.take(k) =~= d);
    }
}

/// The value of the digit run `d[a..]`, or `None` once it exceeds `limit`.
fn digits_upto(d: &[char], a: usize, limit: u64) -> (r: Option<u64>)
    requires
        a <= d.len(),
        all_digits(d@.subrange(a as int, d.len() as int)),
        9 <= limit <= 0x8000_0000_0000_0000u64,
    ensures
        match r {
            Some(v) => v == digits_value(d@.subrange(a as int, d.len() as int)) && v <= limit,
            None => digits_value(d@.subrange(a as int, d.len() as int)) > limit,
        },
{
    let ghost ds = d@.subrange(a as int, d.len() as int);
    let mut acc: u64 = 0;
    let mut i = a;
    while i < d.len()
        invariant
            a <= i <= d.len(),
            ds == d@.subrange(a as int, d.len() as int),
            all_digits(ds),
            9 <= limit <= 0x8000_0000_0000_0000u64,
            acc == digits_value(ds.take(i - a)),
            acc <= limit,
        decreases d.len() - i,
    {
        assert(is_digit(ds[i - a]));
        assert(ds[i - a] == d@[i as int]);
        let dv: u64 = ((d[i] as u32) - 48) as u64;
        proof {
            assert(ds.take(i - a + 1).drop_last() =~= ds.take(i - a));
            assert(ds.take(i - a + 1).last() == d@[i as int]);
        }
        if acc > (limit - dv) / 10 {
            proof {
                assert(digits_value(ds.take(i - a + 1)) > limit);
                lemma_digits_value_grows(ds, i - a + 1);
                assert(ds.take(ds.len() as int) =~= ds);
            }
            return None;
        }
        acc = acc * 10 + dv;
        i = i + 1;
    }
    assert(ds.take(i - a) =~= ds);
    Some(acc)
}

fn all_digits_from(d: &[char], a: usize) -> (r: bool)
    requires
        a <= d.len(),
    ensures
        r == all_digits(d@.subrange(a as int, d.len() as int)),
{
    let mut i = a;
    while i < d.len()
        invariant
            a <= i <= d.len(),
            forall|j: int| a <= j < i ==> is_digit(#[trigger] d@[j]),
        decreases d.len() - i,
    {
        if !(d[i] >= '0' && d[i] <= '9') {
            assert(!is_digit(d@.subrange(a as int, d.len() as int)[i - a]));
            return false;
        }
        i = i + 1;
    }
    assert forall|j: int| 0 <= j < d.len() - a implies is_digit(
        #[trigger] d@.subrange(a as int, d.len() as int)[j],
    ) by {
        assert(d@.subrange(a as int, d.len() as int)[j] == d@[a + j]);
    }
    true
}

/// `str::parse::<i64>` on the characters `s`.
pub fn parse_i64(s: &[char]) -> (r: Option<i64>)
    ensures
        r == parse_i64_spec(s@),
{
    if s.len() == 0 {
        return None;
    }
    let signed = s[0] == '+' || s[0] == '-';
    let a: usize = if signed { 1 } else { 0 };
    assert(s@.subrange(1, s.len() as int) =~= s@.drop_first());
    assert(s@.subrange(0, s.len() as int) =~= s@);
    if a == s.len() || !all_digits_from(s, a) {
        return None;
    }
    let neg = s[0] == '-';
    let limit: u64 = if neg { 0x8000_0000_0000_0000u64 } else { 0x7fff_ffff_ffff_ffffu64 };
    match digits_upto(s, a, limit) {
        None => None,
        Some(v) => {
            if neg {
                if v == 0x8000_0000_0000_0000u64 {
                    Some(i64::MIN)
                } else {
                    Some(-(v as i64))
                }
            } else {
                Some(v as i64)
            }
        },
    }
}

/// `str::parse::<u32>` on the characters `s`.
pub fn parse_u32(s: &[char]) -> (r: Option<u32>)
    ensures
        r == parse_u32_spec(s@),
{
    if s.len() == 0 {
        return None;
    }
    let a: usize = if s[0] == '+' { 1 } else { 0 };
    assert(s@.subrange(1, s.len() as int) =~= s@.drop_first());
    assert(s@.subrange(0, s.len() as int) =~= s@);
    if a == s.len() || !all_digits_from(s, a) {
        return None;
    }
    match digits_upto(s, a, 0xffff_ffffu64) {
        None => None,
        Some(v) => Some(v as u32),
    }
}

// ── lines ──────────────────────────────────────────────────────────────

/// A line as `str::lines` yields it: without a trailing `\r`.
pub open spec fn strip_cr(l: Seq<char>) -> Seq<char> {
    if l.len() > 0 && l.last() == '\r' {
        l.drop_last()
    } else {
        l
    }
}

/// The lines of a text (`str::lines`): split at `\n`, a final empty piece
/// dropped, each line without its trailing `\r`.
pub open spec fn text_lines(s: Seq<char>) -> Seq<Seq<char>> {
    let pieces = split_seq(s, seq!['\n']);
    let kept = if pieces.last().len() == 0 {
        pieces.drop_last()
    } else {
        pieces
    };
    Seq::new(kept.len(), |i: int| strip_cr(kept[i]))
}

/// The lines of `s` (`str::lines`).
pub fn lines_of(s: &str) -> (r: Vec<Vec<char>>)
    ensures
        views(r@) == text_lines(s@),
{
    let pieces = split_on(s, '\n');
    proof {
        lemma_split_nonempty(s@, seq!['\n'], 0, 0);
    }
    let n = if pieces[pieces.len() - 1].len() == 0 { pieces.len() - 1 } else { pieces.len() };
    let ghost ps = views(pieces@);
    let ghost kept = if ps.last().len() == 0 { ps.drop_last() } else { ps };
    let mut out: Vec<Vec<char>> = Vec::new();
    let mut i: usize = 0;
    while i < n
        invariant
            i <= n <= pieces.len(),
            ps == views(pieces@),
            kept.len() == n,
            forall|j: int| 0 <= j < n ==> kept[j] == #[trigger] ps[j],
            views(out@) =~= Seq::new(i as nat, |j: int| strip_cr(kept[j])),
        decreases n - i,
    {
        let p = &pieces[i];
        assert(ps[i as int] == p@);
        let line = if p.len() > 0 && p[p.len() - 1] == '\r' {
            slice_chars(p.as_slice(), 0, p.len() - 1)
        } else {
            slice_chars(p.as_slice(), 0, p.len())
        };
        proof {
            assert(p@.subrange(0, p@.len() as int) =~= p@);
            assert(p@.subrange(0, p@.len() - 1) =~= p@.drop_last());
        }
        let ghost before = views(out@);
        out.push(line);
        assert(views(out@) =~= before.push(strip_cr(kept[i as int])));
        i = i + 1;
    }
    out
}

// ── whitespace ─────────────────────────────────────────────────────────

/// The Unicode `White_Space` property (the characters for which
/// `char::is_whitespace` holds).
pub open spec fn is_white(c: char) -> bool {
    ||| ('\u{9}' <= c && c <= '\u{d}')
    ||| c == ' '
    ||| c == '\u{85}'
    ||| c == '\u{a0}'
    ||| c == '\u{1680}'
    ||| ('\u{2000}' <= c && c <= '\u{200a}')
    ||| c == '\u{2028}'
    ||| c == '\u{2029}'
    ||| c == '\u{202f}'
    ||| c == '\u{205f}'
    ||| c == '\u{3000}'
}

/// Executable `White_Space` test.
pub fn is_white_exec(c: char) -> (r: bool)
    ensures
        r == is_white(c),
{
    ('\u{9}' <= c && c <= '\u{d}') || c == ' ' || c == '\u{85}' || c == '\u{a0}' || c
        == '\u{1680}' || ('\u{2000}' <= c && c <= '\u{200a}') || c == '\u{2028}' || c
        == '\u{2029}' || c == '\u{202f}' || c == '\u{205f}' || c == '\u{3000}'
}

/// Number of leading white-space characters of `s`.
pub open spec fn lead_white(s: Seq<char>) -> nat
    decreases s.len(),
{
    if s.len() > 0 && is_white(s[0]) {
        1 + lead_white(s.drop_first())
    } else {
        0
    }
}

/// Number of trailing white-space characters of `s`.
pub open spec fn trail_white(s: Seq<char>) -> nat
    decreases s.len(),
{
    if s.len() > 0 && is_white(s.last()) {
        1 + trail_white(s.drop_last())
    } else {
        0
    }
}

/// `s` without leading and trailing white space (what `str::trim` returns).
pub open spec fn trim_spec(s: Seq<char>) -> Seq<char> {
    let a = s.subrange(lead_white(s) as int, s.len() as int);
    a.subrange(0, a.len() - trail_white(a))
}

pub(crate) proof fn lemma_lead_white(s: Seq<char>, i: int)
    requires
        0 <= i <= s.len(),
        forall|j: int| 0 <= j < i ==> is_white(#[trigger] s[j]),
        i == s.len() || !is_white(s[i]),
    ensures
        lead_white(s) == i,
    decreases i,
{
    if i > 0 {
        lemma_lead_white(s.drop_first(), i - 1);
    }
}

pub(crate) proof fn lemma_trail_white(s: Seq<char>, i: int)
    requires
        0 <= i <= s.len(),
        forall|j: int| s.len() - i <= j < s.len() ==> is_white(#[trigger] s[j]),
        i == s.len() || !is_white(s[s.len() - i - 1]),
    ensures
        trail_white(s) == i,
    decreases i,
{
    if i > 0 {
        lemma_trail_white(s.drop_last(), i - 1);
    }
}

/// `s` with leading and trailing white space removed.
pub fn trim_chars(s: &[char]) -> (r: Vec<char>)
    ensures
        r@ == trim_spec(s@),
{
    let mut a: usize = 0;
    while a < s.len() && is_white_exec(s[a])
        invariant
            a <= s.len(),
            forall|j: int| 0 <= j < a ==> is_white(#[trigger] s@[j]),
        decreases s.len() - a,
    {
        a = a + 1;
    }
    proof {
        lemma_lead_white(s@, a as int);
    }
    let ghost rest = s@.subrange(a as int, s.len() as int);
    let mut b: usize = s.len();
    while b > a && is_white_exec(s[b - 1])
        invariant
            a <= b <= s.len(),
            rest == s@.subrange(a as int, s.len() as int),
            forall|j: int| b <= j < s.len() ==> is_white(#[trigger] s@[j]),
        decreases b,
    {
        b = b - 1;
    }
    proof {
        let k = s.len() - b;
        assert forall|j: int| rest.len() - k <= j < rest.len() implies is_white(#[trigger] rest[j]) by {
            assert(rest[j] == s@[a + j]);
        }
        if k < rest.len() {
            assert(rest[rest.len() - k - 1] == s@[b - 1]);
        }
        lemma_trail_white(rest, k as int);
    }
    let mut out: Vec<char> = Vec::new();
    let mut i: usize = a;
    while i < b
        invariant
            a <= i <= b <= s.len(),
            out@ == s@.subrange(a as int, i as int),
        decreases b - i,
    {
        out.push(s[i]);
        i = i + 1;
        assert(out@ =~= s@.subrange(a as int, i as int));
    }
    assert(out@ =~= trim_spec(s@));
    out
}

/// The string `s` with leading and trailing white space removed (`str::trim`).
pub fn trim_str(s: &str) -> (r: String)
    ensures
        r@ == trim_spec(s@),
{
    let v = chars_of(s);
    let t = trim_chars(v.as_slice());
    string_of(t.as_slice())
}

// ── case mapping ───────────────────────────────────────────────────────

/// What `str::to_lowercase` returns for a string with the characters `s`.
pub uninterp spec fn spec_lowercase(s: Seq<char>) -> Seq<char>;

/// The Unicode lower-case form of `s` (`str::to_lowercase`); the contract
/// names the result and states no table of case mappings.
#[verifier::external_body]
pub(crate) fn to_lowercase(s: &str) -> (r: String)
    ensures
        r@ == spec_lowercase(s@),
{
    s.to_lowercase()
}

/// ASCII lower-case of one character (`char::to_ascii_lowercase`).
pub open spec fn ascii_lower(c: char) -> char {
    if 'A' <= c && c <= 'Z' {
        ((c as u32) + 32) as char
    } else {
        c
    }
}

/// Executable ASCII lower-case of one character.
pub fn ascii_lower_exec(c: char) -> (r: char)
    ensures
        r == ascii_lower(c),
{
    if 'A' <= c && c <= 'Z' {
        let n: u32 = (c as u32) + 32;
        assert(n < 0xD800);
        n as u8 as char
    } else {
        c
    }
}

/// ASCII lower-case of a whole sequence (`str::to_ascii_lowercase`).
pub open spec fn ascii_lower_seq(s: Seq<char>) -> Seq<char> {
    Seq::new(s.len(), |i: int| ascii_lower(s[i]))
}

/// Executable ASCII lower-case of a string.
pub fn ascii_lowercase(s: &str) -> (r: Vec<char>)
    ensures
        r@ == ascii_lower_seq(s@),
{
    let v = chars_of(s);
    let mut out: Vec<char> = Vec::new();
    let mut i: usize = 0;
    while i < v.len()
        invariant
            v@ == s@,
            i <= v.len(),
            out@ == ascii_lower_seq(s@).subrange(0, i as int),
        decreases v.len() - i,
    {
        out.push(ascii_lower_exec(v[i]));
        i = i + 1;
        assert(out@ =~= ascii_lower_seq(s@).subrange(0, i as int));
    }
    assert(out@ =~= ascii_lower_seq(s@));
    out
}

// ── integer rendering ──────────────────────────────────────────────────

/// The decimal digit character for `d < 10`.
pub open spec fn digit_char(d: nat) -> char {
    (('0' as u32) + d) as char
}

/// The lower-case hexadecimal digit character for `d < 16`.
pub open spec fn hex_char(d: nat) -> char {
    if d < 10 {
        (('0' as u32) + d) as char
    } else {
        (('a' as u32) + d - 10) as char
    }
}

/// Decimal rendering of `n` without leading zeros (`"0"` for zero).
pub open spec fn dec_digits(n: nat) -> Seq<char>
    decreases n,
{
    if n < 10 {
        seq![digit_char(n)]
    } else {
        dec_digits(n / 10).push(digit_char(n % 10))
    }
}

/// Lower-case hexadecimal rendering of `n` without leading zeros (`"0"` for zero).
pub open spec fn hex_digits(n: nat) -> Seq<char>
    decreases n,
{
    if n < 16 {
        seq![hex_char(n)]
    } else {
        hex_digits(n / 16).push(hex_char(n % 16))
    }
}

/// Signed decimal rendering (a leading `-` for negative numbers).
pub open spec fn int_digits(n: int) -> Seq<char> {
    if n < 0 {
        seq!['-'] + dec_digits((-n) as nat)
    } else {
        dec_digits(n as nat)
    }
}

/// Appends the decimal digits of `n` to `out`.
pub fn push_dec(out: &mut Vec<char>, n: u64)
    ensures
        final(out)@ == old(out)@ + dec_digits(n as nat),
    decreases n,
{
    if n >= 10 {
        push_dec(out, n / 10);
    }
    let d: u64 = n % 10;
    let c: char = (48u8 + (d as u8)) as char;
    assert(c == digit_char((n % 10) as nat));
    out.push(c);
    proof {
        if n >= 10 {
            assert(dec_digits(n as nat) == dec_digits((n / 10) as nat).push(
                digit_char((n % 10) as nat),
            ));
        }
    }
}

/// Appends the lower-case hexadecimal digits of `n` to `out`.
pub fn push_hex(out: &mut Vec<char>, n: u64)
    ensures
        final(out)@ == old(out)@ + hex_digits(n as nat),
    decreases n,
{
    if n >= 16 {
        push_hex(out, n / 16);
    }
    let d: u8 = (n % 16) as u8;
    let c: char = if d < 10 { (48u8 + d) as char } else { (87u8 + d) as char };
    assert(c == hex_char((n % 16) as nat));
    out.push(c);
}

/// Appends the signed decimal rendering of `n` to `out`.
pub fn push_int(out: &mut Vec<char>, n: i64)
    ensures
        final(out)@ == old(out)@ + int_digits(n as int),
{
    if n < 0 {
        out.push('-');
        let m: u64 = if n == i64::MIN { 9223372036854775808u64 } else { (-n) as u64 };
        push_dec(out, m);
        assert(final(out)@ =~= old(out)@ + int_digits(n as int)) by {
            assert(old(out)@.push('-') + dec_digits(m as nat) =~= old(out)@ + (seq!['-']
                + dec_digits(m as nat)));
        }
    } else {
        push_dec(out, n as u64);
    }
}

/// Decimal rendering of `n` as a `String` (what `n.to_string()` returns).
pub fn u64_to_string(n: u64) -> (r: String)
    ensures
        r@ == dec_digits(n as nat),
{
    let mut v: Vec<char> = Vec::new();
    push_dec(&mut v, n);
    string_of(v.as_slice())
}

/// Signed decimal rendering of `n` as a `String` (what `n.to_string()` returns).
pub fn i64_to_string(n: i64) -> (r: String)
    ensures
        r@ == int_digits(n as int),
{
    let mut v: Vec<char> = Vec::new();
    push_int(&mut v, n);
    string_of(v.as_slice())
}

/// The leading and trailing white-space counts: each counts a run of white
/// space that ends at a character that is not white space (or at the end).
pub(crate) proof fn lemma_white_runs(s: Seq<char>)
    ensures
        lead_white(s) <= s.len(),
        forall|j: int| 0 <= j < lead_white(s) ==> is_white(#[trigger] s[j]),
        lead_white(s) < s.len() ==> !is_white(s[lead_white(s) as int]),
        trail_white(s) <= s.len(),
        forall|j: int| s.len() - trail_white(s) <= j < s.len() ==> is_white(#[trigger] s[j]),
        trail_white(s) < s.len() ==> !is_white(s[s.len() - trail_white(s) - 1]),
    decreases s.len(),
{
    if s.len() > 0 {
        lemma_white_runs(s.drop_first());
        lemma_white_runs(s.drop_last());
        if is_white(s[0]) {
            assert forall|j: int| 0 <= j < lead_white(s) implies is_white(#[trigger] s[j]) by {
                if j > 0 {
                    assert(s[j] == s.drop_first()[j - 1]);
                }
            }
            if lead_white(s) < s.len() {
                assert(s[lead_white(s) as int] == s.drop_first()[lead_white(s.drop_first()) as int]);
            }
        }
        if is_white(s.last()) {
            assert forall|j: int| s.len() - trail_white(s) <= j < s.len() implies is_white(#[trigger] s[j]) by {
                if j < s.len() - 1 {
                    assert(s[j] == s.drop_last()[j]);
                }
            }
            if trail_white(s) < s.len() {
                assert(s[s.len() - trail_white(s) - 1] == s.drop_last()[s.drop_last().len() - trail_white(s.drop_last()) - 1]);
            }
        }
    }
}

/// Trimming ignores trailing white space removed beforehand.
pub(crate) proof fn lemma_trim_without_trailing(v: Seq<char>)
    ensures
        trim_spec(v.take(v.len() - trail_white(v))) == trim_spec(v),
{
    lemma_white_runs(v);
    let m = trail_white(v) as int;
    let w = v.take(v.len() - m);
    if m == v.len() {
        lemma_lead_white(v, v.len() as int);
        assert(w.len() == 0);
        lemma_lead_white(w, 0);
        lemma_trail_white(w, 0);
        assert(trim_spec(w) =~= Seq::<char>::empty());
        let a = v.subrange(v.len() as int, v.len() as int);
        assert(a.len() == 0);
        lemma_trail_white(a, 0);
        assert(trim_spec(v) =~= Seq::<char>::empty());
    } else {
        let l = lead_white(v) as int;
        assert(l <= v.len() - m - 1) by {
            if l > v.len() - m - 1 {
                assert(is_white(v[v.len() - m - 1]));
            }
        }
        assert forall|j: int| 0 <= j < l implies is_white(#[trigger] w[j]) by {
            assert(w[j] == v[j]);
        }
        assert(w[l] == v[l]);
        lemma_lead_white(w, l);
        assert(w[w.len() - 1] == v[v.len() - m - 1]);
        lemma_trail_white(w, 0);
        let a = v.subrange(l, v.len() as int);
        assert forall|j: int| a.len() - m <= j < a.len() implies is_white(#[trigger] a[j]) by {
            assert(a[j] == v[l + j]);
        }
        assert(a[a.len() - m - 1] == v[v.len() - m - 1]);
        lemma_trail_white(a, m);
        assert(trim_spec(w) =~= v.subrange(l, v.len() - m));
        assert(trim_spec(v) =~= v.subrange(l, v.len() - m));
    }
}

/// Text without the character `c` is one piece when split at `c`.
pub(crate) proof fn lemma_split_without(s: Seq<char>, c: char, start: int, i: int)
    requires
        0 <= start <= i <= s.len(),
        forall|j: int| i <= j < s.len() ==> s[j] != c,
    ensures
        split_from(s, seq![c], start, i) == seq![s.subrange(start, s.len() as int)],
    decreases s.len() - i,
{
    if i < s.len() {
        assert(!occurs_at(s, seq![c], i)) by {
            if occurs_at(s, seq![c], i) {
                assert(s.subrange(i, i + 1)[0] == s[i]);
            }
        }
        lemma_split_without(s, c, start, i + 1);
    }
}

/// The first `c` from `i` on is at `j` when `s[j]` is `c` and none comes
/// before it.
pub(crate) proof fn lemma_first_char_at(s: Seq<char>, c: char, i: int, j: int)
    requires
        0 <= i <= j < s.len(),
        s[j] == c,
        forall|m: int| i <= m < j ==> s[m] != c,
    ensures
        first_char(s, c, i) == j,
    decreases j - i,
{
    if i < j {
        lemma_first_char_at(s, c, i + 1, j);
    }
}

/// Trailing white space of `x + v` lies in `v` when `x` ends with a character
/// that is not white space.
pub(crate) proof fn lemma_trail_white_concat(x: Seq<char>, v: Seq<char>)
    requires
        x.len() > 0,
        !is_white(x.last()),
    ensures
        trail_white(x + v) == trail_white(v),
    decreases v.len(),
{
    if v.len() == 0 {
        assert(x + v =~= x);
    } else {
        assert((x + v).last() == v.last());
        assert((x + v).drop_last() =~= x + v.drop_last());
        lemma_trail_white_concat(x, v.drop_last());
    }
}

} // verus!
