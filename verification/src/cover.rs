//! Embedded cover art: locating the picture inside an ID3v2-tagged MP3 file or
//! a FLAC file, and packaging it as a base64 payload with a content hash key.
use vstd::prelude::*;
use vstd::utf8::*;
use crate::text::{
    chars_of, concat, hex_digits, owned, push_chars, push_hex, spec_lowercase, str_eq, string_of,
    to_lowercase,
};

verus! {

/// A picture found in an audio file.
pub struct CoverData {
    /// MIME type of the picture.
    pub mime: String,
    /// The picture bytes, base64-encoded.
    pub data: String,
    /// `cover:` followed by the hexadecimal content hash of the picture bytes.
    pub cache_key: String,
}

/// The audio containers whose pictures are read.
#[derive(PartialEq, Eq, Structural, Clone, Copy, Debug)]
pub enum CoverFormat {
    Mp3,
    Flac,
}

/// What the file system reported for the requested path.
pub enum FileProbe {
    /// No file exists at the path.
    Missing,
    /// The file exists but reading it failed with the given message.
    Unreadable(String),
    /// The file's bytes (empty when the file was not read because its
    /// extension is not one of the supported containers).
    Contents(Vec<u8>),
}

// ── path handling ──────────────────────────────────────────────────────

/// Path separators (`/` and the Windows separator `\`).
pub open spec fn is_sep(c: char) -> bool {
    c == '/' || c == '\\'
}

/// The largest index below `i` that holds a separator, or -1.
pub open spec fn last_sep(p: Seq<char>, i: int) -> int
    decreases i,
{
    if i <= 0 {
        -1
    } else if is_sep(p[i - 1]) {
        i - 1
    } else {
        last_sep(p, i - 1)
    }
}

/// The index range of the final component of `p[..end]` as `Path::file_name`
/// finds it: trailing separators and `.` components are skipped, and a final
/// `..` component (or no component at all) yields `None`.
pub open spec fn file_name_in(p: Seq<char>, end: int) -> Option<(int, int)>
    decreases end,
{
    if end <= 0 {
        None
    } else {
        let k = last_sep(p, end);
        let comp = p.subrange(k + 1, end);
        if comp.len() == 0 || comp == seq!['.'] {
            if k < 0 || k >= end {
                None
            } else {
                file_name_in(p, k)
            }
        } else if comp == seq!['.', '.'] {
            None
        } else {
            Some((k + 1, end))
        }
    }
}

/// The largest index in `[a, i)` holding a `.`, or `a - 1`.
pub open spec fn last_dot(p: Seq<char>, a: int, i: int) -> int
    decreases i - a,
{
    if i <= a {
        a - 1
    } else if p[i - 1] == '.' {
        i - 1
    } else {
        last_dot(p, a, i - 1)
    }
}

/// The extension of the path's file name (`Path::extension`): the text after
/// the last `.`, absent when the name has no `.` other than a leading one.
pub open spec fn path_extension(p: Seq<char>) -> Option<Seq<char>> {
    match file_name_in(p, p.len() as int) {
        None => None,
        Some((a, b)) => {
            let k = last_dot(p, a, b);
            if k <= a {
                None
            } else {
                Some(p.subrange(k + 1, b))
            }
        },
    }
}

/// The container format named by the path's extension, compared after
/// Unicode lower-casing.
pub open spec fn cover_format_spec(p: Seq<char>) -> Option<CoverFormat> {
    match path_extension(p) {
        None => None,
        Some(e) => if spec_lowercase(e) == "mp3"@ {
            Some(CoverFormat::Mp3)
        } else if spec_lowercase(e) == "flac"@ {
            Some(CoverFormat::Flac)
        } else {
            None
        },
    }
}

/// One past the last separator below `i` (zero when there is none).
fn after_last_sep(p: &[char], i: usize) -> (r: usize)
    requires
        i <= p.len(),
    ensures
        r == last_sep(p@, i as int) + 1,
        r <= i,
{
    let mut j = i;
    while j > 0 && !(p[j - 1] == '/' || p[j - 1] == '\\')
        invariant
            j <= i <= p.len(),
            last_sep(p@, j as int) == last_sep(p@, i as int),
        decreases j,
    {
        j = j - 1;
    }
    j
}

pub fn file_name_range(p: &[char], end: usize) -> (r: Option<(usize, usize)>)
    requires
        end <= p.len(),
    ensures
        match r {
            Some((a, b)) => a < b <= end && file_name_in(p@, end as int) == Some((a as int, b as int)),
            None => file_name_in(p@, end as int) is None,
        },
{
    let mut e = end;
    loop
        invariant
            e <= end <= p.len(),
            file_name_in(p@, e as int) == file_name_in(p@, end as int),
        decreases e,
    {
        if e == 0 {
            return None;
        }
        let start = after_last_sep(p, e);
        let ghost k = start - 1;
        let n = e - start;
        let ghost comp = p@.subrange(start as int, e as int);
        if n == 0 || (n == 1 && p[start] == '.') {
            if n == 1 {
                assert(comp =~= seq!['.']);
            }
            if start == 0 {
                return None;
            }
            e = start - 1;
        } else {
            if n == 1 {
                assert(comp != seq!['.']) by {
                    assert(comp[0] == p@[start as int]);
                }
            }
            if n == 2 && p[start] == '.' && p[start + 1] == '.' {
                assert(comp =~= seq!['.', '.']);
                return None;
            }
            if n == 2 {
                assert(comp != seq!['.', '.']) by {
                    assert(comp[0] == p@[start as int]);
                    assert(comp[1] == p@[start + 1]);
                }
            }
            assert(start < e);
            assert(e <= end);
            return Some((start, e));
        }
    }
}

/// One past the last `.` in `[a, i)` (`a` when there is none).
pub fn after_last_dot(p: &[char], a: usize, i: usize) -> (r: usize)
    requires
        a <= i <= p.len(),
    ensures
        r == last_dot(p@, a as int, i as int) + 1,
        a <= r <= i,
{
    let mut j = i;
    while j > a && p[j - 1] != '.'
        invariant
            a <= j <= i <= p.len(),
            last_dot(p@, a as int, j as int) == last_dot(p@, a as int, i as int),
        decreases j,
    {
        j = j - 1;
    }
    j
}

/// The extension of `path`, as `Path::extension` reports it.
pub fn path_extension_exec(path: &str) -> (r: Option<String>)
    ensures
        match r {
            Some(e) => path_extension(path@) == Some(e@),
            None => path_extension(path@) is None,
        },
{
    let p = chars_of(path);
    match file_name_range(p.as_slice(), p.len()) {
        None => None,
        Some((a, b)) => {
            let k1 = after_last_dot(p.as_slice(), a, b);
            if k1 - a <= 1 {
                None
            } else {
                let mut out: Vec<char> = Vec::new();
                let mut i: usize = k1;
                while i < b
                    invariant
                        k1 <= i <= b <= p.len(),
                        out@ == p@.subrange(k1 as int, i as int),
                    decreases b - i,
                {
                    out.push(p[i]);
                    i = i + 1;
                    assert(out@ =~= p@.subrange(k1 as int, i as int));
                }
                Some(string_of(out.as_slice()))
            }
        },
    }
}

/// The container format of `path` judged by its extension.
pub fn cover_format(path: &str) -> (r: Option<CoverFormat>)
    ensures
        r == cover_format_spec(path@),
{
    match path_extension_exec(path) {
        None => None,
        Some(e) => {
            let lower = to_lowercase(e.as_str());
            if str_eq(lower.as_str(), "mp3") {
                Some(CoverFormat::Mp3)
            } else if str_eq(lower.as_str(), "flac") {
                Some(CoverFormat::Flac)
            } else {
                None
            }
        },
    }
}

// ── byte helpers ───────────────────────────────────────────────────────

/// Big-endian value of four bytes.
pub open spec fn be32(a: u8, b: u8, c: u8, d: u8) -> int {
    a * 16777216 + b * 65536 + c * 256 + d
}

/// Big-endian value of three bytes.
pub open spec fn be24(a: u8, b: u8, c: u8) -> int {
    a * 65536 + b * 256 + c
}

/// Big-endian value of the four bytes of `s` starting at `i`.
pub open spec fn be32_at(s: Seq<u8>, i: int) -> int {
    be32(s[i], s[i + 1], s[i + 2], s[i + 3])
}

/// The big-endian `u32` held by the first four bytes of `b`.
pub fn u32_from_be_bytes(b: &[u8]) -> (r: u32)
    requires
        b.len() >= 4,
    ensures
        r == be32_at(b@, 0),
{
    (b[0] as u32) * 16777216 + (b[1] as u32) * 65536 + (b[2] as u32) * 256 + (b[3] as u32)
}

/// The first index at or after `i` that holds a zero byte, or `s.len()`.
pub open spec fn first_zero(s: Seq<u8>, i: int) -> int
    decreases s.len() - i,
{
    if i >= s.len() {
        s.len() as int
    } else if s[i] == 0 {
        i
    } else {
        first_zero(s, i + 1)
    }
}

fn first_zero_exec(s: &[u8], i: usize) -> (r: usize)
    requires
        i <= s.len(),
    ensures
        r == first_zero(s@, i as int),
        i <= r <= s.len(),
{
    let mut j = i;
    while j < s.len() && s[j] != 0
        invariant
            i <= j <= s.len(),
            first_zero(s@, j as int) == first_zero(s@, i as int),
        decreases s.len() - j,
    {
        j = j + 1;
    }
    j
}

/// `s[a..b]` as a vector.
pub fn copy_range(s: &[u8], a: usize, b: usize) -> (r: Vec<u8>)
    requires
        a <= b <= s.len(),
    ensures
        r@ == s@.subrange(a as int, b as int),
{
    let mut out: Vec<u8> = Vec::new();
    let mut i = a;
    while i < b
        invariant
            a <= i <= b <= s.len(),
            out@ == s@.subrange(a as int, i as int),
        decreases b - i,
    {
        out.push(s[i]);
        i = i + 1;
        assert(out@ =~= s@.subrange(a as int, i as int));
    }
    out
}

/// Decodes UTF-8 text (`std::str::from_utf8`), `None` for invalid input.
#[verifier::external_body]
pub(crate) fn utf8_text(b: &[u8]) -> (r: Option<String>)
    ensures
        r is Some <==> valid_utf8(b@),
        r matches Some(s) ==> s@ == decode_utf8(b@),
{
    std::str::from_utf8(b).ok().map(|s| s.to_string())
}

// ── picture payload ────────────────────────────────────────────────────

/// Base64 alphabet (RFC 4648, standard).
pub open spec fn b64_char(v: int) -> char {
    if v < 26 {
        (('A' as int) + v) as char
    } else if v < 52 {
        (('a' as int) + v - 26) as char
    } else if v < 62 {
        (('0' as int) + v - 52) as char
    } else if v == 62 {
        '+'
    } else {
        '/'
    }
}

/// The four output characters of one group of up to three input bytes.
pub open spec fn b64_group(d: Seq<u8>) -> Seq<char> {
    let b1: int = if d.len() > 1 { d[1] as int } else { 0 };
    let b2: int = if d.len() > 2 { d[2] as int } else { 0 };
    let t = d[0] * 65536 + b1 * 256 + b2;
    seq![
        b64_char((t / 262144) % 64),
        b64_char((t / 4096) % 64),
        if d.len() > 1 { b64_char((t / 64) % 64) } else { '=' },
        if d.len() > 2 { b64_char(t % 64) } else { '=' },
    ]
}

/// Standard padded base64 encoding of `d`.
pub open spec fn base64_spec(d: Seq<u8>) -> Seq<char>
    decreases d.len(),
{
    if d.len() == 0 {
        seq![]
    } else if d.len() <= 3 {
        b64_group(d)
    } else {
        b64_group(d.take(3)) + base64_spec(d.skip(3))
    }
}

/// The encoded length of `n` bytes: four characters per started group of three.
pub proof fn lemma_base64_len(d: Seq<u8>)
    ensures
        base64_spec(d).len() == 4 * ((d.len() + 2) / 3),
    decreases d.len(),
{
    if d.len() > 3 {
        lemma_base64_len(d.skip(3));
    }
}

fn b64_char_exec(v: u32) -> (c: char)
    requires
        v < 64,
    ensures
        c == b64_char(v as int),
{
    if v < 26 {
        (65u8 + v as u8) as char
    } else if v < 52 {
        (71u8 + v as u8) as char
    } else if v < 62 {
        (v as u8 - 4u8) as char
    } else if v == 62 {
        '+'
    } else {
        '/'
    }
}

/// Standard padded base64 encoding of `data`.
pub fn base64_encode(data: &[u8]) -> (r: String)
    ensures
        r@ == base64_spec(data@),
{
    let mut out: Vec<char> = Vec::new();
    let mut i: usize = 0;
    assert(data@.skip(0) =~= data@);
    while i < data.len()
        invariant
            i <= data.len(),
            base64_spec(data@) == out@ + base64_spec(data@.skip(i as int)),
        decreases data.len() - i,
    {
        let rest = data.len() - i;
        let b0 = data[i] as u32;
        let b1: u32 = if rest > 1 { data[i + 1] as u32 } else { 0 };
        let b2: u32 = if rest > 2 { data[i + 2] as u32 } else { 0 };
        let t = b0 * 65536 + b1 * 256 + b2;
        let ghost chunk = data@.skip(i as int).take(3);
        let ghost group = b64_group(if rest <= 3 { data@.skip(i as int) } else { chunk });
        let c0 = b64_char_exec((t / 262144) % 64);
        let c1 = b64_char_exec((t / 4096) % 64);
        let c2 = if rest > 1 { b64_char_exec((t / 64) % 64) } else { '=' };
        let c3 = if rest > 2 { b64_char_exec(t % 64) } else { '=' };
        let ghost before = out@;
        out.push(c0);
        out.push(c1);
        out.push(c2);
        out.push(c3);
        proof {
            let s = data@.skip(i as int);
            if rest <= 3 {
                assert(group == b64_group(s));
                assert(seq![c0, c1, c2, c3] =~= group);
                assert(base64_spec(s) == group);
                assert(data@.skip(data.len() as int) =~= Seq::<u8>::empty());
            } else {
                assert(chunk[0] == s[0]);
                assert(chunk[1] == s[1]);
                assert(chunk[2] == s[2]);
                assert(seq![c0, c1, c2, c3] =~= group);
                assert(s.skip(3) =~= data@.skip(i + 3));
            }
            assert(out@ =~= before + seq![c0, c1, c2, c3]);
        }
        if rest <= 3 {
            i = data.len();
        } else {
            i = i + 3;
        }
    }
    assert(base64_spec(data@.skip(i as int)) =~= Seq::<char>::empty()) by {
        assert(data@.skip(i as int).len() == 0);
    }
    assert(out@ =~= base64_spec(data@));
    string_of(out.as_slice())
}

/// MIME type guessed from the picture's leading bytes.
pub open spec fn detect_mime_spec(d: Seq<u8>) -> Seq<char> {
    if d.len() >= 8 && d[0] == 0x89 && d[1] == 0x50 && d[2] == 0x4e && d[3] == 0x47 {
        "image/png"@
    } else if d.len() >= 8 && d[0] == 0xff && d[1] == 0xd8 {
        "image/jpeg"@
    } else if d.len() >= 8 && d[0] == 0x47 && d[1] == 0x49 && d[2] == 0x46 {
        "image/gif"@
    } else if d.len() >= 8 && d[4] == 0x66 && d[5] == 0x74 && d[6] == 0x79 && d[7] == 0x70 {
        "image/webp"@
    } else {
        "image/jpeg"@
    }
}

/// MIME type guessed from the picture's leading bytes (PNG, JPEG, GIF, or an
/// `ftyp` box; JPEG otherwise).
pub fn detect_mime(data: &[u8]) -> (r: String)
    ensures
        r@ == detect_mime_spec(data@),
{
    if data.len() >= 8 {
        if data[0] == 0x89 && data[1] == 0x50 && data[2] == 0x4e && data[3] == 0x47 {
            return owned("image/png");
        }
        if data[0] == 0xff && data[1] == 0xd8 {
            return owned("image/jpeg");
        }
        if data[0] == 0x47 && data[1] == 0x49 && data[2] == 0x46 {
            return owned("image/gif");
        }
        if data[4] == 0x66 && data[5] == 0x74 && data[6] == 0x79 && data[7] == 0x70 {
            return owned("image/webp");
        }
    }
    owned("image/jpeg")
}

/// What a freshly made `std::hash::DefaultHasher` gives for the bytes
/// (`Hash::hash` for `[u8]`, then `Hasher::finish`). `DefaultHasher::new`
/// is not seeded, so the value depends on the bytes alone for a given
/// standard library and target.
pub uninterp spec fn default_hash_spec(data: Seq<u8>) -> u64;

/// Hashes the slice with a freshly made `std::hash::DefaultHasher`
/// (`Hash::hash` for `[u8]`, then `Hasher::finish`). The contract names the
/// value: the standard library does not document the algorithm.
#[verifier::external_body]
fn default_hash(data: &[u8]) -> (r: u64)
    ensures
        r == default_hash_spec(data@),
{
    let mut hasher = std::collections::hash_map::DefaultHasher::new();
    std::hash::Hash::hash(data, &mut hasher);
    std::hash::Hasher::finish(&hasher)
}

/// Lower-case hexadecimal rendering of a content hash.
pub fn hash_text(h: u64) -> (r: String)
    ensures
        r@ == hex_digits(h as nat),
{
    let mut v: Vec<char> = Vec::new();
    push_hex(&mut v, h);
    assert(v@ =~= hex_digits(h as nat));
    string_of(v.as_slice())
}

/// Lower-case hexadecimal rendering of the content hash of `data`.
pub fn simple_hash(data: &[u8]) -> (r: String)
    ensures
        r@ == hex_digits(default_hash_spec(data@) as nat),
{
    let h = default_hash(data);
    hash_text(h)
}

/// The cache key of a picture whose content hash is `h`: `cover:` and the hash
/// in lower-case hexadecimal.
pub open spec fn cover_key_spec(h: u64) -> Seq<char> {
    "cover:"@ + hex_digits(h as nat)
}

/// The MIME type reported for a picture: the declared one, or the guessed one
/// when none is declared.
pub open spec fn mime_text(mime: Seq<u8>, image: Seq<u8>) -> Seq<char> {
    if mime.len() == 0 {
        detect_mime_spec(image)
    } else {
        decode_utf8(mime)
    }
}

/// `c` describes the picture `image` declared with the MIME bytes `mime`,
/// keyed by the content hash `h`.
pub open spec fn is_cover_hashed(c: CoverData, mime: Seq<u8>, image: Seq<u8>, h: u64) -> bool {
    &&& c.mime@ == mime_text(mime, image)
    &&& c.data@ == base64_spec(image)
    &&& c.cache_key@ == cover_key_spec(h)
}

/// `c` describes the picture `image` declared with the MIME bytes `mime`,
/// keyed by the content hash of the picture bytes.
pub open spec fn is_cover(c: CoverData, mime: Seq<u8>, image: Seq<u8>) -> bool {
    is_cover_hashed(c, mime, image, default_hash_spec(image))
}

/// The cover record of the picture `image` declared with the MIME bytes
/// `mime` and whose content hash is `h`.
pub fn cover_from_parts(mime: &[u8], image: &[u8], h: u64) -> (r: CoverData)
    requires
        valid_utf8(mime@),
    ensures
        is_cover_hashed(r, mime@, image@, h),
{
    let m = if mime.len() == 0 {
        detect_mime(image)
    } else {
        match utf8_text(mime) {
            Some(s) => s,
            None => owned(""),
        }
    };
    let mut key = chars_of("cover:");
    let hv = chars_of(hash_text(h).as_str());
    push_chars(&mut key, hv.as_slice());
    CoverData { mime: m, data: base64_encode(image), cache_key: string_of(key.as_slice()) }
}

fn make_cover(mime: &[u8], image: &[u8]) -> (r: CoverData)
    requires
        valid_utf8(mime@),
    ensures
        is_cover(r, mime@, image@),
{
    let h = default_hash(image);
    cover_from_parts(mime, image, h)
}

/// Where a picture frame or block says its picture is.
pub enum Artwork {
    /// No usable picture.
    Absent,
    /// The declared MIME type is not valid UTF-8.
    BadMime,
    /// A picture with the MIME bytes `mime`, stored at `start..end`.
    Image { mime: Seq<u8>, start: int, end: int },
}

/// The outcome that a located picture yields.
pub open spec fn artwork_outcome(a: Artwork, s: Seq<u8>, r: Result<Option<CoverData>, String>) -> bool {
    match a {
        Artwork::Absent => r == Ok::<Option<CoverData>, String>(None),
        Artwork::BadMime => r matches Err(e) && e@ == "invalid mime"@,
        Artwork::Image { mime, start, end } => r matches Ok(Some(c)) && is_cover(
            c,
            mime,
            s.subrange(start, end),
        ),
    }
}

// ── ID3v2 APIC / PIC frames ────────────────────────────────────────────

/// Layout of an `APIC` frame body: encoding byte, NUL-terminated MIME type,
/// picture-type byte, NUL-terminated description, picture bytes. With the
/// UTF-16 encoding (encoding byte 1) the description ends in two NUL bytes,
/// so a second NUL after the first is skipped too.
pub open spec fn apic_spec(f: Seq<u8>) -> Artwork {
    if f.len() <= 1 {
        Artwork::Absent
    } else {
        let me = first_zero(f, 1);
        if me >= f.len() {
            Artwork::Absent
        } else if !valid_utf8(f.subrange(1, me)) {
            Artwork::BadMime
        } else if me + 2 >= f.len() {
            Artwork::Absent
        } else {
            let de = first_zero(f, me + 2);
            if de >= f.len() {
                Artwork::Absent
            } else {
                let o = de + 1;
                let o2 = if f[0] == 1 && o < f.len() && f[o] == 0 {
                    o + 1
                } else {
                    o
                };
                if o2 >= f.len() {
                    Artwork::Absent
                } else {
                    Artwork::Image { mime: f.subrange(1, me), start: o2, end: f.len() as int }
                }
            }
        }
    }
}

/// Reads the picture out of an ID3v2 `APIC` frame body.
pub fn parse_apic_frame(frame_data: &[u8]) -> (r: Result<Option<CoverData>, String>)
    ensures
        artwork_outcome(apic_spec(frame_data@), frame_data@, r),
{
    let f = frame_data;
    if f.len() <= 1 {
        return Ok(None);
    }
    let me = first_zero_exec(f, 1);
    if me >= f.len() {
        return Ok(None);
    }
    let mime = copy_range(f, 1, me);
    match utf8_text(mime.as_slice()) {
        None => {
            return Err(owned("invalid mime"));
        },
        Some(_) => {},
    }
    if f.len() - me <= 2 {
        return Ok(None);
    }
    let de = first_zero_exec(f, me + 2);
    if de >= f.len() {
        return Ok(None);
    }
    let o = de + 1;
    let o2 = if f[0] == 1 && o < f.len() && f[o] == 0 {
        o + 1
    } else {
        o
    };
    if o2 >= f.len() {
        return Ok(None);
    }
    let image = copy_range(f, o2, f.len());
    Ok(Some(make_cover(mime.as_slice(), image.as_slice())))
}

/// The first zero byte from `i` on is at `j` when `s[j]` is zero and no
/// byte before it is.
proof fn lemma_first_zero_at(s: Seq<u8>, i: int, j: int)
    requires
        0 <= i <= j < s.len(),
        s[j] == 0,
        forall|m: int| i <= m < j ==> s[m] != 0,
    ensures
        first_zero(s, i) == j,
    decreases j - i,
{
    if i < j {
        lemma_first_zero_at(s, i + 1, j);
    }
}

/// An `APIC` frame made of an encoding byte, a MIME type without NUL bytes,
/// a NUL, a picture-type byte, a description without NUL bytes, a NUL and the
/// picture yields exactly that picture (base64) under that MIME type. The
/// picture keeps a leading zero byte unless the encoding is UTF-16.
pub proof fn lemma_apic_frame_picture(
    e: u8,
    mime: Seq<u8>,
    kind: u8,
    desc: Seq<u8>,
    image: Seq<u8>,
    r: Result<Option<CoverData>, String>,
)
    requires
        forall|j: int| 0 <= j < mime.len() ==> mime[j] != 0,
        forall|j: int| 0 <= j < desc.len() ==> desc[j] != 0,
        valid_utf8(mime),
        image.len() > 0,
        e != 1 || image[0] != 0,
        artwork_outcome(
            apic_spec(seq![e] + mime + seq![0u8] + seq![kind] + desc + seq![0u8] + image),
            seq![e] + mime + seq![0u8] + seq![kind] + desc + seq![0u8] + image,
            r,
        ),
    ensures
        r matches Ok(Some(c)) && c.data@ == base64_spec(image) && c.mime@ == mime_text(mime, image),
{
    let f = seq![e] + mime + seq![0u8] + seq![kind] + desc + seq![0u8] + image;
    let me: int = 1 + mime.len() as int;
    assert forall|m: int| 1 <= m < me implies f[m] != 0 by {
        assert(f[m] == mime[m - 1]);
    }
    assert(f[me] == 0);
    lemma_first_zero_at(f, 1, me);
    assert(f.subrange(1, me) =~= mime);
    let de: int = me + 2 + desc.len();
    assert forall|m: int| me + 2 <= m < de implies f[m] != 0 by {
        assert(f[m] == desc[m - me - 2]);
    }
    assert(f[de] == 0);
    lemma_first_zero_at(f, me + 2, de);
    assert(f[0] == e);
    assert(f[de + 1] == image[0]);
    assert(f.subrange(de + 1, f.len() as int) =~= image);
}

/// Size of the ID3v2 tag as the header's four size bytes give it (each byte
/// shifted by a multiple of seven bits and OR-ed, without masking).
pub open spec fn id3_tag_size(d: Seq<u8>) -> u32 {
    ((d[6] as u32) << 21u32) | ((d[7] as u32) << 14u32) | ((d[8] as u32) << 7u32) | (
    d[9] as u32)
}

/// The frame-id bytes at `pos` name a picture frame (`PIC` in ID3v2.2,
/// `APIC` otherwise).
pub open spec fn is_picture_frame(d: Seq<u8>, pos: int, v22: bool) -> bool {
    if v22 {
        d[pos] == 0x50 && d[pos + 1] == 0x49 && d[pos + 2] == 0x43
    } else {
        d[pos] == 0x41 && d[pos + 1] == 0x50 && d[pos + 2] == 0x49 && d[pos + 3] == 0x43
    }
}

/// Walks the frames in `pos..end` and returns the body range of the first
/// picture frame. Frame headers are the id (three bytes for ID3v2.2, four
/// otherwise) and a big-endian size (three bytes at offset 3 for ID3v2.2,
/// four at offset 4 otherwise); the body starts four bytes after the id in
/// either version. The walk stops at a zero size or a frame that overruns `end`.
pub open spec fn id3_scan(d: Seq<u8>, pos: int, end: int) -> Option<(int, int)>
    decreases end - pos,
{
    if pos + 6 > end {
        None
    } else {
        let v22 = d[3] <= 2;
        let idlen: int = if v22 { 3 } else { 4 };
        if pos + idlen + 4 > end {
            None
        } else {
            let size: int = if v22 {
                be24(d[pos + 3], d[pos + 4], d[pos + 5])
            } else {
                be32_at(d, pos + 4)
            };
            let start = pos + idlen + 4;
            if size == 0 || start + size > end {
                None
            } else if is_picture_frame(d, pos, v22) {
                Some((start, size))
            } else {
                id3_scan(d, start + size, end)
            }
        }
    }
}

/// The body range of the first picture frame of an ID3v2-tagged file.
pub open spec fn mp3_picture(d: Seq<u8>) -> Option<(int, int)> {
    if d.len() < 10 || !(d[0] == 0x49 && d[1] == 0x44 && d[2] == 0x33) {
        None
    } else if 10 + id3_tag_size(d) > d.len() {
        None
    } else {
        id3_scan(d, 10, 10 + id3_tag_size(d))
    }
}

/// With syncsafe size bytes (each below 128, as ID3v2 writes them) the tag
/// size is the 28-bit number whose 7-bit digits they are.
pub proof fn lemma_id3_tag_size(d: Seq<u8>)
    requires
        d.len() >= 10,
        d[6] < 128,
        d[7] < 128,
        d[8] < 128,
        d[9] < 128,
    ensures
        id3_tag_size(d) == d[6] * 2097152 + d[7] * 16384 + d[8] * 128 + d[9],
{
    let (b6, b7, b8, b9) = (d[6], d[7], d[8], d[9]);
    assert(((b6 as u32) << 21u32) | ((b7 as u32) << 14u32) | ((b8 as u32) << 7u32) | (b9 as u32)
        == b6 * 2097152 + b7 * 16384 + b8 * 128 + b9) by (bit_vector)
        requires
            b6 < 128,
            b7 < 128,
            b8 < 128,
            b9 < 128,
    ;
}

/// An ID3v2.3/2.4 tag (syncsafe size) whose first frame is an `APIC` frame
/// lying inside the tag yields that frame's picture, however large the tag:
/// the frame body is read as the `n` bytes after the four-byte id and the
/// four-byte big-endian size `n`.
pub proof fn lemma_mp3_first_frame_picture(d: Seq<u8>, r: Result<Option<CoverData>, String>)
    requires
        d.len() >= 18,
        d[0] == 0x49 && d[1] == 0x44 && d[2] == 0x33,
        d[3] > 2,
        d[6] < 128 && d[7] < 128 && d[8] < 128 && d[9] < 128,
        10 + (d[6] * 2097152 + d[7] * 16384 + d[8] * 128 + d[9]) <= d.len(),
        d[10] == 0x41 && d[11] == 0x50 && d[12] == 0x49 && d[13] == 0x43,
        d[14] * 16777216 + d[15] * 65536 + d[16] * 256 + d[17] > 0,
        18 + (d[14] * 16777216 + d[15] * 65536 + d[16] * 256 + d[17]) <= 10 + (d[6] * 2097152 + d[7]
            * 16384 + d[8] * 128 + d[9]),
        mp3_outcome(d, r),
    ensures
        ({
            let n = d[14] * 16777216 + d[15] * 65536 + d[16] * 256 + d[17];
            artwork_outcome(apic_spec(d.subrange(18, 18 + n)), d.subrange(18, 18 + n), r)
        }),
{
    lemma_id3_tag_size(d);
}

/// One step of the ID3v2 frame walk at `pos` inside a tag ending at `end`:
/// the frame size is the big-endian number after the id (four bytes at
/// `pos + 4` for ID3v2.3/2.4, three bytes at `pos + 3` for ID3v2.2), the body
/// follows the size, a picture frame that fits is the range found, and any
/// other frame that fits is stepped over whole.
pub proof fn lemma_id3_frame(d: Seq<u8>, pos: int, end: int)
    requires
        0 <= pos,
        end <= d.len(),
        pos + 10 <= end,
    ensures
        ({
            let v22 = d[3] <= 2;
            let size = if v22 {
                d[pos + 3] * 65536 + d[pos + 4] * 256 + d[pos + 5]
            } else {
                d[pos + 4] * 16777216 + d[pos + 5] * 65536 + d[pos + 6] * 256 + d[pos + 7]
            };
            let start = if v22 { pos + 7 } else { pos + 8 };
            let pic = if v22 {
                d[pos] == 0x50 && d[pos + 1] == 0x49 && d[pos + 2] == 0x43
            } else {
                d[pos] == 0x41 && d[pos + 1] == 0x50 && d[pos + 2] == 0x49 && d[pos + 3] == 0x43
            };
            &&& (size > 0 && start + size <= end && pic) ==> id3_scan(d, pos, end) == Some((start, size))
            &&& (size > 0 && start + size <= end && !pic) ==> id3_scan(d, pos, end) == id3_scan(d, start + size, end)
            &&& (size == 0 || start + size > end) ==> id3_scan(d, pos, end) is None
        }),
{
}

/// A FLAC metadata block at `pos` has the 24-bit big-endian size of the three
/// bytes after its header byte: a `PICTURE` block (type 6) that fits is the
/// range found, and any other block that is not flagged last and fits is
/// stepped over whole.
pub proof fn lemma_flac_block(d: Seq<u8>, pos: int)
    requires
        0 <= pos,
        pos + 4 <= d.len(),
    ensures
        ({
            let size = d[pos + 1] * 65536 + d[pos + 2] * 256 + d[pos + 3];
            &&& (d[pos] % 128 == 6 && pos + 4 + size <= d.len()) ==> flac_scan(d, pos) == Some((pos + 4, size))
            &&& (d[pos] % 128 != 6 && d[pos] < 128 && pos + 4 + size <= d.len()) ==> flac_scan(d, pos)
                == flac_scan(d, pos + 4 + size)
            &&& pos + 4 + size > d.len() ==> flac_scan(d, pos) is None
        }),
{
}

/// A FLAC file whose first metadata block (not flagged last) is followed by
/// a `PICTURE` block yields that block's picture: the block body is the
/// 24-bit size after its header byte, so a picture block over 64 KiB is read
/// whole.
pub proof fn lemma_flac_second_block_picture(d: Seq<u8>, r: Result<Option<CoverData>, String>)
    requires
        d.len() >= 42,
        d[0] == 0x66 && d[1] == 0x4c && d[2] == 0x61 && d[3] == 0x43,
        d[4] < 128,
        d[4] % 128 != 6,
        8 + (d[5] * 65536 + d[6] * 256 + d[7]) + 4 <= d.len(),
        ({
            let p = 8 + (d[5] * 65536 + d[6] * 256 + d[7]);
            &&& d[p] % 128 == 6
            &&& p + 4 + (d[p + 1] * 65536 + d[p + 2] * 256 + d[p + 3]) <= d.len()
        }),
        flac_outcome(d, r),
    ensures
        ({
            let p = 8 + (d[5] * 65536 + d[6] * 256 + d[7]);
            let n = d[p + 1] * 65536 + d[p + 2] * 256 + d[p + 3];
            artwork_outcome(flac_picture_spec(d.subrange(p + 4, p + 4 + n)), d.subrange(p + 4, p + 4 + n), r)
        }),
{
    lemma_flac_block(d, 4);
    let p = 8 + (d[5] * 65536 + d[6] * 256 + d[7]);
    lemma_flac_block(d, p);
}

/// What reading an MP3 file's picture yields.
pub open spec fn mp3_outcome(d: Seq<u8>, r: Result<Option<CoverData>, String>) -> bool {
    match mp3_picture(d) {
        None => r == Ok::<Option<CoverData>, String>(None),
        Some((s, n)) => artwork_outcome(apic_spec(d.subrange(s, s + n)), d.subrange(s, s + n), r),
    }
}

/// Finds the first picture frame of an ID3v2 tag and reads its picture.
pub fn extract_mp3_cover(data: &[u8]) -> (r: Result<Option<CoverData>, String>)
    ensures
        mp3_outcome(data@, r),
{
    let d = data;
    if d.len() < 10 {
        return Ok(None);
    }
    if !(d[0] == 0x49 && d[1] == 0x44 && d[2] == 0x33) {
        return Ok(None);
    }
    let tag_size: u32 = ((d[6] as u32) << 21u32) | ((d[7] as u32) << 14u32) | ((d[8] as u32)
        << 7u32) | (d[9] as u32);
    let ghost dd = d@;
    assert(tag_size == id3_tag_size(dd));
    let (b6, b7, b8, b9) = (d[6], d[7], d[8], d[9]);
    assert(((b6 as u32) << 21u32) | ((b7 as u32) << 14u32) | ((b8 as u32) << 7u32) | (b9 as u32)
        < 0x2000_0000u32) by (bit_vector);
    let end: usize = 10 + tag_size as usize;
    if end > d.len() {
        return Ok(None);
    }
    let v22 = d[3] <= 2;
    let idlen: usize = if v22 { 3 } else { 4 };
    let mut pos: usize = 10;
    while end >= pos && end - pos >= 6
        invariant
            end <= d.len(),
            d@ == dd,
            data@ == dd,
            10 <= pos <= end,
            v22 == (dd[3] <= 2),
            idlen == (if v22 { 3usize } else { 4usize }),
            mp3_picture(dd) == id3_scan(dd, pos as int, end as int),
            end == 10 + id3_tag_size(dd),
        decreases end - pos,
    {
        if idlen + 4 > end - pos {
            return Ok(None);
        }
        let size: usize = if v22 {
            (d[pos + 3] as usize) * 65536 + (d[pos + 4] as usize) * 256 + (d[pos + 5] as usize)
        } else {
            (d[pos + 4] as usize) * 16777216 + (d[pos + 5] as usize) * 65536 + (d[pos + 6] as usize)
                * 256 + (d[pos + 7] as usize)
        };
        if size == 0 {
            return Ok(None);
        }
        let start = pos + idlen + 4;
        if size > end - start {
            return Ok(None);
        }
        let is_pic = if v22 {
            d[pos] == 0x50 && d[pos + 1] == 0x49 && d[pos + 2] == 0x43
        } else {
            d[pos] == 0x41 && d[pos + 1] == 0x50 && d[pos + 2] == 0x49 && d[pos + 3] == 0x43
        };
        if is_pic {
            let body = copy_range(d, start, start + size);
            return parse_apic_frame(body.as_slice());
        }
        pos = start + size;
    }
    Ok(None)
}

// ── FLAC PICTURE blocks ────────────────────────────────────────────────

/// Layout of a FLAC `PICTURE` block: picture type, length-prefixed MIME type,
/// length-prefixed description, four 32-bit dimensions, length-prefixed data.
pub open spec fn flac_picture_spec(b: Seq<u8>) -> Artwork {
    if b.len() < 32 {
        Artwork::Absent
    } else {
        let ml = be32_at(b, 4);
        if 8 + ml > b.len() {
            Artwork::Absent
        } else if !valid_utf8(b.subrange(8, 8 + ml)) {
            Artwork::BadMime
        } else if 8 + ml + 4 > b.len() {
            Artwork::Absent
        } else {
            let o = 8 + ml + 4 + be32_at(b, 8 + ml) + 16;
            if o + 4 > b.len() {
                Artwork::Absent
            } else {
                let pl = be32_at(b, o);
                if o + 4 + pl > b.len() {
                    Artwork::Absent
                } else {
                    Artwork::Image { mime: b.subrange(8, 8 + ml), start: o + 4, end: o + 4 + pl }
                }
            }
        }
    }
}

/// A FLAC `PICTURE` block yields the picture its lengths delimit: after the
/// picture type, a 32-bit big-endian MIME length `ml` and the MIME bytes, a
/// 32-bit description length `dl` and the description, sixteen bytes of
/// dimensions and colours, and a 32-bit picture length `pl`, the picture is
/// the next `pl` bytes.
pub proof fn lemma_flac_picture_block(b: Seq<u8>, r: Result<Option<CoverData>, String>)
    requires
        b.len() >= 32,
        ({
            let ml = b[4] * 16777216 + b[5] * 65536 + b[6] * 256 + b[7];
            &&& 8 + ml + 4 <= b.len()
            &&& valid_utf8(b.subrange(8, 8 + ml))
            &&& ({
                let dl = b[8 + ml] * 16777216 + b[9 + ml] * 65536 + b[10 + ml] * 256 + b[11 + ml];
                let o = 8 + ml + 4 + dl + 16;
                &&& o + 4 <= b.len()
                &&& o + 4 + (b[o] * 16777216 + b[o + 1] * 65536 + b[o + 2] * 256 + b[o + 3]) <= b.len()
            })
        }),
        artwork_outcome(flac_picture_spec(b), b, r),
    ensures
        ({
            let ml = b[4] * 16777216 + b[5] * 65536 + b[6] * 256 + b[7];
            let dl = b[8 + ml] * 16777216 + b[9 + ml] * 65536 + b[10 + ml] * 256 + b[11 + ml];
            let o = 8 + ml + 4 + dl + 16;
            let pl = b[o] * 16777216 + b[o + 1] * 65536 + b[o + 2] * 256 + b[o + 3];
            r matches Ok(Some(c)) && c.data@ == base64_spec(b.subrange(o + 4, o + 4 + pl))
                && c.mime@ == mime_text(b.subrange(8, 8 + ml), b.subrange(o + 4, o + 4 + pl))
        }),
{
}

/// Reads the picture out of a FLAC `PICTURE` metadata block.
pub fn parse_flac_picture(block: &[u8]) -> (r: Result<Option<CoverData>, String>)
    ensures
        artwork_outcome(flac_picture_spec(block@), block@, r),
{
    let b = block;
    let n = b.len() as u64;
    if b.len() < 32 {
        return Ok(None);
    }
    let ml = u32_from_be_bytes(&b[4..8]) as u64;
    assert(b@.subrange(4, 8)[0] == b@[4]);
    assert(b@.subrange(4, 8)[1] == b@[5]);
    assert(b@.subrange(4, 8)[2] == b@[6]);
    assert(b@.subrange(4, 8)[3] == b@[7]);
    if 8 + ml > n {
        return Ok(None);
    }
    let mime_end = (8 + ml) as usize;
    let mime = copy_range(b, 8, mime_end);
    match utf8_text(mime.as_slice()) {
        None => {
            return Err(owned("invalid mime"));
        },
        Some(_) => {},
    }
    if 8 + ml + 4 > n {
        return Ok(None);
    }
    let dl = u32_from_be_bytes(&b[mime_end..mime_end + 4]) as u64;
    assert(b@.subrange(mime_end as int, mime_end + 4)[0] == b@[mime_end as int]);
    assert(b@.subrange(mime_end as int, mime_end + 4)[1] == b@[mime_end + 1]);
    assert(b@.subrange(mime_end as int, mime_end + 4)[2] == b@[mime_end + 2]);
    assert(b@.subrange(mime_end as int, mime_end + 4)[3] == b@[mime_end + 3]);
    let o: u64 = 8 + ml + 4 + dl + 16;
    if o + 4 > n {
        return Ok(None);
    }
    let ou = o as usize;
    let pl = u32_from_be_bytes(&b[ou..ou + 4]) as u64;
    assert(b@.subrange(ou as int, ou + 4)[0] == b@[ou as int]);
    assert(b@.subrange(ou as int, ou + 4)[1] == b@[ou + 1]);
    assert(b@.subrange(ou as int, ou + 4)[2] == b@[ou + 2]);
    assert(b@.subrange(ou as int, ou + 4)[3] == b@[ou + 3]);
    if o + 4 + pl > n {
        return Ok(None);
    }
    let image = copy_range(b, ou + 4, (o + 4 + pl) as usize);
    Ok(Some(make_cover(mime.as_slice(), image.as_slice())))
}

/// Walks the metadata blocks from `pos` and returns the body range of the
/// first `PICTURE` block (type 6); a block flagged as last ends the walk.
pub open spec fn flac_scan(d: Seq<u8>, pos: int) -> Option<(int, int)>
    decreases d.len() - pos,
{
    if pos < 0 || pos + 4 > d.len() {
        None
    } else {
        let size = be24(d[pos + 1], d[pos + 2], d[pos + 3]);
        if d[pos] % 128 == 6 {
            if pos + 4 + size > d.len() {
                None
            } else {
                Some((pos + 4, size))
            }
        } else if d[pos] >= 128 || pos + 4 + size > d.len() {
            None
        } else {
            flac_scan(d, pos + 4 + size)
        }
    }
}

/// The body range of the first `PICTURE` block of a FLAC file.
pub open spec fn flac_picture(d: Seq<u8>) -> Option<(int, int)> {
    if d.len() < 42 || !(d[0] == 0x66 && d[1] == 0x4c && d[2] == 0x61 && d[3] == 0x43) {
        None
    } else {
        flac_scan(d, 4)
    }
}

/// What reading a FLAC file's picture yields.
pub open spec fn flac_outcome(d: Seq<u8>, r: Result<Option<CoverData>, String>) -> bool {
    match flac_picture(d) {
        None => r == Ok::<Option<CoverData>, String>(None),
        Some((s, n)) => artwork_outcome(
            flac_picture_spec(d.subrange(s, s + n)),
            d.subrange(s, s + n),
            r,
        ),
    }
}

/// Finds the first `PICTURE` block of a FLAC file and reads its picture.
pub fn extract_flac_cover(data: &[u8]) -> (r: Result<Option<CoverData>, String>)
    ensures
        flac_outcome(data@, r),
{
    let d = data;
    if d.len() < 42 || !(d[0] == 0x66 && d[1] == 0x4c && d[2] == 0x61 && d[3] == 0x43) {
        return Ok(None);
    }
    let mut pos: usize = 4;
    while pos <= d.len() && 4 <= d.len() - pos
        invariant
            d@ == data@,
            flac_picture(d@) == flac_scan(d@, pos as int),
        decreases d.len() - pos,
    {
        let size: usize = (d[pos + 1] as usize) * 65536 + (d[pos + 2] as usize) * 256 + (d[pos
            + 3] as usize);
        if d[pos] % 128 == 6 {
            if size > d.len() - pos - 4 {
                return Ok(None);
            }
            let body = copy_range(d, pos + 4, pos + 4 + size);
            return parse_flac_picture(body.as_slice());
        }
        if d[pos] >= 128 {
            return Ok(None);
        }
        if size > d.len() - pos - 4 {
            assert(flac_scan(d@, (pos + 4 + size) as int) is None);
            return Ok(None);
        }
        pos = pos + 4 + size;
    }
    Ok(None)
}

// ── entry point ────────────────────────────────────────────────────────

/// What extracting the cover of `path` yields, given what the file system
/// reported for it.
pub open spec fn extract_outcome(path: Seq<char>, probe: FileProbe, r: Result<Option<CoverData>, String>) -> bool {
    match probe {
        FileProbe::Missing => r matches Err(e) && e@ == "FILE_NOT_FOUND"@,
        FileProbe::Unreadable(msg) => match cover_format_spec(path) {
            None => r == Ok::<Option<CoverData>, String>(None),
            Some(_) => r matches Err(e) && e@ == "read error: "@ + msg@,
        },
        FileProbe::Contents(d) => match cover_format_spec(path) {
            None => r == Ok::<Option<CoverData>, String>(None),
            Some(CoverFormat::Mp3) => mp3_outcome(d@, r),
            Some(CoverFormat::Flac) => flac_outcome(d@, r),
        },
    }
}

/// The cover picture embedded in the audio file at `path`: a missing file is
/// an error, a file that is neither `.mp3` nor `.flac` has no cover, and the
/// others are read as ID3v2-tagged MP3 or as FLAC.
pub fn extract_cover(path: &str, probe: FileProbe) -> (r: Result<Option<CoverData>, String>)
    ensures
        extract_outcome(path@, probe, r),
{
    match probe {
        FileProbe::Missing => Err(owned("FILE_NOT_FOUND")),
        FileProbe::Unreadable(msg) => match cover_format(path) {
            None => Ok(None),
            Some(_) => Err(concat("read error: ", msg.as_str())),
        },
        FileProbe::Contents(d) => match cover_format(path) {
            None => Ok(None),
            Some(CoverFormat::Mp3) => extract_mp3_cover(d.as_slice()),
            Some(CoverFormat::Flac) => extract_flac_cover(d.as_slice()),
        },
    }
}

} // verus!
