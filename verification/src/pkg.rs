//! The outer container of Wallpaper Engine `.pkg` files (`PKGV0019`): the
//! entry table, looking an entry up by name, the bytes of an entry, the
//! wallpaper type, and the import decision for a package.
//!
//! Layout: a little-endian `u32` entry count, the magic `PKGV0019`, four
//! unused bytes, then per entry a `u32` name length, the name, a `u32` offset
//! (from the start of the data block) and a `u32` size; the data block
//! follows the table.
use vstd::prelude::*;
use vstd::utf8::*;
use crate::json::{json_str_field, json_string_field};
use crate::text::{
    chars_of, concat, ends_with_seq, lossy_utf8, owned, push_chars, push_str, seq_eq,
    slice_chars, str_ends_with, str_eq, string_of, utf8_lossy,
};
use crate::cover::copy_range;

verus! {

/// One entry of the table.
pub struct PkgEntry {
    /// The entry name, decoded leniently from UTF-8.
    pub name: String,
    /// Where the entry starts, counted from the start of the data block.
    pub offset: usize,
    /// The entry's length in bytes.
    pub size: usize,
}

/// The entry table of a package.
pub struct PkgArchive {
    pub entries: Vec<PkgEntry>,
}

/// The little-endian value of the four bytes of `d` at `i`.
pub open spec fn le32_at(d: Seq<u8>, i: int) -> int {
    d[i] + d[i + 1] * 256 + d[i + 2] * 65536 + d[i + 3] * 16777216
}

/// The magic bytes `PKGV0019` stand at 4..12.
pub open spec fn has_magic(d: Seq<u8>) -> bool {
    d[4] == 0x50 && d[5] == 0x4b && d[6] == 0x47 && d[7] == 0x56 && d[8] == 0x30 && d[9] == 0x30
        && d[10] == 0x31 && d[11] == 0x39
}

/// Why a table cannot be read.
pub enum PkgError {
    TooSmall,
    BadMagic,
    HeaderTruncated,
    EntryTruncated,
}

/// The message reported for each reason.
pub open spec fn pkg_error_text(e: PkgError) -> Seq<char> {
    match e {
        PkgError::TooSmall => "pkg 文件过小，不是有效的 PKGV 容器"@,
        PkgError::BadMagic => "不是有效的 Wallpaper Engine 包（PKGV 魔数不匹配）"@,
        PkgError::HeaderTruncated => "pkg 条目头截断"@,
        PkgError::EntryTruncated => "pkg 条目截断"@,
    }
}

/// The `k` entries from `pos` on, each as its raw name bytes, offset and size.
pub open spec fn parse_entries(d: Seq<u8>, pos: int, k: nat) -> Result<Seq<(Seq<u8>, int, int)>, PkgError>
    decreases k,
{
    if k == 0 {
        Ok(Seq::empty())
    } else if pos + 4 > d.len() {
        Err(PkgError::HeaderTruncated)
    } else {
        let nl = le32_at(d, pos);
        let p = pos + 4;
        if p + nl + 8 > d.len() {
            Err(PkgError::EntryTruncated)
        } else {
            let e = (d.subrange(p, p + nl), le32_at(d, p + nl), le32_at(d, p + nl + 4));
            match parse_entries(d, p + nl + 8, (k - 1) as nat) {
                Ok(rest) => Ok(seq![e] + rest),
                Err(x) => Err(x),
            }
        }
    }
}

/// The table of the package `d`.
pub open spec fn parse_spec(d: Seq<u8>) -> Result<Seq<(Seq<u8>, int, int)>, PkgError> {
    if d.len() < 16 {
        Err(PkgError::TooSmall)
    } else if !has_magic(d) {
        Err(PkgError::BadMagic)
    } else {
        parse_entries(d, 16, le32_at(d, 0) as nat)
    }
}

/// Reading `k` entries at `pos` reads one entry header there and the other
/// `k - 1` right after it: the name length, offset and size are full 32-bit
/// little-endian values, and the name is the `nl` bytes after the length.
pub proof fn lemma_pkg_entry_header(d: Seq<u8>, pos: int, k: nat)
    requires
        k > 0,
        parse_entries(d, pos, k) is Ok,
    ensures
        ({
            let es = parse_entries(d, pos, k)->Ok_0;
            let nl = d[pos] + d[pos + 1] * 256 + d[pos + 2] * 65536 + d[pos + 3] * 16777216;
            let p = pos + 4;
            &&& pos + 4 <= d.len()
            &&& p + nl + 8 <= d.len()
            &&& es.len() == k
            &&& es[0].0 == d.subrange(p, p + nl)
            &&& es[0].1 == d[p + nl] + d[p + nl + 1] * 256 + d[p + nl + 2] * 65536 + d[p + nl + 3]
                * 16777216
            &&& es[0].2 == d[p + nl + 4] + d[p + nl + 5] * 256 + d[p + nl + 6] * 65536 + d[p + nl
                + 7] * 16777216
            &&& parse_entries(d, p + nl + 8, (k - 1) as nat) == Ok::<Seq<(Seq<u8>, int, int)>, PkgError>(
                es.drop_first(),
            )
        }),
    decreases k,
{
    let nl = le32_at(d, pos);
    let p = pos + 4;
    let es = parse_entries(d, pos, k)->Ok_0;
    let rest = parse_entries(d, p + nl + 8, (k - 1) as nat);
    assert(rest is Ok);
    let r = rest->Ok_0;
    assert(es.drop_first() =~= r);
    if k > 1 {
        lemma_pkg_entry_header(d, p + nl + 8, (k - 1) as nat);
    }
}

/// A package's table: the count is the little-endian `u32` at 0, the magic
/// `PKGV0019` stands at 4, and the entry headers start at 16.
pub proof fn lemma_pkg_table(d: Seq<u8>)
    requires
        parse_spec(d) is Ok,
    ensures
        d.len() >= 16,
        has_magic(d),
        parse_spec(d)->Ok_0.len() == d[0] + d[1] * 256 + d[2] * 65536 + d[3] * 16777216,
        parse_spec(d)->Ok_0.len() > 0 ==> parse_entries(d, 16, parse_spec(d)->Ok_0.len()) == parse_spec(d),
{
    let k = le32_at(d, 0) as nat;
    if k > 0 {
        lemma_pkg_entry_header(d, 16, k);
    }
}

/// The entries as name, offset and size.
pub type EntryView = (Seq<char>, int, int);

/// The name of an entry from its raw bytes: their UTF-8 decoding when they
/// are valid UTF-8, the lenient decoding (U+FFFD for invalid sequences)
/// otherwise.
pub open spec fn entry_name(raw: Seq<u8>) -> Seq<char> {
    if valid_utf8(raw) {
        decode_utf8(raw)
    } else {
        lossy_utf8(raw)
    }
}

/// The raw entries `es` with their names decoded leniently.
pub open spec fn table_view(es: Seq<(Seq<u8>, int, int)>) -> Seq<EntryView> {
    Seq::new(es.len(), |i: int| (entry_name(es[i].0), es[i].1, es[i].2))
}

/// The entries of an archive as name, offset and size.
pub open spec fn archive_view(a: &PkgArchive) -> Seq<EntryView> {
    Seq::new(
        a.entries@.len(),
        |i: int| (a.entries@[i].name@, a.entries@[i].offset as int, a.entries@[i].size as int),
    )
}

fn le32(d: &[u8], i: usize) -> (r: usize)
    requires
        i + 4 <= d.len(),
    ensures
        r == le32_at(d@, i as int),
{
    let v: u64 = (d[i] as u64) + (d[i + 1] as u64) * 256 + (d[i + 2] as u64) * 65536 + (d[i + 3] as u64) * 16777216;
    v as usize
}

fn error_text(e: PkgError) -> (r: String)
    ensures
        r@ == pkg_error_text(e),
{
    match e {
        PkgError::TooSmall => owned("pkg 文件过小，不是有效的 PKGV 容器"),
        PkgError::BadMagic => owned("不是有效的 Wallpaper Engine 包（PKGV 魔数不匹配）"),
        PkgError::HeaderTruncated => owned("pkg 条目头截断"),
        PkgError::EntryTruncated => owned("pkg 条目截断"),
    }
}

/// Reads the entry table of a package.
pub fn parse_pkg(data: &[u8]) -> (r: Result<PkgArchive, String>)
    ensures
        match parse_spec(data@) {
            Ok(es) => r matches Ok(a) && archive_view(&a) == table_view(es),
            Err(e) => r matches Err(m) && m@ == pkg_error_text(e),
        },
{
    if data.len() < 16 {
        return Err(error_text(PkgError::TooSmall));
    }
    let count = le32(data, 0);
    if !(data[4] == 0x50 && data[5] == 0x4b && data[6] == 0x47 && data[7] == 0x56 && data[8] == 0x30
        && data[9] == 0x30 && data[10] == 0x31 && data[11] == 0x39) {
        return Err(error_text(PkgError::BadMagic));
    }
    let ghost d = data@;
    let mut pos: usize = 16;
    let mut entries: Vec<PkgEntry> = Vec::new();
    let ghost mut done: Seq<(Seq<u8>, int, int)> = Seq::empty();
    let mut i: usize = 0;
    while i < count
        invariant
            d == data@,
            i <= count,
            16 <= pos <= data.len(),
            count == le32_at(d, 0),
            parse_spec(d) == (match parse_entries(d, pos as int, (count - i) as nat) {
                Ok(rest) => Ok::<Seq<(Seq<u8>, int, int)>, PkgError>(done + rest),
                Err(x) => Err(x),
            }),
            entries@.len() == done.len(),
            forall|j: int|
                0 <= j < done.len() ==> {
                    &&& (#[trigger] entries@[j]).name@ == entry_name(done[j].0)
                    &&& entries@[j].offset == done[j].1
                    &&& entries@[j].size == done[j].2
                },
        decreases count - i,
    {
        if data.len() - pos < 4 {
            return Err(error_text(PkgError::HeaderTruncated));
        }
        let name_len = le32(data, pos);
        let p = pos + 4;
        if data.len() - p < 8 || name_len > data.len() - p - 8 {
            return Err(error_text(PkgError::EntryTruncated));
        }
        let raw = copy_range(data, p, p + name_len);
        let name = utf8_lossy(raw.as_slice());
        let offset = le32(data, p + name_len);
        let size = le32(data, p + name_len + 4);
        let ghost e = (d.subrange(p as int, p + name_len), offset as int, size as int);
        entries.push(PkgEntry { name, offset, size });
        proof {
            let ghost old_done = done;
            done = done.push(e);
            let rest_k = (count - i - 1) as nat;
            match parse_entries(d, (p + name_len + 8) as int, rest_k) {
                Ok(rest) => {
                    assert(old_done + (seq![e] + rest) =~= done + rest);
                },
                Err(x) => {},
            }
        }
        pos = p + name_len + 8;
        i = i + 1;
    }
    let a = PkgArchive { entries };
    assert(done + Seq::<(Seq<u8>, int, int)>::empty() =~= done);
    assert(archive_view(&a) =~= table_view(done));
    Ok(a)
}

// ── looking an entry up ────────────────────────────────────────────────

/// The first index from `i` on whose entry is named `name`.
pub open spec fn first_named(es: Seq<EntryView>, name: Seq<char>, i: int) -> Option<int>
    decreases es.len() - i,
{
    if i < 0 || i >= es.len() {
        None
    } else if es[i].0 == name {
        Some(i)
    } else {
        first_named(es, name, i + 1)
    }
}

/// The entry name `n` stands for a file with the base name `base`: it is
/// `data/{base}` or ends with `/{base}`.
pub open spec fn matches_base(n: Seq<char>, base: Seq<char>) -> bool {
    n == "data/"@ + base || ends_with_seq(n, "/"@ + base)
}

/// The first index from `i` on whose entry name stands for the base name `base`.
pub open spec fn first_based(es: Seq<EntryView>, base: Seq<char>, i: int) -> Option<int>
    decreases es.len() - i,
{
    if i < 0 || i >= es.len() {
        None
    } else if matches_base(es[i].0, base) {
        Some(i)
    } else {
        first_based(es, base, i + 1)
    }
}

/// The last `/`-separated segment of `name` (`rsplit('/').next()`).
pub open spec fn base_name(name: Seq<char>) -> Seq<char> {
    name.subrange(crate::qq::last_char(name, '/', name.len() as int) + 1, name.len() as int)
}

/// The entry a name lookup yields: the first entry with exactly that name,
/// else the first whose name is `data/{base}` or ends with `/{base}`, where
/// `base` is the last segment of the wanted name.
pub open spec fn find_entry_spec(es: Seq<EntryView>, name: Seq<char>) -> Option<int> {
    match first_named(es, name, 0) {
        Some(i) => Some(i),
        None => first_based(es, base_name(name), 0),
    }
}

fn base_name_exec(name: &[char]) -> (r: Vec<char>)
    ensures
        r@ == base_name(name@),
{
    let mut i = name.len();
    while i > 0 && name[i - 1] != '/'
        invariant
            i <= name.len(),
            crate::qq::last_char(name@, '/', i as int) == crate::qq::last_char(name@, '/', name.len() as int),
        decreases i,
    {
        i = i - 1;
    }
    slice_chars(name, i, name.len())
}

/// The index of the entry that a lookup of `name` yields.
pub fn find_entry(archive: &PkgArchive, name: &str) -> (r: Option<usize>)
    ensures
        match r {
            Some(i) => find_entry_spec(archive_view(archive), name@) == Some(i as int),
            None => find_entry_spec(archive_view(archive), name@) is None,
        },
{
    let es = &archive.entries;
    let ghost v = archive_view(archive);
    let mut i: usize = 0;
    while i < es.len()
        invariant
            i <= es.len(),
            v == archive_view(archive),
            es == archive.entries,
            first_named(v, name@, i as int) == first_named(v, name@, 0),
        decreases es.len() - i,
    {
        assert(v[i as int].0 == es@[i as int].name@);
        if str_eq(es[i].name.as_str(), name) {
            return Some(i);
        }
        i = i + 1;
    }
    assert(first_named(v, name@, es.len() as int) is None);
    let nv = chars_of(name);
    let base = base_name_exec(nv.as_slice());
    let mut want = chars_of("data/");
    push_chars(&mut want, base.as_slice());
    let mut tail = chars_of("/");
    push_chars(&mut tail, base.as_slice());
    let mut j: usize = 0;
    while j < es.len()
        invariant
            j <= es.len(),
            v == archive_view(archive),
            es == archive.entries,
            want@ == "data/"@ + base_name(name@),
            tail@ == "/"@ + base_name(name@),
            first_based(v, base_name(name@), j as int) == first_based(v, base_name(name@), 0),
            first_named(v, name@, 0) is None,
        decreases es.len() - j,
    {
        assert(v[j as int].0 == es@[j as int].name@);
        let n = chars_of(es[j].name.as_str());
        if seq_eq(n.as_slice(), want.as_slice()) || crate::text::ends_with_exec(n.as_slice(), tail.as_slice()) {
            assert(matches_base(v[j as int].0, base_name(name@)));
            return Some(j);
        }
        j = j + 1;
    }
    None
}

// ── entry bytes ────────────────────────────────────────────────────────

/// The length of the table for the entries `es[..k]`: sixteen header bytes
/// and, per entry, twelve bytes and the UTF-8 length of its (decoded) name.
pub open spec fn table_len(es: Seq<EntryView>, k: int) -> int
    decreases k,
{
    if k <= 0 {
        16
    } else {
        table_len(es, k - 1) + 12 + encode_utf8(es[k - 1].0).len()
    }
}

/// Where entry `e` lies in the package: from the end of the table plus its
/// offset, for its size.
pub open spec fn entry_range(es: Seq<EntryView>, e: int) -> (int, int) {
    let start = table_len(es, es.len() as int) + es[e].1;
    (start, start + es[e].2)
}

proof fn lemma_table_len_grows(es: Seq<EntryView>, a: int, b: int)
    requires
        0 <= a <= b,
    ensures
        16 <= table_len(es, a) <= table_len(es, b),
    decreases b,
{
    if b > a {
        lemma_table_len_grows(es, a, b - 1);
    } else if a > 0 {
        lemma_table_len_grows(es, 0, a - 1);
    }
}

/// The end of the table, or `None` once it passes `limit`.
fn table_end(archive: &PkgArchive, limit: usize) -> (r: Option<usize>)
    ensures
        match r {
            Some(t) => t == table_len(archive_view(archive), archive_view(archive).len() as int) && t <= limit,
            None => table_len(archive_view(archive), archive_view(archive).len() as int) > limit,
        },
{
    let es = &archive.entries;
    let ghost v = archive_view(archive);
    if limit < 16 {
        proof {
            lemma_table_len_grows(v, 0, v.len() as int);
        }
        return None;
    }
    let mut acc: usize = 16;
    let mut i: usize = 0;
    while i < es.len()
        invariant
            i <= es.len(),
            v == archive_view(archive),
            es == archive.entries,
            acc == table_len(v, i as int),
            acc <= limit,
        decreases es.len() - i,
    {
        assert(v[i as int].0 == es@[i as int].name@);
        let n = es[i].name.as_str().as_bytes().len();
        if n > limit - acc || 12 > limit - acc - n {
            proof {
                lemma_table_len_grows(v, i + 1, v.len() as int);
            }
            return None;
        }
        acc = acc + 12 + n;
        i = i + 1;
    }
    Some(acc)
}

/// The entry `e` lies inside the package bytes.
pub open spec fn entry_in_range(es: Seq<EntryView>, e: int, len: int) -> bool {
    0 <= e < es.len() && entry_range(es, e).1 <= len
}

/// The bytes of entry `e`.
pub fn entry_bytes(archive: &PkgArchive, data: &[u8], e: usize) -> (r: Vec<u8>)
    requires
        entry_in_range(archive_view(archive), e as int, data.len() as int),
    ensures
        r@ == data@.subrange(
            entry_range(archive_view(archive), e as int).0,
            entry_range(archive_view(archive), e as int).1,
        ),
{
    let ghost v = archive_view(archive);
    proof {
        lemma_table_len_grows(v, 0, v.len() as int);
    }
    match table_end(archive, data.len()) {
        Some(start) => {
            let entry = &archive.entries[e];
            assert(v[e as int].1 == entry.offset && v[e as int].2 == entry.size);
            let abs = start + entry.offset;
            copy_range(data, abs, abs + entry.size)
        },
        None => {
            Vec::new()
        },
    }
}

/// Whether entry `e` lies inside the package bytes.
pub fn entry_fits(archive: &PkgArchive, data: &[u8], e: usize) -> (r: bool)
    ensures
        r == entry_in_range(archive_view(archive), e as int, data.len() as int),
{
    let ghost v = archive_view(archive);
    if e >= archive.entries.len() {
        return false;
    }
    match table_end(archive, data.len()) {
        None => false,
        Some(start) => {
            let entry = &archive.entries[e];
            assert(v[e as int].1 == entry.offset && v[e as int].2 == entry.size);
            entry.offset <= data.len() - start && entry.size <= data.len() - start - entry.offset
        },
    }
}

// ── wallpaper type ─────────────────────────────────────────────────────

/// The non-empty `type` of a `project.json` text.
pub open spec fn project_type(json: Seq<u8>) -> Option<Seq<char>> {
    match json_str_field(json, "type"@) {
        Some(t) => if t.len() > 0 {
            Some(t)
        } else {
            None
        },
        None => None,
    }
}

/// An entry name marks a scene package: `scene.json`, or a `.mdl` or `.scene`
/// file.
pub open spec fn is_scene_name(n: Seq<char>) -> bool {
    n == "scene.json"@ || ends_with_seq(n, ".mdl"@) || ends_with_seq(n, ".scene"@)
}

/// Some entry name marks a scene package.
pub open spec fn has_scene_entry(es: Seq<EntryView>) -> bool {
    exists|i: int| 0 <= i < es.len() && is_scene_name(#[trigger] es[i].0)
}

/// The packed `project.json` entry, when there is one, lies inside the bytes.
pub open spec fn project_entry_fits(es: Seq<EntryView>, len: int) -> bool {
    match find_entry_spec(es, "project.json"@) {
        Some(i) => entry_in_range(es, i, len),
        None => true,
    }
}

/// The text of a `project.json` given as an optional string, as bytes.
pub open spec fn opt_view(s: Option<&str>) -> Option<Seq<char>> {
    match s {
        Some(t) => Some(t@),
        None => None,
    }
}

/// The type of the wallpaper in the package: the `type` of the
/// `project.json` beside the package, else that of a `project.json` packed
/// inside it, else `scene` for a scene package.
pub open spec fn detect_type_spec(es: Seq<EntryView>, data: Seq<u8>, sibling: Option<Seq<char>>) -> Option<Seq<char>> {
    let from_sibling = match sibling {
        Some(text) => project_type(encode_utf8(text)),
        None => None,
    };
    if from_sibling is Some {
        from_sibling
    } else {
        let packed = match find_entry_spec(es, "project.json"@) {
            Some(i) => project_type(data.subrange(entry_range(es, i).0, entry_range(es, i).1)),
            None => None,
        };
        if packed is Some {
            packed
        } else if has_scene_entry(es) {
            Some("scene"@)
        } else {
            None
        }
    }
}

fn project_type_exec(json: &[u8]) -> (r: Option<String>)
    ensures
        match r {
            Some(t) => project_type(json@) == Some(t@),
            None => project_type(json@) is None,
        },
{
    match json_string_field(json, "type") {
        Some(Some(t)) => {
            let v = chars_of(t.as_str());
            if v.len() > 0 {
                Some(t)
            } else {
                None
            }
        },
        _ => None,
    }
}

/// The type of the wallpaper in the package, from the text of the
/// `project.json` beside it (`None` when there is none or it cannot be read)
/// and the package itself.
pub fn detect_type(archive: &PkgArchive, data: &[u8], sibling_project: Option<&str>) -> (r: Result<String, String>)
    requires
        project_entry_fits(archive_view(archive), data.len() as int),
    ensures
        match detect_type_spec(archive_view(archive), data@, opt_view(sibling_project)) {
            Some(t) => r matches Ok(s) && s@ == t,
            None => r matches Err(m) && m@ == "无法从 pkg 确定类型（缺少 project.json 且非场景包）"@,
        },
{
    let from_sibling: Option<String> = match sibling_project {
        Some(text) => project_type_exec(text.as_bytes()),
        None => None,
    };
    if let Some(t) = from_sibling {
        return Ok(t);
    }
    let packed: Option<String> = match find_entry(archive, "project.json") {
        Some(i) => {
            let bytes = entry_bytes(archive, data, i);
            project_type_exec(bytes.as_slice())
        },
        None => None,
    };
    if let Some(t) = packed {
        return Ok(t);
    }
    let es = &archive.entries;
    let ghost v = archive_view(archive);
    let mut k: usize = 0;
    while k < es.len()
        invariant
            k <= es.len(),
            v == archive_view(archive),
            es == archive.entries,
            forall|j: int| 0 <= j < k ==> !is_scene_name(#[trigger] v[j].0),
            (match opt_view(sibling_project) {
                Some(text) => project_type(encode_utf8(text)),
                None => None,
            }) is None,
            (match find_entry_spec(v, "project.json"@) {
                Some(i) => project_type(data@.subrange(entry_range(v, i).0, entry_range(v, i).1)),
                None => None,
            }) is None,
        decreases es.len() - k,
    {
        assert(v[k as int].0 == es@[k as int].name@);
        let n = es[k].name.as_str();
        if str_eq(n, "scene.json") || str_ends_with(n, ".mdl") || str_ends_with(n, ".scene") {
            assert(is_scene_name(v[k as int].0));
            assert(has_scene_entry(v));
            assert(detect_type_spec(v, data@, opt_view(sibling_project)) == Some("scene"@));
            return Ok(owned("scene"));
        }
        k = k + 1;
    }
    Err(owned("无法从 pkg 确定类型（缺少 project.json 且非场景包）"))
}

// ── import ─────────────────────────────────────────────────────────────

/// The title in the text of a `project.json` (empty when absent).
pub open spec fn project_title(sibling: Option<Seq<char>>) -> Seq<char> {
    match sibling {
        Some(text) => match json_str_field(encode_utf8(text), "title"@) {
            Some(t) => t,
            None => Seq::empty(),
        },
        None => Seq::empty(),
    }
}

/// The title in the text of the `project.json` beside a package (empty when
/// there is none, it is not JSON, or it has no string `title`).
pub fn read_title(sibling_project: Option<&str>) -> (r: String)
    ensures
        r@ == project_title(opt_view(sibling_project)),
{
    proof {
        reveal_strlit("");
    }
    match sibling_project {
        Some(text) => match json_string_field(text.as_bytes(), "title") {
            Some(Some(t)) => t,
            _ => owned(""),
        },
        None => owned(""),
    }
}

/// An imported scene package.
pub struct PkgImport {
    /// The wallpaper title.
    pub name: String,
    /// The note shown to the user.
    pub message: String,
}

/// What importing a package yields: a scene package is accepted with its
/// title; any other type is refused, since its media sits in the nested
/// container that is not read here.
pub open spec fn import_outcome(data: Seq<u8>, sibling: Option<Seq<char>>, r: Result<PkgImport, String>) -> bool {
    match parse_spec(data) {
        Err(e) => r matches Err(m) && m@ == pkg_error_text(e),
        Ok(es) => match detect_type_spec(table_view(es), data, sibling) {
            None => r matches Err(m) && m@ == "无法从 pkg 确定类型（缺少 project.json 且非场景包）"@,
            Some(t) => if t == "scene"@ {
                r matches Ok(p) && p.name@ == project_title(sibling) && p.message@
                    == "场景壁纸需要原生 wgpu 渲染（P2 未实现）"@
            } else {
                r matches Err(m) && m@ == "pkg 类型为 "@ + t
                    + "，但内层媒体位于 WE 专有嵌套二进制容器中，需完整解析（P2：移植 Lively 的 PKGV 解析 + zlib 解压）后才能提取"@
            },
        },
    }
}

/// The packed `project.json` of the package, when it has one, lies inside
/// its bytes.
pub open spec fn pkg_readable(data: Seq<u8>) -> bool {
    match parse_spec(data) {
        Ok(es) => project_entry_fits(table_view(es), data.len() as int),
        Err(_) => true,
    }
}

/// Imports a package from its bytes and the text of the `project.json`
/// beside it.
pub fn import_from_bytes(data: &[u8], sibling_project: Option<&str>) -> (r: Result<PkgImport, String>)
    requires
        pkg_readable(data@),
    ensures
        import_outcome(data@, opt_view(sibling_project), r),
{
    let archive = match parse_pkg(data) {
        Ok(a) => a,
        Err(m) => {
            return Err(m);
        },
    };
    let t = match detect_type(&archive, data, sibling_project) {
        Ok(t) => t,
        Err(m) => {
            return Err(m);
        },
    };
    proof {
        reveal_strlit("scene");
    }
    if str_eq(t.as_str(), "scene") {
        let name = read_title(sibling_project);
        Ok(PkgImport { name, message: owned("场景壁纸需要原生 wgpu 渲染（P2 未实现）") })
    } else {
        let mut m = chars_of("pkg 类型为 ");
        push_str(&mut m, t.as_str());
        push_str(
            &mut m,
            "，但内层媒体位于 WE 专有嵌套二进制容器中，需完整解析（P2：移植 Lively 的 PKGV 解析 + zlib 解压）后才能提取",
        );
        Err(string_of(m.as_slice()))
    }
}

/// Whether the packed `project.json` of the package, when it has one, lies
/// inside its bytes (the condition under which `import_from_bytes` may be
/// called).
pub fn pkg_is_readable(data: &[u8]) -> (r: bool)
    ensures
        r == pkg_readable(data@),
{
    match parse_pkg(data) {
        Err(_) => true,
        Ok(a) => match find_entry(&a, "project.json") {
            None => true,
            Some(i) => entry_fits(&a, data, i),
        },
    }
}

} // verus!
