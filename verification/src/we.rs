//! Wallpaper Engine control: the window-placement state of the embedded
//! wallpaper window, wide strings for the window API, the Wallpaper Engine
//! processes, the Steam library paths, the control commands, the preview
//! image, and the wallpaper records read from `project.json`.
use vstd::prelude::*;
use crate::cover::path_extension_exec;
use crate::crypto::base64_standard;
use crate::cover::base64_spec;
use crate::json::{json_field, json_string_field};
use crate::qq::find_from;
use crate::text::{
    ascii_lower_seq, ascii_lowercase, chars_of, lines_of, owned, push_chars, push_str, seq_eq,
    slice_chars, spec_lowercase, str_eq, string_of, text_lines, to_lowercase, views,
};

verus! {

// ── wide strings ───────────────────────────────────────────────────────

/// The UTF-16 code units of one character.
pub open spec fn utf16_units(c: char) -> Seq<u16> {
    let v = c as u32;
    if v < 0x10000 {
        seq![v as u16]
    } else {
        seq![(0xD800 + (v - 0x10000) / 1024) as u16, (0xDC00 + (v - 0x10000) % 1024) as u16]
    }
}

/// The UTF-16 encoding of a character sequence.
pub open spec fn encode_utf16(s: Seq<char>) -> Seq<u16>
    decreases s.len(),
{
    if s.len() == 0 {
        Seq::empty()
    } else {
        encode_utf16(s.drop_last()) + utf16_units(s.last())
    }
}

/// `s` in UTF-16 with a terminating zero, as the window API takes strings.
pub fn to_wide(s: &str) -> (r: Vec<u16>)
    ensures
        r@ == encode_utf16(s@).push(0),
{
    let v = chars_of(s);
    let mut out: Vec<u16> = Vec::new();
    let mut i: usize = 0;
    while i < v.len()
        invariant
            i <= v.len(),
            v@ == s@,
            out@ == encode_utf16(s@.take(i as int)),
        decreases v.len() - i,
    {
        let c = v[i] as u32;
        let ghost before = out@;
        if c < 0x10000 {
            out.push(c as u16);
        } else {
            let w = c - 0x10000;
            out.push((0xD800 + w / 1024) as u16);
            out.push((0xDC00 + w % 1024) as u16);
        }
        proof {
            assert(s@.take(i + 1).drop_last() =~= s@.take(i as int));
            assert(s@.take(i + 1).last() == v@[i as int]);
            assert(out@ =~= before + utf16_units(v@[i as int]));
        }
        i = i + 1;
    }
    assert(s@.take(v.len() as int) =~= s@);
    out.push(0);
    out
}

// ── window placement ───────────────────────────────────────────────────

/// A window's screen position and client size.
#[derive(PartialEq, Eq, Structural, Clone, Copy, Debug)]
pub struct WindowRect {
    pub x: i32,
    pub y: i32,
    pub width: u32,
    pub height: u32,
}

/// Whether the wallpaper window has been set up behind the main window, and
/// where it was last placed.
#[derive(PartialEq, Eq, Structural, Clone, Copy, Debug)]
pub struct EmbedState {
    pub initialized: bool,
    pub last: Option<WindowRect>,
}

/// What embedding asks of the window system: the one-time setup (show the
/// window, make it click-through, round its corners), then placing it at
/// `place` when the main window's client area could be read.
#[derive(PartialEq, Eq, Structural, Clone, Copy, Debug)]
pub struct EmbedPlan {
    pub first_setup: bool,
    pub place: Option<WindowRect>,
}

/// The state before anything was embedded.
pub open spec fn initial_state() -> EmbedState {
    EmbedState { initialized: false, last: None }
}

/// Embedding with the main window's client area `client`: the setup runs
/// the first time, the window goes to the client area, which is remembered.
pub open spec fn embed_spec(s: EmbedState, client: Option<WindowRect>) -> (EmbedState, EmbedPlan) {
    (
        EmbedState {
            initialized: true,
            last: match client {
                Some(r) => Some(r),
                None => s.last,
            },
        },
        EmbedPlan { first_setup: !s.initialized, place: client },
    )
}

/// Following the main window to `client`: nothing before embedding or when
/// the client area is unknown; otherwise the window moves when the area
/// differs from where it was last placed.
pub open spec fn sync_spec(s: EmbedState, client: Option<WindowRect>) -> (EmbedState, Option<WindowRect>) {
    if !s.initialized {
        (s, None)
    } else {
        match client {
            None => (s, None),
            Some(r) => if s.last == Some(r) {
                (s, None)
            } else {
                (EmbedState { initialized: true, last: Some(r) }, Some(r))
            },
        }
    }
}

impl EmbedState {
    /// The state before anything was embedded.
    pub fn new() -> (r: EmbedState)
        ensures
            r == initial_state(),
    {
        EmbedState { initialized: false, last: None }
    }

    /// Embeds the wallpaper window behind the main window whose client area
    /// is `client` (see `embed_spec`).
    pub fn embed(&mut self, client: Option<WindowRect>) -> (r: EmbedPlan)
        ensures
            (*final(self), r) == embed_spec(*old(self), client),
    {
        let first = !self.initialized;
        self.initialized = true;
        match client {
            Some(rect) => {
                self.last = Some(rect);
            },
            None => {},
        }
        EmbedPlan { first_setup: first, place: client }
    }

    /// Follows the main window to `client`; the result is where the
    /// wallpaper window is to be moved, if anywhere (see `sync_spec`).
    pub fn sync(&mut self, client: Option<WindowRect>) -> (r: Option<WindowRect>)
        ensures
            (*final(self), r) == sync_spec(*old(self), client),
    {
        if !self.initialized {
            return None;
        }
        match client {
            None => None,
            Some(rect) => {
                let same = match self.last {
                    Some(l) => l.x == rect.x && l.y == rect.y && l.width == rect.width && l.height
                        == rect.height,
                    None => false,
                };
                if same {
                    None
                } else {
                    self.last = Some(rect);
                    Some(rect)
                }
            },
        }
    }
}

/// Forgets the embedding when the wallpaper window is hidden.
pub fn hide_bg_window(state: &mut EmbedState)
    ensures
        *final(state) == initial_state(),
{
    state.initialized = false;
    state.last = None;
}

/// After the wallpaper window is hidden, following the main window moves
/// nothing until it is embedded again.
pub proof fn lemma_hidden_stays_put(client: Option<WindowRect>)
    ensures
        sync_spec(initial_state(), client) == (initial_state(), None::<WindowRect>),
{
}

/// Once placed at a client area, following the main window to the same area
/// moves nothing, and a second follow to any area after a first one moves
/// nothing more.
pub proof fn lemma_sync_idempotent(s: EmbedState, client: Option<WindowRect>)
    ensures
        client is Some ==> sync_spec(embed_spec(s, client).0, client).1 is None,
        sync_spec(sync_spec(s, client).0, client).1 is None,
{
}

// ── Wallpaper Engine processes ─────────────────────────────────────────

/// `s` without every trailing copy of `p` (`trim_end_matches`).
pub open spec fn strip_all_suffix(s: Seq<char>, p: Seq<char>) -> Seq<char>
    decreases s.len(),
{
    if p.len() > 0 && p.len() <= s.len() && s.subrange(s.len() - p.len(), s.len() as int) == p {
        strip_all_suffix(s.subrange(0, s.len() - p.len()), p)
    } else {
        s
    }
}

fn strip_all_suffix_exec(s: &[char], p: &[char]) -> (r: Vec<char>)
    ensures
        r@ == strip_all_suffix(s@, p@),
{
    let mut b = s.len();
    assert(s@.subrange(0, s.len() as int) =~= s@);
    while p.len() > 0 && p.len() <= b && crate::text::occurs_at_exec(s, p, b - p.len())
        invariant
            b <= s.len(),
            strip_all_suffix(s@.subrange(0, b as int), p@) == strip_all_suffix(s@, p@),
        decreases b,
    {
        proof {
            let pre = s@.subrange(0, b as int);
            assert(pre.subrange(pre.len() - p.len(), pre.len() as int) =~= s@.subrange(b - p.len(), b as int));
            assert(pre.subrange(0, pre.len() - p.len()) =~= s@.subrange(0, b - p.len()));
        }
        b = b - p.len();
    }
    proof {
        let pre = s@.subrange(0, b as int);
        if p.len() > 0 && p.len() <= b {
            assert(pre.subrange(pre.len() - p.len(), pre.len() as int) =~= s@.subrange(b - p.len(), b as int));
        }
    }
    slice_chars(s, 0, b)
}

/// The name of the Wallpaper Engine executable (either build), compared
/// after lower-casing.
pub open spec fn is_we_exe_spec(name: Seq<char>) -> bool {
    spec_lowercase(name) == "wallpaper64.exe"@ || spec_lowercase(name) == "wallpaper32.exe"@
}

/// The name of the process that renders into the main window's background:
/// `musicplayerbg`, lower-cased, with trailing `.exe` removed.
pub open spec fn is_bg_process_spec(name: Seq<char>) -> bool {
    strip_all_suffix(spec_lowercase(name), ".exe"@) == "musicplayerbg"@
}

/// Whether a process name is the Wallpaper Engine executable.
pub fn is_we_exe(name: &str) -> (r: bool)
    ensures
        r == is_we_exe_spec(name@),
{
    let l = to_lowercase(name);
    str_eq(l.as_str(), "wallpaper64.exe") || str_eq(l.as_str(), "wallpaper32.exe")
}

/// Whether a process name is the background renderer that is killed when the
/// wallpaper closes.
pub fn is_bg_process(name: &str) -> (r: bool)
    ensures
        r == is_bg_process_spec(name@),
{
    let l = to_lowercase(name);
    let lv = chars_of(l.as_str());
    let ext = chars_of(".exe");
    let stem = strip_all_suffix_exec(lv.as_slice(), ext.as_slice());
    let want = chars_of("musicplayerbg");
    seq_eq(stem.as_slice(), want.as_slice())
}

/// Whether a process belongs to Wallpaper Engine when its windows are
/// searched: the executable or the background renderer.
pub fn is_we_process(name: &str) -> (r: bool)
    ensures
        r == (is_we_exe_spec(name@) || is_bg_process_spec(name@)),
{
    is_we_exe(name) || is_bg_process(name)
}

// ── Steam library paths ────────────────────────────────────────────────

/// The value of a `"path"` entry on one line of `libraryfolders.vdf`: the
/// text between the next two double quotes after the key, when non-empty.
pub open spec fn vdf_path(l: Seq<char>) -> Option<Seq<char>> {
    match find_from(l, "\"path\""@, 0) {
        None => None,
        Some(idx) => {
            let rest = l.subrange(idx + 6, l.len() as int);
            let s = crate::text::first_char(rest, '"', 0);
            if s >= rest.len() {
                None
            } else {
                let tail = rest.subrange(s + 1, rest.len() as int);
                let e = crate::text::first_char(tail, '"', 0);
                if e >= tail.len() || e == 0 {
                    None
                } else {
                    Some(tail.subrange(0, e))
                }
            }
        },
    }
}

/// The library paths named in the lines `ls[i..]`.
pub open spec fn vdf_paths_from(ls: Seq<Seq<char>>, i: int) -> Seq<Seq<char>>
    decreases ls.len() - i,
{
    if i < 0 || i >= ls.len() {
        Seq::empty()
    } else {
        match vdf_path(ls[i]) {
            Some(p) => seq![p] + vdf_paths_from(ls, i + 1),
            None => vdf_paths_from(ls, i + 1),
        }
    }
}

fn find_pattern(s: &[char], t: &[char]) -> (r: Option<usize>)
    ensures
        match r {
            Some(i) => find_from(s@, t@, 0) == Some(i as int) && i + t.len() <= s.len(),
            None => find_from(s@, t@, 0) is None,
        },
{
    let mut i: usize = 0;
    while i < s.len() && t.len() <= s.len() - i
        invariant
            i <= s.len(),
            find_from(s@, t@, i as int) == find_from(s@, t@, 0),
        decreases s.len() - i,
    {
        if crate::text::occurs_at_exec(s, t, i) {
            return Some(i);
        }
        i = i + 1;
    }
    if t.len() <= s.len() - i && crate::text::occurs_at_exec(s, t, i) {
        assert(find_from(s@, t@, i as int) == Some(i as int));
        Some(i)
    } else {
        if t.len() == 0 {
            assert(s@.subrange(i as int, i as int) =~= t@);
        }
        assert(find_from(s@, t@, i as int) is None);
        None
    }
}

fn vdf_path_exec(l: &[char]) -> (r: Option<Vec<char>>)
    ensures
        match r {
            Some(p) => vdf_path(l@) == Some(p@),
            None => vdf_path(l@) is None,
        },
{
    let key = chars_of("\"path\"");
    proof {
        reveal_strlit("\"path\"");
    }
    match find_pattern(l, key.as_slice()) {
        None => None,
        Some(idx) => {
            let rest = slice_chars(l, idx + 6, l.len());
            let s = crate::text::find_char(rest.as_slice(), '"', 0);
            if s >= rest.len() {
                return None;
            }
            let tail = slice_chars(rest.as_slice(), s + 1, rest.len());
            let e = crate::text::find_char(tail.as_slice(), '"', 0);
            if e >= tail.len() || e == 0 {
                return None;
            }
            Some(slice_chars(tail.as_slice(), 0, e))
        },
    }
}

/// The Steam library paths listed in the text of `libraryfolders.vdf`.
pub fn regex_literal_path(text: &str) -> (r: Vec<String>)
    ensures
        crate::cookie::str_views(r@) == vdf_paths_from(text_lines(text@), 0),
{
    let lines = lines_of(text);
    let ghost ls = views(lines@);
    let mut out: Vec<String> = Vec::new();
    let mut i: usize = 0;
    while i < lines.len()
        invariant
            i <= lines.len(),
            ls == views(lines@),
            ls == text_lines(text@),
            vdf_paths_from(ls, 0) == crate::cookie::str_views(out@) + vdf_paths_from(ls, i as int),
        decreases lines.len() - i,
    {
        assert(ls[i as int] == lines@[i as int]@);
        match vdf_path_exec(lines[i].as_slice()) {
            Some(p) => {
                let ghost before = crate::cookie::str_views(out@);
                out.push(string_of(p.as_slice()));
                proof {
                    assert(crate::cookie::str_views(out@) =~= before.push(p@));
                    assert(before + (seq![p@] + vdf_paths_from(ls, i + 1)) =~= crate::cookie::str_views(out@) + vdf_paths_from(ls, i + 1));
                }
            },
            None => {},
        }
        i = i + 1;
    }
    assert(crate::cookie::str_views(out@) + Seq::<Seq<char>>::empty() =~= crate::cookie::str_views(out@));
    out
}

// ── control commands ───────────────────────────────────────────────────

/// The command-line control verb of a front-end action.
pub open spec fn control_verb(action: Seq<char>) -> Option<Seq<char>> {
    if action == "play"@ {
        Some("play"@)
    } else if action == "pause"@ {
        Some("pause"@)
    } else if action == "mute"@ {
        Some("mute"@)
    } else if action == "unmute"@ {
        Some("unmute"@)
    } else if action == "close"@ {
        Some("closeWallpaper"@)
    } else {
        None
    }
}

/// The control verb of an action, or the refusal of an unknown one.
pub fn we_control_verb(action: &str) -> (r: Result<String, String>)
    ensures
        match control_verb(action@) {
            Some(v) => r matches Ok(s) && s@ == v,
            None => r matches Err(m) && m@ == "不支持的 WE 控制动作: "@ + action@,
        },
{
    if str_eq(action, "play") {
        Ok(owned("play"))
    } else if str_eq(action, "pause") {
        Ok(owned("pause"))
    } else if str_eq(action, "mute") {
        Ok(owned("mute"))
    } else if str_eq(action, "unmute") {
        Ok(owned("unmute"))
    } else if str_eq(action, "close") {
        Ok(owned("closeWallpaper"))
    } else {
        let mut m = chars_of("不支持的 WE 控制动作: ");
        push_str(&mut m, action);
        Err(string_of(m.as_slice()))
    }
}

/// The arguments that open a wallpaper in the background window.
pub fn open_wallpaper_args(project_json: &str) -> (r: Vec<String>)
    ensures
        crate::cookie::str_views(r@) == seq![
            "-control"@,
            "openWallpaper"@,
            "-file"@,
            project_json@,
            "-playInWindow"@,
            "MusicPlayerBG"@,
            "-width"@,
            "1280"@,
            "-height"@,
            "720"@,
            "-borderless"@,
        ],
{
    let r = vec![
        owned("-control"),
        owned("openWallpaper"),
        owned("-file"),
        owned(project_json),
        owned("-playInWindow"),
        owned("MusicPlayerBG"),
        owned("-width"),
        owned("1280"),
        owned("-height"),
        owned("720"),
        owned("-borderless"),
    ];
    assert(crate::cookie::str_views(r@) =~= seq![
        "-control"@,
        "openWallpaper"@,
        "-file"@,
        project_json@,
        "-playInWindow"@,
        "MusicPlayerBG"@,
        "-width"@,
        "1280"@,
        "-height"@,
        "720"@,
        "-borderless"@,
    ]);
    r
}

// ── preview images ─────────────────────────────────────────────────────

/// The image type of a preview file, by its extension in ASCII lower case.
pub open spec fn preview_mime_spec(path: Seq<char>) -> Option<Seq<char>> {
    match crate::cover::path_extension(path) {
        None => None,
        Some(e) => {
            let l = ascii_lower_seq(e);
            if l == "jpg"@ || l == "jpeg"@ {
                Some("image/jpeg"@)
            } else if l == "png"@ {
                Some("image/png"@)
            } else if l == "gif"@ {
                Some("image/gif"@)
            } else if l == "webp"@ {
                Some("image/webp"@)
            } else if l == "bmp"@ {
                Some("image/bmp"@)
            } else {
                None
            }
        },
    }
}

/// The image type of the preview file at `path`, if it is a known image.
pub fn preview_mime(path: &str) -> (r: Option<String>)
    ensures
        match r {
            Some(m) => preview_mime_spec(path@) == Some(m@),
            None => preview_mime_spec(path@) is None,
        },
{
    match path_extension_exec(path) {
        None => None,
        Some(e) => {
            let l = ascii_lowercase(e.as_str());
            let ls = string_of(l.as_slice());
            let s = ls.as_str();
            if str_eq(s, "jpg") || str_eq(s, "jpeg") {
                Some(owned("image/jpeg"))
            } else if str_eq(s, "png") {
                Some(owned("image/png"))
            } else if str_eq(s, "gif") {
                Some(owned("image/gif"))
            } else if str_eq(s, "webp") {
                Some(owned("image/webp"))
            } else if str_eq(s, "bmp") {
                Some(owned("image/bmp"))
            } else {
                None
            }
        },
    }
}

/// A `data:` address holding `bytes` of the image type `mime` in base64.
pub fn data_url(mime: &str, bytes: &[u8]) -> (r: String)
    ensures
        r@ == "data:"@ + mime@ + ";base64,"@ + base64_spec(bytes@),
{
    let mut out = chars_of("data:");
    push_str(&mut out, mime);
    push_str(&mut out, ";base64,");
    let b = base64_standard(bytes);
    push_str(&mut out, b.as_str());
    string_of(out.as_slice())
}

// ── wallpaper records ──────────────────────────────────────────────────

/// A wallpaper found in a Wallpaper Engine folder.
pub struct WeWallpaper {
    pub title: String,
    /// The wallpaper type (`scene`, `video`, `web`, ...).
    pub wallpaper_type: String,
    /// The preview image as a `data:` address.
    pub preview: Option<String>,
    /// The path of the wallpaper's `project.json`.
    pub project_json: String,
    /// The wallpaper's main file, relative to its folder.
    pub file: Option<String>,
}

/// What the front end learns about Wallpaper Engine.
pub struct WeStatus {
    pub available: bool,
    pub running: bool,
    pub exe: Option<String>,
}

/// The record shown for a wallpaper folder whose `project.json` cannot be
/// read.
pub fn placeholder_wallpaper(project_json: &str) -> (r: WeWallpaper)
    ensures
        r.title@ == "（壁纸数据缺失）"@,
        r.wallpaper_type@ == Seq::<char>::empty(),
        r.preview is None,
        r.project_json@ == project_json@,
        r.file is None,
{
    proof {
        reveal_strlit("");
    }
    WeWallpaper {
        title: owned("（壁纸数据缺失）"),
        wallpaper_type: owned(""),
        preview: None,
        project_json: owned(project_json),
        file: None,
    }
}

/// The record of a wallpaper read from the text of its `project.json`: the
/// title (`未命名壁纸` when absent), the type (empty when absent) and the main
/// file; `None` when the text is not JSON.
pub open spec fn wallpaper_fields(text: Seq<char>) -> Option<(Seq<char>, Seq<char>, Option<Seq<char>>)> {
    let b = vstd::utf8::encode_utf8(text);
    match json_field(b, "title"@) {
        None => None,
        Some(title) => Some((
            match title {
                Some(t) => t,
                None => "未命名壁纸"@,
            },
            match json_field(b, "type"@) {
                Some(Some(t)) => t,
                _ => Seq::empty(),
            },
            match json_field(b, "file"@) {
                Some(Some(f)) => Some(f),
                _ => None,
            },
        )),
    }
}

/// The record of the wallpaper whose `project.json` at `project_json` has the
/// text `text` (`None` when it could not be read) and whose preview image is
/// `preview`: read from the text when it is JSON, the placeholder otherwise.
pub fn wallpaper_entry(text: Option<&str>, project_json: &str, preview: Option<String>) -> (r: WeWallpaper)
    ensures
        r.project_json@ == project_json@,
        match text {
            Some(t) => match wallpaper_fields(t@) {
                Some((title, kind, file)) => r.title@ == title && r.wallpaper_type@ == kind
                    && r.preview == preview && match file {
                    Some(f) => r.file matches Some(g) && g@ == f,
                    None => r.file is None,
                },
                None => r.title@ == "（壁纸数据缺失）"@ && r.preview is None && r.file is None,
            },
            None => r.title@ == "（壁纸数据缺失）"@ && r.preview is None && r.file is None,
        },
{
    let t = match text {
        Some(t) => t,
        None => {
            return placeholder_wallpaper(project_json);
        },
    };
    let b = t.as_bytes();
    let title = match json_string_field(b, "title") {
        None => {
            return placeholder_wallpaper(project_json);
        },
        Some(Some(s)) => s,
        Some(None) => owned("未命名壁纸"),
    };
    let kind = match json_string_field(b, "type") {
        Some(Some(s)) => s,
        _ => {
            proof {
                reveal_strlit("");
            }
            owned("")
        },
    };
    let file = match json_string_field(b, "file") {
        Some(Some(s)) => Some(s),
        _ => None,
    };
    WeWallpaper { title, wallpaper_type: kind, preview, project_json: owned(project_json), file }
}

/// The string field `key` of a wallpaper's `project.json` text, when the text
/// is JSON and the field is a string.
pub open spec fn project_field(text: Seq<char>, key: Seq<char>) -> Option<Seq<char>> {
    match json_field(vstd::utf8::encode_utf8(text), key) {
        Some(Some(v)) => Some(v),
        _ => None,
    }
}

fn project_string(text: &str, key: &str) -> (r: Option<String>)
    ensures
        match r {
            Some(v) => project_field(text@, key@) == Some(v@),
            None => project_field(text@, key@) is None,
        },
{
    match json_string_field(text.as_bytes(), key) {
        Some(Some(v)) => Some(v),
        _ => None,
    }
}

/// The preview image named by a wallpaper's `project.json` text (its
/// `preview` string), relative to the wallpaper's folder.
pub fn project_preview(text: &str) -> (r: Option<String>)
    ensures
        match r {
            Some(p) => project_field(text@, "preview"@) == Some(p@),
            None => project_field(text@, "preview"@) is None,
        },
{
    project_string(text, "preview")
}

/// The main file named by a wallpaper's `project.json` text (its `file`
/// string), relative to the wallpaper's folder.
pub fn project_file(text: &str) -> (r: Option<String>)
    ensures
        match r {
            Some(f) => project_field(text@, "file"@) == Some(f@),
            None => project_field(text@, "file"@) is None,
        },
{
    project_string(text, "file")
}

} // verus!
