//! The shapes of the online API's requests: the fields sent with Netease
//! `eapi` requests, the login QR picture, the JSON-in-a-string parameters of
//! some Netease endpoints, and the addresses of the QQ Music endpoints.
use vstd::prelude::*;
use crate::cookie::{cookie_value, cookie_value_or_empty, current_millis, parse_cookie_value, push_pad4, request_id};
use crate::cover::base64_spec;
use crate::crypto::{base64_standard, random_below};
use crate::text::{
    chars_of, int_digits, join_chars, join_seq, owned, push_chars, push_dec, push_int,
    push_str, split_on, split_seq, str_eq, string_of, views,
};

verus! {

// ── Netease eapi header ────────────────────────────────────────────────

/// The value of the `__csrf` cookie, or the empty string.
pub fn csrf_token(cookie: &str) -> (r: String)
    ensures
        r@ == cookie_value_or_empty(cookie@, "__csrf"@),
{
    match parse_cookie_value(cookie, "__csrf") {
        Some(v) => v,
        None => {
            proof {
                reveal_strlit("");
            }
            owned("")
        },
    }
}

/// The `header` object that an `eapi` request carries inside its encrypted
/// payload.
pub struct EapiHeader {
    pub os: String,
    pub appver: String,
    pub osver: String,
    pub channel: String,
    pub versioncode: String,
    /// The clock in whole seconds.
    pub buildver: u64,
    pub resolution: String,
    /// The stored `__csrf` cookie (empty when absent).
    pub csrf: String,
    pub request_id: String,
    /// The stored `MUSIC_U` cookie, sent only when present.
    pub music_u: Option<String>,
}

/// `h` is the header of an `eapi` request made with the stored cookie
/// `cookie` at the millisecond clock value `millis` with the random
/// request-id suffix `rand`.
pub open spec fn eapi_header_is(h: EapiHeader, cookie: Seq<char>, millis: u64, rand: u32) -> bool {
    &&& h.os@ == "pc"@
    &&& h.appver@ == "3.1.17.204416"@
    &&& h.osver@ == "Microsoft-Windows-10-Professional-build-19045-64bit"@
    &&& h.channel@ == "netease"@
    &&& h.versioncode@ == "140"@
    &&& h.buildver == millis / 1000
    &&& h.resolution@ == "1920x1080"@
    &&& h.csrf@ == cookie_value_or_empty(cookie, "__csrf"@)
    &&& h.request_id@ == request_id(millis, rand)
    &&& match h.music_u {
        Some(u) => cookie_value(cookie, "MUSIC_U"@) == Some(u@),
        None => cookie_value(cookie, "MUSIC_U"@) is None,
    }
}

/// The `eapi` header for a request made at `millis` with the random suffix
/// `rand`.
pub fn eapi_header_at(cookie: &str, millis: u64, rand: u32) -> (r: EapiHeader)
    ensures
        eapi_header_is(r, cookie@, millis, rand),
{
    let mut id = Vec::new();
    push_dec(&mut id, millis);
    push_str(&mut id, "_");
    push_pad4(&mut id, rand);
    EapiHeader {
        os: owned("pc"),
        appver: owned("3.1.17.204416"),
        osver: owned("Microsoft-Windows-10-Professional-build-19045-64bit"),
        channel: owned("netease"),
        versioncode: owned("140"),
        buildver: millis / 1000,
        resolution: owned("1920x1080"),
        csrf: csrf_token(cookie),
        request_id: string_of(id.as_slice()),
        music_u: parse_cookie_value(cookie, "MUSIC_U"),
    }
}

/// The `eapi` header for a request made now, with a fresh random request-id
/// suffix below 1000.
pub fn eapi_header(cookie: &str) -> (r: EapiHeader)
    ensures
        exists|millis: u64, rand: u32| rand < 1000 && eapi_header_is(r, cookie@, millis, rand),
{
    let millis = current_millis();
    let rand = random_below(1000);
    eapi_header_at(cookie, millis, rand)
}

// ── Netease login QR picture ───────────────────────────────────────────

/// What `qrcode` makes of the text `text` as an SVG picture at least
/// `min_size` pixels wide and high: the UTF-8 bytes of the SVG document, or
/// the message of the encoding error.
pub uninterp spec fn qr_svg(text: Seq<char>, min_size: u32) -> Result<Seq<u8>, Seq<char>>;

/// Encodes `text` with `qrcode::QrCode::new` (its UTF-8 bytes, automatic
/// version, error correction level M) and renders it with the SVG renderer
/// at `min_dimensions(min_size, min_size)`; an encoding error (the data is too
/// long) gives its `Display` text. The contract names the result: the QR
/// encoding is not restated here. The size is bounded because the renderer's
/// `u32` pixel arithmetic (`width + modules - 1`, `modules * unit`) overflows
/// near `u32::MAX`.
#[verifier::external_body]
fn render_qr_svg(text: &str, min_size: u32) -> (r: Result<Vec<u8>, String>)
    requires
        min_size <= 65536,
    ensures
        match r {
            Ok(svg) => qr_svg(text@, min_size) == Ok::<Seq<u8>, Seq<char>>(svg@),
            Err(e) => qr_svg(text@, min_size) == Err::<Seq<u8>, Seq<char>>(e@),
        },
{
    match qrcode::QrCode::new(text.as_bytes()) {
        Ok(code) => Ok(code.render::<qrcode::render::svg::Color>().min_dimensions(min_size, min_size).build().into_bytes()),
        Err(e) => Err(e.to_string()),
    }
}

/// The login address that the Netease QR code carries for the key `key`.
pub open spec fn netease_qr_url(key: Seq<char>) -> Seq<char> {
    "https://music.163.com/login?codekey="@ + key
}

/// The login QR code: the address it carries and the picture as a `data:`
/// address.
pub struct QrPicture {
    pub url: String,
    pub img: String,
}

/// The Netease login QR code for `key`: a 200-pixel SVG picture of the login
/// address, or `QR error: ` and the encoder's message.
pub fn netease_qr_picture(key: &str) -> (r: Result<QrPicture, String>)
    ensures
        match qr_svg(netease_qr_url(key@), 200) {
            Ok(svg) => r matches Ok(p) && p.url@ == netease_qr_url(key@)
                && p.img@ == "data:image/svg+xml;base64,"@ + base64_spec(svg),
            Err(e) => r matches Err(m) && m@ == "QR error: "@ + e,
        },
{
    let mut u = chars_of("https://music.163.com/login?codekey=");
    push_str(&mut u, key);
    let url = string_of(u.as_slice());
    match render_qr_svg(url.as_str(), 200) {
        Ok(svg) => {
            let mut img = chars_of("data:image/svg+xml;base64,");
            let b = base64_standard(svg.as_slice());
            push_str(&mut img, b.as_str());
            Ok(QrPicture { url, img: string_of(img.as_slice()) })
        },
        Err(e) => {
            let mut m = chars_of("QR error: ");
            push_str(&mut m, e.as_str());
            Err(string_of(m.as_slice()))
        },
    }
}

/// What a Netease QR poll code means: codes 800 to 803 come from an
/// authorised poll (the reply's cookie is kept), and 803 is a finished login.
pub struct QrPollStatus {
    pub authorized: bool,
    pub logged_in: bool,
}

/// The meaning of the Netease QR poll code `code`.
pub fn netease_qr_status(code: i64) -> (r: QrPollStatus)
    ensures
        r.authorized == (800 <= code && code <= 803),
        r.logged_in == (code == 803),
{
    QrPollStatus { authorized: 800 <= code && code <= 803, logged_in: code == 803 }
}

// ── parameters that are JSON text ──────────────────────────────────────

/// `["<id>"]`: the song-id list of the player-address request.
pub fn song_id_list(id: i64) -> (r: String)
    ensures
        r@ == "[\""@ + int_digits(id as int) + "\"]"@,
{
    let mut v = chars_of("[\"");
    push_int(&mut v, id);
    push_str(&mut v, "\"]");
    string_of(v.as_slice())
}

/// `[<id>]`: the song-id list of the versioned player-address request.
pub fn song_id_array(id: i64) -> (r: String)
    ensures
        r@ == "["@ + int_digits(id as int) + "]"@,
{
    let mut v = chars_of("[");
    push_int(&mut v, id);
    push_str(&mut v, "]");
    string_of(v.as_slice())
}

/// The `immerseType` sent with a player-address request of quality `level`:
/// `c51` for the `sky` level, none otherwise.
pub fn immerse_type(level: &str) -> (r: Option<String>)
    ensures
        match r {
            Some(t) => level@ == "sky"@ && t@ == "c51"@,
            None => level@ != "sky"@,
        },
{
    if str_eq(level, "sky") {
        Some(owned("c51"))
    } else {
        None
    }
}

/// `{"id":<t>}` for the JSON text `t` of a track id.
pub open spec fn id_object(t: Seq<char>) -> Seq<char> {
    "{\"id\":"@ + t + "}"@
}

/// The `c` parameter of the song-detail request for the track ids whose JSON
/// texts are `ids`.
pub open spec fn id_objects(ids: Seq<Seq<char>>) -> Seq<char> {
    "["@ + join_seq(ids.map_values(|t: Seq<char>| id_object(t)), ","@) + "]"@
}

/// The views of a vector of strings.
pub open spec fn string_views(v: Seq<String>) -> Seq<Seq<char>> {
    v.map_values(|s: String| s@)
}

/// The song-detail query for the page of a playlist's track ids that starts
/// at `offset` and holds at most `limit` ids; `ids` are the JSON texts of all
/// the playlist's track ids. An offset past the end has no page.
pub fn song_detail_query(ids: &Vec<String>, offset: usize, limit: usize) -> (r: String)
    requires
        offset <= ids.len(),
        offset + limit <= usize::MAX,
    ensures
        r@ == id_objects(string_views(ids@).subrange(
            offset as int,
            if offset + limit < ids.len() { offset + limit } else { ids.len() as int },
        )),
{
    let end: usize = if offset + limit < ids.len() { offset + limit } else { ids.len() };
    let mut parts: Vec<Vec<char>> = Vec::new();
    let mut i: usize = offset;
    while i < end
        invariant
            offset <= i <= end <= ids.len(),
            views(parts@) =~= string_views(ids@).subrange(offset as int, i as int).map_values(
                |t: Seq<char>| id_object(t),
            ),
        decreases end - i,
    {
        let mut p = chars_of("{\"id\":");
        push_str(&mut p, ids[i].as_str());
        push_str(&mut p, "}");
        let ghost before = views(parts@);
        parts.push(p);
        assert(views(parts@) =~= before.push(id_object(ids@[i as int]@)));
        i = i + 1;
    }
    let body = join_chars(&parts, chars_of(",").as_slice());
    let mut out = chars_of("[");
    push_chars(&mut out, body.as_slice());
    push_str(&mut out, "]");
    string_of(out.as_slice())
}

/// `{"type":3,"id":<t>}` for one id of a track-add request.
pub open spec fn track_object(t: Seq<char>) -> Seq<char> {
    "{\"type\":3,\"id\":"@ + t + "}"@
}

/// The `tracks` parameter of the track-add request for the comma-separated
/// song ids `tracks` (each piece copied as it stands).
pub open spec fn track_objects(tracks: Seq<char>) -> Seq<char> {
    "["@ + join_seq(split_seq(tracks, seq![',']).map_values(|t: Seq<char>| track_object(t)), ","@) + "]"@
}

/// The `tracks` parameter of the track-add request.
pub fn add_song_tracks(tracks: &str) -> (r: String)
    ensures
        r@ == track_objects(tracks@),
{
    let pieces = split_on(tracks, ',');
    let mut parts: Vec<Vec<char>> = Vec::new();
    let mut i: usize = 0;
    while i < pieces.len()
        invariant
            i <= pieces.len(),
            views(parts@) =~= views(pieces@).take(i as int).map_values(|t: Seq<char>| track_object(t)),
        decreases pieces.len() - i,
    {
        let mut p = chars_of("{\"type\":3,\"id\":");
        push_chars(&mut p, pieces[i].as_slice());
        push_str(&mut p, "}");
        let ghost before = views(parts@);
        parts.push(p);
        assert(views(parts@) =~= before.push(track_object(pieces@[i as int]@)));
        assert(views(pieces@).take(i + 1) =~= views(pieces@).take(i as int).push(pieces@[i as int]@));
        i = i + 1;
    }
    assert(views(pieces@).take(pieces.len() as int) =~= views(pieces@));
    let body = join_chars(&parts, chars_of(",").as_slice());
    let mut out = chars_of("[");
    push_chars(&mut out, body.as_slice());
    push_str(&mut out, "]");
    string_of(out.as_slice())
}

/// The API path of the comments of the song `id`.
pub fn comment_uri(id: i64) -> (r: String)
    ensures
        r@ == "/api/v1/resource/comments/R_SO_4_"@ + int_digits(id as int),
{
    let mut v = chars_of("/api/v1/resource/comments/R_SO_4_");
    push_int(&mut v, id);
    string_of(v.as_slice())
}

/// A downloaded cover as a `data:` address; a reply without a content type
/// is taken for `image/jpeg`.
pub fn cover_data_url(content_type: Option<&str>, bytes: &[u8]) -> (r: String)
    ensures
        r@ == "data:"@ + match content_type {
            Some(t) => t@,
            None => "image/jpeg"@,
        } + ";base64,"@ + base64_spec(bytes@),
{
    let mut v = chars_of("data:");
    match content_type {
        Some(t) => push_str(&mut v, t),
        None => push_str(&mut v, "image/jpeg"),
    }
    push_str(&mut v, ";base64,");
    let b = base64_standard(bytes);
    push_str(&mut v, b.as_str());
    string_of(v.as_slice())
}

// ── QQ Music addresses ─────────────────────────────────────────────────

/// `k=v` for one query parameter (written as it stands, not escaped).
pub open spec fn param_text(p: (String, String)) -> Seq<char> {
    p.0@ + "="@ + p.1@
}

/// The query parameters as `k=v` texts, in order.
pub open spec fn param_texts(ps: Seq<(String, String)>) -> Seq<Seq<char>> {
    ps.map_values(|p: (String, String)| param_text(p))
}

fn param_chars(p: &(String, String)) -> (r: Vec<char>)
    ensures
        r@ == param_text(*p),
{
    let mut v = chars_of(p.0.as_str());
    push_str(&mut v, "=");
    push_str(&mut v, p.1.as_str());
    v
}

fn param_parts(params: &Vec<(String, String)>) -> (r: Vec<Vec<char>>)
    ensures
        views(r@) =~= param_texts(params@),
{
    let mut parts: Vec<Vec<char>> = Vec::new();
    let mut i: usize = 0;
    while i < params.len()
        invariant
            i <= params.len(),
            views(parts@) =~= param_texts(params@.take(i as int)),
        decreases params.len() - i,
    {
        let p = param_chars(&params[i]);
        let ghost before = views(parts@);
        parts.push(p);
        assert(views(parts@) =~= before.push(param_text(params@[i as int])));
        assert(params@.take(i + 1) =~= params@.take(i as int).push(params@[i as int]));
        i = i + 1;
    }
    assert(params@.take(params.len() as int) =~= params@);
    parts
}

/// The address of a `c.y.qq.com` endpoint: the path, `?format=json`, then
/// `&k=v` for each parameter.
pub open spec fn qq_fetch_address(pathname: Seq<char>, ps: Seq<(String, String)>) -> Seq<char> {
    "https://c.y.qq.com"@ + pathname + "?format=json"@ + if ps.len() == 0 {
        Seq::empty()
    } else {
        "&"@ + join_seq(param_texts(ps), "&"@)
    }
}

/// The address of a `c.y.qq.com` endpoint with its query parameters.
pub fn qq_fetch_url(pathname: &str, params: &Vec<(String, String)>) -> (r: String)
    ensures
        r@ == qq_fetch_address(pathname@, params@),
{
    let mut v = chars_of("https://c.y.qq.com");
    push_str(&mut v, pathname);
    push_str(&mut v, "?format=json");
    if params.len() > 0 {
        push_str(&mut v, "&");
        let parts = param_parts(params);
        let q = join_chars(&parts, chars_of("&").as_slice());
        push_chars(&mut v, q.as_slice());
    }
    string_of(v.as_slice())
}

/// `url` followed by `?` and the `k=v` parameters joined with `&` (the bare
/// address when there are none).
pub open spec fn query_address(url: Seq<char>, ps: Seq<(String, String)>) -> Seq<char> {
    if ps.len() == 0 {
        url
    } else {
        url + "?"@ + join_seq(param_texts(ps), "&"@)
    }
}

/// An address with its query parameters.
pub fn query_url(url: &str, params: &Vec<(String, String)>) -> (r: String)
    ensures
        r@ == query_address(url@, params@),
{
    let mut v = chars_of(url);
    if params.len() > 0 {
        push_str(&mut v, "?");
        let parts = param_parts(params);
        let q = join_chars(&parts, chars_of("&").as_slice());
        push_chars(&mut v, q.as_slice());
    }
    string_of(v.as_slice())
}

/// The cover shown with a QQ Music search result (empty without an album).
pub open spec fn qq_search_cover_spec(album_mid: Seq<char>) -> Seq<char> {
    if album_mid.len() == 0 {
        Seq::empty()
    } else {
        "https://y.gtimg.cn/music/photo_new/T002R300x300M000"@ + album_mid + ".jpg"@
    }
}

/// What a QQ Music search reply says of one song, each field as its
/// candidates in order of preference.
pub struct QqSearchFields {
    /// `id`, `songid`.
    pub id: Vec<Option<i64>>,
    /// `mid`, `songmid`.
    pub mid: Vec<Option<String>>,
    /// `name`, `songname`.
    pub name: Vec<Option<String>>,
    /// The names of the singers (empty for a singer without one).
    pub singers: Vec<String>,
    pub album: Option<String>,
    pub album_mid: Option<String>,
    pub interval: Option<i64>,
}

/// A song found by a QQ Music search.
pub struct QqSearchSong {
    pub id: i64,
    pub mid: String,
    pub name: String,
    pub artist: String,
    pub album: String,
    pub cover: String,
    pub duration: i64,
}

/// The value of an optional text, or the empty string.
pub open spec fn text_or_empty(t: Option<String>) -> Seq<char> {
    match t {
        Some(s) => s@,
        None => Seq::empty(),
    }
}

fn take_text(t: &Option<String>) -> (r: String)
    ensures
        r@ == text_or_empty(*t),
{
    match t {
        Some(s) => s.clone(),
        None => {
            proof {
                reveal_strlit("");
            }
            owned("")
        },
    }
}

/// The record of a song found by a QQ Music search.
pub fn map_qq_search_item(f: &QqSearchFields) -> (r: QqSearchSong)
    ensures
        r.id == crate::tracks::first_num(f.id@, 0),
        r.mid@ == crate::tracks::first_or(f.mid@, Seq::empty()),
        r.name@ == crate::tracks::first_or(f.name@, Seq::empty()),
        r.artist@ == join_seq(string_views(f.singers@), ", "@),
        r.album@ == text_or_empty(f.album),
        r.cover@ == qq_search_cover_spec(text_or_empty(f.album_mid)),
        r.duration == match f.interval {
            Some(d) => d,
            None => 0,
        },
{
    proof {
        reveal_strlit("");
    }
    let mut names: Vec<Vec<char>> = Vec::new();
    let mut i: usize = 0;
    while i < f.singers.len()
        invariant
            i <= f.singers.len(),
            views(names@) =~= string_views(f.singers@).take(i as int),
        decreases f.singers.len() - i,
    {
        let ghost before = views(names@);
        names.push(chars_of(f.singers[i].as_str()));
        assert(views(names@) =~= before.push(f.singers@[i as int]@));
        assert(string_views(f.singers@).take(i + 1) =~= string_views(f.singers@).take(i as int).push(f.singers@[i as int]@));
        i = i + 1;
    }
    assert(string_views(f.singers@).take(f.singers.len() as int) =~= string_views(f.singers@));
    let artist = join_chars(&names, chars_of(", ").as_slice());
    let album_mid = take_text(&f.album_mid);
    let am = chars_of(album_mid.as_str());
    let cover = if am.len() == 0 {
        owned("")
    } else {
        let mut c = chars_of("https://y.gtimg.cn/music/photo_new/T002R300x300M000");
        push_chars(&mut c, am.as_slice());
        push_str(&mut c, ".jpg");
        string_of(c.as_slice())
    };
    QqSearchSong {
        id: crate::tracks::pick_number(&f.id, 0),
        mid: crate::tracks::pick_text(&f.mid, ""),
        name: crate::tracks::pick_text(&f.name, ""),
        artist: string_of(artist.as_slice()),
        album: take_text(&f.album),
        cover,
        duration: match f.interval {
            Some(d) => d,
            None => 0,
        },
    }
}

/// The file name of the 96 kbit/s M4A stream of a QQ Music song.
pub fn qq_song_file(media_mid: &str) -> (r: String)
    ensures
        r@ == "C400"@ + media_mid@ + ".m4a"@,
{
    let mut v = chars_of("C400");
    push_str(&mut v, media_mid);
    push_str(&mut v, ".m4a");
    string_of(v.as_slice())
}

/// The stream address of a QQ Music song file: empty without a `vkey`.
pub fn qq_stream_url(filename: &str, vkey: &str, fromtag: i64) -> (r: String)
    ensures
        r@ == if vkey@.len() == 0 {
            Seq::empty()
        } else {
            "https://dl.stream.qqmusic.qq.com/"@ + filename@ + "?vkey="@ + vkey@ + "&guid=0&fromtag="@
                + int_digits(fromtag as int)
        },
{
    let k = chars_of(vkey);
    if k.len() == 0 {
        proof {
            reveal_strlit("");
        }
        return owned("");
    }
    let mut v = chars_of("https://dl.stream.qqmusic.qq.com/");
    push_str(&mut v, filename);
    push_str(&mut v, "?vkey=");
    push_chars(&mut v, k.as_slice());
    push_str(&mut v, "&guid=0&fromtag=");
    push_int(&mut v, fromtag);
    string_of(v.as_slice())
}

/// The song page sent as the referrer of a QQ Music comment request.
pub fn qq_song_page(mid: &str) -> (r: String)
    ensures
        r@ == "https://y.qq.com/n/ryqq/songDetail/"@ + mid@,
{
    let mut v = chars_of("https://y.qq.com/n/ryqq/songDetail/");
    push_str(&mut v, mid);
    string_of(v.as_slice())
}

/// Whether a QQ Music profile reply says the profile cannot be read: its
/// `code` is 1000 or its `result` is 301.
pub fn qq_profile_unavailable(code: Option<i64>, result: Option<i64>) -> (r: bool)
    ensures
        r == (code == Some(1000i64) || result == Some(301i64)),
{
    let a = match code {
        Some(c) => c == 1000,
        None => false,
    };
    let b = match result {
        Some(x) => x == 301,
        None => false,
    };
    a || b
}

/// The text of a QQ Music comment (its first present candidate), or `None`
/// for a comment whose text is empty.
pub fn comment_text(candidates: &Vec<Option<String>>) -> (r: Option<String>)
    ensures
        match r {
            Some(t) => t@ == crate::tracks::first_or(candidates@, Seq::empty()) && t@.len() > 0,
            None => crate::tracks::first_or(candidates@, Seq::empty()).len() == 0,
        },
{
    proof {
        reveal_strlit("");
    }
    let t = crate::tracks::pick_text(candidates, "");
    if chars_of(t.as_str()).len() == 0 {
        None
    } else {
        Some(t)
    }
}

} // verus!
