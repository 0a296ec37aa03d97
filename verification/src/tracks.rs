//! The song, playlist and radio records shown by the front end, built from
//! the fields that the Netease and QQ Music replies carry. Each reply field
//! may appear under several names; the caller lists what it found under each
//! name, in order of preference, and the first one present is taken.
use vstd::prelude::*;
use crate::cookie::str_views;
use crate::qq::{qq_album_cover, qq_photo_url};
use crate::text::{chars_of, join_chars, join_seq, owned, push_chars, push_str, string_of, views};

verus! {

/// The first present text among the candidates.
pub open spec fn first_some(c: Seq<Option<String>>) -> Option<Seq<char>>
    decreases c.len(),
{
    if c.len() == 0 {
        None
    } else {
        match c[0] {
            Some(s) => Some(s@),
            None => first_some(c.drop_first()),
        }
    }
}

/// The first present text among the candidates, or `default`.
pub open spec fn first_or(c: Seq<Option<String>>, default: Seq<char>) -> Seq<char> {
    match first_some(c) {
        Some(s) => s,
        None => default,
    }
}

/// The first present text among the candidates, or `default`.
pub fn pick_text(c: &Vec<Option<String>>, default: &str) -> (r: String)
    ensures
        r@ == first_or(c@, default@),
{
    let mut i: usize = 0;
    assert(c@.skip(0) =~= c@);
    while i < c.len()
        invariant
            i <= c.len(),
            first_some(c@.skip(i as int)) == first_some(c@),
        decreases c.len() - i,
    {
        proof {
            assert(c@.skip(i as int).drop_first() =~= c@.skip(i + 1));
            assert(c@.skip(i as int)[0] == c@[i as int]);
        }
        match &c[i] {
            Some(s) => {
                return s.clone();
            },
            None => {},
        }
        i = i + 1;
    }
    assert(c@.skip(i as int) =~= Seq::<Option<String>>::empty());
    owned(default)
}

/// The first present number among the candidates, or `default`.
pub open spec fn first_num(c: Seq<Option<i64>>, default: i64) -> i64
    decreases c.len(),
{
    if c.len() == 0 {
        default
    } else {
        match c[0] {
            Some(n) => n,
            None => first_num(c.drop_first(), default),
        }
    }
}

/// The first present number among the candidates, or `default`.
pub fn pick_number(c: &Vec<Option<i64>>, default: i64) -> (r: i64)
    ensures
        r == first_num(c@, default),
{
    let mut i: usize = 0;
    assert(c@.skip(0) =~= c@);
    while i < c.len()
        invariant
            i <= c.len(),
            first_num(c@.skip(i as int), default) == first_num(c@, default),
        decreases c.len() - i,
    {
        proof {
            assert(c@.skip(i as int).drop_first() =~= c@.skip(i + 1));
            assert(c@.skip(i as int)[0] == c@[i as int]);
        }
        match c[i] {
            Some(n) => {
                return n;
            },
            None => {},
        }
        i = i + 1;
    }
    assert(c@.skip(i as int) =~= Seq::<Option<i64>>::empty());
    default
}

/// The names of the artists that have one (empty names dropped), in order.
pub open spec fn named(names: Seq<Seq<char>>) -> Seq<Seq<char>>
    decreases names.len(),
{
    if names.len() == 0 {
        Seq::empty()
    } else if names.last().len() > 0 {
        named(names.drop_last()).push(names.last())
    } else {
        named(names.drop_last())
    }
}

/// The non-empty names among `names`, in order.
pub fn non_empty_names(names: &Vec<String>) -> (r: Vec<String>)
    ensures
        str_views(r@) == named(str_views(names@)),
{
    let mut out: Vec<String> = Vec::new();
    let mut i: usize = 0;
    while i < names.len()
        invariant
            i <= names.len(),
            str_views(out@) == named(str_views(names@).take(i as int)),
        decreases names.len() - i,
    {
        let ghost v = str_views(names@);
        proof {
            assert(v.take(i + 1).drop_last() =~= v.take(i as int));
            assert(v.take(i + 1).last() == names@[i as int]@);
        }
        if chars_of(names[i].as_str()).len() > 0 {
            let ghost before = str_views(out@);
            out.push(names[i].clone());
            assert(str_views(out@) =~= before.push(names@[i as int]@));
        }
        i = i + 1;
    }
    assert(str_views(names@).take(names.len() as int) =~= str_views(names@));
    out
}

/// Names joined with ` / `.
pub fn join_names(names: &Vec<String>) -> (r: String)
    ensures
        r@ == join_seq(str_views(names@), " / "@),
{
    let mut parts: Vec<Vec<char>> = Vec::new();
    let mut i: usize = 0;
    while i < names.len()
        invariant
            i <= names.len(),
            views(parts@) =~= str_views(names@).take(i as int),
        decreases names.len() - i,
    {
        let ghost before = views(parts@);
        parts.push(chars_of(names[i].as_str()));
        assert(views(parts@) =~= before.push(names@[i as int]@));
        assert(str_views(names@).take(i + 1) =~= str_views(names@).take(i as int).push(names@[i as int]@));
        i = i + 1;
    }
    assert(str_views(names@).take(names.len() as int) =~= str_views(names@));
    let sep = chars_of(" / ");
    let j = join_chars(&parts, sep.as_slice());
    string_of(j.as_slice())
}

// ── QQ Music songs ─────────────────────────────────────────────────────

/// What a QQ Music reply says of a song, each field as its candidates in
/// order of preference (the song's own field names first, then those of the
/// playlist entry it came from).
pub struct QqTrackFields {
    /// `mid`, `songmid`, the entry's `mid`.
    pub mid: Vec<Option<String>>,
    /// `album.mid`, `album.pmid`, `albummid`.
    pub album_mid: Vec<Option<String>>,
    /// `album.name`, `album.title`, `albumname`.
    pub album_name: Vec<Option<String>>,
    /// The names of the singers (`name`, else `title`, else empty).
    pub singer_names: Vec<String>,
    /// `singername`, the entry's `artist`.
    pub artist_text: Vec<Option<String>>,
    /// `file.media_mid`, `strMediaMid`.
    pub media_mid: Vec<Option<String>>,
    /// `id`, `songid`, the entry's `qqId`, as text.
    pub qq_id: Vec<Option<String>>,
    /// `name`, `title`, `songname`, the entry's `name`.
    pub name: Vec<Option<String>>,
    /// `interval`, in seconds.
    pub interval: Option<i64>,
    /// `pay.pay_play`.
    pub pay_play: Option<i64>,
}

/// A QQ Music song as the front end shows it.
pub struct QqTrack {
    /// The song's `mid`, or its numeric id when it has none.
    pub id: String,
    pub qq_id: String,
    pub mid: String,
    pub media_mid: String,
    pub name: String,
    /// The singers joined with ` / `, or the song's singer text when it
    /// lists no singer.
    pub artist: String,
    /// The singers that have a name (the caller passes the entry's artist
    /// list on when this is empty).
    pub artists: Vec<String>,
    pub album: String,
    pub album_mid: String,
    /// The album cover at 300 pixels.
    pub cover: String,
    /// The length in milliseconds.
    pub duration: i64,
    /// 1 for a paid song, 0 otherwise.
    pub fee: i64,
}

/// The song's length fits in milliseconds.
pub open spec fn interval_fits(f: QqTrackFields) -> bool {
    match f.interval {
        Some(s) => -9223372036854775 <= s <= 9223372036854775,
        None => true,
    }
}

/// The record of a QQ Music song.
pub fn map_qq_track(f: &QqTrackFields) -> (r: QqTrack)
    requires
        interval_fits(*f),
    ensures
        r.mid@ == first_or(f.mid@, Seq::empty()),
        r.qq_id@ == first_or(f.qq_id@, Seq::empty()),
        r.id@ == (if first_or(f.mid@, Seq::empty()).len() > 0 {
            first_or(f.mid@, Seq::empty())
        } else {
            first_or(f.qq_id@, Seq::empty())
        }),
        r.media_mid@ == first_or(f.media_mid@, Seq::empty()),
        r.name@ == first_or(f.name@, Seq::empty()),
        str_views(r.artists@) == named(str_views(f.singer_names@)),
        r.artist@ == (if named(str_views(f.singer_names@)).len() > 0 {
            join_seq(named(str_views(f.singer_names@)), " / "@)
        } else {
            first_or(f.artist_text@, Seq::empty())
        }),
        r.album@ == first_or(f.album_name@, Seq::empty()),
        r.album_mid@ == first_or(f.album_mid@, Seq::empty()),
        r.cover@ == qq_photo_url("T002"@, first_or(f.album_mid@, Seq::empty()), 300),
        r.duration == (match f.interval {
            Some(s) => s * 1000,
            None => 0,
        }),
        r.fee == (match f.pay_play {
            Some(p) => if p != 0 {
                1int
            } else {
                0int
            },
            None => 0int,
        }),
{
    proof {
        reveal_strlit("");
    }
    let mid = pick_text(&f.mid, "");
    let qq_id = pick_text(&f.qq_id, "");
    let id = if chars_of(mid.as_str()).len() > 0 {
        mid.clone()
    } else {
        qq_id.clone()
    };
    let artists = non_empty_names(&f.singer_names);
    let artist = if artists.len() > 0 {
        join_names(&artists)
    } else {
        pick_text(&f.artist_text, "")
    };
    let album_mid = pick_text(&f.album_mid, "");
    let cover = qq_album_cover(album_mid.as_str(), 300);
    let duration: i64 = match f.interval {
        Some(s) => s * 1000,
        None => 0,
    };
    let fee: i64 = match f.pay_play {
        Some(p) => if p != 0 {
            1
        } else {
            0
        },
        None => 0,
    };
    QqTrack {
        id,
        qq_id,
        mid,
        media_mid: pick_text(&f.media_mid, ""),
        name: pick_text(&f.name, ""),
        artist,
        artists,
        album: pick_text(&f.album_name, ""),
        album_mid,
        cover,
        duration,
        fee,
    }
}

/// A song is listed only with a name and an id.
pub fn is_listed_track(t: &QqTrack) -> (r: bool)
    ensures
        r == (t.name@.len() > 0 && t.id@.len() > 0),
{
    chars_of(t.name.as_str()).len() > 0 && chars_of(t.id.as_str()).len() > 0
}

/// The number of songs asked for on an artist page: the request's limit
/// clamped to 10..=80.
pub fn artist_song_limit(limit: i64) -> (r: i64)
    ensures
        r == (if limit < 10 {
            10
        } else if limit > 80 {
            80
        } else {
            limit
        }),
{
    if limit < 10 {
        10
    } else if limit > 80 {
        80
    } else {
        limit
    }
}

/// The portrait of an artist: the one the reply gives, else the singer
/// picture at 300 pixels.
pub fn artist_avatar(given: &str, mid: &str) -> (r: String)
    ensures
        r@ == (if given@.len() > 0 {
            given@
        } else {
            qq_photo_url("T001"@, mid@, 300)
        }),
{
    if chars_of(given).len() > 0 {
        owned(given)
    } else {
        crate::qq::qq_singer_avatar(mid, 300)
    }
}

// ── playlists and radios ───────────────────────────────────────────────

/// A playlist as the front end shows it.
pub struct PlaylistSummary {
    pub id: String,
    pub name: String,
    pub cover: String,
    pub track_count: i64,
    pub play_count: i64,
    pub creator: String,
}

/// What a reply says of a playlist, each field as its candidates in order.
pub struct PlaylistFields {
    pub id: Vec<Option<String>>,
    pub name: Vec<Option<String>>,
    pub cover: Vec<Option<String>>,
    pub track_count: Vec<Option<i64>>,
    pub play_count: Vec<Option<i64>>,
    pub creator: Vec<Option<String>>,
}

/// The record of a playlist; a missing creator is shown as
/// `default_creator`.
pub fn map_playlist(f: &PlaylistFields, default_creator: &str) -> (r: PlaylistSummary)
    ensures
        r.id@ == first_or(f.id@, Seq::empty()),
        r.name@ == first_or(f.name@, Seq::empty()),
        r.cover@ == first_or(f.cover@, Seq::empty()),
        r.track_count == first_num(f.track_count@, 0),
        r.play_count == first_num(f.play_count@, 0),
        r.creator@ == first_or(f.creator@, default_creator@),
{
    proof {
        reveal_strlit("");
    }
    PlaylistSummary {
        id: pick_text(&f.id, ""),
        name: pick_text(&f.name, ""),
        cover: pick_text(&f.cover, ""),
        track_count: pick_number(&f.track_count, 0),
        play_count: pick_number(&f.play_count, 0),
        creator: pick_text(&f.creator, default_creator),
    }
}

/// The creator shown for a QQ Music playlist without one.
pub fn qq_default_creator() -> (r: String)
    ensures
        r@ == "QQ 音乐"@,
{
    owned("QQ 音乐")
}

/// Whether a QQ Music playlist list is the user's collection rather than
/// the playlists the user made.
pub fn is_collection(kind: &str) -> (r: bool)
    ensures
        r == (kind@ == "collect"@),
{
    crate::text::str_eq(kind, "collect")
}

/// The first `a` items of `xs` followed by the first `b` items of `ys`, at
/// most `n` in all.
pub open spec fn merge_take<T>(xs: Seq<T>, a: nat, ys: Seq<T>, b: nat, n: nat) -> Seq<T> {
    let l = xs.take(if xs.len() < a { xs.len() as int } else { a as int }) + ys.take(
        if ys.len() < b {
            ys.len() as int
        } else {
            b as int
        },
    );
    l.take(if l.len() < n { l.len() as int } else { n as int })
}

/// The playlists of the discovery page: up to eight recommended playlists
/// and up to six personal ones, at most ten in all.
pub fn discover_playlists(recommended: Vec<PlaylistSummary>, personal: Vec<PlaylistSummary>) -> (r: Vec<PlaylistSummary>)
    ensures
        r@ == merge_take(recommended@, 8, personal@, 6, 10),
{
    let mut out: Vec<PlaylistSummary> = Vec::new();
    let mut xs = recommended;
    let mut ys = personal;
    let ghost x0 = xs@;
    let ghost y0 = ys@;
    if xs.len() > 8 {
        xs.truncate(8);
    }
    if ys.len() > 6 {
        ys.truncate(6);
    }
    let ghost xt = xs@;
    let ghost yt = ys@;
    assert(xt =~= x0.take(if x0.len() < 8 { x0.len() as int } else { 8 }));
    assert(yt =~= y0.take(if y0.len() < 6 { y0.len() as int } else { 6 }));
    out.append(&mut xs);
    out.append(&mut ys);
    assert(out@ =~= xt + yt);
    let ghost full = out@;
    if out.len() > 10 {
        out.truncate(10);
    }
    assert(out@ =~= full.take(if full.len() < 10 { full.len() as int } else { 10 }));
    out
}

/// Some playlist of `ps` has the id `id`.
pub open spec fn has_playlist_id(ps: Seq<PlaylistSummary>, id: Seq<char>) -> bool {
    exists|i: int| 0 <= i < ps.len() && (#[trigger] ps[i]).id@ == id
}

/// The playlists without repeats: a playlist is kept when its id is not
/// empty and no kept playlist before it has the same id.
pub open spec fn distinct_playlists(ps: Seq<PlaylistSummary>) -> Seq<PlaylistSummary>
    decreases ps.len(),
{
    if ps.len() == 0 {
        Seq::empty()
    } else {
        let prev = distinct_playlists(ps.drop_last());
        let p = ps.last();
        if p.id@.len() > 0 && !has_playlist_id(prev, p.id@) {
            prev.push(p)
        } else {
            prev
        }
    }
}

fn copy_playlist(p: &PlaylistSummary) -> (r: PlaylistSummary)
    ensures
        r == *p,
{
    PlaylistSummary {
        id: p.id.clone(),
        name: p.name.clone(),
        cover: p.cover.clone(),
        track_count: p.track_count,
        play_count: p.play_count,
        creator: p.creator.clone(),
    }
}

/// The playlists of a QQ Music account: those it made, then those it
/// collected, each id once, and none without an id.
pub fn account_playlists(created: Vec<PlaylistSummary>, collected: Vec<PlaylistSummary>) -> (r: Vec<PlaylistSummary>)
    ensures
        r@ == distinct_playlists(created@ + collected@),
{
    let mut all = created;
    let mut more = collected;
    let ghost whole = all@ + more@;
    all.append(&mut more);
    assert(all@ =~= whole);
    let mut out: Vec<PlaylistSummary> = Vec::new();
    let mut i: usize = 0;
    while i < all.len()
        invariant
            i <= all.len(),
            out@ == distinct_playlists(all@.take(i as int)),
        decreases all.len() - i,
    {
        proof {
            assert(all@.take(i + 1).drop_last() =~= all@.take(i as int));
            assert(all@.take(i + 1).last() == all@[i as int]);
        }
        let id = chars_of(all[i].id.as_str());
        let mut found = false;
        let mut j: usize = 0;
        while j < out.len()
            invariant
                j <= out.len(),
                i < all.len(),
                id@ == all@[i as int].id@,
                found ==> has_playlist_id(out@, id@),
                !found ==> forall|x: int| 0 <= x < j ==> out@[x].id@ != id@,
            decreases out.len() - j,
        {
            if crate::text::str_eq(out[j].id.as_str(), all[i].id.as_str()) {
                assert(out@[j as int].id@ == id@);
                found = true;
            }
            j = j + 1;
        }
        if id.len() > 0 && !found {
            out.push(copy_playlist(&all[i]));
        }
        i = i + 1;
    }
    assert(all@.take(all.len() as int) =~= all@);
    out
}

/// Each playlist of `account_playlists` has an id, no two share one, and
/// every input playlist with an id is represented by the first one carrying
/// that id.
pub proof fn lemma_distinct_playlists(ps: Seq<PlaylistSummary>)
    ensures
        forall|i: int| 0 <= i < distinct_playlists(ps).len() ==> (#[trigger] distinct_playlists(ps)[i]).id@.len() > 0,
        forall|i: int, j: int|
            0 <= i < j < distinct_playlists(ps).len() ==> (#[trigger] distinct_playlists(ps)[i]).id@
                != (#[trigger] distinct_playlists(ps)[j]).id@,
        forall|k: int| 0 <= k < ps.len() && (#[trigger] ps[k]).id@.len() > 0 ==> has_playlist_id(distinct_playlists(ps), ps[k].id@),
    decreases ps.len(),
{
    if ps.len() > 0 {
        let prev = distinct_playlists(ps.drop_last());
        lemma_distinct_playlists(ps.drop_last());
        let d = distinct_playlists(ps);
        assert forall|k: int| 0 <= k < ps.len() && (#[trigger] ps[k]).id@.len() > 0 implies has_playlist_id(d, ps[k].id@) by {
            if k < ps.len() - 1 {
                assert(ps.drop_last()[k] == ps[k]);
                let w = choose|w: int| 0 <= w < prev.len() && (#[trigger] prev[w]).id@ == ps[k].id@;
                assert(d[w] == prev[w]);
            } else {
                let p = ps.last();
                if !has_playlist_id(prev, p.id@) {
                    assert(d[prev.len() as int] == p);
                } else {
                    let w = choose|w: int| 0 <= w < prev.len() && (#[trigger] prev[w]).id@ == p.id@;
                    assert(d[w] == prev[w]);
                }
            }
        }
        assert forall|i: int, j: int| 0 <= i < j < d.len() implies (#[trigger] d[i]).id@ != (#[trigger] d[j]).id@ by {
            if j == prev.len() {
                assert(d[i] == prev[i]);
            } else {
                assert(d[i] == prev[i]);
                assert(d[j] == prev[j]);
            }
        }
        assert forall|i: int| 0 <= i < d.len() implies (#[trigger] d[i]).id@.len() > 0 by {
            if i < prev.len() {
                assert(d[i] == prev[i]);
            }
        }
    }
}

/// A podcast radio as the discovery page shows it.
pub struct RadioSummary {
    pub id: String,
    pub name: String,
    pub cover: String,
    pub desc: String,
    pub dj_name: String,
    pub category: String,
    pub program_count: i64,
    pub sub_count: i64,
}

/// What a reply says of a podcast radio, each field as its candidates in
/// order.
pub struct RadioFields {
    pub id: Vec<Option<String>>,
    pub name: Vec<Option<String>>,
    pub cover: Vec<Option<String>>,
    pub desc: Vec<Option<String>>,
    pub dj_name: Option<String>,
    pub category: Vec<Option<String>>,
    pub program_count: Option<i64>,
    pub sub_count: Option<i64>,
}

/// The record of a podcast radio.
pub fn map_podcast_radio(f: &RadioFields) -> (r: RadioSummary)
    ensures
        r.id@ == first_or(f.id@, Seq::empty()),
        r.name@ == first_or(f.name@, Seq::empty()),
        r.cover@ == first_or(f.cover@, Seq::empty()),
        r.desc@ == first_or(f.desc@, Seq::empty()),
        r.dj_name@ == (match f.dj_name {
            Some(d) => d@,
            None => Seq::empty(),
        }),
        r.category@ == first_or(f.category@, Seq::empty()),
        r.program_count == (match f.program_count {
            Some(n) => n,
            None => 0,
        }),
        r.sub_count == (match f.sub_count {
            Some(n) => n,
            None => 0,
        }),
{
    proof {
        reveal_strlit("");
    }
    RadioSummary {
        id: pick_text(&f.id, ""),
        name: pick_text(&f.name, ""),
        cover: pick_text(&f.cover, ""),
        desc: pick_text(&f.desc, ""),
        dj_name: match &f.dj_name {
            Some(d) => d.clone(),
            None => owned(""),
        },
        category: pick_text(&f.category, ""),
        program_count: match f.program_count {
            Some(n) => n,
            None => 0,
        },
        sub_count: match f.sub_count {
            Some(n) => n,
            None => 0,
        },
    }
}

// ── Netease songs ──────────────────────────────────────────────────────

/// What a Netease reply says of a song.
pub struct NeteaseSongFields {
    /// The names of the artists (`ar`, else `artists`).
    pub artist_names: Vec<String>,
    pub name: Option<String>,
    /// `al.name`, `album.name`.
    pub album: Vec<Option<String>>,
    /// `al.picUrl`, `al.coverUrl`, `album.picUrl`.
    pub cover: Vec<Option<String>>,
    /// `dt`, `duration`.
    pub duration: Vec<Option<i64>>,
}

/// A Netease song as the front end shows it.
pub struct NeteaseSong {
    pub name: String,
    /// The artists that have a name, joined with ` / `.
    pub artist: String,
    pub artists: Vec<String>,
    pub album: String,
    pub cover: String,
    pub duration: i64,
}

/// The record of a Netease song.
pub fn map_netease_song(f: &NeteaseSongFields) -> (r: NeteaseSong)
    ensures
        r.name@ == (match f.name {
            Some(n) => n@,
            None => Seq::empty(),
        }),
        str_views(r.artists@) == named(str_views(f.artist_names@)),
        r.artist@ == join_seq(named(str_views(f.artist_names@)), " / "@),
        r.album@ == first_or(f.album@, Seq::empty()),
        r.cover@ == first_or(f.cover@, Seq::empty()),
        r.duration == first_num(f.duration@, 0),
{
    proof {
        reveal_strlit("");
    }
    let artists = non_empty_names(&f.artist_names);
    let artist = join_names(&artists);
    NeteaseSong {
        name: match &f.name {
            Some(n) => n.clone(),
            None => owned(""),
        },
        artist,
        artists,
        album: pick_text(&f.album, ""),
        cover: pick_text(&f.cover, ""),
        duration: pick_number(&f.duration, 0),
    }
}

} // verus!
