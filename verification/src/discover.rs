//! The weather radio and discovery lists: the label of a weather code, the
//! mood a weather reading gives, the search seeds of a mood, and the song
//! list clean-up (duplicates and low-signal tracks removed, at most eighteen
//! kept).
use vstd::prelude::*;
use crate::text::{
    chars_of, contains_seq, owned, push_str, spec_lowercase, str_contains, str_eq, string_of,
    to_lowercase,
};

verus! {

// ── weather ────────────────────────────────────────────────────────────

/// The Chinese label of a WMO weather code.
pub open spec fn weather_label_spec(code: i64) -> Seq<char> {
    if code == 0 {
        "晴"@
    } else if code == 1 || code == 2 {
        "少云"@
    } else if code == 3 {
        "阴"@
    } else if code == 45 || code == 48 {
        "雾"@
    } else if code == 51 || code == 53 || code == 55 {
        "毛毛雨"@
    } else if code == 56 || code == 57 || code == 66 || code == 67 {
        "冻雨"@
    } else if code == 61 || code == 63 || code == 65 {
        "雨"@
    } else if code == 71 || code == 73 || code == 75 || code == 77 {
        "雪"@
    } else if code == 80 || code == 81 || code == 82 {
        "阵雨"@
    } else if code == 85 || code == 86 {
        "阵雪"@
    } else if code == 95 || code == 96 || code == 99 {
        "雷雨"@
    } else {
        "天气"@
    }
}

/// The Chinese label of a WMO weather code.
pub fn weather_label(code: i64) -> (r: String)
    ensures
        r@ == weather_label_spec(code),
{
    if code == 0 {
        owned("晴")
    } else if code == 1 || code == 2 {
        owned("少云")
    } else if code == 3 {
        owned("阴")
    } else if code == 45 || code == 48 {
        owned("雾")
    } else if code == 51 || code == 53 || code == 55 {
        owned("毛毛雨")
    } else if code == 56 || code == 57 || code == 66 || code == 67 {
        owned("冻雨")
    } else if code == 61 || code == 63 || code == 65 {
        owned("雨")
    } else if code == 71 || code == 73 || code == 75 || code == 77 {
        owned("雪")
    } else if code == 80 || code == 81 || code == 82 {
        owned("阵雨")
    } else if code == 85 || code == 86 {
        owned("阵雪")
    } else if code == 95 || code == 96 || code == 99 {
        owned("雷雨")
    } else {
        owned("天气")
    }
}

/// The time zone reported for a weather reading: the requested one, or
/// `Asia/Shanghai` when none was requested.
pub fn fallback_timezone(timezone: &str) -> (r: String)
    ensures
        r@ == (if timezone@.len() == 0 {
            "Asia/Shanghai"@
        } else {
            timezone@
        }),
{
    let t = chars_of(timezone);
    if t.len() == 0 {
        owned("Asia/Shanghai")
    } else {
        owned(timezone)
    }
}

/// The kinds of weather mood.
#[derive(PartialEq, Eq, Structural, Clone, Copy, Debug)]
pub enum MoodKind {
    Clear,
    Storm,
    Rain,
    Snow,
    Humid,
    Cloudy,
}

/// The weather codes of rain and drizzle (thunderstorms included).
pub open spec fn is_rain_code(code: i64) -> bool {
    code == 51 || code == 53 || code == 55 || code == 56 || code == 57 || code == 61 || code == 63
        || code == 65 || code == 66 || code == 67 || code == 80 || code == 81 || code == 82 || code
        == 95 || code == 96 || code == 99
}

/// The weather codes of snow.
pub open spec fn is_snow_code(code: i64) -> bool {
    code == 71 || code == 73 || code == 75 || code == 77 || code == 85 || code == 86
}

/// The weather codes of clouds and fog.
pub open spec fn is_cloud_code(code: i64) -> bool {
    code == 2 || code == 3 || code == 45 || code == 48
}

/// The weather codes of thunderstorms.
pub open spec fn is_storm_code(code: i64) -> bool {
    code == 95 || code == 96 || code == 99
}

/// The mood of a reading: storm, then rain (a rain code or any
/// precipitation), then snow or cold (felt at most 3 °C), then heat or
/// humidity (felt at least 31 °C or humidity at least 78 %), then clouds,
/// else clear. The three measured conditions are given as booleans.
pub open spec fn mood_kind_spec(code: i64, precipitation: bool, cold: bool, hot_or_humid: bool) -> MoodKind {
    if is_storm_code(code) {
        MoodKind::Storm
    } else if precipitation || is_rain_code(code) {
        MoodKind::Rain
    } else if is_snow_code(code) || cold {
        MoodKind::Snow
    } else if hot_or_humid {
        MoodKind::Humid
    } else if is_cloud_code(code) {
        MoodKind::Cloudy
    } else {
        MoodKind::Clear
    }
}

/// The mood of a reading (see `mood_kind_spec`).
pub fn mood_kind(code: i64, precipitation: bool, cold: bool, hot_or_humid: bool) -> (r: MoodKind)
    ensures
        r == mood_kind_spec(code, precipitation, cold, hot_or_humid),
{
    let storm = code == 95 || code == 96 || code == 99;
    let rain = code == 51 || code == 53 || code == 55 || code == 56 || code == 57 || code == 61
        || code == 63 || code == 65 || code == 66 || code == 67 || code == 80 || code == 81 || code
        == 82 || code == 95 || code == 96 || code == 99;
    let snow = code == 71 || code == 73 || code == 75 || code == 77 || code == 85 || code == 86;
    let cloud = code == 2 || code == 3 || code == 45 || code == 48;
    if storm {
        MoodKind::Storm
    } else if precipitation || rain {
        MoodKind::Rain
    } else if snow || cold {
        MoodKind::Snow
    } else if hot_or_humid {
        MoodKind::Humid
    } else if cloud {
        MoodKind::Cloudy
    } else {
        MoodKind::Clear
    }
}

/// A weather radio mood: its key, title, tagline and search keywords.
pub struct Mood {
    pub key: String,
    pub title: String,
    pub tagline: String,
    pub keywords: Vec<String>,
}

/// The key of a mood kind.
pub open spec fn mood_key_spec(k: MoodKind) -> Seq<char> {
    match k {
        MoodKind::Clear => "clear"@,
        MoodKind::Storm => "storm"@,
        MoodKind::Rain => "rain"@,
        MoodKind::Snow => "snow"@,
        MoodKind::Humid => "humid"@,
        MoodKind::Cloudy => "cloudy"@,
    }
}

/// The daytime title of a mood kind.
pub open spec fn mood_title_spec(k: MoodKind) -> Seq<char> {
    match k {
        MoodKind::Clear => "晴朗电台"@,
        MoodKind::Storm => "雷雨电台"@,
        MoodKind::Rain => "雨天电台"@,
        MoodKind::Snow => "冷空气电台"@,
        MoodKind::Humid => "闷热电台"@,
        MoodKind::Cloudy => "阴天电台"@,
    }
}

/// The daytime tagline of a mood kind.
pub open spec fn mood_tagline_spec(k: MoodKind) -> Seq<char> {
    match k {
        MoodKind::Clear => "让节奏亮一点，像窗边的光"@,
        MoodKind::Storm => "低频更厚，适合把世界关小一点"@,
        MoodKind::Rain => "留一点潮湿的空间给旋律"@,
        MoodKind::Snow => "干净、慢速、带一点冬天的颗粒感"@,
        MoodKind::Humid => "降低密度，留出一点呼吸"@,
        MoodKind::Cloudy => "不急着明亮，先让声音变软"@,
    }
}

/// The search keywords of a mood kind.
pub open spec fn mood_keywords_spec(k: MoodKind) -> Seq<Seq<char>> {
    match k {
        MoodKind::Clear => seq!["轻快 华语"@, "city pop"@, "indie pop"@, "chill pop"@, "阳光 歌单"@],
        MoodKind::Storm => seq!["暗色 R&B"@, "trip hop"@, "夜晚 电子"@, "氛围 摇滚"@, "雨夜 歌单"@],
        MoodKind::Rain => seq!["雨天 R&B"@, "lofi rainy"@, "华语 慢歌"@, "dream pop"@, "雨夜 歌单"@],
        MoodKind::Snow => seq!["冬天 民谣"@, "ambient piano"@, "日系 冬天"@, "indie folk"@, "安静 歌单"@],
        MoodKind::Humid => seq!["夏日 chill"@, "bossa nova"@, "city pop 夏天"@, "轻电子"@, "海边 歌单"@],
        MoodKind::Cloudy => seq!["阴天 华语"@, "indie rock mellow"@, "neo soul"@, "chillhop"@, "独立 民谣"@],
    }
}

fn five(a: &str, b: &str, c: &str, d: &str, e: &str) -> (r: Vec<String>)
    ensures
        crate::cookie::str_views(r@) == seq![a@, b@, c@, d@, e@],
{
    let r = vec![owned(a), owned(b), owned(c), owned(d), owned(e)];
    assert(crate::cookie::str_views(r@) =~= seq![a@, b@, c@, d@, e@]);
    r
}

/// The mood of the given kind; at night (`is_day` is 0) the title and
/// tagline are the night ones.
pub fn build_mood(kind: MoodKind, is_day: i64) -> (r: Mood)
    ensures
        r.key@ == mood_key_spec(kind),
        r.title@ == (if is_day == 0 {
            "夜色电台"@
        } else {
            mood_title_spec(kind)
        }),
        r.tagline@ == (if is_day == 0 {
            "音量放低一点，让夜色参与编曲"@
        } else {
            mood_tagline_spec(kind)
        }),
        crate::cookie::str_views(r.keywords@) == mood_keywords_spec(kind),
{
    let mut m = match kind {
        MoodKind::Clear => Mood {
            key: owned("clear"),
            title: owned("晴朗电台"),
            tagline: owned("让节奏亮一点，像窗边的光"),
            keywords: five("轻快 华语", "city pop", "indie pop", "chill pop", "阳光 歌单"),
        },
        MoodKind::Storm => Mood {
            key: owned("storm"),
            title: owned("雷雨电台"),
            tagline: owned("低频更厚，适合把世界关小一点"),
            keywords: five("暗色 R&B", "trip hop", "夜晚 电子", "氛围 摇滚", "雨夜 歌单"),
        },
        MoodKind::Rain => Mood {
            key: owned("rain"),
            title: owned("雨天电台"),
            tagline: owned("留一点潮湿的空间给旋律"),
            keywords: five("雨天 R&B", "lofi rainy", "华语 慢歌", "dream pop", "雨夜 歌单"),
        },
        MoodKind::Snow => Mood {
            key: owned("snow"),
            title: owned("冷空气电台"),
            tagline: owned("干净、慢速、带一点冬天的颗粒感"),
            keywords: five("冬天 民谣", "ambient piano", "日系 冬天", "indie folk", "安静 歌单"),
        },
        MoodKind::Humid => Mood {
            key: owned("humid"),
            title: owned("闷热电台"),
            tagline: owned("降低密度，留出一点呼吸"),
            keywords: five("夏日 chill", "bossa nova", "city pop 夏天", "轻电子", "海边 歌单"),
        },
        MoodKind::Cloudy => Mood {
            key: owned("cloudy"),
            title: owned("阴天电台"),
            tagline: owned("不急着明亮，先让声音变软"),
            keywords: five("阴天 华语", "indie rock mellow", "neo soul", "chillhop", "独立 民谣"),
        },
    };
    if is_day == 0 {
        m.title = owned("夜色电台");
        m.tagline = owned("音量放低一点，让夜色参与编曲");
    }
    m
}

/// The songs searched for a mood, chosen by what its key contains.
pub open spec fn seed_queries_spec(key: Seq<char>) -> Seq<Seq<char>> {
    if contains_seq(key, "rain"@) || contains_seq(key, "storm"@) {
        seq!["陈奕迅 阴天快乐"@, "周杰伦 雨下一整晚"@, "孙燕姿 遇见"@, "林宥嘉 说谎"@, "毛不易 消愁"@]
    } else if contains_seq(key, "snow"@) || contains_seq(key, "cloudy"@) {
        seq!["陈奕迅 好久不见"@, "莫文蔚 阴天"@, "李健 贝加尔湖畔"@, "朴树 平凡之路"@, "蔡健雅 达尔文"@]
    } else if contains_seq(key, "humid"@) {
        seq!["落日飞车 My Jinji"@, "告五人 爱人错过"@, "夏日入侵企画 想去海边"@, "陈绮贞 旅行的意义"@, "王若琳 Lost in Paradise"@]
    } else if contains_seq(key, "night"@) {
        seq!["方大同 特别的人"@, "陶喆 爱很简单"@, "Frank Ocean Pink + White"@, "林忆莲 夜太黑"@, "Norah Jones Don't Know Why"@]
    } else {
        seq!["孙燕姿 天黑黑"@, "周杰伦 晴天"@, "五月天 温柔"@, "陈奕迅 稳稳的幸福"@, "王菲"@]
    }
}

/// The songs searched for the mood with the key `key`.
pub fn weather_seed_queries(key: &str) -> (r: Vec<String>)
    ensures
        crate::cookie::str_views(r@) == seed_queries_spec(key@),
{
    if str_contains(key, "rain") || str_contains(key, "storm") {
        five("陈奕迅 阴天快乐", "周杰伦 雨下一整晚", "孙燕姿 遇见", "林宥嘉 说谎", "毛不易 消愁")
    } else if str_contains(key, "snow") || str_contains(key, "cloudy") {
        five("陈奕迅 好久不见", "莫文蔚 阴天", "李健 贝加尔湖畔", "朴树 平凡之路", "蔡健雅 达尔文")
    } else if str_contains(key, "humid") {
        five("落日飞车 My Jinji", "告五人 爱人错过", "夏日入侵企画 想去海边", "陈绮贞 旅行的意义", "王若琳 Lost in Paradise")
    } else if str_contains(key, "night") {
        five("方大同 特别的人", "陶喆 爱很简单", "Frank Ocean Pink + White", "林忆莲 夜太黑", "Norah Jones Don't Know Why")
    } else {
        five("孙燕姿 天黑黑", "周杰伦 晴天", "五月天 温柔", "陈奕迅 稳稳的幸福", "王菲")
    }
}

// ── song lists ─────────────────────────────────────────────────────────

/// The fields of a song that the list clean-up reads.
pub struct SongSummary {
    /// The song id as text (empty when the song has none).
    pub id: String,
    pub name: String,
    pub artist: String,
    pub album: String,
}

/// A song as its id, name, artist and album.
pub type SongView = (Seq<char>, Seq<char>, Seq<char>, Seq<char>);

/// The view of a song.
pub open spec fn song_view(s: SongSummary) -> SongView {
    (s.id@, s.name@, s.artist@, s.album@)
}

/// The views of a list of songs.
pub open spec fn songs_view(v: Seq<SongSummary>) -> Seq<SongView> {
    Seq::new(v.len(), |i: int| song_view(v[i]))
}

/// What identifies a song when duplicates are removed: its id, or
/// `name|artist` when it has none.
pub open spec fn dedup_key(s: SongView) -> Seq<char> {
    if s.0.len() > 0 {
        s.0
    } else {
        s.1 + "|"@ + s.2
    }
}

/// Some song of `v` has the key `k`.
pub open spec fn has_key(v: Seq<SongView>, k: Seq<char>) -> bool {
    exists|i: int| 0 <= i < v.len() && dedup_key(#[trigger] v[i]) == k
}

/// The songs without repeats: a song is kept when its key is empty or no
/// kept song before it has the same key.
pub open spec fn dedup_spec(s: Seq<SongView>) -> Seq<SongView>
    decreases s.len(),
{
    if s.len() == 0 {
        Seq::empty()
    } else {
        let prev = dedup_spec(s.drop_last());
        let k = dedup_key(s.last());
        if k.len() == 0 || !has_key(prev, k) {
            prev.push(s.last())
        } else {
            prev
        }
    }
}

fn clone_song(s: &SongSummary) -> (r: SongSummary)
    ensures
        song_view(r) == song_view(*s),
{
    SongSummary { id: s.id.clone(), name: s.name.clone(), artist: s.artist.clone(), album: s.album.clone() }
}

fn dedup_key_exec(s: &SongSummary) -> (r: Vec<char>)
    ensures
        r@ == dedup_key(song_view(*s)),
{
    let id = chars_of(s.id.as_str());
    if id.len() > 0 {
        id
    } else {
        let mut k = chars_of(s.name.as_str());
        push_str(&mut k, "|");
        push_str(&mut k, s.artist.as_str());
        k
    }
}

/// The songs without repeats (see `dedup_spec`).
pub fn dedup_songs(songs: &Vec<SongSummary>) -> (r: Vec<SongSummary>)
    ensures
        songs_view(r@) == dedup_spec(songs_view(songs@)),
{
    let mut out: Vec<SongSummary> = Vec::new();
    let mut seen: Vec<Vec<char>> = Vec::new();
    let mut i: usize = 0;
    while i < songs.len()
        invariant
            i <= songs.len(),
            songs_view(out@) == dedup_spec(songs_view(songs@).take(i as int)),
            forall|k: Seq<char>| k.len() > 0 ==> (has_key(songs_view(out@), k) <==> crate::text::views(seen@).contains(k)),
        decreases songs.len() - i,
    {
        let ghost sv = songs_view(songs@);
        proof {
            assert(sv.take(i + 1).drop_last() =~= sv.take(i as int));
            assert(sv.take(i + 1).last() == song_view(songs@[i as int]));
        }
        let k = dedup_key_exec(&songs[i]);
        let mut found = false;
        let mut j: usize = 0;
        while j < seen.len()
            invariant
                j <= seen.len(),
                found ==> crate::text::views(seen@).contains(k@),
                !found ==> forall|x: int| 0 <= x < j ==> seen@[x]@ != k@,
            decreases seen.len() - j,
        {
            if crate::text::seq_eq(seen[j].as_slice(), k.as_slice()) {
                assert(crate::text::views(seen@)[j as int] == k@);
                found = true;
            }
            j = j + 1;
        }
        proof {
            if !found {
                assert forall|x: int| 0 <= x < crate::text::views(seen@).len() implies crate::text::views(seen@)[x] != k@ by {
                    assert(crate::text::views(seen@)[x] == seen@[x]@);
                }
            }
        }
        if k.len() == 0 || !found {
            let ghost before = songs_view(out@);
            out.push(clone_song(&songs[i]));
            proof {
                assert(songs_view(out@) =~= before.push(song_view(songs@[i as int])));
            }
            if k.len() > 0 {
                let ghost seen_before = crate::text::views(seen@);
                seen.push(k);
                proof {
                    assert(crate::text::views(seen@) =~= seen_before.push(dedup_key(song_view(songs@[i as int]))));
                    assert forall|q: Seq<char>| q.len() > 0 implies (has_key(songs_view(out@), q) <==> crate::text::views(seen@).contains(q)) by {
                        if has_key(songs_view(out@), q) {
                            let w = choose|w: int| 0 <= w < songs_view(out@).len() && dedup_key(#[trigger] songs_view(out@)[w]) == q;
                            if w < before.len() {
                                assert(before[w] == songs_view(out@)[w]);
                                assert(has_key(before, q));
                                assert(seen_before.contains(q));
                                let z = choose|z: int| 0 <= z < seen_before.len() && seen_before[z] == q;
                                assert(crate::text::views(seen@)[z] == q);
                            } else {
                                assert(crate::text::views(seen@)[seen_before.len() as int] == q);
                            }
                        }
                        if crate::text::views(seen@).contains(q) {
                            let z = choose|z: int| 0 <= z < crate::text::views(seen@).len() && crate::text::views(seen@)[z] == q;
                            if z < seen_before.len() {
                                assert(seen_before[z] == q);
                                assert(seen_before.contains(q));
                                assert(has_key(before, q));
                                let w = choose|w: int| 0 <= w < before.len() && dedup_key(#[trigger] before[w]) == q;
                                assert(songs_view(out@)[w] == before[w]);
                            } else {
                                assert(songs_view(out@)[before.len() as int] == song_view(songs@[i as int]));
                            }
                        }
                    }
                }
            } else {
                proof {
                    assert forall|q: Seq<char>| q.len() > 0 implies (has_key(songs_view(out@), q) <==> crate::text::views(seen@).contains(q)) by {
                        if has_key(songs_view(out@), q) {
                            let w = choose|w: int| 0 <= w < songs_view(out@).len() && dedup_key(#[trigger] songs_view(out@)[w]) == q;
                            if w < before.len() {
                                assert(before[w] == songs_view(out@)[w]);
                                assert(has_key(before, q));
                            }
                        }
                        if crate::text::views(seen@).contains(q) {
                            assert(has_key(before, q));
                            let w = choose|w: int| 0 <= w < before.len() && dedup_key(#[trigger] before[w]) == q;
                            assert(songs_view(out@)[w] == before[w]);
                        }
                    }
                }
            }
        }
        i = i + 1;
    }
    assert(songs_view(songs@).take(songs.len() as int) =~= songs_view(songs@));
    out
}

/// After removing repeats, no two kept songs share a non-empty key, and every
/// song's key is still represented.
pub proof fn lemma_dedup(s: Seq<SongView>)
    ensures
        forall|i: int, j: int|
            0 <= i < dedup_spec(s).len() && 0 <= j < dedup_spec(s).len() && i != j && dedup_key(
                dedup_spec(s)[i],
            ).len() > 0 ==> dedup_key(#[trigger] dedup_spec(s)[i]) != dedup_key(#[trigger] dedup_spec(s)[j]),
        forall|i: int| 0 <= i < s.len() ==> has_key(dedup_spec(s), dedup_key(#[trigger] s[i])),
    decreases s.len(),
{
    if s.len() > 0 {
        let p = s.drop_last();
        lemma_dedup(p);
        let prev = dedup_spec(p);
        let d = dedup_spec(s);
        let k = dedup_key(s.last());
        assert forall|i: int| 0 <= i < s.len() implies has_key(d, dedup_key(#[trigger] s[i])) by {
            if i < s.len() - 1 {
                assert(s[i] == p[i]);
                assert(has_key(prev, dedup_key(p[i])));
                let w = choose|w: int| 0 <= w < prev.len() && dedup_key(#[trigger] prev[w]) == dedup_key(p[i]);
                assert(d[w] == prev[w]);
            } else {
                if k.len() == 0 || !has_key(prev, k) {
                    assert(d[prev.len() as int] == s.last());
                } else {
                    let w = choose|w: int| 0 <= w < prev.len() && dedup_key(#[trigger] prev[w]) == k;
                    assert(d[w] == prev[w]);
                }
            }
        }
        if k.len() == 0 || !has_key(prev, k) {
            assert forall|i: int, j: int|
                0 <= i < d.len() && 0 <= j < d.len() && i != j && dedup_key(d[i]).len() > 0 implies dedup_key(
                #[trigger] d[i],
            ) != dedup_key(#[trigger] d[j]) by {
                if i == prev.len() {
                    assert(d[j] == prev[j]);
                    if dedup_key(d[j]) == dedup_key(d[i]) {
                        assert(has_key(prev, k));
                    }
                } else if j == prev.len() {
                    assert(d[i] == prev[i]);
                    if dedup_key(d[j]) == dedup_key(d[i]) {
                        assert(has_key(prev, k));
                    }
                } else {
                    assert(d[i] == prev[i]);
                    assert(d[j] == prev[j]);
                }
            }
        }
    }
}

/// Whether a song looks like filler: machine-made, a cover, a remix, an
/// accompaniment, or noise, judged on its lower-cased name, artist and
/// album joined with spaces.
pub open spec fn low_signal_text(t: Seq<char>) -> bool {
    ||| t.len() == 0
    ||| (contains_seq(t, "ai"@) && (contains_seq(t, "歌"@) || contains_seq(t, "cover"@) || contains_seq(t, "翻唱"@) || contains_seq(t, "生成"@)))
    ||| contains_seq(t, "suno"@) || contains_seq(t, "udio"@) || contains_seq(t, "人工智能"@)
    ||| contains_seq(t, "翻唱"@) || contains_seq(t, "cover"@) || contains_seq(t, "remix"@) || contains_seq(t, "伴奏"@) || contains_seq(t, "纯音乐"@)
    ||| contains_seq(t, "白噪音"@) || contains_seq(t, "雨声"@) || contains_seq(t, "睡眠"@) || contains_seq(t, "助眠"@) || contains_seq(t, "asmr"@)
}

/// The text a song is judged on.
pub open spec fn song_text(name: Seq<char>, artist: Seq<char>, album: Seq<char>) -> Seq<char> {
    spec_lowercase(name) + " "@ + spec_lowercase(artist) + " "@ + spec_lowercase(album)
}

/// Whether a song looks like filler (see `low_signal_text`).
pub fn is_low_signal_song(name: &str, artist: &str, album: &str) -> (r: bool)
    ensures
        r == low_signal_text(song_text(name@, artist@, album@)),
{
    let mut t = chars_of(to_lowercase(name).as_str());
    push_str(&mut t, " ");
    push_str(&mut t, to_lowercase(artist).as_str());
    push_str(&mut t, " ");
    push_str(&mut t, to_lowercase(album).as_str());
    let text = string_of(t.as_slice());
    let s = text.as_str();
    let v = chars_of(s);
    if v.len() == 0 {
        return true;
    }
    if str_contains(s, "ai") && (str_contains(s, "歌") || str_contains(s, "cover") || str_contains(s, "翻唱") || str_contains(s, "生成")) {
        return true;
    }
    if str_contains(s, "suno") || str_contains(s, "udio") || str_contains(s, "人工智能") {
        return true;
    }
    if str_contains(s, "翻唱") || str_contains(s, "cover") || str_contains(s, "remix") || str_contains(s, "伴奏") || str_contains(s, "纯音乐") {
        return true;
    }
    if str_contains(s, "白噪音") || str_contains(s, "雨声") || str_contains(s, "睡眠") || str_contains(s, "助眠") || str_contains(s, "asmr") {
        return true;
    }
    false
}

/// The songs of a weather radio: without repeats, without filler, at most
/// eighteen.
pub open spec fn radio_songs_spec(s: Seq<SongView>) -> Seq<SongView> {
    let d = dedup_spec(s);
    let kept = keep_signal(d);
    if kept.len() > 18 {
        kept.take(18)
    } else {
        kept
    }
}

/// The songs that are not filler, in order.
pub open spec fn keep_signal(s: Seq<SongView>) -> Seq<SongView>
    decreases s.len(),
{
    if s.len() == 0 {
        Seq::empty()
    } else if low_signal_text(song_text(s.last().1, s.last().2, s.last().3)) {
        keep_signal(s.drop_last())
    } else {
        keep_signal(s.drop_last()).push(s.last())
    }
}

/// The songs of a weather radio (see `radio_songs_spec`).
pub fn radio_songs(songs: &Vec<SongSummary>) -> (r: Vec<SongSummary>)
    ensures
        songs_view(r@) == radio_songs_spec(songs_view(songs@)),
{
    let d = dedup_songs(songs);
    let mut out: Vec<SongSummary> = Vec::new();
    let mut i: usize = 0;
    while i < d.len()
        invariant
            i <= d.len(),
            songs_view(out@) == keep_signal(songs_view(d@).take(i as int)),
        decreases d.len() - i,
    {
        let ghost dv = songs_view(d@);
        proof {
            assert(dv.take(i + 1).drop_last() =~= dv.take(i as int));
            assert(dv.take(i + 1).last() == song_view(d@[i as int]));
        }
        let s = &d[i];
        if !is_low_signal_song(s.name.as_str(), s.artist.as_str(), s.album.as_str()) {
            let ghost before = songs_view(out@);
            out.push(clone_song(s));
            assert(songs_view(out@) =~= before.push(song_view(d@[i as int])));
        }
        i = i + 1;
    }
    assert(songs_view(d@).take(d.len() as int) =~= songs_view(d@));
    let ghost full = songs_view(out@);
    if out.len() > 18 {
        out.truncate(18);
        assert(songs_view(out@) =~= full.take(18));
    }
    out
}

// ── the discovery page ─────────────────────────────────────────────────

/// The most podcasts the discovery page shows.
pub const DISCOVER_PODCASTS: usize = 6;

/// The most daily songs the discovery page shows.
pub const DAILY_SONGS: usize = 12;

/// The first `n` items of `v` (all of them when there are fewer).
pub open spec fn first_n<T>(v: Seq<T>, n: nat) -> Seq<T> {
    if v.len() <= n {
        v
    } else {
        v.take(n as int)
    }
}

fn keep_first<T>(v: Vec<T>, n: usize) -> (r: Vec<T>)
    ensures
        r@ == first_n(v@, n as nat),
{
    let mut v = v;
    if v.len() > n {
        v.truncate(n);
    }
    v
}

/// The podcasts the discovery page shows: the first six.
pub fn discover_podcasts<T>(radios: Vec<T>) -> (r: Vec<T>)
    ensures
        r@ == first_n(radios@, DISCOVER_PODCASTS as nat),
{
    keep_first(radios, DISCOVER_PODCASTS)
}

/// The daily songs the discovery page shows: the first twelve.
pub fn discover_daily_songs<T>(songs: Vec<T>) -> (r: Vec<T>)
    ensures
        r@ == first_n(songs@, DAILY_SONGS as nat),
{
    keep_first(songs, DAILY_SONGS)
}

/// Which discovery page is shown: the member page with a stored cookie, the
/// starter page (with no requests made) without one.
pub struct DiscoverMode {
    pub logged_in: bool,
    pub mode: String,
}

/// The discovery page for the stored Netease cookie `cookie`.
pub fn discover_mode(cookie: &str) -> (r: DiscoverMode)
    ensures
        r.logged_in == (cookie@.len() > 0),
        r.mode@ == if cookie@.len() > 0 {
            "member"@
        } else {
            "starter"@
        },
{
    if chars_of(cookie).len() > 0 {
        DiscoverMode { logged_in: true, mode: owned("member") }
    } else {
        DiscoverMode { logged_in: false, mode: owned("starter") }
    }
}

/// The songs kept as signal are exactly the non-filler songs: none of them is
/// filler, and every non-filler song of the list is kept.
pub proof fn lemma_keep_signal(x: Seq<SongView>)
    ensures
        keep_signal(x).len() <= x.len(),
        forall|i: int| 0 <= i < keep_signal(x).len() ==> !low_signal_text(
            song_text(keep_signal(x)[i].1, keep_signal(x)[i].2, keep_signal(x)[i].3),
        ),
        forall|j: int|
            0 <= j < x.len() && !low_signal_text(song_text(x[j].1, x[j].2, x[j].3)) ==> keep_signal(
                x,
            ).contains(#[trigger] x[j]),
    decreases x.len(),
{
    if x.len() > 0 {
        let p = x.drop_last();
        lemma_keep_signal(p);
        let k = keep_signal(x);
        assert forall|j: int|
            0 <= j < x.len() && !low_signal_text(song_text(x[j].1, x[j].2, x[j].3)) implies k.contains(#[trigger] x[j]) by {
            if j < x.len() - 1 {
                assert(x[j] == p[j]);
                let w = choose|w: int| 0 <= w < keep_signal(p).len() && keep_signal(p)[w] == p[j];
                assert(k[w] == keep_signal(p)[w]);
            } else {
                assert(k[k.len() - 1] == x.last());
            }
        }
        assert forall|i: int| 0 <= i < k.len() implies !low_signal_text(song_text(k[i].1, k[i].2, k[i].3)) by {
            if i < keep_signal(p).len() {
                assert(k[i] == keep_signal(p)[i]);
            }
        }
    }
}

/// The weather radio's songs: filler is removed before the list is cut, so
/// the radio holds the first eighteen non-filler songs of the de-duplicated
/// list (all of them when there are fewer), none of them filler.
pub proof fn lemma_radio_songs(s: Seq<SongView>)
    ensures
        radio_songs_spec(s).len() == if keep_signal(dedup_spec(s)).len() < 18 {
            keep_signal(dedup_spec(s)).len()
        } else {
            18
        },
        forall|i: int| 0 <= i < radio_songs_spec(s).len() ==> radio_songs_spec(s)[i] == keep_signal(dedup_spec(s))[i],
        forall|i: int| 0 <= i < radio_songs_spec(s).len() ==> !low_signal_text(
            song_text(radio_songs_spec(s)[i].1, radio_songs_spec(s)[i].2, radio_songs_spec(s)[i].3),
        ),
{
    lemma_keep_signal(dedup_spec(s));
}

} // verus!
