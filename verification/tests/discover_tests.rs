use mineradio::discover::{
    build_mood, dedup_songs, fallback_timezone, is_low_signal_song, mood_kind, radio_songs,
    weather_label, weather_seed_queries, MoodKind, SongSummary,
};
use mineradio::dispatch::{route, ApiMethod};
use mineradio::version::{
    compare_versions, pick_asset, release_notes, release_version, update_available,
    update_summary,
};

fn song(id: &str, name: &str, artist: &str, album: &str) -> SongSummary {
    SongSummary { id: id.into(), name: name.into(), artist: artist.into(), album: album.into() }
}

#[test]
fn weather_labels() {
    assert_eq!(weather_label(0), "晴");
    assert_eq!(weather_label(2), "少云");
    assert_eq!(weather_label(48), "雾");
    assert_eq!(weather_label(57), "冻雨");
    assert_eq!(weather_label(66), "冻雨");
    assert_eq!(weather_label(99), "雷雨");
    assert_eq!(weather_label(-4), "天气");
    assert_eq!(fallback_timezone(""), "Asia/Shanghai");
    assert_eq!(fallback_timezone("Europe/Paris"), "Europe/Paris");
}

#[test]
fn moods() {
    assert_eq!(mood_kind(95, false, true, true), MoodKind::Storm);
    assert_eq!(mood_kind(0, true, false, false), MoodKind::Rain);
    assert_eq!(mood_kind(71, false, false, true), MoodKind::Snow);
    assert_eq!(mood_kind(0, false, true, false), MoodKind::Snow);
    assert_eq!(mood_kind(3, false, false, true), MoodKind::Humid);
    assert_eq!(mood_kind(45, false, false, false), MoodKind::Cloudy);
    assert_eq!(mood_kind(1, false, false, false), MoodKind::Clear);
    let m = build_mood(MoodKind::Rain, 1);
    assert_eq!((m.key.as_str(), m.title.as_str()), ("rain", "雨天电台"));
    assert_eq!(m.keywords.len(), 5);
    let n = build_mood(MoodKind::Clear, 0);
    assert_eq!(n.title, "夜色电台");
    assert_eq!(n.tagline, "音量放低一点，让夜色参与编曲");
    assert_eq!(n.key, "clear");
}

#[test]
fn seeds_follow_the_mood_key() {
    assert_eq!(weather_seed_queries("storm")[0], "陈奕迅 阴天快乐");
    assert_eq!(weather_seed_queries("cloudy")[1], "莫文蔚 阴天");
    assert_eq!(weather_seed_queries("humid")[0], "落日飞车 My Jinji");
    assert_eq!(weather_seed_queries("night")[2], "Frank Ocean Pink + White");
    assert_eq!(weather_seed_queries("clear")[4], "王菲");
}

#[test]
fn duplicates_are_removed() {
    let songs = vec![
        song("1", "A", "x", ""),
        song("1", "B", "y", ""),
        song("", "C", "z", ""),
        song("", "C", "z", "other"),
        song("2", "D", "w", ""),
    ];
    let d = dedup_songs(&songs);
    let names: Vec<&str> = d.iter().map(|s| s.name.as_str()).collect();
    assert_eq!(names, vec!["A", "C", "D"]);
}

#[test]
fn filler_is_recognised() {
    assert!(is_low_signal_song("Song (Cover)", "x", ""));
    assert!(is_low_signal_song("AI 歌曲", "", ""));
    assert!(is_low_signal_song("rain", "SUNO", ""));
    assert!(is_low_signal_song("雨声 助眠", "", ""));
    assert!(!is_low_signal_song("晴天", "周杰伦", "叶惠美"));
    let many: Vec<SongSummary> = (0..30).map(|i| song(&i.to_string(), "n", "a", "")).collect();
    assert_eq!(radio_songs(&many).len(), 18);
    let mixed = vec![song("1", "ok", "a", ""), song("2", "remix", "a", ""), song("1", "dup", "a", "")];
    let r = radio_songs(&mixed);
    assert_eq!(r.len(), 1);
    assert_eq!(r[0].name, "ok");
}

#[test]
fn versions_compare_numerically() {
    assert_eq!(compare_versions("1.2.10", "1.2.9"), 1);
    assert_eq!(compare_versions("1.0", "1"), 0);
    assert_eq!(compare_versions("0.9", "1.0.0"), -1);
    assert_eq!(compare_versions("1.a.3", "1.3"), 0);
    assert_eq!(compare_versions("", "0.0"), 0);
    assert_eq!(compare_versions("2", "10"), -1);
}

#[test]
fn release_checks() {
    assert_eq!(release_version("vv1.2.3"), "1.2.3");
    assert!(update_available("v1.3.0", "1.2.9"));
    assert!(!update_available("v1.2.9", "1.2.9"));
    assert_eq!(update_summary(true, "1.3.0"), "发现新版本 v1.3.0");
    assert_eq!(update_summary(false, "1.3.0"), "已是最新版本");
    let notes = release_notes("Intro\r\n- fix a\n  * add b\n-\n- c\n- d\n- e\n");
    assert_eq!(notes, vec!["fix a", "add b", "c"]);
    assert!(release_notes("no bullets").is_empty());
    let names = vec![Some("app.zip".to_string()), None, Some("App-1.0-Setup.exe".to_string())];
    assert_eq!(pick_asset(&names), Some(2));
    assert_eq!(pick_asset(&vec![None, Some("a".to_string())]), Some(0));
    assert_eq!(pick_asset(&vec![]), None);
}

#[test]
fn calls_are_routed() {
    assert_eq!(route("search", Some("qq")).unwrap(), ApiMethod::QqSearch);
    assert_eq!(route("search", None).unwrap(), ApiMethod::Search);
    assert_eq!(route("song_url_v1", Some("qq")).unwrap(), ApiMethod::QqSongUrl);
    assert_eq!(route("song_url_v1", Some("netease")).unwrap(), ApiMethod::SongUrlV1);
    assert_eq!(route("lyric_new", Some("qq")).unwrap(), ApiMethod::LyricNew);
    assert_eq!(route("qq_logout", None).unwrap(), ApiMethod::QqLogout);
    assert_eq!(route("check_update", None).unwrap(), ApiMethod::CheckUpdate);
    assert_eq!(route("nope", None).err().unwrap(), "Method not found: nope");
}
