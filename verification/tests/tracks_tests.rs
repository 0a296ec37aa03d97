use mineradio::tracks::{
    artist_avatar, artist_song_limit, discover_playlists, is_collection, is_listed_track,
    map_netease_song, map_playlist, map_podcast_radio, map_qq_track, pick_number, pick_text,
    qq_default_creator, NeteaseSongFields, PlaylistFields, PlaylistSummary, QqTrackFields,
    RadioFields,
};

fn s(x: &str) -> Option<String> {
    Some(x.to_string())
}

fn track_fields() -> QqTrackFields {
    QqTrackFields {
        mid: vec![None, s("002abc"), s("entry")],
        album_mid: vec![s("alb1"), s("alb2"), None],
        album_name: vec![None, None, s("Album")],
        singer_names: vec!["A".into(), "".into(), "B".into()],
        artist_text: vec![s("fallback")],
        media_mid: vec![None, s("media")],
        qq_id: vec![s("123")],
        name: vec![None, s("Title")],
        interval: Some(215),
        pay_play: Some(1),
    }
}

#[test]
fn first_present_candidate() {
    assert_eq!(pick_text(&vec![None, s("b"), s("c")], "d"), "b");
    assert_eq!(pick_text(&vec![None], "d"), "d");
    assert_eq!(pick_text(&vec![s("")], "d"), "");
    assert_eq!(pick_number(&vec![None, Some(3)], 0), 3);
    assert_eq!(pick_number(&vec![], 7), 7);
}

#[test]
fn qq_track_record() {
    let t = map_qq_track(&track_fields());
    assert_eq!(t.id, "002abc");
    assert_eq!(t.mid, "002abc");
    assert_eq!(t.qq_id, "123");
    assert_eq!(t.media_mid, "media");
    assert_eq!(t.name, "Title");
    assert_eq!(t.artist, "A / B");
    assert_eq!(t.artists, vec!["A", "B"]);
    assert_eq!(t.album, "Album");
    assert_eq!(t.album_mid, "alb1");
    assert_eq!(t.cover, "https://y.qq.com/music/photo_new/T002R300x300M000alb1.jpg?max_age=2592000");
    assert_eq!(t.duration, 215000);
    assert_eq!(t.fee, 1);
    assert!(is_listed_track(&t));
}

#[test]
fn qq_track_fallbacks() {
    let mut f = track_fields();
    f.mid = vec![None];
    f.singer_names = vec!["".into()];
    f.album_mid = vec![];
    f.name = vec![];
    f.interval = None;
    f.pay_play = Some(0);
    let t = map_qq_track(&f);
    assert_eq!(t.id, "123");
    assert_eq!(t.artist, "fallback");
    assert!(t.artists.is_empty());
    assert_eq!(t.cover, "");
    assert_eq!((t.duration, t.fee), (0, 0));
    assert!(!is_listed_track(&t));
}

#[test]
fn artist_pages() {
    assert_eq!(artist_song_limit(36), 36);
    assert_eq!(artist_song_limit(1), 10);
    assert_eq!(artist_song_limit(500), 80);
    assert_eq!(artist_avatar("http://p", "m"), "http://p");
    assert_eq!(artist_avatar("", "m"), "https://y.qq.com/music/photo_new/T001R300x300M000m.jpg?max_age=2592000");
}

#[test]
fn playlists_and_radios() {
    let f = PlaylistFields {
        id: vec![None, s("9")],
        name: vec![s("Mix")],
        cover: vec![None, None, s("c")],
        track_count: vec![None, Some(12)],
        play_count: vec![],
        creator: vec![None],
    };
    let p = map_playlist(&f, &qq_default_creator());
    assert_eq!((p.id.as_str(), p.name.as_str(), p.cover.as_str()), ("9", "Mix", "c"));
    assert_eq!((p.track_count, p.play_count), (12, 0));
    assert_eq!(p.creator, "QQ 音乐");
    assert!(is_collection("collect"));
    assert!(!is_collection("create"));
    let r = map_podcast_radio(&RadioFields {
        id: vec![None, s("rid")],
        name: vec![s("Radio")],
        cover: vec![],
        desc: vec![None, s("d")],
        dj_name: None,
        category: vec![s("talk")],
        program_count: Some(3),
        sub_count: None,
    });
    assert_eq!((r.id.as_str(), r.name.as_str(), r.desc.as_str(), r.dj_name.as_str()), ("rid", "Radio", "d", ""));
    assert_eq!((r.program_count, r.sub_count), (3, 0));
}

#[test]
fn discovery_playlist_counts() {
    let mk = |n: usize, tag: &str| -> Vec<PlaylistSummary> {
        (0..n).map(|i| PlaylistSummary { id: format!("{}{}", tag, i), name: String::new(), cover: String::new(), track_count: 0, play_count: 0, creator: String::new() }).collect()
    };
    let out = discover_playlists(mk(12, "r"), mk(9, "p"));
    assert_eq!(out.len(), 10);
    assert_eq!(out[7].id, "r7");
    assert_eq!(out[8].id, "p0");
    let out = discover_playlists(mk(2, "r"), mk(9, "p"));
    assert_eq!(out.len(), 8);
    assert_eq!(out[2].id, "p0");
}

#[test]
fn netease_song_record() {
    let n = map_netease_song(&NeteaseSongFields {
        artist_names: vec!["X".into(), "".into(), "Y".into()],
        name: s("Song"),
        album: vec![None, s("Alb")],
        cover: vec![None, s("cv"), s("other")],
        duration: vec![Some(1000)],
    });
    assert_eq!(n.name, "Song");
    assert_eq!(n.artist, "X / Y");
    assert_eq!(n.artists.len(), 2);
    assert_eq!((n.album.as_str(), n.cover.as_str(), n.duration), ("Alb", "cv", 1000));
}
