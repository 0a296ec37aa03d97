use base64::Engine;
use mineradio::requests::{
    add_song_tracks, comment_text, comment_uri, cover_data_url, csrf_token, eapi_header,
    eapi_header_at, immerse_type, map_qq_search_item, netease_qr_picture, netease_qr_status,
    qq_fetch_url, qq_profile_unavailable, qq_song_file, qq_song_page, qq_stream_url, query_url,
    song_detail_query, song_id_array, song_id_list, QqSearchFields,
};
use mineradio::tracks::{account_playlists, PlaylistSummary};
use mineradio::version::shown_release_notes;
use mineradio::sidecar::{check_reply_line, reply_outcome, JsonRpcError};

fn pairs(v: &[(&str, &str)]) -> Vec<(String, String)> {
    v.iter().map(|(k, x)| (k.to_string(), x.to_string())).collect()
}

#[test]
fn csrf_from_cookie() {
    assert_eq!(csrf_token("a=1; __csrf=tok ; MUSIC_U=u"), "tok");
    assert_eq!(csrf_token("a=1"), "");
}

#[test]
fn eapi_header_fields() {
    let h = eapi_header_at("__csrf=c1; MUSIC_U=mu", 1_700_000_123_456, 7);
    assert_eq!(h.os, "pc");
    assert_eq!(h.appver, "3.1.17.204416");
    assert_eq!(h.osver, "Microsoft-Windows-10-Professional-build-19045-64bit");
    assert_eq!(h.channel, "netease");
    assert_eq!(h.versioncode, "140");
    assert_eq!(h.buildver, 1_700_000_123);
    assert_eq!(h.resolution, "1920x1080");
    assert_eq!(h.csrf, "c1");
    assert_eq!(h.request_id, "1700000123456_0007");
    assert_eq!(h.music_u, Some("mu".to_string()));
    let h2 = eapi_header_at("", 999, 123);
    assert_eq!(h2.buildver, 0);
    assert_eq!(h2.csrf, "");
    assert_eq!(h2.request_id, "999_0123");
    assert_eq!(h2.music_u, None);
}

#[test]
fn eapi_header_now_has_a_small_suffix() {
    let h = eapi_header("MUSIC_U=x");
    let (millis, suffix) = h.request_id.split_once('_').unwrap();
    assert_eq!(suffix.len(), 4);
    assert!(suffix.parse::<u32>().unwrap() < 1000);
    assert_eq!(h.buildver, millis.parse::<u64>().unwrap() / 1000);
    assert_eq!(h.music_u, Some("x".to_string()));
}

#[test]
fn netease_login_qr() {
    let p = netease_qr_picture("k123").unwrap();
    assert_eq!(p.url, "https://music.163.com/login?codekey=k123");
    let code = qrcode::QrCode::new(p.url.as_bytes()).unwrap();
    let svg = code
        .render::<qrcode::render::svg::Color>()
        .min_dimensions(200, 200)
        .build();
    let expected = format!(
        "data:image/svg+xml;base64,{}",
        base64::engine::general_purpose::STANDARD.encode(svg.as_bytes())
    );
    assert_eq!(p.img, expected);
}

#[test]
fn netease_login_qr_too_long() {
    let key = "x".repeat(5000);
    assert_eq!(netease_qr_picture(&key).err(), Some("QR error: data too long".to_string()));
}

#[test]
fn netease_qr_codes() {
    for (code, auth, done) in [(799, false, false), (800, true, false), (801, true, false), (802, true, false), (803, true, true), (804, false, false)] {
        let s = netease_qr_status(code);
        assert_eq!(s.authorized, auth);
        assert_eq!(s.logged_in, done);
    }
}

#[test]
fn song_id_parameters() {
    assert_eq!(song_id_list(186016), "[\"186016\"]");
    assert_eq!(song_id_list(-5), "[\"-5\"]");
    assert_eq!(song_id_array(186016), "[186016]");
    assert_eq!(immerse_type("sky"), Some("c51".to_string()));
    assert_eq!(immerse_type("hires"), None);
}

#[test]
fn song_detail_pages() {
    let ids: Vec<String> = vec!["1".into(), "22".into(), "333".into(), "\"s\"".into()];
    assert_eq!(song_detail_query(&ids, 0, 300), "[{\"id\":1},{\"id\":22},{\"id\":333},{\"id\":\"s\"}]");
    assert_eq!(song_detail_query(&ids, 1, 2), "[{\"id\":22},{\"id\":333}]");
    assert_eq!(song_detail_query(&ids, 4, 10), "[]");
    assert_eq!(song_detail_query(&ids, 2, 0), "[]");
}

#[test]
fn track_add_parameter() {
    assert_eq!(add_song_tracks("1,2"), "[{\"type\":3,\"id\":1},{\"type\":3,\"id\":2}]");
    assert_eq!(add_song_tracks(""), "[{\"type\":3,\"id\":}]");
    assert_eq!(add_song_tracks("7,"), "[{\"type\":3,\"id\":7},{\"type\":3,\"id\":}]");
}

#[test]
fn comment_path() {
    assert_eq!(comment_uri(347230), "/api/v1/resource/comments/R_SO_4_347230");
}

#[test]
fn cover_as_data_address() {
    assert_eq!(cover_data_url(Some("image/png"), b"abc"), "data:image/png;base64,YWJj");
    assert_eq!(cover_data_url(None, b"ab"), "data:image/jpeg;base64,YWI=");
}

#[test]
fn qq_addresses() {
    assert_eq!(
        qq_fetch_url("/lyric/x.fcg", &pairs(&[("songmid", "m1"), ("nobase64", "1")])),
        "https://c.y.qq.com/lyric/x.fcg?format=json&songmid=m1&nobase64=1"
    );
    assert_eq!(qq_fetch_url("/p", &pairs(&[])), "https://c.y.qq.com/p?format=json");
    assert_eq!(
        query_url("https://c.y.qq.com/a.fcg", &pairs(&[("g_tk", "5381"), ("loginUin", "12")])),
        "https://c.y.qq.com/a.fcg?g_tk=5381&loginUin=12"
    );
    assert_eq!(query_url("https://x", &pairs(&[])), "https://x");
    assert_eq!(qq_song_page("002Mid"), "https://y.qq.com/n/ryqq/songDetail/002Mid");
}

#[test]
fn qq_search_record() {
    let f = QqSearchFields {
        id: vec![None, Some(97773)],
        mid: vec![Some("0039MnYb0qxYhV".into()), None],
        name: vec![None, Some("晴天".into())],
        singers: vec!["周杰伦".into(), "".into()],
        album: Some("叶惠美".into()),
        album_mid: Some("000MkMni19ClKG".into()),
        interval: Some(269),
    };
    let s = map_qq_search_item(&f);
    assert_eq!(s.id, 97773);
    assert_eq!(s.mid, "0039MnYb0qxYhV");
    assert_eq!(s.name, "晴天");
    assert_eq!(s.artist, "周杰伦, ");
    assert_eq!(s.album, "叶惠美");
    assert_eq!(s.cover, "https://y.gtimg.cn/music/photo_new/T002R300x300M000000MkMni19ClKG.jpg");
    assert_eq!(s.duration, 269);
    let e = map_qq_search_item(&QqSearchFields {
        id: vec![],
        mid: vec![],
        name: vec![],
        singers: vec![],
        album: None,
        album_mid: Some(String::new()),
        interval: None,
    });
    assert_eq!((e.id, e.mid.as_str(), e.artist.as_str(), e.cover.as_str(), e.duration), (0, "", "", "", 0));
}

#[test]
fn qq_stream_address() {
    assert_eq!(qq_song_file("0001"), "C4000001.m4a");
    assert_eq!(
        qq_stream_url("C400x.m4a", "VK", 66),
        "https://dl.stream.qqmusic.qq.com/C400x.m4a?vkey=VK&guid=0&fromtag=66"
    );
    assert_eq!(qq_stream_url("C400x.m4a", "", 66), "");
}

#[test]
fn qq_profile_flags() {
    assert!(qq_profile_unavailable(Some(1000), None));
    assert!(qq_profile_unavailable(Some(0), Some(301)));
    assert!(!qq_profile_unavailable(Some(0), Some(100)));
    assert!(!qq_profile_unavailable(None, None));
}

#[test]
fn qq_comment_text() {
    assert_eq!(comment_text(&vec![None, Some("hi".into())]), Some("hi".to_string()));
    assert_eq!(comment_text(&vec![Some("".into()), Some("hi".into())]), None);
    assert_eq!(comment_text(&vec![None, None]), None);
}

fn pl(id: &str, name: &str) -> PlaylistSummary {
    PlaylistSummary {
        id: id.into(),
        name: name.into(),
        cover: String::new(),
        track_count: 0,
        play_count: 0,
        creator: String::new(),
    }
}

#[test]
fn account_playlists_once_each() {
    let out = account_playlists(
        vec![pl("1", "a"), pl("", "nameless"), pl("2", "b"), pl("1", "again")],
        vec![pl("2", "collected b"), pl("3", "c")],
    );
    let got: Vec<(&str, &str)> = out.iter().map(|p| (p.id.as_str(), p.name.as_str())).collect();
    assert_eq!(got, vec![("1", "a"), ("2", "b"), ("3", "c")]);
}

#[test]
fn release_notes_with_defaults() {
    assert_eq!(shown_release_notes("- fast\n* fixes\ntext"), vec!["fast".to_string(), "fixes".to_string()]);
    assert_eq!(shown_release_notes("no bullets"), vec!["性能优化".to_string(), "Bug 修复".to_string()]);
}

#[test]
fn cookie_store_round_trip() {
    let mut s = mineradio::cookie::CookieStore::new("a=1".to_string(), "uin=2".to_string());
    assert_eq!(s.netease(), "a=1");
    assert_eq!(s.qq(), "uin=2");
    s.set_netease("MUSIC_U=x");
    assert_eq!(s.netease(), "MUSIC_U=x");
    assert_eq!(s.qq(), "uin=2");
    s.set_qq("");
    assert_eq!(s.qq(), "");
    assert_eq!(s.netease(), "MUSIC_U=x");
}

#[test]
fn discover_page_caps_and_mode() {
    let v: Vec<u32> = (0..20).collect();
    assert_eq!(mineradio::discover::discover_podcasts(v.clone()), (0..6).collect::<Vec<u32>>());
    assert_eq!(mineradio::discover::discover_daily_songs(v), (0..12).collect::<Vec<u32>>());
    assert_eq!(mineradio::discover::discover_podcasts(vec![1u32, 2]), vec![1, 2]);
    let m = mineradio::discover::discover_mode("");
    assert!(!m.logged_in);
    assert_eq!(m.mode, "starter");
    let m = mineradio::discover::discover_mode("MUSIC_U=x");
    assert!(m.logged_in);
    assert_eq!(m.mode, "member");
}

#[test]
fn update_feed_address() {
    assert_eq!(mineradio::version::release_api_url("", "repo"), None);
    assert_eq!(mineradio::version::release_api_url("me", ""), None);
    assert_eq!(
        mineradio::version::release_api_url("me", "radio"),
        Some("https://api.github.com/repos/me/radio/releases/latest".to_string())
    );
    assert_eq!(
        mineradio::version::unconfigured_update_summary(),
        "更新检测未配置，请在 online_api.rs 中设置 GitHub 仓库地址。"
    );
}

#[test]
fn sidecar_reply_classification() {
    assert_eq!(check_reply_line("").err(), Some("empty response".to_string()));
    assert!(check_reply_line("{}\n").is_ok());
    let e = JsonRpcError { code: -32601, message: "no method".to_string() };
    assert_eq!(reply_outcome(Some(e), Some(5), 0).err(), Some("RPC error -32601: no method".to_string()));
    assert_eq!(reply_outcome::<i32>(None, Some(5), 0), Ok(5));
    assert_eq!(reply_outcome::<i32>(None, None, 0), Ok(0));
}
