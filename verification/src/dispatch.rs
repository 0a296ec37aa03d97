//! The method dispatcher of the online API: which request a front-end call
//! names, with the `source` parameter choosing QQ Music for the searches,
//! song addresses and lyrics.
use vstd::prelude::*;
use crate::text::{chars_of, push_str, str_eq, string_of};

verus! {

/// A request of the online API.
#[derive(PartialEq, Eq, Structural, Clone, Copy, Debug)]
pub enum ApiMethod {
    QqSearch,
    Search,
    QqSongUrl,
    SongUrl,
    SongUrlV1,
    QqLyric,
    Lyric,
    LyricNew,
    Cover,
    LoginQrKey,
    LoginQrCreate,
    LoginQrCheck,
    LoginStatus,
    Logout,
    UserPlaylists,
    PlaylistTracks,
    PlaylistTrackAll,
    PlaylistDetail,
    PlaylistAddSong,
    PlaylistCreate,
    LikeSong,
    Likelist,
    Personalized,
    RecommendResource,
    RecommendSongs,
    ArtistDetail,
    ArtistTopSong,
    ArtistSongs,
    CommentMusic,
    DjHot,
    DjProgram,
    DjDetail,
    DjSublist,
    UserAudio,
    RecordRecentVoice,
    SatiResourceSubList,
    QqUserPlaylists,
    QqPlaylistTracks,
    QqQrKey,
    QqQrCreate,
    QqQrCheck,
    QqArtistDetail,
    QqSongComments,
    QqLoginCookie,
    QqLoginStatus,
    QqLogout,
    WeatherIpLocation,
    WeatherRadio,
    DiscoverHome,
    CheckUpdate,
    GetCookie,
    SetCookie,
}

/// The request that the method name `method` names; `qq` tells whether the
/// call's `source` parameter is `qq`.
pub open spec fn route_spec(method: Seq<char>, qq: bool) -> Option<ApiMethod> {
    if method == "search"@ {
        Some(if qq { ApiMethod::QqSearch } else { ApiMethod::Search })
    } else if method == "song_url"@ {
        Some(if qq { ApiMethod::QqSongUrl } else { ApiMethod::SongUrl })
    } else if method == "song_url_v1"@ {
        Some(if qq { ApiMethod::QqSongUrl } else { ApiMethod::SongUrlV1 })
    } else if method == "lyric"@ {
        Some(if qq { ApiMethod::QqLyric } else { ApiMethod::Lyric })
    } else if method == "lyric_new"@ {
        Some(ApiMethod::LyricNew)
    } else if method == "cover"@ {
        Some(ApiMethod::Cover)
    } else if method == "login_qr_key"@ {
        Some(ApiMethod::LoginQrKey)
    } else if method == "login_qr_create"@ {
        Some(ApiMethod::LoginQrCreate)
    } else if method == "login_qr_check"@ {
        Some(ApiMethod::LoginQrCheck)
    } else if method == "login_status"@ {
        Some(ApiMethod::LoginStatus)
    } else if method == "logout"@ {
        Some(ApiMethod::Logout)
    } else if method == "user_playlists"@ {
        Some(ApiMethod::UserPlaylists)
    } else if method == "playlist_tracks"@ {
        Some(ApiMethod::PlaylistTracks)
    } else if method == "playlist_track_all"@ {
        Some(ApiMethod::PlaylistTrackAll)
    } else if method == "playlist_detail"@ {
        Some(ApiMethod::PlaylistDetail)
    } else if method == "playlist_add_song"@ {
        Some(ApiMethod::PlaylistAddSong)
    } else if method == "playlist_create"@ {
        Some(ApiMethod::PlaylistCreate)
    } else if method == "like_song"@ {
        Some(ApiMethod::LikeSong)
    } else if method == "likelist"@ {
        Some(ApiMethod::Likelist)
    } else if method == "personalized"@ {
        Some(ApiMethod::Personalized)
    } else if method == "recommend_resource"@ {
        Some(ApiMethod::RecommendResource)
    } else if method == "recommend_songs"@ {
        Some(ApiMethod::RecommendSongs)
    } else if method == "artist_detail"@ {
        Some(ApiMethod::ArtistDetail)
    } else if method == "artist_top_song"@ {
        Some(ApiMethod::ArtistTopSong)
    } else if method == "artist_songs"@ {
        Some(ApiMethod::ArtistSongs)
    } else if method == "comment_music"@ {
        Some(ApiMethod::CommentMusic)
    } else if method == "dj_hot"@ {
        Some(ApiMethod::DjHot)
    } else if method == "dj_program"@ {
        Some(ApiMethod::DjProgram)
    } else if method == "dj_detail"@ {
        Some(ApiMethod::DjDetail)
    } else if method == "dj_sublist"@ {
        Some(ApiMethod::DjSublist)
    } else if method == "user_audio"@ {
        Some(ApiMethod::UserAudio)
    } else if method == "record_recent_voice"@ {
        Some(ApiMethod::RecordRecentVoice)
    } else if method == "sati_resource_sub_list"@ {
        Some(ApiMethod::SatiResourceSubList)
    } else if method == "qq_search"@ {
        Some(ApiMethod::QqSearch)
    } else if method == "qq_song_url"@ {
        Some(ApiMethod::QqSongUrl)
    } else if method == "qq_lyric"@ {
        Some(ApiMethod::QqLyric)
    } else if method == "qq_user_playlists"@ {
        Some(ApiMethod::QqUserPlaylists)
    } else if method == "qq_playlist_tracks"@ {
        Some(ApiMethod::QqPlaylistTracks)
    } else if method == "qq_qr_key"@ {
        Some(ApiMethod::QqQrKey)
    } else if method == "qq_qr_create"@ {
        Some(ApiMethod::QqQrCreate)
    } else if method == "qq_qr_check"@ {
        Some(ApiMethod::QqQrCheck)
    } else if method == "qq_artist_detail"@ {
        Some(ApiMethod::QqArtistDetail)
    } else if method == "qq_song_comments"@ {
        Some(ApiMethod::QqSongComments)
    } else if method == "qq_login_cookie"@ {
        Some(ApiMethod::QqLoginCookie)
    } else if method == "qq_login_status"@ {
        Some(ApiMethod::QqLoginStatus)
    } else if method == "qq_logout"@ {
        Some(ApiMethod::QqLogout)
    } else if method == "weather_ip_location"@ {
        Some(ApiMethod::WeatherIpLocation)
    } else if method == "weather_radio"@ {
        Some(ApiMethod::WeatherRadio)
    } else if method == "discover_home"@ {
        Some(ApiMethod::DiscoverHome)
    } else if method == "check_update"@ {
        Some(ApiMethod::CheckUpdate)
    } else if method == "get_cookie"@ {
        Some(ApiMethod::GetCookie)
    } else if method == "set_cookie"@ {
        Some(ApiMethod::SetCookie)
    } else {
        None
    }
}

/// Whether a call's `source` parameter selects QQ Music (an absent source
/// means Netease).
pub open spec fn is_qq_source(source: Option<Seq<char>>) -> bool {
    source == Some("qq"@)
}

/// The request that the method name `method` names, or the error
/// `Method not found: {method}`.
pub fn route(method: &str, source: Option<&str>) -> (r: Result<ApiMethod, String>)
    ensures
        match route_spec(method@, is_qq_source(match source {
            Some(s) => Some(s@),
            None => None,
        })) {
            Some(m) => r == Ok::<ApiMethod, String>(m),
            None => r matches Err(e) && e@ == "Method not found: "@ + method@,
        },
{
    let qq = match source {
        Some(s) => str_eq(s, "qq"),
        None => false,
    };
    if str_eq(method, "search") {
        Ok(if qq { ApiMethod::QqSearch } else { ApiMethod::Search })
    } else if str_eq(method, "song_url") {
        Ok(if qq { ApiMethod::QqSongUrl } else { ApiMethod::SongUrl })
    } else if str_eq(method, "song_url_v1") {
        Ok(if qq { ApiMethod::QqSongUrl } else { ApiMethod::SongUrlV1 })
    } else if str_eq(method, "lyric") {
        Ok(if qq { ApiMethod::QqLyric } else { ApiMethod::Lyric })
    } else if str_eq(method, "lyric_new") {
        Ok(ApiMethod::LyricNew)
    } else if str_eq(method, "cover") {
        Ok(ApiMethod::Cover)
    } else if str_eq(method, "login_qr_key") {
        Ok(ApiMethod::LoginQrKey)
    } else if str_eq(method, "login_qr_create") {
        Ok(ApiMethod::LoginQrCreate)
    } else if str_eq(method, "login_qr_check") {
        Ok(ApiMethod::LoginQrCheck)
    } else if str_eq(method, "login_status") {
        Ok(ApiMethod::LoginStatus)
    } else if str_eq(method, "logout") {
        Ok(ApiMethod::Logout)
    } else if str_eq(method, "user_playlists") {
        Ok(ApiMethod::UserPlaylists)
    } else if str_eq(method, "playlist_tracks") {
        Ok(ApiMethod::PlaylistTracks)
    } else if str_eq(method, "playlist_track_all") {
        Ok(ApiMethod::PlaylistTrackAll)
    } else if str_eq(method, "playlist_detail") {
        Ok(ApiMethod::PlaylistDetail)
    } else if str_eq(method, "playlist_add_song") {
        Ok(ApiMethod::PlaylistAddSong)
    } else if str_eq(method, "playlist_create") {
        Ok(ApiMethod::PlaylistCreate)
    } else if str_eq(method, "like_song") {
        Ok(ApiMethod::LikeSong)
    } else if str_eq(method, "likelist") {
        Ok(ApiMethod::Likelist)
    } else if str_eq(method, "personalized") {
        Ok(ApiMethod::Personalized)
    } else if str_eq(method, "recommend_resource") {
        Ok(ApiMethod::RecommendResource)
    } else if str_eq(method, "recommend_songs") {
        Ok(ApiMethod::RecommendSongs)
    } else if str_eq(method, "artist_detail") {
        Ok(ApiMethod::ArtistDetail)
    } else if str_eq(method, "artist_top_song") {
        Ok(ApiMethod::ArtistTopSong)
    } else if str_eq(method, "artist_songs") {
        Ok(ApiMethod::ArtistSongs)
    } else if str_eq(method, "comment_music") {
        Ok(ApiMethod::CommentMusic)
    } else if str_eq(method, "dj_hot") {
        Ok(ApiMethod::DjHot)
    } else if str_eq(method, "dj_program") {
        Ok(ApiMethod::DjProgram)
    } else if str_eq(method, "dj_detail") {
        Ok(ApiMethod::DjDetail)
    } else if str_eq(method, "dj_sublist") {
        Ok(ApiMethod::DjSublist)
    } else if str_eq(method, "user_audio") {
        Ok(ApiMethod::UserAudio)
    } else if str_eq(method, "record_recent_voice") {
        Ok(ApiMethod::RecordRecentVoice)
    } else if str_eq(method, "sati_resource_sub_list") {
        Ok(ApiMethod::SatiResourceSubList)
    } else if str_eq(method, "qq_search") {
        Ok(ApiMethod::QqSearch)
    } else if str_eq(method, "qq_song_url") {
        Ok(ApiMethod::QqSongUrl)
    } else if str_eq(method, "qq_lyric") {
        Ok(ApiMethod::QqLyric)
    } else if str_eq(method, "qq_user_playlists") {
        Ok(ApiMethod::QqUserPlaylists)
    } else if str_eq(method, "qq_playlist_tracks") {
        Ok(ApiMethod::QqPlaylistTracks)
    } else if str_eq(method, "qq_qr_key") {
        Ok(ApiMethod::QqQrKey)
    } else if str_eq(method, "qq_qr_create") {
        Ok(ApiMethod::QqQrCreate)
    } else if str_eq(method, "qq_qr_check") {
        Ok(ApiMethod::QqQrCheck)
    } else if str_eq(method, "qq_artist_detail") {
        Ok(ApiMethod::QqArtistDetail)
    } else if str_eq(method, "qq_song_comments") {
        Ok(ApiMethod::QqSongComments)
    } else if str_eq(method, "qq_login_cookie") {
        Ok(ApiMethod::QqLoginCookie)
    } else if str_eq(method, "qq_login_status") {
        Ok(ApiMethod::QqLoginStatus)
    } else if str_eq(method, "qq_logout") {
        Ok(ApiMethod::QqLogout)
    } else if str_eq(method, "weather_ip_location") {
        Ok(ApiMethod::WeatherIpLocation)
    } else if str_eq(method, "weather_radio") {
        Ok(ApiMethod::WeatherRadio)
    } else if str_eq(method, "discover_home") {
        Ok(ApiMethod::DiscoverHome)
    } else if str_eq(method, "check_update") {
        Ok(ApiMethod::CheckUpdate)
    } else if str_eq(method, "get_cookie") {
        Ok(ApiMethod::GetCookie)
    } else if str_eq(method, "set_cookie") {
        Ok(ApiMethod::SetCookie)
    } else {
        let mut m = chars_of("Method not found: ");
        push_str(&mut m, method);
        Err(string_of(m.as_slice()))
    }
}

} // verus!
