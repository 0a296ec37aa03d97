use mineradio::qq::{
    comment_login_uin, comment_paging, comment_song_id, follows_check_sig, hash33,
    param_as_i64, parse_ptui_cb, qq_album_cover, qq_avatar_fallback, qq_cookie_music_key,
    qq_cookie_nickname, qq_cookie_uin, qq_session, qq_singer_avatar, qr_check_url,
    qr_key_outcome, qr_login_state, qr_poll_token, qrsig_cookie, shows_hot_comments,
    QrLoginState,
};

#[test]
fn ptui_reply_is_read() {
    let r = parse_ptui_cb("ptuiCB('66','0','','0','二维码未失效。(12345)', '')");
    assert_eq!(r.code, 66);
    assert_eq!(r.status, "0");
    assert_eq!(r.url, "");
    assert_eq!(r.msg, "二维码未失效。(12345)");
    assert_eq!(r.nick, "");
    let r = parse_ptui_cb("ptuiCB('0','0','https://a.b/c?x=1,y=2','0','登录成功！', 'Nick, Name')");
    assert_eq!(r.code, 0);
    assert_eq!(r.url, "https://a.b/c?x=1,y=2");
    assert_eq!(r.nick, "Nick, Name");
}

#[test]
fn ptui_reply_without_call_is_empty() {
    let r = parse_ptui_cb("<html>403</html>");
    assert_eq!(r.code, -1);
    assert!(r.msg.is_empty() && r.url.is_empty() && r.nick.is_empty());
    assert_eq!(parse_ptui_cb("ptuiCB(").code, -1);
    assert_eq!(parse_ptui_cb(")ptuiCB(").code, -1);
    assert_eq!(parse_ptui_cb("ptuiCB('x')").code, -1);
}

#[test]
fn ptqrtoken_hash() {
    assert_eq!(hash33(""), 0);
    assert_eq!(hash33("abc"), 108966);
    assert_eq!(hash33("qrsig_value_example_123"), 1202949698);
    assert_eq!(qr_poll_token(""), None);
    assert_eq!(qr_poll_token("abc"), Some(108966));
}

#[test]
fn poll_states() {
    assert!(matches!(qr_login_state(0, "", "", "", 200), QrLoginState::Confirmed));
    assert!(matches!(qr_login_state(-1, "ptuiCB('x','登录成功')", "", "", 200), QrLoginState::Confirmed));
    match qr_login_state(67, "", "", "Bob", 200) {
        QrLoginState::Scanned(n) => assert_eq!(n, "Bob"),
        _ => panic!("expected scanned"),
    }
    assert!(matches!(qr_login_state(66, "", "", "", 200), QrLoginState::Waiting));
    assert!(matches!(qr_login_state(65, "", "", "", 200), QrLoginState::Expired));
    assert!(matches!(qr_login_state(7, "二维码已失效", "", "", 200), QrLoginState::Expired));
    match qr_login_state(7, "", "bad", "", 200) {
        QrLoginState::Failed(m) => assert_eq!(m, "bad"),
        _ => panic!(),
    }
    match qr_login_state(7, "", "", "", 403) {
        QrLoginState::Failed(m) => assert_eq!(m, "请求失败(HTTP 403)"),
        _ => panic!(),
    }
    match qr_login_state(-1, "", "", "", 200) {
        QrLoginState::Failed(m) => assert_eq!(m, "未知状态(code:-1)"),
        _ => panic!(),
    }
}

#[test]
fn poll_state_codes_and_messages() {
    assert_eq!(QrLoginState::Confirmed.status_code(), 803);
    assert_eq!(QrLoginState::Scanned("n".into()).status_code(), 802);
    assert_eq!(QrLoginState::Waiting.status_code(), 801);
    assert_eq!(QrLoginState::Expired.status_code(), 800);
    assert_eq!(QrLoginState::NoKey.status_code(), 800);
    assert_eq!(QrLoginState::NoKey.message(), "二维码已过期");
    assert_eq!(QrLoginState::Expired.message(), "二维码已失效");
    assert_eq!(QrLoginState::Waiting.message(), "请使用 QQ 扫码");
    assert_eq!(QrLoginState::Scanned("n".into()).message(), "已扫码，请确认登录");
    assert_eq!(QrLoginState::Confirmed.message(), "登录成功");
}

#[test]
fn poll_address_and_redirects() {
    let u = qr_check_url(108966, 1700000000000);
    assert!(u.starts_with("https://ssl.ptlogin2.qq.com/ptqrlogin?u1=https%3A%2F%2Fgraph.qq.com%2Foauth2.0%2Flogin_jump&ptqrtoken=108966&ptredirect=0"));
    assert!(u.contains("&action=0-0-1700000000000&js_ver=23111510"));
    assert!(u.ends_with("&pt_3rd_aid=100497308"));
    assert!(follows_check_sig("https://ssl.ptlogin2.graph.qq.com/check_sig?x"));
    assert!(follows_check_sig("http://a"));
    assert!(!follows_check_sig("0"));
    assert!(!follows_check_sig(""));
    assert!(!follows_check_sig("ftp://a"));
    assert_eq!(qrsig_cookie("abc"), "qrsig=abc");
}

#[test]
fn qr_image_outcomes() {
    let png = [0x89u8, 0x50, 0x4e, 0x47, 1];
    let ok = qr_key_outcome(true, 200, Some("OK"), "image/png", &png, "sig", "(none)").unwrap();
    assert_eq!(ok.key, "sig");
    assert_eq!(ok.image, "data:image/png;base64,iVBORwE=");
    let jpg = [0xffu8, 0xd8, 0];
    assert_eq!(qr_key_outcome(true, 200, Some("OK"), "image/jpeg", &jpg, "s", "l").unwrap().image, "data:image/jpeg;base64,/9gA");
    assert_eq!(
        qr_key_outcome(false, 403, Some("Forbidden"), "text/html", b"no", "", "(none)").err().unwrap(),
        "QQ QR HTTP 403 Forbidden (content-type: text/html, 2 bytes, qrsig: no, location: (none))"
    );
    assert_eq!(
        qr_key_outcome(true, 200, Some("OK"), "text/html", b"<html>", "sig", "x").err().unwrap(),
        "QQ QR response is not an image (content-type: text/html, status: 200 OK, preview: <html>)"
    );
    assert_eq!(
        qr_key_outcome(true, 299, None, "t", &[1, 2], "s", "x").err().unwrap(),
        "QQ QR response is not an image (content-type: t, status: 299 <unknown status code>, preview: \u{1}\u{2})"
    );
    assert_eq!(
        qr_key_outcome(true, 200, Some("OK"), "image/png", &png, "", "x").err().unwrap(),
        "QQ QR: qrsig cookie not found in response"
    );
}

#[test]
fn account_fields_of_the_cookie() {
    let c = "uin=o0012345; qm_keyst=KEY; ptnick_12345=%E5%B0%8F; nick=fallback";
    assert_eq!(qq_cookie_uin(c), "12345");
    assert_eq!(qq_cookie_music_key(c), "KEY");
    assert_eq!(qq_cookie_music_key("skey=@abc"), "@abc");
    assert_eq!(qq_cookie_uin("wxuin=0; p_uin=9"), "");
    assert_eq!(qq_cookie_nickname(c, "12345"), "\u{e5}\u{b0}\u{8f}");
    assert_eq!(qq_cookie_nickname("ptnick_012=A+B", "12"), "A B");
    assert_eq!(qq_cookie_nickname("nickname=; qq_nickname=Q", "1"), "Q");
    assert_eq!(qq_cookie_nickname("x=1", ""), "");
    assert_eq!(qq_session(c).as_deref(), Some("12345"));
    assert_eq!(qq_session("uin=1"), None);
    assert_eq!(qq_avatar_fallback("7"), "https://q1.qlogo.cn/g?b=qq&nk=7&s=100");
}

#[test]
fn picture_addresses() {
    assert_eq!(qq_album_cover("abc", 300), "https://y.qq.com/music/photo_new/T002R300x300M000abc.jpg?max_age=2592000");
    assert_eq!(qq_singer_avatar("def", 150), "https://y.qq.com/music/photo_new/T001R150x150M000def.jpg?max_age=2592000");
    assert_eq!(qq_album_cover("", 300), "");
    assert_eq!(qq_singer_avatar("", 300), "");
}

#[test]
fn comment_requests() {
    assert_eq!(comment_paging(20, 45), (20, 45, 2));
    assert_eq!(comment_paging(1, -3), (6, 0, 0));
    assert_eq!(comment_paging(500, 100), (50, 100, 2));
    assert!(shows_hot_comments(0, 3));
    assert!(!shows_hot_comments(20, 3));
    assert!(!shows_hot_comments(0, 0));
    assert_eq!(comment_song_id("id:12a3"), "123");
    assert_eq!(comment_login_uin(""), "0");
    assert_eq!(comment_login_uin("uin=5"), "5");
    assert_eq!(param_as_i64(Some(3), Some("9"), 1), 3);
    assert_eq!(param_as_i64(None, Some("-9"), 1), -9);
    assert_eq!(param_as_i64(None, Some("x"), 1), 1);
    assert_eq!(param_as_i64(None, None, 4), 4);
}
