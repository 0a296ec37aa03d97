use mineradio::cookie::{
    build_eapi_cookie, build_eapi_cookie_at, build_weapi_cookie, join_set_cookie_values,
    merge_set_cookies, parse_cookie_value, qrsig_from_set_cookies,
};
use mineradio::netease::{
    aes_cbc_encrypt_base64, aes_ecb_encrypt_hex, eapi_encrypt, eapi_form_body, eapi_url,
    random_secret_key, rsa_encrypt, weapi_encrypt, weapi_encrypt_with, weapi_form_body, weapi_url,
};
use mineradio::urlcode::{hex_digit, simple_url_decode, url_encode};

const WEB_FIELDS: &str = "__remember_me=true; ntes_kaola_ad=1; os=pc; appver=3.1.17.204416; osver=Microsoft-Windows-10-Professional-build-19045-64bit; channel=netease; __csrf=";

#[test]
fn cookie_values_are_trimmed_and_first_wins() {
    let c = "a=1; __csrf= tok ;MUSIC_U=xyz; __csrf=second; broken; =v";
    assert_eq!(parse_cookie_value(c, "__csrf").as_deref(), Some("tok"));
    assert_eq!(parse_cookie_value(c, "MUSIC_U").as_deref(), Some("xyz"));
    assert_eq!(parse_cookie_value(c, "broken"), None);
    assert_eq!(parse_cookie_value(c, "").as_deref(), Some("v"));
    assert_eq!(parse_cookie_value("", "a"), None);
}

#[test]
fn weapi_cookie_header() {
    assert_eq!(build_weapi_cookie(""), format!("{}", WEB_FIELDS));
    assert_eq!(build_weapi_cookie("__csrf=abc; MUSIC_U=u1"), format!("{}abc; MUSIC_U=u1", WEB_FIELDS));
}

#[test]
fn eapi_cookie_header() {
    let c = build_eapi_cookie_at("MUSIC_U=m; __csrf=c", 1700000000123, 7);
    assert_eq!(c, "os=pc; appver=3.1.17.204416; osver=Microsoft-Windows-10-Professional-build-19045-64bit; channel=netease; versioncode=140; buildver=1700000000; resolution=1920x1080; __csrf=c; requestId=1700000000123_0007; MUSIC_U=m");
    let c = build_eapi_cookie_at("", 999, 999);
    assert!(c.ends_with("__csrf=; requestId=999_0999"));
    let live = build_eapi_cookie("");
    assert!(live.starts_with("os=pc; appver=3.1.17.204416;"));
    assert!(live.contains("; requestId="));
}

#[test]
fn url_escaping_round_trip() {
    assert_eq!(url_encode("a+b/c=d&e%f g"), "a%2Bb%2Fc%3Dd%26e%25f g");
    for s in ["", "plain", "+/=&%", "x=1&y=2%3", "abc+DEF/=="] {
        assert_eq!(simple_url_decode(&url_encode(s)), s);
    }
}

#[test]
fn lenient_decoding() {
    assert_eq!(simple_url_decode("a+b%41%zz%4"), "a bA%zz%4");
    assert_eq!(simple_url_decode("%E4%BD%A0"), "\u{e4}\u{bd}\u{a0}");
    assert_eq!(hex_digit(b'7'), Some(7));
    assert_eq!(hex_digit(b'f'), Some(15));
    assert_eq!(hex_digit(b'C'), Some(12));
    assert_eq!(hex_digit(b'g'), None);
}

#[test]
fn aes_layers_match_known_vectors() {
    assert_eq!(aes_cbc_encrypt_base64("hello", b"0CoJUm6Qyw8W8jud", b"0102030405060708"), "+J9Q3vLzLGFuqlWFQh3T3A==");
    assert_eq!(aes_ecb_encrypt_hex("hello", b"e82ckenh8dichen8"), "3329CABA8FB561FF0086A5823D14F529");
}

#[test]
fn rsa_wrapping_matches_textbook_rsa() {
    let r = rsa_encrypt("abcdefghijklmnop");
    assert_eq!(r, "d15a1683c992095d0c234c19966605c5c5964911268bbeda8cb8d08d834913e59d53b32358903a121b5fca784c1f5ae44951fd02524df58ecc98e52cc7cf8689b42c2e93ddf05b0592512d87f5960467e2f086c018849d76014d323500e30f13ef4cafbb0cf5a66731a3f1776c75ca35d0062dac70a3e33245afabcf47938487");
    assert_eq!(rsa_encrypt("").len(), 256);
    assert_eq!(rsa_encrypt(""), "0".repeat(256));
}

#[test]
fn weapi_fields_with_fixed_key() {
    let (params, key) = weapi_encrypt_with("{\"a\":1}", "abcdefghijklmnop");
    assert_eq!(params, "Ho/4Pu1bYyrzwcnXPnTcXm1Gb04eSzwGSNb4NI3YqZY=");
    assert_eq!(key, rsa_encrypt("abcdefghijklmnop"));
}

#[test]
fn weapi_random_key_shape() {
    let k = random_secret_key();
    assert_eq!(k.chars().count(), 16);
    assert!(k.chars().all(|c| c.is_ascii_alphanumeric()));
    let (p, e) = weapi_encrypt("{}");
    assert!(!p.is_empty());
    assert_eq!(e.len(), 256);
}

#[test]
fn eapi_params_match_known_vector() {
    assert_eq!(eapi_encrypt("/api/x", "{}"), "D491EC3F25D615CBF708BAD78E56B20247525EC1C935138EBF422AA93B56B0DCD54B693242274186A444FE5A6DD2E94E4BDC10463D74A8B00455DBD9FF59745F80EB359946722B4CEC3B494F201797F4");
}

#[test]
fn request_addresses_and_bodies() {
    assert_eq!(weapi_url("/api/cloudsearch/pc"), "https://music.163.com/weapi/cloudsearch/pc");
    assert_eq!(eapi_url("/api/song/lyric"), "https://interface.music.163.com/eapi/song/lyric");
    assert_eq!(weapi_form_body("a+b", "c="), "params=a%2Bb&encSecKey=c%3D");
    assert_eq!(eapi_form_body("AB/"), "params=AB%2F");
}

#[test]
fn set_cookie_headers_join_and_merge() {
    let vals = vec!["a=1; Path=/".to_string(), " b=2 ;HttpOnly".to_string(), "c".to_string()];
    assert_eq!(join_set_cookie_values(&vals), "a=1; b=2; c");
    assert_eq!(join_set_cookie_values(&vec![]), "");
    let mut jar = vec!["qrsig=s".to_string(), "a=0".to_string()];
    merge_set_cookies(&mut jar, "a=1; b=2; ; qrsig=t; b=3");
    assert_eq!(jar, vec!["qrsig=t", "a=1", "b=3"]);
}

#[test]
fn qrsig_is_read_from_set_cookie() {
    let vals = vec!["pt_guid=1; Path=/".to_string(), "qrsig=abc-DEF; Domain=qq.com".to_string(), "qrsig=zzz".to_string()];
    assert_eq!(qrsig_from_set_cookies(&vals), "abc-DEF");
    assert_eq!(qrsig_from_set_cookies(&vec!["x=1".to_string()]), "");
    assert_eq!(qrsig_from_set_cookies(&vec!["qrsig=qrsig=v".to_string()]), "v");
}
