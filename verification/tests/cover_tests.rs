use mineradio::cover::{
    base64_encode, cover_format, detect_mime, extract_cover, parse_apic_frame,
    parse_flac_picture, path_extension_exec, simple_hash, u32_from_be_bytes, CoverFormat,
    FileProbe,
};
use mineradio::lru::{extract_cover_cached, LruCache, COVER_CACHE_MAX};

const PNG: [u8; 12] = [0x89, 0x50, 0x4e, 0x47, 0x0d, 0x0a, 0x1a, 0x0a, 1, 2, 3, 4];

fn apic_body() -> Vec<u8> {
    let mut b = vec![0u8];
    b.extend_from_slice(b"image/png");
    b.push(0);
    b.push(3);
    b.extend_from_slice(b"desc");
    b.push(0);
    b.extend_from_slice(&PNG);
    b
}

fn mp3_with_cover() -> Vec<u8> {
    let body = apic_body();
    let mut frame = b"APIC".to_vec();
    frame.extend_from_slice(&(body.len() as u32).to_be_bytes());
    frame.extend_from_slice(&body);
    let mut d = b"ID3".to_vec();
    d.extend_from_slice(&[3, 0, 0, 0, 0, 0, frame.len() as u8]);
    d.extend_from_slice(&frame);
    d
}

fn flac_with_cover(mime: &[u8]) -> Vec<u8> {
    let mut block = 3u32.to_be_bytes().to_vec();
    block.extend_from_slice(&(mime.len() as u32).to_be_bytes());
    block.extend_from_slice(mime);
    block.extend_from_slice(&4u32.to_be_bytes());
    block.extend_from_slice(b"desc");
    block.extend_from_slice(&[0u8; 16]);
    block.extend_from_slice(&(PNG.len() as u32).to_be_bytes());
    block.extend_from_slice(&PNG);
    let mut d = b"fLaC".to_vec();
    d.extend_from_slice(&[0x00, 0, 0, 34]);
    d.extend_from_slice(&[0u8; 34]);
    d.push(0x86);
    let n = block.len() as u32;
    d.extend_from_slice(&[(n >> 16) as u8, (n >> 8) as u8, n as u8]);
    d.extend_from_slice(&block);
    d
}

#[test]
fn base64_matches_rfc_examples() {
    assert_eq!(base64_encode(b""), "");
    assert_eq!(base64_encode(b"f"), "Zg==");
    assert_eq!(base64_encode(b"fo"), "Zm8=");
    assert_eq!(base64_encode(b"foo"), "Zm9v");
    assert_eq!(base64_encode(b"foobar"), "Zm9vYmFy");
    assert_eq!(base64_encode(&[0xff, 0xfe, 0xfd, 0xfc]), "//79/A==");
}

#[test]
fn mime_detection() {
    assert_eq!(detect_mime(&PNG), "image/png");
    assert_eq!(detect_mime(&[0xff, 0xd8, 0, 0, 0, 0, 0, 0]), "image/jpeg");
    assert_eq!(detect_mime(b"GIF89a.."), "image/gif");
    assert_eq!(detect_mime(b"\0\0\0\x18ftypavif"), "image/webp");
    assert_eq!(detect_mime(b"GIF"), "image/jpeg");
}

#[test]
fn big_endian_words() {
    assert_eq!(u32_from_be_bytes(&[1, 2, 3, 4]), 0x01020304);
}

#[test]
fn extensions_follow_path_rules() {
    assert_eq!(path_extension_exec("C:\\Music\\Song.MP3").as_deref(), Some("MP3"));
    assert_eq!(path_extension_exec("/a/b.tar.gz").as_deref(), Some("gz"));
    assert_eq!(path_extension_exec("/a/.hidden"), None);
    assert_eq!(path_extension_exec("/a/noext"), None);
    assert_eq!(path_extension_exec("/a/b.flac/"), Some("flac".to_string()));
    assert_eq!(cover_format("x/y.FLAC"), Some(CoverFormat::Flac));
    assert_eq!(cover_format("x/y.mp3"), Some(CoverFormat::Mp3));
    assert_eq!(cover_format("x/y.wav"), None);
}

#[test]
fn apic_frame_yields_picture() {
    let c = parse_apic_frame(&apic_body()).unwrap().unwrap();
    assert_eq!(c.mime, "image/png");
    assert_eq!(c.data, base64_encode(&PNG));
    assert!(c.cache_key.starts_with("cover:"));
    assert!(c.cache_key[6..].chars().all(|ch| ch.is_ascii_hexdigit()));
}

#[test]
fn apic_frame_with_bad_mime_is_an_error() {
    let mut b = vec![0u8, 0xff, 0xfe, 0];
    b.extend_from_slice(&[3, 0]);
    b.extend_from_slice(&PNG);
    assert_eq!(parse_apic_frame(&b).err().as_deref(), Some("invalid mime"));
    assert!(parse_apic_frame(&[0]).unwrap().is_none());
}

#[test]
fn mp3_cover_is_found() {
    let r = extract_cover("song.mp3", FileProbe::Contents(mp3_with_cover())).unwrap().unwrap();
    assert_eq!(r.mime, "image/png");
    assert_eq!(r.data, base64_encode(&PNG));
}

#[test]
fn flac_cover_is_found_and_mime_guessed() {
    let r = extract_cover("song.flac", FileProbe::Contents(flac_with_cover(b""))).unwrap().unwrap();
    assert_eq!(r.mime, "image/png");
    let r = extract_cover("song.flac", FileProbe::Contents(flac_with_cover(b"image/x"))).unwrap().unwrap();
    assert_eq!(r.mime, "image/x");
    let pic = parse_flac_picture(&[0u8; 40]).unwrap().unwrap();
    assert_eq!(pic.data, "");
}

#[test]
fn extraction_errors_and_misses() {
    assert_eq!(extract_cover("a.mp3", FileProbe::Missing).err().as_deref(), Some("FILE_NOT_FOUND"));
    assert_eq!(
        extract_cover("a.mp3", FileProbe::Unreadable("denied".to_string())).err().as_deref(),
        Some("read error: denied")
    );
    assert!(extract_cover("a.txt", FileProbe::Contents(vec![])).unwrap().is_none());
    assert!(extract_cover("a.mp3", FileProbe::Contents(b"not id3 at all".to_vec())).unwrap().is_none());
    assert!(extract_cover("a.flac", FileProbe::Contents(vec![0; 50])).unwrap().is_none());
}

#[test]
fn content_hash_is_hex() {
    let h = simple_hash(b"abc");
    assert!(!h.is_empty() && h.chars().all(|c| c.is_ascii_hexdigit() && !c.is_ascii_uppercase()));
    assert_eq!(h, simple_hash(b"abc"));
}

#[test]
fn cache_returns_stored_cover_without_probing() {
    let mut cache = LruCache::new();
    let first = extract_cover_cached(&mut cache, "song.mp3", FileProbe::Contents(mp3_with_cover())).unwrap().unwrap();
    let again = extract_cover_cached(&mut cache, "song.mp3", FileProbe::Missing).unwrap().unwrap();
    assert_eq!(first.data, again.data);
    assert_eq!(first.cache_key, again.cache_key);
    assert!(extract_cover_cached(&mut cache, "other.mp3", FileProbe::Missing).is_err());
}

#[test]
fn cache_evicts_least_recently_used() {
    let mut cache = LruCache::new();
    let cover = |i: usize| mineradio::cover::CoverData { mime: "m".into(), data: format!("{}", i), cache_key: "k".into() };
    for i in 0..COVER_CACHE_MAX {
        cache.insert(format!("cover:{}", i), cover(i));
    }
    assert!(cache.get("cover:0").is_some());
    cache.insert("cover:new".into(), cover(999));
    assert!(cache.get("cover:1").is_none());
    assert_eq!(cache.get("cover:0").unwrap().data, "0");
    assert_eq!(cache.get("cover:new").unwrap().data, "999");
    cache.insert("cover:new".into(), cover(5));
    assert_eq!(cache.get("cover:new").unwrap().data, "999");
}

#[test]
fn apic_frame_keeps_leading_zero_of_latin1_picture() {
    let mut b = vec![0u8];
    b.extend_from_slice(b"image/png");
    b.extend_from_slice(&[0, 1, 0]);
    b.extend_from_slice(&[0, 5, 6]);
    let c = parse_apic_frame(&b).unwrap().unwrap();
    assert_eq!(c.data, "AAUG");
}

#[test]
fn apic_frame_skips_second_nul_of_utf16_description() {
    let mut b = vec![1u8];
    b.extend_from_slice(b"image/png");
    b.extend_from_slice(&[0, 3, 0, 0]);
    b.extend_from_slice(&[7, 8, 9]);
    let c = parse_apic_frame(&b).unwrap().unwrap();
    assert_eq!(c.data, base64_encode(&[7, 8, 9]));
}

#[test]
fn cover_key_is_content_hash() {
    let mut b = vec![0u8];
    b.extend_from_slice(b"image/png");
    b.extend_from_slice(&[0, 3, 0]);
    b.extend_from_slice(&[1, 2, 3]);
    let c = parse_apic_frame(&b).unwrap().unwrap();
    assert_eq!(c.mime, "image/png");
    assert_eq!(c.data, "AQID");
    assert_eq!(c.cache_key, format!("cover:{}", simple_hash(&[1u8, 2, 3])));
}
