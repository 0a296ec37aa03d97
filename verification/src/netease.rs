//! The request encodings of the Netease Cloud Music web (`weapi`) and
//! client (`eapi`) interfaces: the two AES layers and the RSA-wrapped key of
//! `weapi`, the MD5-signed AES payload of `eapi`, and the addresses and form
//! bodies the requests are sent with.
use vstd::prelude::*;
use vstd::utf8::*;
use vstd::arithmetic::power::pow;
use crate::cover::base64_spec;
use crate::crypto::{
    aes128_cbc_pkcs7, aes128_ecb_pkcs7, aes_cbc_encrypt, aes_ecb_encrypt, base64_standard,
    be_value, hex_upper, hex_upper_spec, md5_bytes, md5_digest, modpow_hex, random_below,
};
use crate::text::{
    chars_of, hex_char, hex_digits, push_chars, push_str, starts_with_exec, starts_with_seq,
    slice_chars, string_of,
};
use crate::urlcode::{url_encode, url_encode_spec};

verus! {

// ── keys ───────────────────────────────────────────────────────────────

/// The fixed first-layer `weapi` key, `0CoJUm6Qyw8W8jud`.
pub open spec fn preset_key() -> Seq<u8> {
    seq![0x30u8, 0x43, 0x6f, 0x4a, 0x55, 0x6d, 0x36, 0x51, 0x79, 0x77, 0x38, 0x57, 0x38, 0x6a, 0x75, 0x64]
}

/// The fixed initialisation vector of both `weapi` layers, `0102030405060708`.
pub open spec fn weapi_iv() -> Seq<u8> {
    seq![0x30u8, 0x31, 0x30, 0x32, 0x30, 0x33, 0x30, 0x34, 0x30, 0x35, 0x30, 0x36, 0x30, 0x37, 0x30, 0x38]
}

/// The fixed `eapi` key, `e82ckenh8dichen8`.
pub open spec fn eapi_key() -> Seq<u8> {
    seq![0x65u8, 0x38, 0x32, 0x63, 0x6b, 0x65, 0x6e, 0x68, 0x38, 0x64, 0x69, 0x63, 0x68, 0x65, 0x6e, 0x38]
}

/// The RSA modulus of the `weapi` key wrapping, big-endian.
pub open spec fn rsa_modulus() -> Seq<u8> {
    seq![
        0xe0u8, 0xb5u8, 0x09u8, 0xf6u8, 0x25u8, 0x9du8, 0xf8u8, 0x64u8, 0x2du8, 0xbcu8, 0x35u8, 0x66u8,
        0x29u8, 0x01u8, 0x47u8, 0x7du8, 0xf2u8, 0x26u8, 0x77u8, 0xecu8, 0x15u8, 0x2bu8, 0x5fu8, 0xf6u8,
        0x8au8, 0xceu8, 0x61u8, 0x5bu8, 0xb7u8, 0xb7u8, 0x25u8, 0x15u8, 0x2bu8, 0x3au8, 0xb1u8, 0x7au8,
        0x87u8, 0x6au8, 0xeau8, 0x8au8, 0x5au8, 0xa7u8, 0x6du8, 0x2eu8, 0x41u8, 0x76u8, 0x29u8, 0xecu8,
        0x4eu8, 0xe3u8, 0x41u8, 0xf5u8, 0x61u8, 0x35u8, 0xfcu8, 0xcfu8, 0x69u8, 0x52u8, 0x80u8, 0x10u8,
        0x4eu8, 0x03u8, 0x12u8, 0xecu8, 0xbdu8, 0xa9u8, 0x25u8, 0x57u8, 0xc9u8, 0x38u8, 0x70u8, 0x11u8,
        0x4au8, 0xf6u8, 0xc9u8, 0xd0u8, 0x5cu8, 0x4fu8, 0x7fu8, 0x0cu8, 0x36u8, 0x85u8, 0xb7u8, 0xa4u8,
        0x6bu8, 0xeeu8, 0x25u8, 0x59u8, 0x32u8, 0x57u8, 0x5cu8, 0xceu8, 0x10u8, 0xb4u8, 0x24u8, 0xd8u8,
        0x13u8, 0xcfu8, 0xe4u8, 0x87u8, 0x5du8, 0x3eu8, 0x82u8, 0x04u8, 0x7bu8, 0x97u8, 0xddu8, 0xefu8,
        0x52u8, 0x74u8, 0x1du8, 0x54u8, 0x6bu8, 0x8eu8, 0x28u8, 0x9du8, 0xc6u8, 0x93u8, 0x5bu8, 0x3eu8,
        0xceu8, 0x04u8, 0x62u8, 0xdbu8, 0x0au8, 0x22u8, 0xb8u8, 0xe7u8,
    ]
}

fn preset_key_bytes() -> (r: Vec<u8>)
    ensures
        r@ == preset_key(),
{
    let v: Vec<u8> = vec![0x30, 0x43, 0x6f, 0x4a, 0x55, 0x6d, 0x36, 0x51, 0x79, 0x77, 0x38, 0x57, 0x38, 0x6a, 0x75, 0x64];
    assert(v@ =~= preset_key());
    v
}

fn weapi_iv_bytes() -> (r: Vec<u8>)
    ensures
        r@ == weapi_iv(),
{
    let v: Vec<u8> = vec![0x30, 0x31, 0x30, 0x32, 0x30, 0x33, 0x30, 0x34, 0x30, 0x35, 0x30, 0x36, 0x30, 0x37, 0x30, 0x38];
    assert(v@ =~= weapi_iv());
    v
}

fn eapi_key_bytes() -> (r: Vec<u8>)
    ensures
        r@ == eapi_key(),
{
    let v: Vec<u8> = vec![0x65, 0x38, 0x32, 0x63, 0x6b, 0x65, 0x6e, 0x68, 0x38, 0x64, 0x69, 0x63, 0x68, 0x65, 0x6e, 0x38];
    assert(v@ =~= eapi_key());
    v
}

fn rsa_modulus_bytes() -> (r: Vec<u8>)
    ensures
        r@ == rsa_modulus(),
{
    let v: Vec<u8> = vec![
        0xe0, 0xb5, 0x09, 0xf6, 0x25, 0x9d, 0xf8, 0x64, 0x2d, 0xbc, 0x35, 0x66,
        0x29, 0x01, 0x47, 0x7d, 0xf2, 0x26, 0x77, 0xec, 0x15, 0x2b, 0x5f, 0xf6,
        0x8a, 0xce, 0x61, 0x5b, 0xb7, 0xb7, 0x25, 0x15, 0x2b, 0x3a, 0xb1, 0x7a,
        0x87, 0x6a, 0xea, 0x8a, 0x5a, 0xa7, 0x6d, 0x2e, 0x41, 0x76, 0x29, 0xec,
        0x4e, 0xe3, 0x41, 0xf5, 0x61, 0x35, 0xfc, 0xcf, 0x69, 0x52, 0x80, 0x10,
        0x4e, 0x03, 0x12, 0xec, 0xbd, 0xa9, 0x25, 0x57, 0xc9, 0x38, 0x70, 0x11,
        0x4a, 0xf6, 0xc9, 0xd0, 0x5c, 0x4f, 0x7f, 0x0c, 0x36, 0x85, 0xb7, 0xa4,
        0x6b, 0xee, 0x25, 0x59, 0x32, 0x57, 0x5c, 0xce, 0x10, 0xb4, 0x24, 0xd8,
        0x13, 0xcf, 0xe4, 0x87, 0x5d, 0x3e, 0x82, 0x04, 0x7b, 0x97, 0xdd, 0xef,
        0x52, 0x74, 0x1d, 0x54, 0x6b, 0x8e, 0x28, 0x9d, 0xc6, 0x93, 0x5b, 0x3e,
        0xce, 0x04, 0x62, 0xdb, 0x0a, 0x22, 0xb8, 0xe7,
    ];
    assert(v@ =~= rsa_modulus());
    v
}

proof fn lemma_be_value_lower(b: Seq<u8>)
    requires
        b.len() >= 1,
        b[0] > 0,
    ensures
        be_value(b) >= 1,
        b.len() >= 2 ==> be_value(b) >= 256,
    decreases b.len(),
{
    if b.len() >= 2 {
        assert(b.drop_last()[0] == b[0]);
        lemma_be_value_lower(b.drop_last());
    }
}

// ── AES layers ─────────────────────────────────────────────────────────

/// AES-128-CBC of the UTF-8 bytes of `plaintext`, in standard base64.
pub open spec fn cbc_base64(plaintext: Seq<char>, key: Seq<u8>, iv: Seq<u8>) -> Seq<char> {
    base64_spec(aes128_cbc_pkcs7(key, iv, encode_utf8(plaintext)))
}

/// Encrypts the UTF-8 bytes of `plaintext` with AES-128-CBC and returns the
/// ciphertext in standard base64.
pub fn aes_cbc_encrypt_base64(plaintext: &str, key: &[u8], iv: &[u8]) -> (r: String)
    requires
        key.len() == 16,
        iv.len() == 16,
    ensures
        r@ == cbc_base64(plaintext@, key@, iv@),
{
    let ct = aes_cbc_encrypt(key, iv, plaintext.as_bytes());
    base64_standard(ct.as_slice())
}

/// AES-128-ECB of the UTF-8 bytes of `plaintext`, in upper-case hex.
pub open spec fn ecb_hex(plaintext: Seq<char>, key: Seq<u8>) -> Seq<char> {
    hex_upper_spec(aes128_ecb_pkcs7(key, encode_utf8(plaintext)))
}

/// Encrypts the UTF-8 bytes of `plaintext` with AES-128-ECB and returns the
/// ciphertext in upper-case hex.
pub fn aes_ecb_encrypt_hex(plaintext: &str, key: &[u8]) -> (r: String)
    requires
        key.len() == 16,
    ensures
        r@ == ecb_hex(plaintext@, key@),
{
    let ct = aes_ecb_encrypt(key, plaintext.as_bytes());
    hex_upper(ct.as_slice())
}

// ── RSA key wrapping ───────────────────────────────────────────────────

/// `s` left-padded with `0` to at least `w` characters (`{:0>w}`).
pub open spec fn pad_zeros(s: Seq<char>, w: nat) -> Seq<char> {
    if s.len() >= w {
        s
    } else {
        Seq::new((w - s.len()) as nat, |i: int| '0') + s
    }
}

/// Textbook RSA of `text` for the `weapi` key wrapping: the UTF-8 bytes of
/// the reversed text read as a big-endian number, raised to 65537 modulo the
/// fixed modulus, in lower-case hex padded to 256 digits.
pub open spec fn rsa_spec(text: Seq<char>) -> Seq<char> {
    pad_zeros(
        hex_digits((pow(be_value(encode_utf8(text.reverse())) as int, 65537) % (be_value(
            rsa_modulus(),
        ) as int)) as nat),
        256,
    )
}

/// Wraps `text` with the fixed RSA key (see `rsa_spec`).
pub fn rsa_encrypt(text: &str) -> (r: String)
    ensures
        r@ == rsa_spec(text@),
{
    let v = chars_of(text);
    let mut rev: Vec<char> = Vec::new();
    let mut i = v.len();
    while i > 0
        invariant
            i <= v.len(),
            v@ == text@,
            rev@ == text@.subrange(i as int, text@.len() as int).reverse(),
        decreases i,
    {
        i = i - 1;
        rev.push(v[i]);
        assert(rev@ =~= text@.subrange(i as int, text@.len() as int).reverse());
    }
    assert(text@.subrange(0, text@.len() as int) =~= text@);
    let reversed = string_of(rev.as_slice());
    let n = rsa_modulus_bytes();
    proof {
        lemma_be_value_lower(rsa_modulus());
    }
    let h = modpow_hex(reversed.as_str().as_bytes(), 0x10001, n.as_slice());
    let hv = chars_of(h.as_str());
    let mut out: Vec<char> = Vec::new();
    let mut k = hv.len();
    while k < 256
        invariant
            hv.len() <= k,
            k <= 256 || k == hv.len(),
            out@ == Seq::new((k - hv.len()) as nat, |j: int| '0'),
        decreases 256 - k,
    {
        out.push('0');
        k = k + 1;
        assert(out@ =~= Seq::new((k - hv.len()) as nat, |j: int| '0'));
    }
    let ghost pad = out@;
    push_chars(&mut out, hv.as_slice());
    proof {
        if hv.len() >= 256 {
            assert(pad =~= Seq::<char>::empty());
        }
        assert(out@ =~= rsa_spec(text@));
    }
    string_of(out.as_slice())
}

// ── weapi ──────────────────────────────────────────────────────────────

/// The alphabet of the random `weapi` key: `a`-`z`, `A`-`Z`, `0`-`9`.
pub open spec fn base62_char(i: int) -> char {
    if i < 26 {
        ((('a' as u32) as int) + i) as char
    } else if i < 52 {
        ((('A' as u32) as int) + i - 26) as char
    } else {
        ((('0' as u32) as int) + i - 52) as char
    }
}

/// `c` belongs to the alphabet of the random `weapi` key.
pub open spec fn is_base62(c: char) -> bool {
    ('a' <= c && c <= 'z') || ('A' <= c && c <= 'Z') || ('0' <= c && c <= '9')
}

/// `k` can be a random `weapi` key: sixteen characters of the alphabet.
pub open spec fn is_secret_key(k: Seq<char>) -> bool {
    k.len() == 16 && forall|i: int| 0 <= i < 16 ==> is_base62(#[trigger] k[i])
}

/// The two form fields of a `weapi` request for the JSON text `text` and the
/// random key `secret`: `text` encrypted with the fixed key and then with
/// the random key (both base64), and the RSA-wrapped random key.
pub open spec fn weapi_spec(text: Seq<char>, secret: Seq<char>) -> (Seq<char>, Seq<char>) {
    (
        cbc_base64(cbc_base64(text, preset_key(), weapi_iv()), encode_utf8(secret), weapi_iv()),
        rsa_spec(secret),
    )
}

fn base62_char_exec(i: u32) -> (c: char)
    requires
        i < 62,
    ensures
        c == base62_char(i as int),
        is_base62(c),
{
    if i < 26 {
        (97u8 + i as u8) as char
    } else if i < 52 {
        (39u8 + i as u8) as char
    } else {
        (i as u8 - 4u8) as char
    }
}

/// The `weapi` form fields of `text` under the random key `secret`.
pub fn weapi_encrypt_with(text: &str, secret: &str) -> (r: (String, String))
    requires
        is_secret_key(secret@),
    ensures
        (r.0@, r.1@) == weapi_spec(text@, secret@),
{
    let key = preset_key_bytes();
    let iv = weapi_iv_bytes();
    let params = aes_cbc_encrypt_base64(text, key.as_slice(), iv.as_slice());
    proof {
        assert(is_ascii_chars(secret@)) by {
            assert forall|i: int| 0 <= i < secret@.len() implies '\0' <= #[trigger] secret@[i]
                <= '\u{7f}' by {
                assert(is_base62(secret@[i]));
            }
        }
        is_ascii_chars_encode_utf8(secret@);
    }
    let params = aes_cbc_encrypt_base64(params.as_str(), secret.as_bytes(), iv.as_slice());
    let enc_sec_key = rsa_encrypt(secret);
    (params, enc_sec_key)
}

/// A fresh random `weapi` key.
pub fn random_secret_key() -> (r: String)
    ensures
        is_secret_key(r@),
{
    let mut v: Vec<char> = Vec::new();
    let mut i: usize = 0;
    while i < 16
        invariant
            i <= 16,
            v.len() == i,
            forall|k: int| 0 <= k < i ==> is_base62(#[trigger] v@[k]),
        decreases 16 - i,
    {
        let n = random_below(62);
        let c = base62_char_exec(n);
        v.push(c);
        i = i + 1;
    }
    string_of(v.as_slice())
}

/// The `weapi` form fields of `text` under a fresh random key.
pub fn weapi_encrypt(text: &str) -> (r: (String, String))
    ensures
        exists|secret: Seq<char>| is_secret_key(secret) && (r.0@, r.1@) == weapi_spec(text@, secret),
{
    let secret = random_secret_key();
    weapi_encrypt_with(text, secret.as_str())
}

// ── eapi ───────────────────────────────────────────────────────────────

/// Two lower-case hexadecimal digits per byte (`{:x}` of an MD5 digest).
pub open spec fn hex_lower_spec(data: Seq<u8>) -> Seq<char>
    decreases data.len(),
{
    if data.len() == 0 {
        Seq::empty()
    } else {
        hex_lower_spec(data.drop_last()) + seq![
            hex_char((data.last() / 16) as nat),
            hex_char((data.last() % 16) as nat),
        ]
    }
}

fn hex_lower(data: &[u8]) -> (r: Vec<char>)
    ensures
        r@ == hex_lower_spec(data@),
{
    let mut out: Vec<char> = Vec::new();
    let mut i: usize = 0;
    while i < data.len()
        invariant
            i <= data.len(),
            out@ == hex_lower_spec(data@.take(i as int)),
        decreases data.len() - i,
    {
        let b = data[i];
        let hi = b / 16;
        let lo = b % 16;
        let c1: char = if hi < 10 { (48u8 + hi) as char } else { (87u8 + hi) as char };
        let c2: char = if lo < 10 { (48u8 + lo) as char } else { (87u8 + lo) as char };
        out.push(c1);
        out.push(c2);
        proof {
            assert(data@.take(i + 1).drop_last() =~= data@.take(i as int));
            assert(data@.take(i + 1).last() == b);
            assert(out@ =~= hex_lower_spec(data@.take(i + 1)));
        }
        i = i + 1;
    }
    assert(data@.take(data.len() as int) =~= data@);
    out
}

/// The signed `eapi` payload of the JSON text `text` for the path `uri`:
/// `uri-36cd479b6b5-text-36cd479b6b5-digest`, where the digest is the MD5 of
/// `nobody{uri}use{text}md5forencrypt` in lower-case hex.
pub open spec fn eapi_payload(uri: Seq<char>, text: Seq<char>) -> Seq<char> {
    let message = "nobody"@ + uri + "use"@ + text + "md5forencrypt"@;
    uri + "-36cd479b6b5-"@ + text + "-36cd479b6b5-"@ + hex_lower_spec(md5_digest(encode_utf8(message)))
}

/// The `params` field of an `eapi` request: the signed payload encrypted
/// with the fixed key, in upper-case hex.
pub fn eapi_encrypt(uri: &str, text: &str) -> (r: String)
    ensures
        r@ == ecb_hex(eapi_payload(uri@, text@), eapi_key()),
{
    let mut message = chars_of("nobody");
    push_str(&mut message, uri);
    push_str(&mut message, "use");
    push_str(&mut message, text);
    push_str(&mut message, "md5forencrypt");
    let m = string_of(message.as_slice());
    let digest = md5_bytes(m.as_str().as_bytes());
    let hex = hex_lower(digest.as_slice());
    let mut payload = chars_of(uri);
    push_str(&mut payload, "-36cd479b6b5-");
    push_str(&mut payload, text);
    push_str(&mut payload, "-36cd479b6b5-");
    push_chars(&mut payload, hex.as_slice());
    let p = string_of(payload.as_slice());
    let key = eapi_key_bytes();
    aes_ecb_encrypt_hex(p.as_str(), key.as_slice())
}

// ── addresses and form bodies ──────────────────────────────────────────

/// The address of a request on `base` for the interface path `uri`
/// (`/api/...`): `base` followed by the path after its `/api/` prefix.
pub open spec fn api_url(base: Seq<char>, uri: Seq<char>) -> Seq<char> {
    base + uri.subrange(5, uri.len() as int)
}

fn api_url_exec(base: &str, uri: &str) -> (r: String)
    requires
        starts_with_seq(uri@, "/api/"@),
    ensures
        r@ == api_url(base@, uri@),
{
    proof {
        reveal_strlit("/api/");
    }
    let u = chars_of(uri);
    let rest = slice_chars(u.as_slice(), 5, u.len());
    let mut out = chars_of(base);
    push_chars(&mut out, rest.as_slice());
    string_of(out.as_slice())
}

/// The `weapi` address of the interface path `uri`.
pub fn weapi_url(uri: &str) -> (r: String)
    requires
        starts_with_seq(uri@, "/api/"@),
    ensures
        r@ == api_url("https://music.163.com/weapi/"@, uri@),
{
    api_url_exec("https://music.163.com/weapi/", uri)
}

/// The `eapi` address of the interface path `uri`.
pub fn eapi_url(uri: &str) -> (r: String)
    requires
        starts_with_seq(uri@, "/api/"@),
    ensures
        r@ == api_url("https://interface.music.163.com/eapi/"@, uri@),
{
    api_url_exec("https://interface.music.163.com/eapi/", uri)
}

/// The form body of a `weapi` request.
pub fn weapi_form_body(params: &str, enc_sec_key: &str) -> (r: String)
    ensures
        r@ == "params="@ + url_encode_spec(params@) + "&encSecKey="@ + url_encode_spec(enc_sec_key@),
{
    let mut out = chars_of("params=");
    let a = url_encode(params);
    push_str(&mut out, a.as_str());
    push_str(&mut out, "&encSecKey=");
    let b = url_encode(enc_sec_key);
    push_str(&mut out, b.as_str());
    string_of(out.as_slice())
}

/// The form body of an `eapi` request.
pub fn eapi_form_body(params: &str) -> (r: String)
    ensures
        r@ == "params="@ + url_encode_spec(params@),
{
    let mut out = chars_of("params=");
    let a = url_encode(params);
    push_str(&mut out, a.as_str());
    string_of(out.as_slice())
}

} // verus!
