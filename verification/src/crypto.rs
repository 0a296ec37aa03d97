//! The cryptographic primitives of the Netease request encoding, taken from
//! their crates: AES-128 in CBC and ECB mode with PKCS#7 padding (`aes`,
//! `cbc`, `ecb`), MD5 (`md5`), modular exponentiation on big integers
//! (`num-bigint`), standard base64 (`base64`), upper-case hex (`hex`) and a
//! random number source (`rand`).
use vstd::prelude::*;
use vstd::arithmetic::power::pow;
use aes::cipher::{BlockEncryptMut, KeyInit, KeyIvInit};
use crate::cover::base64_spec;

verus! {

/// What AES-128 in CBC mode with PKCS#7 padding yields for the key, the
/// initialisation vector and the plaintext.
pub uninterp spec fn aes128_cbc_pkcs7(key: Seq<u8>, iv: Seq<u8>, plain: Seq<u8>) -> Seq<u8>;

/// What AES-128 in ECB mode with PKCS#7 padding yields for the key and the
/// plaintext.
pub uninterp spec fn aes128_ecb_pkcs7(key: Seq<u8>, plain: Seq<u8>) -> Seq<u8>;

/// The MD5 digest of the bytes.
pub uninterp spec fn md5_digest(data: Seq<u8>) -> Seq<u8>;

/// The length of the PKCS#7-padded form of `n` bytes: the next multiple of
/// the 16-byte block, a whole block more when `n` is already a multiple.
pub open spec fn padded_len(n: nat) -> nat {
    (n / 16 + 1) * 16
}

/// Encrypts with AES-128 in CBC mode and PKCS#7 padding
/// (`cbc::Encryptor::<aes::Aes128>::new`, then `encrypt_padded_vec_mut`).
/// The contract names the ciphertext and states its padded length; the
/// 16-byte key and vector are required because their conversion to fixed
/// arrays panics on any other length.
#[verifier::external_body]
pub(crate) fn aes_cbc_encrypt(key: &[u8], iv: &[u8], plain: &[u8]) -> (r: Vec<u8>)
    requires
        key.len() == 16,
        iv.len() == 16,
    ensures
        r@ == aes128_cbc_pkcs7(key@, iv@, plain@),
        r.len() == padded_len(plain.len() as nat),
{
    cbc::Encryptor::<aes::Aes128>::new(key.into(), iv.into())
        .encrypt_padded_vec_mut::<cbc::cipher::block_padding::Pkcs7>(plain)
}

/// Encrypts with AES-128 in ECB mode and PKCS#7 padding
/// (`ecb::Encryptor::<aes::Aes128>::new`, then `encrypt_padded_vec_mut`).
/// The contract names the ciphertext and states its padded length.
#[verifier::external_body]
pub(crate) fn aes_ecb_encrypt(key: &[u8], plain: &[u8]) -> (r: Vec<u8>)
    requires
        key.len() == 16,
    ensures
        r@ == aes128_ecb_pkcs7(key@, plain@),
        r.len() == padded_len(plain.len() as nat),
{
    ecb::Encryptor::<aes::Aes128>::new(key.into())
        .encrypt_padded_vec_mut::<ecb::cipher::block_padding::Pkcs7>(plain)
}

/// The MD5 digest of the bytes (`md5::compute`), as its sixteen bytes.
#[verifier::external_body]
pub(crate) fn md5_bytes(data: &[u8]) -> (r: Vec<u8>)
    ensures
        r@ == md5_digest(data@),
        r.len() == 16,
{
    md5::compute(data).0.to_vec()
}

/// Standard padded base64 (`base64::engine::general_purpose::STANDARD`,
/// `Engine::encode`), as RFC 4648 defines it.
#[verifier::external_body]
pub(crate) fn base64_standard(data: &[u8]) -> (r: String)
    ensures
        r@ == base64_spec(data@),
{
    base64::Engine::encode(&base64::engine::general_purpose::STANDARD, data)
}

/// The upper-case hexadecimal digit for `d < 16`.
pub open spec fn hex_upper_char(d: int) -> char {
    if d < 10 {
        ((('0' as u32) as int) + d) as char
    } else {
        ((('A' as u32) as int) + d - 10) as char
    }
}

/// Two upper-case hexadecimal digits per byte, most significant first.
pub open spec fn hex_upper_spec(data: Seq<u8>) -> Seq<char>
    decreases data.len(),
{
    if data.len() == 0 {
        Seq::empty()
    } else {
        hex_upper_spec(data.drop_last()) + seq![
            hex_upper_char((data.last() / 16) as int),
            hex_upper_char((data.last() % 16) as int),
        ]
    }
}

/// Upper-case hexadecimal text of the bytes (`hex::encode_upper`).
#[verifier::external_body]
pub(crate) fn hex_upper(data: &[u8]) -> (r: String)
    ensures
        r@ == hex_upper_spec(data@),
{
    hex::encode_upper(data)
}

/// The number written by big-endian bytes.
pub open spec fn be_value(b: Seq<u8>) -> nat
    decreases b.len(),
{
    if b.len() == 0 {
        0
    } else {
        be_value(b.drop_last()) * 256 + b.last() as nat
    }
}

/// `base^exp mod modulus` on big-endian byte strings, rendered in lower-case
/// hexadecimal without leading zeros (`BigUint::from_bytes_be` for both
/// numbers, `BigUint::from` for the exponent, `BigUint::modpow`, then
/// `to_str_radix(16)`). `modpow` panics on a zero modulus and answers 1 for a
/// zero exponent whatever the modulus, so both are excluded.
#[verifier::external_body]
pub(crate) fn modpow_hex(base: &[u8], exp: u32, modulus: &[u8]) -> (r: String)
    requires
        be_value(modulus@) > 1,
        exp > 0,
    ensures
        r@ == crate::text::hex_digits((pow(be_value(base@) as int, exp as nat) % (be_value(
            modulus@,
        ) as int)) as nat),
{
    let m = num_bigint::BigUint::from_bytes_be(base);
    let n = num_bigint::BigUint::from_bytes_be(modulus);
    m.modpow(&num_bigint::BigUint::from(exp), &n).to_str_radix(16)
}

/// A random number below `n` from the thread-local generator
/// (`rand::Rng::gen_range(0..n)`, which panics on an empty range). Only the
/// range of the outcome is stated.
#[verifier::external_body]
pub(crate) fn random_below(n: u32) -> (r: u32)
    requires
        n > 0,
    ensures
        r < n,
{
    rand::Rng::gen_range(&mut rand::thread_rng(), 0..n)
}

} // verus!
