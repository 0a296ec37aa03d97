//! The two small URL codecs of the API client: the escaping applied to the
//! encrypted form fields and the lenient percent-decoding applied to cookie
//! values, with the law that decoding undoes encoding on ASCII text.
use vstd::prelude::*;
use vstd::utf8::*;
use crate::text::{chars_of, push_str, string_of};

verus! {

/// The escape of one character in an encrypted form field: `+ / = & %` are
/// percent-encoded and every other character stands for itself.
pub open spec fn enc_char(c: char) -> Seq<char> {
    if c == '+' {
        "%2B"@
    } else if c == '/' {
        "%2F"@
    } else if c == '=' {
        "%3D"@
    } else if c == '&' {
        "%26"@
    } else if c == '%' {
        "%25"@
    } else {
        seq![c]
    }
}

/// The escape of a whole string, character by character.
pub open spec fn url_encode_spec(s: Seq<char>) -> Seq<char>
    decreases s.len(),
{
    if s.len() == 0 {
        Seq::empty()
    } else {
        enc_char(s[0]) + url_encode_spec(s.drop_first())
    }
}

proof fn lemma_encode_push(s: Seq<char>, c: char)
    ensures
        url_encode_spec(s.push(c)) == url_encode_spec(s) + enc_char(c),
    decreases s.len(),
{
    if s.len() == 0 {
        assert(s.push(c).drop_first() =~= Seq::<char>::empty());
        assert(url_encode_spec(Seq::<char>::empty()) =~= Seq::<char>::empty());
        assert(s.push(c)[0] == c);
        assert(enc_char(c) + Seq::<char>::empty() =~= enc_char(c));
        assert(url_encode_spec(s) =~= Seq::<char>::empty());
    } else {
        assert(s.push(c).drop_first() =~= s.drop_first().push(c));
        lemma_encode_push(s.drop_first(), c);
        assert(url_encode_spec(s.push(c)) =~= url_encode_spec(s) + enc_char(c));
    }
}

/// Escapes `+ / = & %` as `%2B %2F %3D %26 %25`.
pub fn url_encode(s: &str) -> (r: String)
    ensures
        r@ == url_encode_spec(s@),
{
    let v = chars_of(s);
    let mut out: Vec<char> = Vec::new();
    let mut i: usize = 0;
    while i < v.len()
        invariant
            i <= v.len(),
            v@ == s@,
            out@ == url_encode_spec(s@.take(i as int)),
        decreases v.len() - i,
    {
        let c = v[i];
        proof {
            assert(s@.take(i + 1) =~= s@.take(i as int).push(c));
            lemma_encode_push(s@.take(i as int), c);
            reveal_strlit("%2B");
            reveal_strlit("%2F");
            reveal_strlit("%3D");
            reveal_strlit("%26");
            reveal_strlit("%25");
        }
        if c == '+' {
            push_str(&mut out, "%2B");
        } else if c == '/' {
            push_str(&mut out, "%2F");
        } else if c == '=' {
            push_str(&mut out, "%3D");
        } else if c == '&' {
            push_str(&mut out, "%26");
        } else if c == '%' {
            push_str(&mut out, "%25");
        } else {
            out.push(c);
        }
        i = i + 1;
    }
    assert(s@.take(v.len() as int) =~= s@);
    string_of(out.as_slice())
}

/// The value of a hexadecimal digit byte (either case).
pub open spec fn hex_val(b: u8) -> Option<u8> {
    if 0x30 <= b <= 0x39 {
        Some((b - 0x30) as u8)
    } else if 0x61 <= b <= 0x66 {
        Some((b - 0x61 + 10) as u8)
    } else if 0x41 <= b <= 0x46 {
        Some((b - 0x41 + 10) as u8)
    } else {
        None
    }
}

/// The value of a hexadecimal digit byte (either case), `None` for other bytes.
pub fn hex_digit(b: u8) -> (r: Option<u8>)
    ensures
        r == hex_val(b),
{
    if b >= 0x30 && b <= 0x39 {
        Some(b - 0x30)
    } else if b >= 0x61 && b <= 0x66 {
        Some(b - 0x61 + 10)
    } else if b >= 0x41 && b <= 0x46 {
        Some(b - 0x41 + 10)
    } else {
        None
    }
}

/// Lenient percent-decoding of UTF-8 bytes: `%` with two hexadecimal digits
/// after it gives the character with that code, `+` gives a space, and every
/// other byte gives the character with the byte's value.
pub open spec fn url_decode(b: Seq<u8>) -> Seq<char>
    decreases b.len(),
{
    if b.len() == 0 {
        Seq::empty()
    } else if b[0] == 0x25 && 2 < b.len() && hex_val(b[1]) is Some && hex_val(b[2]) is Some {
        seq![((hex_val(b[1])->0 * 16 + hex_val(b[2])->0) as u32) as char] + url_decode(b.skip(3))
    } else if b[0] == 0x2b {
        seq![' '] + url_decode(b.skip(1))
    } else {
        seq![(b[0] as u32) as char] + url_decode(b.skip(1))
    }
}

/// Percent-decodes `s` byte by byte (see `url_decode`).
pub fn simple_url_decode(s: &str) -> (r: String)
    ensures
        r@ == url_decode(encode_utf8(s@)),
{
    let bytes = s.as_bytes();
    let mut out: Vec<char> = Vec::new();
    let mut i: usize = 0;
    assert(bytes@.skip(0) =~= bytes@);
    while i < bytes.len()
        invariant
            i <= bytes.len(),
            bytes@ == encode_utf8(s@),
            url_decode(bytes@) == out@ + url_decode(bytes@.skip(i as int)),
        decreases bytes.len() - i,
    {
        let ghost rest = bytes@.skip(i as int);
        let ghost before = out@;
        if bytes[i] == 0x25 && bytes.len() - i > 2 {
            let h = hex_digit(bytes[i + 1]);
            let l = hex_digit(bytes[i + 2]);
            if let (Some(hv), Some(lv)) = (h, l) {
                let code: u8 = hv * 16 + lv;
                out.push(code as char);
                proof {
                    assert(rest[1] == bytes@[i + 1]);
                    assert(rest[2] == bytes@[i + 2]);
                    assert(rest.skip(3) =~= bytes@.skip(i + 3));
                    assert(out@ =~= before + seq![((hv * 16 + lv) as u32) as char]);
                }
                i = i + 3;
                continue;
            }
        }
        if bytes[i] == 0x2b {
            out.push(' ');
        } else {
            out.push(bytes[i] as char);
        }
        proof {
            assert(rest.skip(1) =~= bytes@.skip(i + 1));
            assert(rest[0] == bytes@[i as int]);
        }
        i = i + 1;
    }
    assert(bytes@.skip(bytes.len() as int) =~= Seq::<u8>::empty());
    assert(out@ =~= url_decode(bytes@));
    string_of(out.as_slice())
}

proof fn lemma_decode_encoded(s: Seq<char>, b: Seq<u8>)
    requires
        is_ascii_chars(s),
        b.len() == url_encode_spec(s).len(),
        forall|i: int| 0 <= i < b.len() ==> b[i] == (#[trigger] url_encode_spec(s)[i]) as u8,
    ensures
        url_decode(b) == s,
    decreases s.len(),
{
    if s.len() == 0 {
    } else {
        let c = s[0];
        let e = enc_char(c);
        let rest = s.drop_first();
        let er = url_encode_spec(rest);
        assert(url_encode_spec(s) == e + er);
        assert(is_ascii_chars(rest)) by {
            assert forall|i: int| 0 <= i < rest.len() implies '\0' <= #[trigger] rest[i] <= '\u{7f}' by {
                assert(rest[i] == s[i + 1]);
            }
        }
        assert(b.skip(e.len() as int).len() == er.len());
        assert forall|i: int| 0 <= i < er.len() implies b.skip(e.len() as int)[i] == (
        #[trigger] er[i]) as u8 by {
            assert(url_encode_spec(s)[e.len() + i] == er[i]);
        }
        lemma_decode_encoded(rest, b.skip(e.len() as int));
        assert('\0' <= s[0] <= '\u{7f}');
        reveal_strlit("%2B");
        reveal_strlit("%2F");
        reveal_strlit("%3D");
        reveal_strlit("%26");
        reveal_strlit("%25");
        assert(url_encode_spec(s)[0] == e[0]);
        if e.len() == 3 {
            assert(url_encode_spec(s)[1] == e[1]);
            assert(url_encode_spec(s)[2] == e[2]);
            assert(url_decode(b) =~= s);
        } else {
            assert(e =~= seq![c]);
            assert((c as u8) as u32 == c as u32);
            assert(url_decode(b) =~= s);
        }
    }
}

/// Decoding undoes encoding: for ASCII text `s`, percent-decoding the UTF-8
/// bytes of the escaped text gives back `s`.
pub proof fn lemma_url_round_trip(s: Seq<char>)
    requires
        is_ascii_chars(s),
    ensures
        url_decode(encode_utf8(url_encode_spec(s))) == s,
{
    let e = url_encode_spec(s);
    lemma_encode_ascii(s);
    is_ascii_chars_encode_utf8(e);
    lemma_decode_encoded(s, encode_utf8(e));
}

proof fn lemma_encode_ascii(s: Seq<char>)
    requires
        is_ascii_chars(s),
    ensures
        is_ascii_chars(url_encode_spec(s)),
    decreases s.len(),
{
    if s.len() > 0 {
        let rest = s.drop_first();
        assert(is_ascii_chars(rest)) by {
            assert forall|i: int| 0 <= i < rest.len() implies '\0' <= #[trigger] rest[i] <= '\u{7f}' by {
                assert(rest[i] == s[i + 1]);
            }
        }
        lemma_encode_ascii(rest);
        reveal_strlit("%2B");
        reveal_strlit("%2F");
        reveal_strlit("%3D");
        reveal_strlit("%26");
        reveal_strlit("%25");
        assert('\0' <= s[0] <= '\u{7f}');
        let e = enc_char(s[0]);
        let er = url_encode_spec(rest);
        assert forall|i: int| 0 <= i < (e + er).len() implies '\0' <= #[trigger] (e + er)[i]
            <= '\u{7f}' by {
            if i >= e.len() {
                assert((e + er)[i] == er[i - e.len()]);
            }
        }
    }
}

} // verus!
