//! QQ Music login and account helpers: the `ptuiCB(...)` reply of the QR
//! login poll, the `ptqrtoken` hash, the state that a poll reports, and the
//! account fields read from the stored QQ cookie.
use vstd::prelude::*;
use vstd::utf8::*;
use crate::cookie::{cookie_value, parse_cookie_value};
use crate::text::{
    chars_of, contains_seq, dec_digits, ends_with_seq, int_digits, is_digit, occurs_at,
    occurs_at_exec, owned, parse_i64, parse_i64_spec, push_chars, push_dec, push_int, push_str,
    slice_chars, starts_with_seq, str_contains, str_eq, str_starts_with, string_of, trim_chars,
    trim_spec,
};
use crate::urlcode::{simple_url_decode, url_decode};
use crate::cover::base64_spec;
use crate::crypto::base64_standard;
use crate::text::{lossy_utf8, utf8_lossy};

verus! {

// ── ptuiCB(...) replies ────────────────────────────────────────────────

/// The first index at or after `i` where `t` occurs in `s`.
pub open spec fn find_from(s: Seq<char>, t: Seq<char>, i: int) -> Option<int>
    decreases s.len() + 1 - i,
{
    if i < 0 || i + t.len() > s.len() {
        None
    } else if occurs_at(s, t, i) {
        Some(i)
    } else {
        find_from(s, t, i + 1)
    }
}

/// The last index of `s` holding `c`, or -1.
pub open spec fn last_char(s: Seq<char>, c: char, i: int) -> int
    decreases i,
{
    if i <= 0 {
        -1
    } else if s[i - 1] == c {
        i - 1
    } else {
        last_char(s, c, i - 1)
    }
}

/// The arguments of a `ptuiCB(...)` call read from `inner[i..]`: single quotes
/// toggle quoting and are dropped, a comma outside quotes ends an argument,
/// each argument is trimmed, and a non-empty tail is the last argument.
pub open spec fn ptui_scan(inner: Seq<char>, i: int, args: Seq<Seq<char>>, cur: Seq<char>, q: bool) -> Seq<Seq<char>>
    decreases inner.len() - i,
{
    if i < 0 || i >= inner.len() {
        if cur.len() > 0 {
            args.push(trim_spec(cur))
        } else {
            args
        }
    } else if inner[i] == '\'' {
        ptui_scan(inner, i + 1, args, cur, !q)
    } else if inner[i] == ',' && !q {
        ptui_scan(inner, i + 1, args.push(trim_spec(cur)), Seq::empty(), q)
    } else {
        ptui_scan(inner, i + 1, args, cur.push(inner[i]), q)
    }
}

/// The arguments of the `ptuiCB(...)` call in `text`: the text between the
/// first `ptuiCB(` and the last `)`, when that `)` comes after it.
pub open spec fn ptui_args(text: Seq<char>) -> Option<Seq<Seq<char>>> {
    match find_from(text, "ptuiCB("@, 0) {
        None => None,
        Some(s) => {
            let e = last_char(text, ')', text.len() as int);
            if e <= s + 7 {
                None
            } else {
                Some(ptui_scan(text.subrange(s + 7, e), 0, Seq::empty(), Seq::empty(), false))
            }
        },
    }
}

/// Argument `i`, or the empty string when there are fewer arguments.
pub open spec fn arg(args: Seq<Seq<char>>, i: int) -> Seq<char> {
    if 0 <= i < args.len() {
        args[i]
    } else {
        Seq::empty()
    }
}

/// The arguments of a `ptuiCB('code','status','url','flag','msg','nick')` reply.
pub struct PtuiCb {
    /// The numeric code (-1 when absent or not a number).
    pub code: i64,
    pub status: String,
    pub url: String,
    pub flag: String,
    pub msg: String,
    pub nick: String,
}

/// `r` holds the arguments of the reply `text`.
pub open spec fn ptui_matches(r: PtuiCb, text: Seq<char>) -> bool {
    match ptui_args(text) {
        None => r.code == -1 && r.status@.len() == 0 && r.url@.len() == 0 && r.flag@.len() == 0
            && r.msg@.len() == 0 && r.nick@.len() == 0,
        Some(args) => {
            &&& r.code == (match parse_i64_spec(arg(args, 0)) {
                Some(v) => v,
                None => -1i64,
            })
            &&& r.status@ == arg(args, 1)
            &&& r.url@ == arg(args, 2)
            &&& r.flag@ == arg(args, 3)
            &&& r.msg@ == arg(args, 4)
            &&& r.nick@ == arg(args, 5)
        },
    }
}

fn find_from_exec(s: &[char], t: &[char]) -> (r: Option<usize>)
    ensures
        match r {
            Some(i) => find_from(s@, t@, 0) == Some(i as int),
            None => find_from(s@, t@, 0) is None,
        },
{
    let mut i: usize = 0;
    while i < s.len() && t.len() <= s.len() - i
        invariant
            i <= s.len(),
            find_from(s@, t@, i as int) == find_from(s@, t@, 0),
        decreases s.len() - i,
    {
        if occurs_at_exec(s, t, i) {
            return Some(i);
        }
        i = i + 1;
    }
    if t.len() <= s.len() - i && occurs_at_exec(s, t, i) {
        assert(find_from(s@, t@, i as int) == Some(i as int));
        Some(i)
    } else {
        if t.len() == 0 {
            assert(s@.subrange(i as int, i as int) =~= t@);
        }
        assert(find_from(s@, t@, i as int) is None);
        None
    }
}

fn last_char_exec(s: &[char], c: char) -> (r: Option<usize>)
    ensures
        match r {
            Some(i) => last_char(s@, c, s.len() as int) == i as int && i < s.len(),
            None => last_char(s@, c, s.len() as int) == -1,
        },
{
    let mut i = s.len();
    while i > 0 && s[i - 1] != c
        invariant
            i <= s.len(),
            last_char(s@, c, i as int) == last_char(s@, c, s.len() as int),
        decreases i,
    {
        i = i - 1;
    }
    if i == 0 {
        None
    } else {
        Some(i - 1)
    }
}

fn arg_string(args: &Vec<Vec<char>>, i: usize) -> (r: String)
    ensures
        r@ == arg(crate::text::views(args@), i as int),
{
    proof {
        lemma_empty_str();
    }
    if i < args.len() {
        assert(crate::text::views(args@)[i as int] == args@[i as int]@);
        string_of(args[i].as_slice())
    } else {
        owned("")
    }
}

proof fn lemma_empty_str()
    ensures
        ""@ == Seq::<char>::empty(),
{
    reveal_strlit("");
    assert(""@ =~= Seq::<char>::empty());
}

fn empty_ptui() -> (r: PtuiCb)
    ensures
        r.code == -1 && r.status@.len() == 0 && r.url@.len() == 0 && r.flag@.len() == 0
            && r.msg@.len() == 0 && r.nick@.len() == 0,
{
    proof {
        lemma_empty_str();
    }
    PtuiCb {
        code: -1,
        status: owned(""),
        url: owned(""),
        flag: owned(""),
        msg: owned(""),
        nick: owned(""),
    }
}

/// Reads the arguments of QQ's `ptuiCB(...)` login-poll reply.
pub fn parse_ptui_cb(text: &str) -> (r: PtuiCb)
    ensures
        ptui_matches(r, text@),
{
    let t = chars_of(text);
    let pat = chars_of("ptuiCB(");
    proof {
        reveal_strlit("ptuiCB(");
    }
    let s = match find_from_exec(t.as_slice(), pat.as_slice()) {
        Some(s) => s,
        None => {
            return empty_ptui();
        },
    };
    let e = match last_char_exec(t.as_slice(), ')') {
        Some(e) => e,
        None => {
            return empty_ptui();
        },
    };
    if e <= s || e - s <= 7 {
        return empty_ptui();
    }
    let start = s + 7;
    let inner = slice_chars(t.as_slice(), start, e);
    let ghost iv = inner@;
    let mut args: Vec<Vec<char>> = Vec::new();
    let mut cur: Vec<char> = Vec::new();
    let mut q = false;
    let mut i: usize = 0;
    assert(crate::text::views(args@) =~= Seq::<Seq<char>>::empty());
    assert(cur@ =~= Seq::<char>::empty());
    while i < inner.len()
        invariant
            i <= inner.len(),
            inner@ == iv,
            ptui_scan(iv, 0, Seq::empty(), Seq::empty(), false) == ptui_scan(
                iv,
                i as int,
                crate::text::views(args@),
                cur@,
                q,
            ),
        decreases inner.len() - i,
    {
        let c = inner[i];
        if c == '\'' {
            q = !q;
        } else if c == ',' && !q {
            let a = trim_chars(cur.as_slice());
            let ghost before = crate::text::views(args@);
            args.push(a);
            assert(crate::text::views(args@) =~= before.push(trim_spec(cur@)));
            cur = Vec::new();
            assert(cur@ =~= Seq::<char>::empty());
        } else {
            cur.push(c);
        }
        i = i + 1;
    }
    if cur.len() > 0 {
        let a = trim_chars(cur.as_slice());
        let ghost before = crate::text::views(args@);
        args.push(a);
        assert(crate::text::views(args@) =~= before.push(trim_spec(cur@)));
    }
    let first = if args.len() > 0 {
        match parse_i64(args[0].as_slice()) {
            Some(v) => v,
            None => -1,
        }
    } else {
        -1
    };
    proof {
        lemma_empty_str();
        if args.len() == 0 {
            assert(arg(crate::text::views(args@), 0) =~= Seq::<char>::empty());
            assert(parse_i64_spec(Seq::<char>::empty()) is None);
        } else {
            assert(crate::text::views(args@)[0] == args@[0]@);
        }
    }
    PtuiCb {
        code: first,
        status: arg_string(&args, 1),
        url: arg_string(&args, 2),
        flag: arg_string(&args, 3),
        msg: arg_string(&args, 4),
        nick: arg_string(&args, 5),
    }
}

// ── ptqrtoken ──────────────────────────────────────────────────────────

/// The 32-bit running hash: each character multiplies it by 33 and adds the
/// character's code, modulo 2^32.
pub open spec fn hash33_acc(s: Seq<char>) -> nat
    decreases s.len(),
{
    if s.len() == 0 {
        0
    } else {
        ((hash33_acc(s.drop_last()) * 33 + (s.last() as u32) as nat) % 0x1_0000_0000) as nat
    }
}

/// The `ptqrtoken` of a login signature: the running hash without its top bit.
pub open spec fn hash33_spec(s: Seq<char>) -> nat {
    hash33_acc(s) % 0x8000_0000
}

/// The `ptqrtoken` that the QR login poll sends for the signature `s`.
pub fn hash33(s: &str) -> (r: u32)
    ensures
        r == hash33_spec(s@),
        r < 0x8000_0000,
{
    let v = chars_of(s);
    let mut h: u32 = 0;
    let mut i: usize = 0;
    while i < v.len()
        invariant
            i <= v.len(),
            v@ == s@,
            h == hash33_acc(s@.take(i as int)),
        decreases v.len() - i,
    {
        let t: u64 = (h as u64) * 33 + (v[i] as u32) as u64;
        h = (t % 0x1_0000_0000) as u32;
        proof {
            assert(s@.take(i + 1).drop_last() =~= s@.take(i as int));
            assert(s@.take(i + 1).last() == v@[i as int]);
        }
        i = i + 1;
    }
    assert(s@.take(v.len() as int) =~= s@);
    h % 0x8000_0000
}

// ── QR login poll ──────────────────────────────────────────────────────

/// What a poll of the QR login reports.
pub enum QrLoginState {
    /// No QR code was requested before the poll.
    NoKey,
    /// The login went through; the session cookie is to be kept.
    Confirmed,
    /// The code was scanned by the account with this nickname; waiting for
    /// confirmation on the phone.
    Scanned(String),
    /// The code has not been scanned yet.
    Waiting,
    /// The code expired.
    Expired,
    /// Any other reply, with the message to show.
    Failed(String),
}

/// The message shown for a reply that is none of the known states: the
/// reply's own message, else the HTTP status when it is not 200, else the code.
pub open spec fn unknown_message(code: i64, msg: Seq<char>, http_status: u16) -> Seq<char> {
    if msg.len() > 0 {
        msg
    } else if http_status != 200 {
        "请求失败(HTTP "@ + dec_digits(http_status as nat) + ")"@
    } else {
        "未知状态(code:"@ + int_digits(code as int) + ")"@
    }
}

/// `r` is the state that a poll reply reports: success when the code is 0 or
/// the body says `登录成功`, then 67 (scanned), 66 (waiting), 65 or a body
/// saying `已失效` (expired), and anything else as a failure.
pub open spec fn qr_state_is(r: QrLoginState, code: i64, text: Seq<char>, msg: Seq<char>, nick: Seq<char>, http_status: u16) -> bool {
    if code == 0 || contains_seq(text, "登录成功"@) {
        r is Confirmed
    } else if code == 67 {
        r matches QrLoginState::Scanned(m) && m@ == nick
    } else if code == 66 {
        r is Waiting
    } else if code == 65 || contains_seq(text, "已失效"@) {
        r is Expired
    } else {
        r matches QrLoginState::Failed(m) && m@ == unknown_message(code, msg, http_status)
    }
}

/// The state that a QR login poll reply reports.
pub fn qr_login_state(code: i64, text: &str, msg: &str, nick: &str, http_status: u16) -> (r: QrLoginState)
    ensures
        qr_state_is(r, code, text@, msg@, nick@, http_status),
{
    if code == 0 || str_contains(text, "登录成功") {
        QrLoginState::Confirmed
    } else if code == 67 {
        QrLoginState::Scanned(owned(nick))
    } else if code == 66 {
        QrLoginState::Waiting
    } else if code == 65 || str_contains(text, "已失效") {
        QrLoginState::Expired
    } else {
        let m = chars_of(msg);
        if m.len() > 0 {
            QrLoginState::Failed(owned(msg))
        } else if http_status != 200 {
            let mut out = chars_of("请求失败(HTTP ");
            push_dec(&mut out, http_status as u64);
            push_str(&mut out, ")");
            QrLoginState::Failed(string_of(out.as_slice()))
        } else {
            let mut out = chars_of("未知状态(code:");
            push_int(&mut out, code);
            push_str(&mut out, ")");
            QrLoginState::Failed(string_of(out.as_slice()))
        }
    }
}

impl QrLoginState {
    /// The status code reported to the front end: 803 confirmed, 802 scanned,
    /// 801 waiting, 800 otherwise.
    pub fn status_code(&self) -> (r: u32)
        ensures
            r == (match self {
                QrLoginState::Confirmed => 803u32,
                QrLoginState::Scanned(_) => 802u32,
                QrLoginState::Waiting => 801u32,
                _ => 800u32,
            }),
    {
        match self {
            QrLoginState::Confirmed => 803,
            QrLoginState::Scanned(_) => 802,
            QrLoginState::Waiting => 801,
            _ => 800,
        }
    }

    /// The message reported to the front end.
    pub fn message(&self) -> (r: String)
        ensures
            r@ == (match self {
                QrLoginState::NoKey => "二维码已过期"@,
                QrLoginState::Confirmed => "登录成功"@,
                QrLoginState::Scanned(_) => "已扫码，请确认登录"@,
                QrLoginState::Waiting => "请使用 QQ 扫码"@,
                QrLoginState::Expired => "二维码已失效"@,
                QrLoginState::Failed(m) => m@,
            }),
    {
        match self {
            QrLoginState::NoKey => owned("二维码已过期"),
            QrLoginState::Confirmed => owned("登录成功"),
            QrLoginState::Scanned(_) => owned("已扫码，请确认登录"),
            QrLoginState::Waiting => owned("请使用 QQ 扫码"),
            QrLoginState::Expired => owned("二维码已失效"),
            QrLoginState::Failed(m) => owned(m.as_str()),
        }
    }
}

/// The poll URL for the token `ptqrtoken` at the millisecond clock `millis`.
pub open spec fn qr_check_url_spec(ptqrtoken: u32, millis: u64) -> Seq<char> {
    "https://ssl.ptlogin2.qq.com/ptqrlogin?u1=https%3A%2F%2Fgraph.qq.com%2Foauth2.0%2Flogin_jump&ptqrtoken="@
        + dec_digits(ptqrtoken as nat)
        + "&ptredirect=0&h=1&t=1&g=1&from_ui=1&ptlang=2052&action=0-0-"@
        + dec_digits(millis as nat)
        + "&js_ver=23111510&js_type=1&login_sig=du-YS1h8*0GqVqcrru0pXkpwVg2DYw-DtbFulJ62IgPf6vfiJe*4ONVrYc5hMUNE&pt_uistyle=40&aid=716027609&daid=383&pt_3rd_aid=100497308"@
}

/// The poll URL of the QR login.
pub fn qr_check_url(ptqrtoken: u32, millis: u64) -> (r: String)
    ensures
        r@ == qr_check_url_spec(ptqrtoken, millis),
{
    let mut out = chars_of(
        "https://ssl.ptlogin2.qq.com/ptqrlogin?u1=https%3A%2F%2Fgraph.qq.com%2Foauth2.0%2Flogin_jump&ptqrtoken=",
    );
    push_dec(&mut out, ptqrtoken as u64);
    push_str(&mut out, "&ptredirect=0&h=1&t=1&g=1&from_ui=1&ptlang=2052&action=0-0-");
    push_dec(&mut out, millis);
    push_str(
        &mut out,
        "&js_ver=23111510&js_type=1&login_sig=du-YS1h8*0GqVqcrru0pXkpwVg2DYw-DtbFulJ62IgPf6vfiJe*4ONVrYc5hMUNE&pt_uistyle=40&aid=716027609&daid=383&pt_3rd_aid=100497308",
    );
    string_of(out.as_slice())
}

/// Whether the `check_sig` address of a confirmed login is followed to
/// collect the remaining session cookies: it must be non-empty, not `0`, and
/// an `http://` or `https://` address.
pub fn follows_check_sig(url: &str) -> (r: bool)
    ensures
        r == (url@.len() > 0 && url@ != "0"@ && (starts_with_seq(url@, "http://"@)
            || starts_with_seq(url@, "https://"@))),
{
    let u = chars_of(url);
    u.len() > 0 && !str_eq(url, "0") && (str_starts_with(url, "http://") || str_starts_with(
        url,
        "https://",
    ))
}


// ── QR image ───────────────────────────────────────────────────────────

/// The body starts like a PNG image (`89 50`, at least four bytes).
pub open spec fn is_png(b: Seq<u8>) -> bool {
    b.len() >= 4 && b[0] == 0x89 && b[1] == 0x50
}

/// The body starts like a JPEG image (`FF D8`).
pub open spec fn is_jpeg(b: Seq<u8>) -> bool {
    b.len() >= 2 && b[0] == 0xff && b[1] == 0xd8
}

/// `yes` or `no`, as the diagnostics report whether a signature came back.
pub open spec fn yes_no(b: bool) -> Seq<char> {
    if b {
        "yes"@
    } else {
        "no"@
    }
}

/// The start of a non-image body shown in the error: the first 150
/// characters of the lenient decoding of its first 200 bytes.
pub open spec fn body_preview(b: Seq<u8>) -> Seq<char> {
    let t = lossy_utf8(b.take(if b.len() < 200 { b.len() as int } else { 200 }));
    if t.len() <= 150 {
        t
    } else {
        t.take(150)
    }
}

/// The QR code image of a login: the signature to poll with and the image
/// as a `data:` address.
pub struct QrImage {
    pub key: String,
    pub image: String,
}

/// What the QR-image response yields: an HTTP failure, a body that is no
/// PNG or JPEG, a missing signature, or the image.
pub open spec fn qr_image_outcome(
    status_ok: bool,
    status: u16,
    reason: Option<Seq<char>>,
    content_type: Seq<char>,
    body: Seq<u8>,
    qrsig: Seq<char>,
    location: Seq<char>,
    r: Result<QrImage, String>,
) -> bool {
    if !status_ok {
        r matches Err(m) && m@ == "QQ QR HTTP "@ + dec_digits(status as nat) + " "@ + (match reason {
            Some(t) => t,
            None => "?"@,
        }) + " (content-type: "@ + content_type + ", "@ + dec_digits(body.len()) + " bytes, qrsig: "@
            + yes_no(qrsig.len() > 0) + ", location: "@ + location + ")"@
    } else if !is_png(body) && !is_jpeg(body) {
        r matches Err(m) && m@ == "QQ QR response is not an image (content-type: "@ + content_type
            + ", status: "@ + dec_digits(status as nat) + " "@ + (match reason {
            Some(t) => t,
            None => "<unknown status code>"@,
        }) + ", preview: "@ + body_preview(body) + ")"@
    } else if qrsig.len() == 0 {
        r matches Err(m) && m@ == "QQ QR: qrsig cookie not found in response"@
    } else {
        r matches Ok(q) && q.key@ == qrsig && q.image@ == "data:"@ + (if is_png(body) {
            "image/png"@
        } else {
            "image/jpeg"@
        }) + ";base64,"@ + base64_spec(body)
    }
}

fn push_opt(out: &mut Vec<char>, t: Option<&str>, dflt: &str)
    ensures
        final(out)@ == old(out)@ + (match t {
            Some(x) => x@,
            None => dflt@,
        }),
{
    match t {
        Some(x) => push_str(out, x),
        None => push_str(out, dflt),
    }
}

/// What the QR-image response of a QQ login yields (see `qr_image_outcome`);
/// the status is given as its code, success flag and standard reason.
pub fn qr_key_outcome(
    status_ok: bool,
    status: u16,
    reason: Option<&str>,
    content_type: &str,
    body: &[u8],
    qrsig: &str,
    location: &str,
) -> (r: Result<QrImage, String>)
    ensures
        qr_image_outcome(
            status_ok,
            status,
            match reason {
                Some(t) => Some(t@),
                None => None,
            },
            content_type@,
            body@,
            qrsig@,
            location@,
            r,
        ),
{
    let has_sig = chars_of(qrsig).len() > 0;
    proof {
        reveal_strlit("yes");
        reveal_strlit("no");
    }
    if !status_ok {
        let mut m = chars_of("QQ QR HTTP ");
        push_dec(&mut m, status as u64);
        push_str(&mut m, " ");
        push_opt(&mut m, reason, "?");
        push_str(&mut m, " (content-type: ");
        push_str(&mut m, content_type);
        push_str(&mut m, ", ");
        push_dec(&mut m, body.len() as u64);
        push_str(&mut m, " bytes, qrsig: ");
        push_str(&mut m, if has_sig { "yes" } else { "no" });
        push_str(&mut m, ", location: ");
        push_str(&mut m, location);
        push_str(&mut m, ")");
        return Err(string_of(m.as_slice()));
    }
    let png = body.len() >= 4 && body[0] == 0x89 && body[1] == 0x50;
    let jpeg = body.len() >= 2 && body[0] == 0xff && body[1] == 0xd8;
    if !png && !jpeg {
        let n: usize = if body.len() < 200 { body.len() } else { 200 };
        let head = crate::cover::copy_range(body, 0, n);
        assert(head@ =~= body@.take(n as int));
        let text = utf8_lossy(head.as_slice());
        let tv = chars_of(text.as_str());
        let k: usize = if tv.len() <= 150 { tv.len() } else { 150 };
        let preview = slice_chars(tv.as_slice(), 0, k);
        proof {
            if tv.len() <= 150 {
                assert(preview@ =~= tv@);
            } else {
                assert(preview@ =~= tv@.take(150));
            }
        }
        let mut m = chars_of("QQ QR response is not an image (content-type: ");
        push_str(&mut m, content_type);
        push_str(&mut m, ", status: ");
        push_dec(&mut m, status as u64);
        push_str(&mut m, " ");
        push_opt(&mut m, reason, "<unknown status code>");
        push_str(&mut m, ", preview: ");
        push_chars(&mut m, preview.as_slice());
        push_str(&mut m, ")");
        return Err(string_of(m.as_slice()));
    }
    if !has_sig {
        return Err(owned("QQ QR: qrsig cookie not found in response"));
    }
    let mut img = chars_of("data:");
    push_str(&mut img, if png { "image/png" } else { "image/jpeg" });
    push_str(&mut img, ";base64,");
    let b = base64_standard(body);
    push_str(&mut img, b.as_str());
    Ok(QrImage { key: owned(qrsig), image: string_of(img.as_slice()) })
}

/// The cookie kept while the QR login is polled: `qrsig={signature}`.
pub fn qrsig_cookie(qrsig: &str) -> (r: String)
    ensures
        r@ == "qrsig="@ + qrsig@,
{
    let mut v = chars_of("qrsig=");
    push_str(&mut v, qrsig);
    string_of(v.as_slice())
}

// ── QQ session ─────────────────────────────────────────────────────────

/// The account of the stored QQ cookie, when it holds both an account number
/// and a music key.
pub open spec fn qq_session_spec(cookie: Seq<char>) -> Option<Seq<char>> {
    if qq_uin_spec(cookie).len() == 0 || qq_music_key_spec(cookie).len() == 0 {
        None
    } else {
        Some(qq_uin_spec(cookie))
    }
}

/// The account of the stored QQ cookie, when it is a login.
pub fn qq_session(cookie: &str) -> (r: Option<String>)
    ensures
        match r {
            Some(u) => qq_session_spec(cookie@) == Some(u@),
            None => qq_session_spec(cookie@) is None,
        },
{
    let uin = qq_cookie_uin(cookie);
    let key = qq_cookie_music_key(cookie);
    if chars_of(uin.as_str()).len() == 0 || chars_of(key.as_str()).len() == 0 {
        None
    } else {
        Some(uin)
    }
}

/// The portrait shown for an account whose profile cannot be read.
pub fn qq_avatar_fallback(uin: &str) -> (r: String)
    ensures
        r@ == "https://q1.qlogo.cn/g?b=qq&nk="@ + uin@ + "&s=100"@,
{
    let mut v = chars_of("https://q1.qlogo.cn/g?b=qq&nk=");
    push_str(&mut v, uin);
    push_str(&mut v, "&s=100");
    string_of(v.as_slice())
}

// ── account fields of the QQ cookie ────────────────────────────────────

/// The first of the values of `keys` that the cookie holds, if any.
pub open spec fn first_value(cookie: Seq<char>, keys: Seq<Seq<char>>) -> Option<Seq<char>>
    decreases keys.len(),
{
    if keys.len() == 0 {
        None
    } else {
        match cookie_value(cookie, keys[0]) {
            Some(v) => Some(v),
            None => first_value(cookie, keys.drop_first()),
        }
    }
}

/// `s` without its leading `0` characters (`trim_start_matches('0')`).
pub open spec fn strip_zeros(s: Seq<char>) -> Seq<char>
    decreases s.len(),
{
    if s.len() > 0 && s[0] == '0' {
        strip_zeros(s.drop_first())
    } else {
        s
    }
}

/// The ASCII digits of `s`, in order.
pub open spec fn digits_of(s: Seq<char>) -> Seq<char>
    decreases s.len(),
{
    if s.len() == 0 {
        Seq::empty()
    } else if is_digit(s.last()) {
        digits_of(s.drop_last()).push(s.last())
    } else {
        digits_of(s.drop_last())
    }
}

/// The account number in the QQ cookie: the first of `uin`, `qqmusic_uin`,
/// `wxuin`, `p_uin`, reduced to its digits without leading zeros.
pub open spec fn qq_uin_spec(cookie: Seq<char>) -> Seq<char> {
    let raw = match first_value(cookie, seq!["uin"@, "qqmusic_uin"@, "wxuin"@, "p_uin"@]) {
        Some(v) => v,
        None => Seq::empty(),
    };
    strip_zeros(digits_of(raw))
}

fn first_cookie_value(cookie: &str, k0: &str, k1: &str, k2: &str, k3: &str, k4: &str, n: usize) -> (r: Vec<char>)
    requires
        1 <= n <= 5,
    ensures
        r@ == (match first_value(cookie@, seq![k0@, k1@, k2@, k3@, k4@].take(n as int)) {
            Some(v) => v,
            None => Seq::empty(),
        }),
    decreases n,
{
    let ghost keys = seq![k0@, k1@, k2@, k3@, k4@].take(n as int);
    proof {
        assert(keys.drop_first() =~= seq![k1@, k2@, k3@, k4@].take(n - 1));
        assert(keys[0] == k0@);
    }
    match parse_cookie_value(cookie, k0) {
        Some(v) => {
            return chars_of(v.as_str());
        },
        None => {},
    }
    if n == 1 {
        assert(keys.drop_first() =~= Seq::<Seq<char>>::empty());
        assert(first_value(cookie@, keys.drop_first()) is None);
        assert(first_value(cookie@, keys) is None);
        let e: Vec<char> = Vec::new();
        assert(e@ =~= Seq::<char>::empty());
        return e;
    }
    let r = first_cookie_value(cookie, k1, k2, k3, k4, k4, n - 1);
    assert(seq![k1@, k2@, k3@, k4@].take(n - 1) =~= seq![k1@, k2@, k3@, k4@, k4@].take(n - 1));
    r
}

/// The account number stored in the QQ cookie (empty when there is none).
pub fn qq_cookie_uin(cookie: &str) -> (r: String)
    ensures
        r@ == qq_uin_spec(cookie@),
{
    let raw = first_cookie_value(cookie, "uin", "qqmusic_uin", "wxuin", "p_uin", "p_uin", 4);
    assert(seq!["uin"@, "qqmusic_uin"@, "wxuin"@, "p_uin"@, "p_uin"@].take(4) =~= seq![
        "uin"@,
        "qqmusic_uin"@,
        "wxuin"@,
        "p_uin"@,
    ]);
    let mut digits: Vec<char> = Vec::new();
    let mut i: usize = 0;
    while i < raw.len()
        invariant
            i <= raw.len(),
            digits@ == digits_of(raw@.take(i as int)),
        decreases raw.len() - i,
    {
        proof {
            assert(raw@.take(i + 1) =~= raw@.take(i as int).push(raw@[i as int]));
            assert(raw@.take(i + 1).drop_last() =~= raw@.take(i as int));
        }
        if raw[i] >= '0' && raw[i] <= '9' {
            digits.push(raw[i]);
        }
        i = i + 1;
    }
    assert(raw@.take(raw.len() as int) =~= raw@);
    let mut a: usize = 0;
    let ghost d = digits@;
    assert(d.subrange(0, d.len() as int) =~= d);
    while a < digits.len() && digits[a] == '0'
        invariant
            a <= digits.len(),
            digits@ == d,
            strip_zeros(d.subrange(a as int, d.len() as int)) == strip_zeros(d),
        decreases digits.len() - a,
    {
        assert(d.subrange(a as int, d.len() as int).drop_first() =~= d.subrange(a + 1, d.len() as int));
        a = a + 1;
    }
    assert(d.subrange(0, d.len() as int) =~= d);
    let out = slice_chars(digits.as_slice(), a, digits.len());
    string_of(out.as_slice())
}

/// The music key in the QQ cookie: the first of `qm_keyst`, `qqmusic_key`,
/// `music_key`, `p_skey`, `skey` (empty when there is none).
pub open spec fn qq_music_key_spec(cookie: Seq<char>) -> Seq<char> {
    match first_value(cookie, seq!["qm_keyst"@, "qqmusic_key"@, "music_key"@, "p_skey"@, "skey"@]) {
        Some(v) => v,
        None => Seq::empty(),
    }
}

/// The music key stored in the QQ cookie (empty when there is none).
pub fn qq_cookie_music_key(cookie: &str) -> (r: String)
    ensures
        r@ == qq_music_key_spec(cookie@),
{
    let v = first_cookie_value(cookie, "qm_keyst", "qqmusic_key", "music_key", "p_skey", "skey", 5);
    assert(seq!["qm_keyst"@, "qqmusic_key"@, "music_key"@, "p_skey"@, "skey"@].take(5) =~= seq![
        "qm_keyst"@,
        "qqmusic_key"@,
        "music_key"@,
        "p_skey"@,
        "skey"@,
    ]);
    string_of(v.as_slice())
}

/// The cookie keys that may hold the nickname of the account `uin`, in the
/// order they are tried.
pub open spec fn nick_keys(uin: Seq<char>) -> Seq<Seq<char>> {
    let padded = if uin.len() > 0 {
        "0"@ + uin
    } else {
        Seq::empty()
    };
    seq!["ptnick_"@ + uin, "ptnick_"@ + padded, "ptnick"@, "nick"@, "nickname"@, "qq_nickname"@]
}

/// The first key from `i` on whose value decodes to a non-empty nickname.
pub open spec fn nick_from(cookie: Seq<char>, keys: Seq<Seq<char>>, i: int) -> Seq<char>
    decreases keys.len() - i,
{
    if i < 0 || i >= keys.len() {
        Seq::empty()
    } else {
        match cookie_value(cookie, keys[i]) {
            Some(v) => if url_decode(encode_utf8(v)).len() > 0 {
                url_decode(encode_utf8(v))
            } else {
                nick_from(cookie, keys, i + 1)
            },
            None => nick_from(cookie, keys, i + 1),
        }
    }
}

/// The nickname stored in the QQ cookie for the account `uin`: the first
/// non-empty percent-decoded value among `nick_keys(uin)`.
pub fn qq_cookie_nickname(cookie: &str, uin: &str) -> (r: String)
    ensures
        r@ == nick_from(cookie@, nick_keys(uin@), 0),
{
    let u = chars_of(uin);
    let mut k0 = chars_of("ptnick_");
    push_chars(&mut k0, u.as_slice());
    let mut k1 = chars_of("ptnick_");
    if u.len() > 0 {
        push_str(&mut k1, "0");
        push_chars(&mut k1, u.as_slice());
    }
    let keys: Vec<String> = vec![
        string_of(k0.as_slice()),
        string_of(k1.as_slice()),
        owned("ptnick"),
        owned("nick"),
        owned("nickname"),
        owned("qq_nickname"),
    ];
    let ghost ks = nick_keys(uin@);
    proof {
        reveal_strlit("0");
        if u.len() > 0 {
            assert(k1@ =~= "ptnick_"@ + ("0"@ + uin@));
        } else {
            assert(k1@ =~= "ptnick_"@ + Seq::<char>::empty());
        }
    }
    assert(keys@.len() == 6);
    assert(forall|j: int| 0 <= j < 6 ==> keys@[j]@ == #[trigger] ks[j]);
    let mut i: usize = 0;
    while i < keys.len()
        invariant
            i <= keys.len(),
            keys@.len() == 6,
            ks == nick_keys(uin@),
            ks.len() == 6,
            forall|j: int| 0 <= j < 6 ==> keys@[j]@ == #[trigger] ks[j],
            nick_from(cookie@, ks, i as int) == nick_from(cookie@, ks, 0),
        decreases keys.len() - i,
    {
        assert(keys@[i as int]@ == ks[i as int]);
        match parse_cookie_value(cookie, keys[i].as_str()) {
            Some(val) => {
                let decoded = simple_url_decode(val.as_str());
                let dv = chars_of(decoded.as_str());
                if dv.len() > 0 {
                    assert(nick_from(cookie@, ks, i as int) == decoded@);
                    return decoded;
                }
            },
            None => {},
        }
        i = i + 1;
    }
    proof {
        lemma_empty_str();
    }
    owned("")
}


// ── comments ───────────────────────────────────────────────────────────

/// The page size, offset and page number of a comment request: the size
/// clamped to 6..=50, the offset at least 0, and the page the offset falls on.
pub open spec fn comment_paging_spec(limit: i64, offset: i64) -> (int, int, int) {
    let l: int = if limit < 6 { 6 } else if limit > 50 { 50 } else { limit as int };
    let o: int = if offset < 0 { 0 } else { offset as int };
    (l, o, o / l)
}

/// The page size, offset and page number of a comment request.
pub fn comment_paging(limit: i64, offset: i64) -> (r: (i64, i64, i64))
    ensures
        (r.0 as int, r.1 as int, r.2 as int) == comment_paging_spec(limit, offset),
{
    let l: i64 = if limit < 6 { 6 } else if limit > 50 { 50 } else { limit };
    let o: i64 = if offset < 0 { 0 } else { offset };
    (l, o, o / l)
}

/// Whether a comment page shows the hot comments: only the first page, and
/// only when there are some.
pub fn shows_hot_comments(offset: i64, hot_count: usize) -> (r: bool)
    ensures
        r == (offset == 0 && hot_count > 0),
{
    offset == 0 && hot_count > 0
}

/// The numeric song id of a comment request: the ASCII digits of the given id.
pub fn comment_song_id(id_raw: &str) -> (r: String)
    ensures
        r@ == digits_of(id_raw@),
{
    let raw = chars_of(id_raw);
    let mut digits: Vec<char> = Vec::new();
    let mut i: usize = 0;
    while i < raw.len()
        invariant
            i <= raw.len(),
            raw@ == id_raw@,
            digits@ == digits_of(id_raw@.take(i as int)),
        decreases raw.len() - i,
    {
        proof {
            assert(id_raw@.take(i + 1).drop_last() =~= id_raw@.take(i as int));
            assert(id_raw@.take(i + 1).last() == raw@[i as int]);
        }
        if raw[i] >= '0' && raw[i] <= '9' {
            digits.push(raw[i]);
        }
        i = i + 1;
    }
    assert(id_raw@.take(raw.len() as int) =~= id_raw@);
    string_of(digits.as_slice())
}

/// The account sent with comment requests: the cookie's account, `0` when
/// there is none.
pub fn comment_login_uin(cookie: &str) -> (r: String)
    ensures
        r@ == (if qq_uin_spec(cookie@).len() == 0 {
            "0"@
        } else {
            qq_uin_spec(cookie@)
        }),
{
    let u = qq_cookie_uin(cookie);
    if chars_of(u.as_str()).len() == 0 {
        owned("0")
    } else {
        u
    }
}

/// A request parameter read as an integer: the number itself, else a text
/// that parses as one, else `default`.
pub fn param_as_i64(number: Option<i64>, text: Option<&str>, default: i64) -> (r: i64)
    ensures
        r == (match number {
            Some(n) => n,
            None => match text {
                Some(t) => match parse_i64_spec(t@) {
                    Some(v) => v,
                    None => default,
                },
                None => default,
            },
        }),
{
    match number {
        Some(n) => n,
        None => match text {
            Some(t) => {
                let v = chars_of(t);
                match parse_i64(v.as_slice()) {
                    Some(x) => x,
                    None => default,
                }
            },
            None => default,
        },
    }
}

/// The `ptqrtoken` a poll sends, or `None` when no QR code was requested.
pub fn qr_poll_token(qrsig: &str) -> (r: Option<u32>)
    ensures
        match r {
            Some(t) => qrsig@.len() > 0 && t == hash33_spec(qrsig@),
            None => qrsig@.len() == 0,
        },
{
    if chars_of(qrsig).len() == 0 {
        None
    } else {
        Some(hash33(qrsig))
    }
}

// ── picture addresses ──────────────────────────────────────────────────

/// The address of a QQ Music picture of kind `kind` (`T002` albums, `T001`
/// singers) of the given size; empty when `mid` is empty.
pub open spec fn qq_photo_url(kind: Seq<char>, mid: Seq<char>, size: u32) -> Seq<char> {
    if mid.len() == 0 {
        Seq::empty()
    } else {
        "https://y.qq.com/music/photo_new/"@ + kind + "R"@ + dec_digits(size as nat) + "x"@
            + dec_digits(size as nat) + "M000"@ + mid + ".jpg?max_age=2592000"@
    }
}

fn photo_url(kind: &str, mid: &str, size: u32) -> (r: String)
    ensures
        r@ == qq_photo_url(kind@, mid@, size),
{
    let m = chars_of(mid);
    if m.len() == 0 {
        proof {
            lemma_empty_str();
        }
        return owned("");
    }
    let mut out = chars_of("https://y.qq.com/music/photo_new/");
    push_str(&mut out, kind);
    push_str(&mut out, "R");
    push_dec(&mut out, size as u64);
    push_str(&mut out, "x");
    push_dec(&mut out, size as u64);
    push_str(&mut out, "M000");
    push_chars(&mut out, m.as_slice());
    push_str(&mut out, ".jpg?max_age=2592000");
    string_of(out.as_slice())
}

/// The address of an album cover of the given size (empty for an empty id).
pub fn qq_album_cover(album_mid: &str, size: u32) -> (r: String)
    ensures
        r@ == qq_photo_url("T002"@, album_mid@, size),
{
    photo_url("T002", album_mid, size)
}

/// The address of a singer portrait of the given size (empty for an empty id).
pub fn qq_singer_avatar(singer_mid: &str, size: u32) -> (r: String)
    ensures
        r@ == qq_photo_url("T001"@, singer_mid@, size),
{
    photo_url("T001", singer_mid, size)
}

} // verus!
