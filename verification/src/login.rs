//! Web login windows: which provider a login window is for, what a finished
//! page load asks for, when a page's cookie counts as a login, and the
//! messages of the outcomes.
use vstd::prelude::*;
use crate::text::{contains_seq, owned, str_contains};

verus! {

/// The music service a login window is for.
#[derive(PartialEq, Eq, Structural, Clone, Copy, Debug)]
pub enum LoginProvider {
    Netease,
    QQ,
}

/// The provider of the open login window, if any.
pub struct LoginWindowState {
    pub provider: Option<LoginProvider>,
}

impl Default for LoginWindowState {
    /// No login window is open.
    fn default() -> (r: LoginWindowState)
        ensures
            r.provider is None,
    {
        LoginWindowState { provider: None }
    }
}

impl LoginWindowState {
    /// Opens a login window for `provider`, unless one is open already.
    pub fn open(&mut self, provider: LoginProvider, window_open: bool) -> (r: Result<(), String>)
        ensures
            window_open ==> (r matches Err(m) && m@ == "登录窗口已打开"@) && final(self).provider
                == old(self).provider,
            !window_open ==> r is Ok && final(self).provider == Some(provider),
    {
        if window_open {
            return Err(owned("登录窗口已打开"));
        }
        self.provider = Some(provider);
        Ok(())
    }

    /// Forgets the provider when the login window closes or the login ends.
    pub fn close(&mut self)
        ensures
            final(self).provider is None,
    {
        self.provider = None;
    }

    /// The provider a page load is handled for: the stored one, Netease when
    /// none is stored.
    pub fn current(&self) -> (r: LoginProvider)
        ensures
            r == (match self.provider {
                Some(p) => p,
                None => LoginProvider::Netease,
            }),
    {
        match self.provider {
            Some(p) => p,
            None => LoginProvider::Netease,
        }
    }
}

/// The window title of a provider's login.
pub fn login_title(provider: LoginProvider) -> (r: String)
    ensures
        r@ == (match provider {
            LoginProvider::Netease => "网易云音乐登录"@,
            LoginProvider::QQ => "QQ 音乐登录"@,
        }),
{
    match provider {
        LoginProvider::Netease => owned("网易云音乐登录"),
        LoginProvider::QQ => owned("QQ 音乐登录"),
    }
}

/// The address a provider's login window opens.
pub fn login_url(provider: LoginProvider) -> (r: String)
    ensures
        r@ == (match provider {
            LoginProvider::Netease => "https://music.163.com/#/login"@,
            LoginProvider::QQ => "https://xui.ptlogin2.qq.com/cgi-bin/xlogin?appid=716027609&daid=383&pt_skey_valid=0&style=40&s_url=https%3A%2F%2Fy.qq.com%2Fportal%2Fprofile.html"@,
        }),
{
    match provider {
        LoginProvider::Netease => owned("https://music.163.com/#/login"),
        LoginProvider::QQ => owned(
            "https://xui.ptlogin2.qq.com/cgi-bin/xlogin?appid=716027609&daid=383&pt_skey_valid=0&style=40&s_url=https%3A%2F%2Fy.qq.com%2Fportal%2Fprofile.html",
        ),
    }
}

/// The name of a provider in the login event.
pub fn provider_name(provider: LoginProvider) -> (r: String)
    ensures
        r@ == (match provider {
            LoginProvider::Netease => "netease"@,
            LoginProvider::QQ => "qq"@,
        }),
{
    match provider {
        LoginProvider::Netease => owned("netease"),
        LoginProvider::QQ => owned("qq"),
    }
}

/// What a finished page load in the login window asks for.
#[derive(PartialEq, Eq, Structural, Clone, Copy, Debug)]
pub enum PageAction {
    /// Nothing yet.
    Wait,
    /// Read the Netease cookie once, after a short delay.
    ReadNeteaseCookie,
    /// Poll the QQ cookie until it holds a login.
    PollQqCookie,
}

/// The action of a finished page load at `url`: a Netease page of
/// `music.163.com` showing the user or home page, or any `y.qq.com` page for
/// QQ.
pub open spec fn page_action_spec(provider: LoginProvider, url: Seq<char>) -> PageAction {
    match provider {
        LoginProvider::Netease => if contains_seq(url, "music.163.com"@) && (contains_seq(url, "user"@)
            || contains_seq(url, "home"@)) {
            PageAction::ReadNeteaseCookie
        } else {
            PageAction::Wait
        },
        LoginProvider::QQ => if contains_seq(url, "y.qq.com"@) {
            PageAction::PollQqCookie
        } else {
            PageAction::Wait
        },
    }
}

/// The action of a finished page load at `url` (see `page_action_spec`).
pub fn page_action(provider: LoginProvider, url: &str) -> (r: PageAction)
    ensures
        r == page_action_spec(provider, url@),
{
    match provider {
        LoginProvider::Netease => {
            if str_contains(url, "music.163.com") && (str_contains(url, "user") || str_contains(
                url,
                "home",
            )) {
                PageAction::ReadNeteaseCookie
            } else {
                PageAction::Wait
            }
        },
        LoginProvider::QQ => {
            if str_contains(url, "y.qq.com") {
                PageAction::PollQqCookie
            } else {
                PageAction::Wait
            }
        },
    }
}

/// The most reads of the QQ cookie while polling.
pub const QQ_POLL_ATTEMPTS: u32 = 100;

/// Whether polling the QQ cookie goes on after `done` reads: while the
/// window is open, no read has found a login, and fewer than
/// `QQ_POLL_ATTEMPTS` reads were made.
pub fn keep_polling(done: u32, window_open: bool, logged_in: bool) -> (r: bool)
    ensures
        r == (done < QQ_POLL_ATTEMPTS && window_open && !logged_in),
{
    done < QQ_POLL_ATTEMPTS && window_open && !logged_in
}

/// Whether a page's cookie text counts as a login: it must be non-empty,
/// and for QQ it must name `uin` or `qqmusic_key`.
pub open spec fn login_cookie_spec(provider: LoginProvider, cookie: Seq<char>) -> Result<(), Seq<char>> {
    if cookie.len() == 0 {
        Err("cookie is empty"@)
    } else if provider == LoginProvider::QQ && !contains_seq(cookie, "uin"@) && !contains_seq(
        cookie,
        "qqmusic_key"@,
    ) {
        Err("QQ login cookie not found yet"@)
    } else {
        Ok(())
    }
}

/// Whether a page's cookie text counts as a login (see `login_cookie_spec`).
pub fn check_login_cookie(provider: LoginProvider, cookie: &str) -> (r: Result<(), String>)
    ensures
        match login_cookie_spec(provider, cookie@) {
            Ok(()) => r is Ok,
            Err(m) => r matches Err(e) && e@ == m,
        },
{
    if crate::text::chars_of(cookie).len() == 0 {
        return Err(owned("cookie is empty"));
    }
    if provider == LoginProvider::QQ && !str_contains(cookie, "uin") && !str_contains(
        cookie,
        "qqmusic_key",
    ) {
        return Err(owned("QQ login cookie not found yet"));
    }
    Ok(())
}

/// How a login attempt ended without a cookie.
#[derive(PartialEq, Eq, Structural, Clone, Copy, Debug)]
pub enum LoginEnd {
    /// The user closed the window.
    WindowClosed,
    /// The result channel closed.
    ChannelClosed,
    /// Five minutes passed.
    TimedOut,
}

/// The message of an unfinished login.
pub fn login_end_message(end: LoginEnd) -> (r: String)
    ensures
        r@ == (match end {
            LoginEnd::WindowClosed => "登录窗口已关闭"@,
            LoginEnd::ChannelClosed => "登录通道已关闭"@,
            LoginEnd::TimedOut => "登录超时（5分钟）"@,
        }),
{
    match end {
        LoginEnd::WindowClosed => owned("登录窗口已关闭"),
        LoginEnd::ChannelClosed => owned("登录通道已关闭"),
        LoginEnd::TimedOut => owned("登录超时（5分钟）"),
    }
}

} // verus!
