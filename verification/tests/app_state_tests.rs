use mineradio::commands::{export_file_name, sanitize_file_name};
use mineradio::hotkeys::{configure_result, hotkey_result, make_conflict, plan_hotkeys, HotkeyBinding};
use mineradio::login::{
    check_login_cookie, keep_polling, login_end_message, login_title, login_url, page_action,
    provider_name, LoginEnd, LoginProvider, LoginWindowState, PageAction,
};
use mineradio::overlay::{click_through_style, drag_click_through};
use mineradio::scanner::{check_folder, file_stem, is_audio_path, ScanCollector, ScanEntry, ScanStep, MAX_FILES};
use mineradio::sidecar::{timeout_message, JsonRpcError, RequestIds, RestartPolicy, RetryDecision};

fn bind(a: &str, k: &str) -> HotkeyBinding {
    HotkeyBinding { action: a.into(), accelerator: k.into() }
}

#[test]
fn hotkey_plan_skips_empty_and_repeated() {
    let b = vec![bind(" play ", " Control+P "), bind("next", "Control+P"), bind("", "X"), bind("prev", "  "), bind("mute", "M")];
    let plan = plan_hotkeys(&b);
    assert_eq!(plan, vec![("play".to_string(), "Control+P".to_string()), ("mute".to_string(), "M".to_string())]);
}

#[test]
fn hotkey_reports() {
    let c = make_conflict();
    assert_eq!(c.source_name, "系统 / 其他软件");
    assert_eq!(c.source_icon, "warning");
    assert_eq!(c.reason, "该组合键已被占用或被系统保留");
    let ok = hotkey_result("a".into(), "K".into(), true);
    assert!(ok.ok && ok.conflict.is_none());
    let bad = hotkey_result("a".into(), "K".into(), false);
    assert!(!bad.ok && bad.conflict.is_some());
    let all = configure_result(vec![ok, bad]);
    assert!(all.ok);
    assert_eq!(all.results.len(), 2);
}

#[test]
fn login_window_flow() {
    let mut s = LoginWindowState::default();
    assert_eq!(s.current(), LoginProvider::Netease);
    assert!(s.open(LoginProvider::QQ, false).is_ok());
    assert_eq!(s.current(), LoginProvider::QQ);
    assert_eq!(s.open(LoginProvider::Netease, true).err().unwrap(), "登录窗口已打开");
    assert_eq!(s.current(), LoginProvider::QQ);
    s.close();
    assert_eq!(s.current(), LoginProvider::Netease);
    assert_eq!(login_title(LoginProvider::QQ), "QQ 音乐登录");
    assert_eq!(login_url(LoginProvider::Netease), "https://music.163.com/#/login");
    assert_eq!(provider_name(LoginProvider::QQ), "qq");
}

#[test]
fn login_page_loads_and_cookies() {
    assert_eq!(page_action(LoginProvider::Netease, "https://music.163.com/#/user/home?id=1"), PageAction::ReadNeteaseCookie);
    assert_eq!(page_action(LoginProvider::Netease, "https://music.163.com/#/login"), PageAction::Wait);
    assert_eq!(page_action(LoginProvider::QQ, "https://y.qq.com/portal/profile.html"), PageAction::PollQqCookie);
    assert_eq!(page_action(LoginProvider::QQ, "https://xui.ptlogin2.qq.com/"), PageAction::Wait);
    assert_eq!(check_login_cookie(LoginProvider::Netease, "").err().unwrap(), "cookie is empty");
    assert!(check_login_cookie(LoginProvider::Netease, "a=1").is_ok());
    assert_eq!(check_login_cookie(LoginProvider::QQ, "a=1").err().unwrap(), "QQ login cookie not found yet");
    assert!(check_login_cookie(LoginProvider::QQ, "uin=o1").is_ok());
    assert!(keep_polling(0, true, false));
    assert!(!keep_polling(100, true, false));
    assert!(!keep_polling(3, false, false));
    assert_eq!(login_end_message(LoginEnd::TimedOut), "登录超时（5分钟）");
    assert_eq!(login_end_message(LoginEnd::WindowClosed), "登录窗口已关闭");
}

fn entry(path: &str, real: &str, len: u64) -> ScanEntry {
    ScanEntry { path: path.into(), is_file: true, metadata: Some((true, len, 5)), real_path: real.into() }
}

#[test]
fn scanning_keeps_audio_once() {
    let mut c = ScanCollector::new();
    assert_eq!(c.step(entry("/m/a.MP3", "/m/a.MP3", 10)), ScanStep::Added);
    assert_eq!(c.step(entry("/m/link.mp3", "/m/a.MP3", 10)), ScanStep::Skip);
    assert_eq!(c.step(entry("/m/b.txt", "/m/b.txt", 10)), ScanStep::Skip);
    assert_eq!(c.step(entry("/m/c.flac", "/m/c.flac", 0)), ScanStep::Skip);
    assert_eq!(c.step(ScanEntry { path: "/m/d.ogg".into(), is_file: true, metadata: None, real_path: "/m/d.ogg".into() }), ScanStep::Skip);
    assert_eq!(c.step(ScanEntry { path: "/m/e.ogg".into(), is_file: false, metadata: Some((true, 1, 1)), real_path: "/m/e.ogg".into() }), ScanStep::Skip);
    assert_eq!(c.step(entry("/m/f.tar.ape", "/m/f.tar.ape", 3)), ScanStep::Added);
    let files = c.into_files();
    assert_eq!(files.len(), 2);
    assert_eq!(files[0].name, "a");
    assert_eq!(files[1].name, "f.tar");
    assert_eq!((files[1].size, files[1].mtime_ms), (3, 5));
}

#[test]
fn scanning_stops_at_the_limit() {
    let mut c = ScanCollector::new();
    for i in 0..MAX_FILES {
        assert_eq!(c.step(entry(&format!("/m/{}.mp3", i), &format!("/m/{}.mp3", i), 1)), ScanStep::Added);
    }
    assert_eq!(c.step(entry("/m/x.mp3", "/m/x.mp3", 1)), ScanStep::Stop);
}

#[test]
fn scan_paths() {
    assert!(is_audio_path("x.Opus"));
    assert!(is_audio_path("x.aiff"));
    assert!(!is_audio_path("x.mp4"));
    assert!(!is_audio_path(".mp3"));
    assert_eq!(file_stem("/a/.hidden"), ".hidden");
    assert_eq!(file_stem("/a/song"), "song");
    assert_eq!(file_stem("/"), "");
    assert_eq!(check_folder(false, false).err().unwrap(), "FOLDER_NOT_FOUND");
    assert_eq!(check_folder(true, false).err().unwrap(), "NOT_A_DIRECTORY");
    assert!(check_folder(true, true).is_ok());
}

#[test]
fn export_names() {
    assert_eq!(sanitize_file_name("a\\b/c:d*e?f\"g<h>i|j"), "a-b-c-d-e-f-g-h-i-j");
    assert_eq!(export_file_name(None), "mineradio-export.json");
    assert_eq!(export_file_name(Some("My:Backup")), "My-Backup.json");
    assert_eq!(export_file_name(Some("SAVE.JSON")), "SAVE.JSON");
}

#[test]
fn helper_process_policy() {
    let mut p = RestartPolicy::new();
    for n in 1..=3u32 {
        match p.on_failure("boom") {
            RetryDecision::Retry(k) => assert_eq!(k, n),
            RetryDecision::GiveUp(_) => panic!("gave up too early"),
        }
    }
    match p.on_failure("boom") {
        RetryDecision::GiveUp(m) => assert_eq!(m, "sidecar 3 consecutive failures (max 3): boom"),
        RetryDecision::Retry(_) => panic!("retried past the limit"),
    }
    p.on_success();
    assert!(matches!(p.on_failure("x"), RetryDecision::Retry(1)));
    let e = JsonRpcError { code: -32601, message: "Method not found".into() };
    assert_eq!(e.describe(), "RPC error -32601: Method not found");
    assert_eq!(timeout_message(), "RPC timeout (30s)");
    let mut ids = RequestIds::new();
    assert_eq!(ids.take(), 1);
    assert_eq!(ids.take(), 2);
}

#[test]
fn overlay_styles() {
    assert_eq!(click_through_style(0, true), 0x80020);
    assert_eq!(click_through_style(0x20 | 0x100, false), 0x80100);
    assert_eq!(click_through_style(0x80000, false), 0x80000);
    assert!(drag_click_through(false));
    assert!(!drag_click_through(true));
}
