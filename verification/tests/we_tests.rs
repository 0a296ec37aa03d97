use mineradio::we::{
    data_url, hide_bg_window, is_bg_process, is_we_exe, is_we_process, open_wallpaper_args,
    placeholder_wallpaper, preview_mime, project_file, project_preview, regex_literal_path, to_wide, wallpaper_entry,
    we_control_verb, EmbedState, WindowRect,
};

fn rect(x: i32, y: i32, w: u32, h: u32) -> WindowRect {
    WindowRect { x, y, width: w, height: h }
}

#[test]
fn wide_strings_end_with_zero() {
    assert_eq!(to_wide(""), vec![0]);
    assert_eq!(to_wide("MusicPlayerBG"), "MusicPlayerBG".encode_utf16().chain(std::iter::once(0)).collect::<Vec<u16>>());
    assert_eq!(to_wide("A😀中"), vec![0x41, 0xD83D, 0xDE00, 0x4E2D, 0]);
}

#[test]
fn embedding_and_following_the_main_window() {
    let mut s = EmbedState::new();
    assert_eq!(s.sync(Some(rect(0, 0, 10, 10))), None);
    let plan = s.embed(Some(rect(5, 6, 800, 600)));
    assert!(plan.first_setup);
    assert_eq!(plan.place, Some(rect(5, 6, 800, 600)));
    assert!(!s.embed(None).first_setup);
    assert_eq!(s.sync(Some(rect(5, 6, 800, 600))), None);
    assert_eq!(s.sync(Some(rect(7, 6, 800, 600))), Some(rect(7, 6, 800, 600)));
    assert_eq!(s.sync(Some(rect(7, 6, 800, 600))), None);
    assert_eq!(s.sync(None), None);
    hide_bg_window(&mut s);
    assert!(!s.initialized && s.last.is_none());
    assert_eq!(s.sync(Some(rect(1, 1, 1, 1))), None);
    assert!(s.embed(None).first_setup);
}

#[test]
fn wallpaper_engine_processes() {
    assert!(is_we_exe("Wallpaper64.EXE"));
    assert!(is_we_exe("wallpaper32.exe"));
    assert!(!is_we_exe("wallpaper64"));
    assert!(is_bg_process("MusicPlayerBG.exe"));
    assert!(is_bg_process("musicplayerbg.exe.exe"));
    assert!(is_bg_process("MUSICPLAYERBG"));
    assert!(!is_bg_process("musicplayerbg2.exe"));
    assert!(is_we_process("wallpaper64.exe") && is_we_process("MusicPlayerBG.exe"));
}

#[test]
fn steam_library_paths() {
    let vdf = "\"libraryfolders\"\n{\n\t\"0\"\n\t{\n\t\t\"path\"\t\t\"C:\\\\Program Files (x86)\\\\Steam\"\n\t}\n\t\"1\" { \"path\" \"D:\\\\Games\" }\n\t\"path\" \"\"\n}\n";
    assert_eq!(regex_literal_path(vdf), vec!["C:\\\\Program Files (x86)\\\\Steam", "D:\\\\Games"]);
    assert!(regex_literal_path("no paths").is_empty());
}

#[test]
fn control_verbs_and_arguments() {
    assert_eq!(we_control_verb("close").unwrap(), "closeWallpaper");
    assert_eq!(we_control_verb("mute").unwrap(), "mute");
    assert_eq!(we_control_verb("jump").err().unwrap(), "不支持的 WE 控制动作: jump");
    let args = open_wallpaper_args("C:/w/project.json");
    assert_eq!(args.len(), 11);
    assert_eq!(args[3], "C:/w/project.json");
    assert_eq!(args[5], "MusicPlayerBG");
}

#[test]
fn preview_images() {
    assert_eq!(preview_mime("C:/w/preview.JPG").as_deref(), Some("image/jpeg"));
    assert_eq!(preview_mime("preview.gif").as_deref(), Some("image/gif"));
    assert_eq!(preview_mime("preview.bmp").as_deref(), Some("image/bmp"));
    assert_eq!(preview_mime("preview.tiff"), None);
    assert_eq!(preview_mime("preview"), None);
    assert_eq!(data_url("image/png", b"x"), "data:image/png;base64,eA==");
}

#[test]
fn wallpaper_entry_reads_metadata() {
    let w = wallpaper_entry(Some("{\"title\":\"test\",\"type\":\"scene\",\"file\":\"a.mp4\"}"), "/w/project.json", Some("data:x".into()));
    assert_eq!(w.title, "test");
    assert_eq!(w.wallpaper_type, "scene");
    assert_eq!(w.file.as_deref(), Some("a.mp4"));
    assert_eq!(w.preview.as_deref(), Some("data:x"));
    assert_eq!(w.project_json, "/w/project.json");
    let d = wallpaper_entry(Some("{}"), "p", None);
    assert_eq!(d.title, "未命名壁纸");
    assert_eq!(d.wallpaper_type, "");
    let bad = wallpaper_entry(Some("{oops"), "p", Some("x".into()));
    assert_eq!(bad.title, "（壁纸数据缺失）");
    assert!(bad.preview.is_none());
    assert_eq!(wallpaper_entry(None, "q", None).title, "（壁纸数据缺失）");
    assert_eq!(placeholder_wallpaper("q").project_json, "q");
}

#[test]
fn project_fields_are_read() {
    let t = "{\"title\":\"test\",\"type\":\"scene\",\"preview\":\"preview.jpg\",\"file\":\"scene.mp4\"}";
    assert_eq!(project_preview(t), Some("preview.jpg".to_string()));
    assert_eq!(project_file(t), Some("scene.mp4".to_string()));
    assert_eq!(project_preview("{\"preview\":3}"), None);
    assert_eq!(project_file("not json"), None);
    assert_eq!(project_file("[1]"), None);
}
