use mineradio::pkg::{
    detect_type, entry_bytes, entry_fits, find_entry, import_from_bytes, parse_pkg,
    pkg_is_readable, read_title,
};

fn pkg(entries: &[(&str, &[u8])]) -> Vec<u8> {
    let mut d = (entries.len() as u32).to_le_bytes().to_vec();
    d.extend_from_slice(b"PKGV0019");
    d.extend_from_slice(&[0, 0, 0, 0]);
    let mut off = 0u32;
    for (name, data) in entries {
        d.extend_from_slice(&(name.len() as u32).to_le_bytes());
        d.extend_from_slice(name.as_bytes());
        d.extend_from_slice(&off.to_le_bytes());
        d.extend_from_slice(&(data.len() as u32).to_le_bytes());
        off += data.len() as u32;
    }
    for (_, data) in entries {
        d.extend_from_slice(data);
    }
    d
}

#[test]
fn table_is_read() {
    let d = pkg(&[("scene.json", b"{}"), ("materials/a.mdl", b"xyz")]);
    let a = parse_pkg(&d).unwrap();
    assert_eq!(a.entries.len(), 2);
    assert_eq!(a.entries[1].name, "materials/a.mdl");
    assert_eq!(a.entries[1].offset, 2);
    assert_eq!(a.entries[1].size, 3);
    assert_eq!(entry_bytes(&a, &d, 1), b"xyz".to_vec());
    assert!(entry_fits(&a, &d, 0));
    assert!(!entry_fits(&a, &d, 2));
}

#[test]
fn table_errors() {
    assert_eq!(parse_pkg(&[0u8; 10]).err().unwrap(), "pkg 文件过小，不是有效的 PKGV 容器");
    let mut bad = pkg(&[]);
    bad[4] = b'X';
    assert_eq!(parse_pkg(&bad).err().unwrap(), "不是有效的 Wallpaper Engine 包（PKGV 魔数不匹配）");
    let mut d = pkg(&[]);
    d[0] = 1;
    assert_eq!(parse_pkg(&d).err().unwrap(), "pkg 条目头截断");
    d.extend_from_slice(&[5, 0, 0, 0, b'a']);
    assert_eq!(parse_pkg(&d).err().unwrap(), "pkg 条目截断");
}

#[test]
fn entries_are_found_by_name_or_base_name() {
    let d = pkg(&[("data/project.json", b"{}"), ("x/scene.json", b"{}"), ("scene.json", b"{}")]);
    let a = parse_pkg(&d).unwrap();
    assert_eq!(find_entry(&a, "scene.json"), Some(2));
    assert_eq!(find_entry(&a, "project.json"), Some(0));
    assert_eq!(find_entry(&a, "deep/path/scene.json"), Some(1));
    assert_eq!(find_entry(&a, "missing.bin"), None);
}

#[test]
fn type_detection_order() {
    let d = pkg(&[("project.json", b"{\"type\":\"video\"}"), ("scene.json", b"{}")]);
    let a = parse_pkg(&d).unwrap();
    assert_eq!(detect_type(&a, &d, Some("{\"type\":\"web\"}")).unwrap(), "web");
    assert_eq!(detect_type(&a, &d, Some("{\"type\":\"\"}")).unwrap(), "video");
    assert_eq!(detect_type(&a, &d, None).unwrap(), "video");
    let d = pkg(&[("project.json", b"not json"), ("m.mdl", b"")]);
    let a = parse_pkg(&d).unwrap();
    assert_eq!(detect_type(&a, &d, Some("also not json")).unwrap(), "scene");
    let d = pkg(&[("readme.txt", b"")]);
    let a = parse_pkg(&d).unwrap();
    assert_eq!(detect_type(&a, &d, None).err().unwrap(), "无法从 pkg 确定类型（缺少 project.json 且非场景包）");
}

#[test]
fn importing_packages() {
    let scene = pkg(&[("scene.json", b"{}")]);
    assert!(pkg_is_readable(&scene));
    let ok = import_from_bytes(&scene, Some("{\"title\":\"Night\",\"type\":\"scene\"}")).unwrap();
    assert_eq!(ok.name, "Night");
    assert_eq!(ok.message, "场景壁纸需要原生 wgpu 渲染（P2 未实现）");
    assert_eq!(import_from_bytes(&scene, None).unwrap().name, "");
    let video = pkg(&[("project.json", b"{\"type\":\"video\"}")]);
    assert_eq!(
        import_from_bytes(&video, None).err().unwrap(),
        "pkg 类型为 video，但内层媒体位于 WE 专有嵌套二进制容器中，需完整解析（P2：移植 Lively 的 PKGV 解析 + zlib 解压）后才能提取"
    );
    assert_eq!(read_title(Some("{\"title\":\"T\"}")), "T");
    assert_eq!(read_title(Some("[1]")), "");
}

#[test]
fn packed_project_outside_the_data_is_detected() {
    let mut d = pkg(&[("project.json", b"{}")]);
    d.truncate(d.len() - 1);
    assert!(!pkg_is_readable(&d));
}

#[test]
fn single_entry_table_names_and_bytes() {
    let mut d = vec![1u8, 0, 0, 0];
    d.extend_from_slice(b"PKGV0019");
    d.extend_from_slice(&[0, 0, 0, 0]);
    d.extend_from_slice(&[10, 0, 0, 0]);
    d.extend_from_slice(b"scene.json");
    d.extend_from_slice(&[0, 0, 0, 0]);
    d.extend_from_slice(&[2, 0, 0, 0]);
    d.extend_from_slice(b"{}");
    assert_eq!(d.len(), 40);
    let a = parse_pkg(&d).unwrap();
    assert_eq!(a.entries.len(), 1);
    assert_eq!(a.entries[0].name, "scene.json");
    assert_eq!(a.entries[0].offset, 0);
    assert_eq!(a.entries[0].size, 2);
    assert_eq!(entry_bytes(&a, &d, 0), b"{}".to_vec());
}
