use std::path::Path;

use floepod::commands::{
    candidate, claim_if_free, skip_target, thumbnail_of, text_target, conflicts_among, plan_staging, probe_paths, thumbnail_allowed, distinct_pod_ids, export_conflicts, export_must_ask, export_target, ext_of, first_line_of,
    make_thumbnail, parse_conflict_policy, parse_stage_action, sanitize_text_name, stage_name,
    staged_item, text_file_name, text_item, thumbnail_wanted, unique_target, ConflictPolicy,
    StageAction,
};
use floepod::db::StagedItem;

#[test]
fn ext_of_handles_edge_cases() {
    assert_eq!(ext_of("a.PDF").as_deref(), Some("pdf"));
    assert_eq!(ext_of(".gitignore"), None);
    assert_eq!(ext_of("noext"), None);
    assert_eq!(ext_of("arch.tar.gz").as_deref(), Some("gz"));
}

#[test]
fn sanitize_keeps_readable_head() {
    assert_eq!(sanitize_text_name("héllo world"), "héllo world");
    assert_eq!(sanitize_text_name("a<b>c:d"), "a b c d");
    assert_eq!(sanitize_text_name("   "), "文字");
    let long: String = std::iter::repeat('字').take(50).collect();
    assert_eq!(sanitize_text_name(&long).chars().count(), 18);
}

#[test]
fn sanitize_replaces_control_characters_and_trims() {
    assert_eq!(sanitize_text_name("\tab\u{7}c  "), "ab c");
    assert_eq!(sanitize_text_name("\u{3000}x\u{3000}"), "x");
    assert_eq!(sanitize_text_name("???"), "文字");
}

#[test]
fn candidate_numbers_before_the_extension() {
    assert_eq!(candidate("a.pdf", 1), "a.pdf");
    assert_eq!(candidate("a.pdf", 2), "a (2).pdf");
    assert_eq!(candidate("arch.tar.gz", 12), "arch.tar (12).gz");
    assert_eq!(candidate("noext", 3), "noext (3)");
    assert_eq!(candidate(".gitignore", 2), ".gitignore (2)");
}

fn missing_dir() -> String {
    Path::new("floepod-test-dir-that-does-not-exist").join("staging").to_string_lossy().into_owned()
}

#[test]
fn unique_target_skips_used_names() {
    let dir = missing_dir();
    let first = Path::new(&dir).join("a.pdf").to_string_lossy().into_owned();
    let mut used = vec![first.clone()];
    let t1 = unique_target(&dir, "a.pdf", &mut used).unwrap();
    assert_eq!(Path::new(&t1).file_name().unwrap().to_string_lossy(), "a (2).pdf");
    assert!(t1.starts_with(&dir));
    let t2 = unique_target(&dir, "a.pdf", &mut used).unwrap();
    assert_eq!(Path::new(&t2).file_name().unwrap().to_string_lossy(), "a (3).pdf");
    let t3 = unique_target(&dir, "b.txt", &mut used).unwrap();
    assert_eq!(Path::new(&t3).file_name().unwrap().to_string_lossy(), "b.txt");
    assert_eq!(used, vec![first, t1, t2, t3]);
}

#[test]
fn first_line_drops_line_ending() {
    assert_eq!(first_line_of("ab\r\ncd").as_deref(), Some("ab"));
    assert_eq!(first_line_of("ab\ncd").as_deref(), Some("ab"));
    assert_eq!(first_line_of("\nrest").as_deref(), Some(""));
    assert_eq!(first_line_of("one").as_deref(), Some("one"));
    assert_eq!(first_line_of(""), None);
}

#[test]
fn text_file_name_rules() {
    assert_eq!(text_file_name("  \n\t").unwrap_err(), "内容为空");
    assert_eq!(text_file_name("hello: world\nmore").unwrap(), "hello  world.txt");
    assert_eq!(text_file_name("\nsecond").unwrap(), "文字.txt");
}

#[test]
fn stage_action_parsing() {
    assert_eq!(parse_stage_action("copy").unwrap(), StageAction::Copy);
    assert_eq!(parse_stage_action("move").unwrap(), StageAction::Move);
    assert_eq!(parse_stage_action("shortcut").unwrap(), StageAction::Shortcut);
    assert_eq!(parse_stage_action("zip").unwrap_err(), "未知动作: zip");
}

#[test]
fn stage_names_and_records() {
    let name = "报告.docx".to_string();
    assert_eq!(stage_name(StageAction::Shortcut, Some(&name)), "报告 - 快捷方式.lnk");
    assert_eq!(stage_name(StageAction::Shortcut, None), "目标 - 快捷方式.lnk");
    assert_eq!(stage_name(StageAction::Copy, None), "未命名");
    assert_eq!(stage_name(StageAction::Move, Some(&name)), "报告.docx");

    let target = Path::new("stage").join("a.PDF").to_string_lossy().into_owned();
    let it = staged_item(7, StageAction::Copy, "C:/src/a.PDF", "a.PDF", &target, false, 1024, 5);
    assert_eq!(it.kind, "file");
    assert_eq!(it.pod_id, 7);
    assert_eq!(it.name, "a.PDF");
    assert_eq!(it.ext.as_deref(), Some("pdf"));
    assert_eq!(it.size, 1024);
    assert_eq!(it.original_path.as_deref(), Some("C:/src/a.PDF"));
    let dir = staged_item(7, StageAction::Move, "C:/src/docs", "docs", &target, true, 99, 5);
    assert_eq!(dir.kind, "folder");
    assert_eq!(dir.size, 0);
    let lnk = staged_item(7, StageAction::Shortcut, "C:/src/a.PDF", "a.PDF", &target, false, 99, 5);
    assert_eq!(lnk.kind, "shortcut");
    assert_eq!(lnk.ext.as_deref(), Some("lnk"));
    assert_eq!(lnk.size, 0);

    let txt_path = Path::new("stage").join("hi.txt").to_string_lossy().into_owned();
    let t = text_item(3, &txt_path, 12, 9);
    assert_eq!(t.kind, "text");
    assert_eq!(t.name, "hi.txt");
    assert_eq!(t.ext.as_deref(), Some("txt"));
    assert!(t.original_path.is_none());
}

fn item(id: i64, pod_id: i64) -> StagedItem {
    StagedItem {
        id,
        pod_id,
        kind: "file".into(),
        staging_path: format!("p{id}"),
        original_path: None,
        name: format!("n{id}"),
        ext: None,
        size: 0,
        created_at: 0,
    }
}

#[test]
fn distinct_pod_ids_once_each() {
    let mut ids = distinct_pod_ids(&vec![item(1, 2), item(2, 3), item(3, 2), item(4, 2)]);
    ids.sort();
    assert_eq!(ids, vec![2, 3]);
    assert!(distinct_pod_ids(&vec![]).is_empty());
}

#[test]
fn export_policies() {
    assert_eq!(parse_conflict_policy("ask"), ConflictPolicy::Ask);
    assert_eq!(parse_conflict_policy("overwrite"), ConflictPolicy::Overwrite);
    assert_eq!(parse_conflict_policy("skip"), ConflictPolicy::Skip);
    assert_eq!(parse_conflict_policy("rename"), ConflictPolicy::Rename);
    assert!(export_must_ask(ConflictPolicy::Ask, &vec!["a".into()]));
    assert!(!export_must_ask(ConflictPolicy::Ask, &vec![]));
    assert!(!export_must_ask(ConflictPolicy::Skip, &vec!["a".into()]));

    let dest = missing_dir();
    let mut used = Vec::new();
    let plain = Path::new(&dest).join("x.png").to_string_lossy().into_owned();
    assert_eq!(export_target(&dest, "x.png", ConflictPolicy::Overwrite, &mut used), Some(plain.clone()));
    assert_eq!(export_target(&dest, "x.png", ConflictPolicy::Skip, &mut used), Some(plain.clone()));
    assert!(used.is_empty());
    assert_eq!(export_target(&dest, "x.png", ConflictPolicy::Rename, &mut used), Some(plain.clone()));
    let second = export_target(&dest, "x.png", ConflictPolicy::Rename, &mut used).unwrap();
    assert_eq!(Path::new(&second).file_name().unwrap().to_string_lossy(), "x (2).png");
}

#[test]
fn conflicts_keep_flagged_names_in_order() {
    let names: Vec<String> = vec!["a.txt".into(), "b.png".into(), "c".into(), "d.pdf".into()];
    assert_eq!(
        conflicts_among(&names, &vec![true, false, true, false]),
        vec!["a.txt".to_string(), "c".to_string()]
    );
    assert!(conflicts_among(&names, &vec![false; 4]).is_empty());
    assert_eq!(conflicts_among(&names, &vec![true; 4]), names);
    assert!(export_conflicts(&missing_dir(), &names).is_empty());
}

#[test]
fn thumbnail_rules() {
    assert!(thumbnail_wanted("a.PNG", 10));
    assert!(thumbnail_wanted("b.jpeg", 64 * 1024 * 1024));
    assert!(!thumbnail_wanted("b.jpeg", 64 * 1024 * 1024 + 1));
    assert!(!thumbnail_wanted("c.pdf", 10));
    assert!(!thumbnail_wanted(".png", 10));
    assert!(make_thumbnail(b"not an image").is_err());
    // A 1x1 white BMP.
    let bmp: Vec<u8> = vec![
        0x42, 0x4D, 0x3A, 0, 0, 0, 0, 0, 0, 0, 0x36, 0, 0, 0, 0x28, 0, 0, 0, 1, 0, 0, 0, 1, 0, 0, 0,
        1, 0, 0x18, 0, 0, 0, 0, 0, 4, 0, 0, 0, 0x13, 0x0B, 0, 0, 0x13, 0x0B, 0, 0, 0, 0, 0, 0, 0, 0,
        0, 0, 0xFF, 0xFF, 0xFF, 0,
    ];
    let p = make_thumbnail(&bmp).unwrap();
    assert_eq!(p.mime, "image/png");
    assert_eq!(&p.bytes[1..4], b"PNG");
}

#[test]
fn claiming_a_candidate() {
    let mut used = vec!["a".to_string()];
    assert!(!claim_if_free(&"a".to_string(), false, &mut used));
    assert!(!claim_if_free(&"b".to_string(), true, &mut used));
    assert_eq!(used, vec!["a".to_string()]);
    assert!(claim_if_free(&"b".to_string(), false, &mut used));
    assert_eq!(used, vec!["a".to_string(), "b".to_string()]);
}

#[test]
fn probes_join_each_name() {
    let names: Vec<String> = vec!["a.txt".into(), "b".into()];
    let p = probe_paths("D", &names);
    assert_eq!(p, vec![
        Path::new("D").join("a.txt").to_string_lossy().into_owned(),
        Path::new("D").join("b").to_string_lossy().into_owned(),
    ]);
}

#[test]
fn staging_plans() {
    let dir = missing_dir();
    assert_eq!(plan_staging(&dir, "copy", &vec![]).unwrap_err(), "没有可暂存的文件");
    let srcs = vec![
        ("C:/x/a.pdf".to_string(), Some("a.pdf".to_string())),
        ("C:/y/a.pdf".to_string(), Some("a.pdf".to_string())),
        ("C:/".to_string(), None),
    ];
    assert_eq!(plan_staging(&dir, "zip", &srcs).unwrap_err(), "未知动作: zip");
    let (a, plan) = plan_staging(&dir, "copy", &srcs).unwrap();
    assert_eq!(a, StageAction::Copy);
    assert_eq!(plan.len(), 3);
    assert_eq!(plan[0].1, "a.pdf");
    assert_eq!(plan[0].2, Path::new(&dir).join("a.pdf").to_string_lossy());
    assert_eq!(plan[1].2, Path::new(&dir).join("a (2).pdf").to_string_lossy());
    assert_eq!(plan[2].1, "未命名");
    let (a, plan) = plan_staging(&dir, "shortcut", &srcs[..1].to_vec()).unwrap();
    assert_eq!(a, StageAction::Shortcut);
    assert_eq!(plan[0].1, "a - 快捷方式.lnk");
    assert_eq!(plan[0].0, "C:/x/a.pdf");
}

#[test]
fn thumbnails_only_inside_staging_folders() {
    let folders = vec!["/data/pod1".to_string(), "/data/pod2".to_string()];
    assert!(thumbnail_allowed("/data/pod2/img.png", &folders));
    assert!(!thumbnail_allowed("/data/pod10/img.png", &folders));
    assert!(!thumbnail_allowed("/etc/passwd", &folders));
    assert!(!thumbnail_allowed("/data/pod1/x.png", &vec![]));
}

#[test]
fn text_targets() {
    let dir = missing_dir();
    assert_eq!(text_target(&dir, "note.txt").unwrap(), Path::new(&dir).join("note.txt").to_string_lossy());
}

fn png_size(b: &[u8]) -> (u32, u32) {
    (
        u32::from_be_bytes([b[16], b[17], b[18], b[19]]),
        u32::from_be_bytes([b[20], b[21], b[22], b[23]]),
    )
}

#[test]
fn thumbnails_fit_the_side() {
    let wide = image::DynamicImage::new_rgb8(1000, 10);
    let p = thumbnail_of(&wide).unwrap();
    assert_eq!(p.mime, "image/png");
    assert_eq!(png_size(&p.bytes), (256, 3));
    let small = image::DynamicImage::new_luma8(20, 40);
    let q = thumbnail_of(&small).unwrap();
    let (w, h) = png_size(&q.bytes);
    assert!(w >= 1 && w <= 256 && h >= 1 && h <= 256);
    assert!(thumbnail_of(&image::DynamicImage::new_rgb32f(4, 4)).is_err());
}

#[test]
fn skip_decides_on_the_disk_answer() {
    assert_eq!(skip_target("D/a.txt".to_string(), true), None);
    assert_eq!(skip_target("D/a.txt".to_string(), false), Some("D/a.txt".to_string()));
}

#[test]
fn sanitizing_twice_is_sanitizing_once() {
    for raw in ["  a<b>c:d  ", "   ", "héllo world", "一二三四五六七八九十一二三四五六七八九十"] {
        let once = sanitize_text_name(raw);
        assert_eq!(sanitize_text_name(&once), once);
    }
}

#[test]
fn thumbnail_bytes_are_the_encoded_thumbnail() {
    let img = image::DynamicImage::new_rgba8(600, 300);
    let p = thumbnail_of(&img).unwrap();
    let mut expected: Vec<u8> = Vec::new();
    img.thumbnail(256, 256)
        .write_to(std::io::Cursor::new(&mut expected), image::ImageFormat::Png)
        .unwrap();
    assert_eq!(p.bytes, expected);
}
