use floepod::db::{epoch_millis, epoch_millis_unsigned, now_ms, now_ms_unsigned};
use floepod::lnk::{ps_quote, shortcut_name_for, shortcut_script};
use floepod::settings::Pod;
use floepod::state::{staged_recently, PanelMode, PodRuntime};
use floepod::tray::{scene_id_from_menu, scene_menu_id, scene_menu_label};
use floepod::watcher::{mark_after_tick, plan_reconcile, watched_folders, watcher_step, DiskEntry, WatchStep};
use floepod::win::{key_down, modifier_state};

#[test]
fn panel_mode_names() {
    for m in [PanelMode::List, PanelMode::Ask, PanelMode::Conflict] {
        assert_eq!(PanelMode::parse(m.as_str()), m);
    }
    assert_eq!(PanelMode::Ask.as_str(), "ask");
    assert_eq!(PanelMode::parse("nope"), PanelMode::List);
    let r = PodRuntime::default();
    assert!(!r.panel_visible && r.mode == PanelMode::List && r.pending_drop.is_empty());
}

#[test]
fn staged_recently_window() {
    assert!(!staged_recently(0, 10));
    assert!(staged_recently(1000, 3999));
    assert!(!staged_recently(1000, 4000));
    assert!(staged_recently(5000, 4000));
}

#[test]
fn shortcut_naming_and_script() {
    assert_eq!(shortcut_name_for("报告.docx"), "报告 - 快捷方式.lnk");
    assert_eq!(shortcut_name_for("arch.tar.gz"), "arch.tar - 快捷方式.lnk");
    assert_eq!(shortcut_name_for("noext"), "noext - 快捷方式.lnk");
    assert_eq!(shortcut_name_for(".gitignore"), ".gitignore - 快捷方式.lnk");
    assert_eq!(ps_quote("it's"), "'it''s'");
    assert!(shortcut_script(&vec![]).is_none());
    let s = shortcut_script(&vec![("C:\\a b".to_string(), "D:\\o'k.lnk".to_string())]).unwrap();
    assert_eq!(
        s,
        "$ws = New-Object -ComObject WScript.Shell\n$s = $ws.CreateShortcut('D:\\o''k.lnk'); $s.TargetPath = 'C:\\a b'; $s.Save()\n"
    );
}

#[test]
fn tray_scene_entries() {
    assert_eq!(scene_menu_label("默认", true), "默认 ✓");
    assert_eq!(scene_menu_label("默认", false), "默认");
    assert_eq!(scene_menu_id(-42), "scene:-42");
    assert_eq!(scene_id_from_menu("scene:-42"), Some(-42));
    assert_eq!(scene_id_from_menu("scene:9223372036854775807"), Some(i64::MAX));
    assert_eq!(scene_id_from_menu("scene:-9223372036854775808"), Some(i64::MIN));
    assert_eq!(scene_id_from_menu("scene:9223372036854775808"), None);
    assert_eq!(scene_id_from_menu("quit"), None);
    assert_eq!(scene_id_from_menu("scene:+7"), Some(7));
    assert_eq!(scene_id_from_menu("scene:"), None);
}

#[test]
fn modifier_keys() {
    assert!(key_down(-32768));
    assert!(!key_down(1));
    let m = modifier_state(-32768, 0, -32768);
    assert!(m.ctrl && !m.shift && m.alt);
}

fn entry(path: &str, name: &str, is_dir: bool) -> DiskEntry {
    DiskEntry { path: path.into(), name: name.into(), is_dir, size: 3 }
}

#[test]
fn reconcile_plan() {
    let known = vec!["d/a.txt".to_string(), "d/gone.txt".to_string(), "d/a.txt".to_string()];
    let entries = vec![entry("d/a.txt", "a.txt", false), entry("d/new.LNK", "new.LNK", false), entry("d/sub", "sub", true)];
    let plan = plan_reconcile(4, &known, &entries, 77);
    assert_eq!(plan.deletes, vec!["d/gone.txt".to_string()]);
    assert_eq!(plan.inserts.len(), 2);
    assert_eq!(plan.inserts[0].kind, "shortcut");
    assert_eq!(plan.inserts[0].ext.as_deref(), Some("lnk"));
    assert_eq!(plan.inserts[0].created_at, 77);
    assert_eq!(plan.inserts[1].kind, "folder");
    assert_eq!(plan.inserts[1].pod_id, 4);
}

#[test]
fn watcher_decisions() {
    assert_eq!(watcher_step(false, true), WatchStep::Idle);
    assert_eq!(watcher_step(true, true), WatchStep::Defer);
    assert_eq!(watcher_step(true, false), WatchStep::Reconcile);
    let mut a = Pod::default();
    a.id = 1;
    a.staging_folder = "C:\\a".into();
    let mut b = Pod::default();
    b.id = 2;
    let mut c = Pod::default();
    c.id = 3;
    c.staging_folder = "C:\\c".into();
    c.enabled = false;
    assert_eq!(watched_folders(&vec![a, b, c]), vec![(1, "C:\\a".to_string())]);
}

#[test]
fn clock_stamps() {
    assert_eq!(epoch_millis(None), 0);
    assert_eq!(epoch_millis(Some(1_700_000_000_123)), 1_700_000_000_123);
    assert_eq!(epoch_millis(Some(1u128 << 64)), 0);
    assert_eq!(epoch_millis_unsigned(None), 0);
    assert_eq!(epoch_millis_unsigned(Some(42)), 42);
    assert!(now_ms() > 1_600_000_000_000);
    assert!(now_ms_unsigned() > 1_600_000_000_000);
}

#[test]
fn dirty_mark_kept_until_reconciled() {
    assert!(!mark_after_tick(WatchStep::Idle, false));
    assert!(mark_after_tick(WatchStep::Defer, false));
    assert!(mark_after_tick(WatchStep::Reconcile, false));
    assert!(!mark_after_tick(WatchStep::Reconcile, true));
    assert_eq!(watcher_step(true, true), WatchStep::Defer);
}
