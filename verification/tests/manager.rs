use std::collections::HashMap;

use floepod::manager::{
    show_known_panel,
    abandon_show, apply_material_once, bar_geometry, bar_label, dismiss_other_panels,
    enabled_pod_ids, hide_panel, hold_pending_drop, layout_panel_height, list_monitors,
    panel_label, panel_mode_payload, pin_needs_show, place_panel, pod_id_from_label,
    pods_to_destroy, report_presence, select_monitor, set_dragging_out, set_panel_mode,
    set_panel_size, set_pinned, should_reveal_bars, show_panel, toggle_panel, watchdog_sweep,
    MonitorInfo, PanelToggle, Rect, Runtimes,
};
use floepod::settings::{Pod, Settings};
use floepod::state::{PanelMode, PodRuntime};

fn visible(pinned: bool) -> PodRuntime {
    let mut r = PodRuntime::default();
    r.panel_visible = true;
    r.panel_pinned = pinned;
    r
}

#[test]
fn show_panel_dismisses_unpinned_list_panels() {
    let mut pods: Runtimes = HashMap::new();
    pods.insert(1, visible(false));
    pods.insert(2, visible(true));
    let mut asking = visible(false);
    asking.mode = PanelMode::Ask;
    pods.insert(3, asking);
    let (others, proceed) = show_panel(&mut pods, 4);
    assert_eq!(others, vec![1]);
    assert!(proceed);
    assert!(!pods[&1].panel_visible);
    assert!(pods[&2].panel_visible);
    assert!(pods[&3].panel_visible);
    assert!(pods[&4].panel_visible);
    assert_eq!(pods.len(), 4);
    assert!(pods[&2].panel_pinned);
    assert!(pods[&3].mode == PanelMode::Ask);
    let (again, proceed2) = show_panel(&mut pods, 4);
    assert!(again.is_empty());
    assert!(!proceed2);
    abandon_show(&mut pods, 4);
    assert!(!pods[&4].panel_visible);
}

#[test]
fn hide_panel_resets_state() {
    let mut pods: Runtimes = HashMap::new();
    let mut r = visible(true);
    r.mode = PanelMode::Conflict;
    r.pending_drop = vec!["a".into()];
    r.panel_height = 300;
    pods.insert(9, r);
    hide_panel(&mut pods, 9);
    let r = &pods[&9];
    assert!(!r.panel_visible && !r.panel_pinned);
    assert_eq!(r.mode, PanelMode::List);
    assert!(r.pending_drop.is_empty());
    assert_eq!(r.panel_height, 300);
    hide_panel(&mut pods, 10);
    assert!(!pods.contains_key(&10));
}

#[test]
fn toggle_and_pin_decisions() {
    let mut pods: Runtimes = HashMap::new();
    assert_eq!(toggle_panel(&pods, 1), PanelToggle::Show);
    pods.insert(1, visible(false));
    assert_eq!(toggle_panel(&pods, 1), PanelToggle::Pin);
    set_pinned(&mut pods, 1, true);
    assert_eq!(toggle_panel(&pods, 1), PanelToggle::Hide);
    assert!(!pin_needs_show(&pods, 1, true));
    assert!(pin_needs_show(&pods, 2, true));
    assert!(!pin_needs_show(&pods, 2, false));
    set_dragging_out(&mut pods, 1, true);
    assert!(pods[&1].dragging_out);
}

#[test]
fn presence_and_watchdog() {
    let mut pods: Runtimes = HashMap::new();
    pods.insert(1, visible(false));
    pods.insert(2, visible(false));
    let hidden = report_presence(&mut pods, 2, "bar", true, 1000);
    assert_eq!(hidden, vec![1]);
    assert!(pods[&2].bar_inside);
    assert_eq!(pods[&2].last_change_ms, Some(1000));
    let none = report_presence(&mut pods, 2, "bar", false, 1100);
    assert!(none.is_empty());
    assert!(watchdog_sweep(&mut pods, 1420).is_empty());
    assert_eq!(watchdog_sweep(&mut pods, 1421), vec![2]);
    assert!(!pods[&2].panel_visible);
    report_presence(&mut pods, 5, "panel", true, 7);
    assert!(pods[&5].panel_inside && !pods[&5].bar_inside);
}

#[test]
fn mode_drop_size_material() {
    let mut pods: Runtimes = HashMap::new();
    pods.insert(1, visible(false));
    hold_pending_drop(&mut pods, 1, vec!["C:\\x".into()]);
    let (mode, paths) = panel_mode_payload(&pods, 1);
    assert_eq!(mode, PanelMode::Ask);
    assert_eq!(paths, vec!["C:\\x".to_string()]);
    set_panel_mode(&mut pods, 1, "conflict");
    assert_eq!(pods[&1].pending_drop.len(), 1);
    set_panel_mode(&mut pods, 1, "whatever");
    assert_eq!(pods[&1].mode, PanelMode::List);
    assert!(pods[&1].pending_drop.is_empty());
    assert_eq!(panel_mode_payload(&pods, 8).0, PanelMode::List);
    assert_eq!(layout_panel_height(&pods, 1), 420);
    assert!(set_panel_size(&mut pods, 1, 50));
    assert_eq!(pods[&1].panel_height, 160);
    assert!(!set_panel_size(&mut pods, 1, 100));
    assert!(set_panel_size(&mut pods, 1, 5000));
    assert_eq!(layout_panel_height(&pods, 1), 900);
    assert!(apply_material_once(&mut pods, 1, "acrylic"));
    assert!(!apply_material_once(&mut pods, 1, "acrylic"));
    assert!(apply_material_once(&mut pods, 1, "plain"));
    assert!(!apply_material_once(&mut pods, 3, "plain"));
}

#[test]
fn dismiss_returns_each_once() {
    let mut pods: Runtimes = HashMap::new();
    for id in 0..5u64 {
        pods.insert(id, visible(id == 3));
    }
    let mut ids = dismiss_other_panels(&mut pods, 0);
    ids.sort();
    assert_eq!(ids, vec![1, 2, 4]);
    assert!(pods[&0].panel_visible && pods[&3].panel_visible);
}

fn mon() -> Rect {
    Rect { x: 0, y: 0, w: 1920, h: 1080 }
}

#[test]
fn bar_geometry_edges() {
    let m = mon();
    assert_eq!(bar_geometry(&m, "left", 960, 540, false), Rect { x: 0, y: 445, w: 44, h: 190 });
    assert_eq!(bar_geometry(&m, "right", 960, 540, false), Rect { x: 1876, y: 445, w: 44, h: 190 });
    assert_eq!(bar_geometry(&m, "right", 960, 540, true), Rect { x: 1858, y: 445, w: 62, h: 190 });
    assert_eq!(bar_geometry(&m, "top", 960, 540, false), Rect { x: 865, y: 0, w: 190, h: 44 });
    assert_eq!(bar_geometry(&m, "bottom", 1920, 540, false), Rect { x: 1730, y: 1036, w: 190, h: 44 });
    assert_eq!(bar_geometry(&m, "left", 960, 0, false), Rect { x: 0, y: 0, w: 44, h: 190 });
    assert_eq!(bar_geometry(&m, "odd", 960, 540, false), Rect { x: 0, y: 518, w: 190, h: 44 });
}

#[test]
fn panel_placement() {
    let m = mon();
    let bar = bar_geometry(&m, "left", 960, 540, false);
    let p = place_panel(&m, &bar, "left", 380, 420);
    assert_eq!((p.x, p.y, p.w, p.h), (54, 330, 380, 420));
    let rbar = bar_geometry(&m, "right", 960, 1080, false);
    let q = place_panel(&m, &rbar, "right", 380, 100);
    assert_eq!((q.x, q.y, q.w, q.h), (1486, 935, 380, 120));
    let tbar = bar_geometry(&m, "top", 0, 0, false);
    let t = place_panel(&m, &tbar, "top", 380, 420);
    assert_eq!((t.x, t.y), (8, 54));
}

#[test]
fn monitors() {
    let ms = vec![
        MonitorInfo { name: Some("A".into()), rect: Rect { x: 0, y: 0, w: 10, h: 10 } },
        MonitorInfo { name: None, rect: Rect { x: 10, y: 0, w: 10, h: 10 } },
        MonitorInfo { name: Some("A".into()), rect: Rect { x: 20, y: 0, w: 10, h: 10 } },
    ];
    let primary = Some(Rect { x: 99, y: 0, w: 1, h: 1 });
    assert_eq!(select_monitor(&ms, "A", primary).unwrap().x, 0);
    assert_eq!(select_monitor(&ms, "B", primary).unwrap().x, 99);
    assert_eq!(select_monitor(&ms, "", primary).unwrap().x, 99);
    assert!(select_monitor(&ms, "B", None).is_none());
    let names = vec![Some("A".to_string()), None, Some("C".to_string())];
    let list = list_monitors(&names, &Some(Some("C".to_string())));
    assert_eq!(list[0].label, "显示器 1");
    assert_eq!(list[1].label, "显示器 2");
    assert_eq!(list[1].name, "");
    assert_eq!(list[2].label, "主显示器");
    assert!(list[2].primary && !list[0].primary);
    let unnamed = list_monitors(&names, &Some(None));
    assert!(unnamed[1].primary);
    assert!(list_monitors(&names, &None).iter().all(|m| !m.primary));
}

fn pod(id: u64, enabled: bool) -> Pod {
    let mut p = Pod::default();
    p.id = id;
    p.enabled = enabled;
    p
}

#[test]
fn window_labels_and_sync() {
    assert_eq!(bar_label(12), "pod_12");
    assert_eq!(panel_label(12), "pod_12_panel");
    assert_eq!(pod_id_from_label("pod_12"), Some(12));
    assert_eq!(pod_id_from_label("pod_12_panel"), Some(12));
    assert_eq!(pod_id_from_label("settings"), None);
    assert_eq!(pod_id_from_label("pod_x"), None);
    let labels: Vec<String> = vec!["pod_1".into(), "pod_1_panel".into(), "pod_2".into(), "settings".into()];
    let pods = vec![pod(2, true), pod(1, false)];
    assert_eq!(pods_to_destroy(&labels, &pods), vec![1, 1]);
    assert_eq!(enabled_pod_ids(&pods), vec![2]);
    let mut s = Settings::default();
    assert!(!should_reveal_bars(&s));
    s.first_run_done = true;
    assert!(!should_reveal_bars(&s));
    s.pods.push(pod(2, true));
    assert!(should_reveal_bars(&s));
}

#[test]
fn unknown_pod_panel_is_not_left_up() {
    let mut pods: Runtimes = HashMap::new();
    pods.insert(1, visible(false));
    let (others, proceed) = show_known_panel(&mut pods, 7, false);
    assert_eq!(others, vec![1]);
    assert!(!proceed);
    assert!(!pods[&7].panel_visible);
    assert!(!pods[&1].panel_visible);
    let (_, proceed) = show_known_panel(&mut pods, 8, true);
    assert!(proceed);
    assert!(pods[&8].panel_visible);
}
