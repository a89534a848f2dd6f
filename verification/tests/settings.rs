use floepod::hotkeys::collect_into_first_pod;
use floepod::json::{JsonNumber, JsonObject, JsonValue, NumRepr};
use floepod::settings::{
    apply_pod_patch, delete_pod, find_pod, pod_by_id, hotkeys_changed, load, rollback_hotkeys,
    merge_persist, next_pod_id, pod_from_config, upsert_pod, Hotkeys, Pod, PodNumbers, Settings,
    DEFAULT_OFFSET_BITS, DEFAULT_OPACITY_BITS,
};

fn to_value(v: &serde_json::Value) -> JsonValue {
    match v {
        serde_json::Value::Null => JsonValue::Null,
        serde_json::Value::Bool(b) => JsonValue::Bool(*b),
        serde_json::Value::Number(n) => {
            let repr = if let Some(u) = n.as_u64() {
                NumRepr::PosInt(u)
            } else if let Some(i) = n.as_i64() {
                NumRepr::NegInt(i)
            } else {
                NumRepr::Float
            };
            JsonValue::Number(JsonNumber { repr, float_bits: n.as_f64().unwrap_or(0.0).to_bits() })
        }
        serde_json::Value::String(s) => JsonValue::Str(s.clone()),
        other => JsonValue::Nested(other.to_string()),
    }
}

fn object(text: &str) -> JsonObject {
    let v: serde_json::Value = serde_json::from_str(text).unwrap();
    let mut o = JsonObject::new();
    for (k, x) in v.as_object().unwrap() {
        o.insert(k.clone(), to_value(x));
    }
    o
}

/// The stored settings as the app decodes them: the scalar fields that are
/// present, the defaults for the rest, and the pods array when it is one.
fn decode(o: &JsonObject) -> Settings {
    let mut s = Settings::default();
    if let Some(t) = o.get_str("theme") {
        s.theme = t.clone();
    }
    if let Some(b) = o.get_bool("firstRunDone") {
        s.first_run_done = b;
    }
    if let Some(b) = o.get_bool("autostart") {
        s.autostart = b;
    }
    if let Some(JsonValue::Nested(text)) = o.get("pods") {
        let arr: serde_json::Value = serde_json::from_str(text).unwrap();
        for p in arr.as_array().unwrap() {
            let mut pod = Pod::default();
            pod.id = p.get("id").and_then(|x| x.as_u64()).unwrap_or(0);
            s.pods.push(pod);
        }
    }
    s
}

fn pod(id: u64) -> Pod {
    Pod {
        id,
        name: "A".into(),
        edge: "left".into(),
        monitor: String::new(),
        offset_bits: 0.5f64.to_bits(),
        staging_folder: "C:\\a".into(),
        opacity_bits: 0.85f64.to_bits(),
        material: "acrylic".into(),
        panel_width: 380,
        hover_delay_ms: 120,
        drop_action: "ask".into(),
        enabled: true,
    }
}

#[test]
fn legacy_settings_migrates_to_pod() {
    let raw = object(r#"{"stagingFolder":"D:\\暂存","edge":"right","firstRunDone":true}"#);
    let stored = decode(&raw);
    let s = load(Some((stored, raw)), "DATA", "0.4.0");
    assert!(s.first_run_done);
    assert_eq!(s.pods.len(), 1);
    assert_eq!(s.pods[0].staging_folder, "D:\\暂存");
    assert_eq!(s.pods[0].edge, "right");
    assert_eq!(s.pods[0].id, 1);
}

#[test]
fn legacy_migration_defaults_and_bad_edge() {
    let raw = object(r#"{"stagingFolder":"E:\\x","edge":"middle","opacity":1,"panelWidth":4294967697}"#);
    let s = load(Some((decode(&raw), raw)), "D", "v");
    let p = &s.pods[0];
    assert_eq!(p.name, "我的匣");
    assert_eq!(p.edge, "left");
    assert_eq!(p.opacity_bits, 1.0f64.to_bits());
    assert_eq!(p.panel_width, 401);
    assert_eq!(p.hover_delay_ms, 120);
    assert_eq!(p.material, "acrylic");
    assert_eq!(p.drop_action, "ask");
    assert_eq!(p.offset_bits, DEFAULT_OFFSET_BITS);
    let empty = object(r#"{"stagingFolder":""}"#);
    assert!(load(Some((decode(&empty), empty)), "D", "v").pods.is_empty());
}

#[test]
fn load_without_document_gives_defaults() {
    let s = load(None, "DATA", "0.4.0");
    assert_eq!(s.theme, "system");
    assert_eq!(s.version, "0.4.0");
    assert_eq!(s.data_dir, "DATA");
    assert_eq!(s.hotkeys.toggle_bar, "Alt+Shift+F");
    assert_eq!(s.hotkeys.collect_clipboard, "Alt+Shift+S");
    assert_eq!(s.hotkeys.open_panel, "Alt+Shift+P");
    assert!(s.pods.is_empty());
    assert!(!s.first_run_done);
}

#[test]
fn merge_ignores_pods_and_version() {
    let mut stored = object(r#"{"theme":"system","pods":[]}"#);
    let patch = object(r#"{"theme":"dark","pods":[{"id":99}],"version":"9.9"}"#);
    let pods = decode(&stored).pods;
    merge_persist(&mut stored, &patch, &pods);
    let s = load(Some((decode(&stored), stored)), "DATA", "0.4.0");
    assert_eq!(s.theme, "dark");
    assert!(s.pods.is_empty());
    assert_eq!(s.version, "0.4.0");
}

#[test]
fn merge_never_migrates_a_pod() {
    let mut stored = object("{}");
    let before = load(Some((decode(&stored), object("{}"))), "DATA", "0.4.0");
    let patch = object(r#"{"stagingFolder":"D:\\x","edge":"right","theme":"dark"}"#);
    let pods = decode(&stored).pods;
    merge_persist(&mut stored, &patch, &pods);
    assert!(stored.get("stagingFolder").is_none());
    assert!(stored.get("edge").is_none());
    let after = load(Some((decode(&stored), stored)), "DATA", "0.4.0");
    assert_eq!(after.theme, "dark");
    assert_eq!(after.pods.len(), before.pods.len());
    assert!(after.pods.is_empty());
}

#[test]
fn merge_writes_legacy_keys_when_pods_exist() {
    let mut stored = object(r#"{"pods":[{"id":3}],"edge":"left"}"#);
    let pods = decode(&stored).pods;
    let before = load(Some((decode(&stored), object(r#"{"pods":[{"id":3}],"edge":"left"}"#))), "DATA", "0.4.0");
    let patch = object(r#"{"edge":"right","stagingFolder":"D:\\y"}"#);
    merge_persist(&mut stored, &patch, &pods);
    assert_eq!(stored.get_str("edge").map(|s| s.as_str()), Some("right"));
    assert_eq!(stored.get_str("stagingFolder").map(|s| s.as_str()), Some("D:\\y"));
    let after = load(Some((decode(&stored), stored)), "DATA", "0.4.0");
    assert_eq!(after.pods.len(), before.pods.len());
    assert_eq!(after.pods[0].id, 3);
}

#[test]
fn merge_twice_is_merge_once() {
    let mut once = object(r#"{"theme":"system","autostart":false}"#);
    let patch = object(r#"{"autostart":true,"dataDir":"X"}"#);
    merge_persist(&mut once, &patch, &vec![]);
    assert_eq!(once.get_bool("autostart"), Some(true));
    assert!(once.get("dataDir").is_none());
    let len = once.len();
    merge_persist(&mut once, &patch, &vec![]);
    assert_eq!(once.len(), len);
    assert_eq!(once.get_str("theme").map(|s| s.as_str()), Some("system"));
}

#[test]
fn pod_upsert_delete() {
    let mut s = Settings::default();
    upsert_pod(&mut s, &pod(1));
    assert_eq!(s.pods.len(), 1);
    delete_pod(&mut s, 1);
    assert!(s.pods.is_empty());
}

#[test]
fn upsert_replaces_and_next_id_is_fresh() {
    let mut s = Settings::default();
    assert_eq!(next_pod_id(&s), 1);
    upsert_pod(&mut s, &pod(4));
    upsert_pod(&mut s, &pod(2));
    assert_eq!(next_pod_id(&s), 5);
    let mut renamed = pod(4);
    renamed.name = "B".into();
    upsert_pod(&mut s, &renamed);
    assert_eq!(s.pods.len(), 2);
    assert_eq!(find_pod(&s.pods, 4).unwrap().name, "B");
    assert_eq!(find_pod(&s.pods, 2).unwrap().name, "A");
    delete_pod(&mut s, 4);
    assert!(find_pod(&s.pods, 4).is_none());
    assert!(find_pod(&s.pods, 2).is_some());
}

#[test]
fn pod_defaults() {
    let p = Pod::default();
    assert_eq!(p.name, "新匣");
    assert_eq!(p.edge, "left");
    assert_eq!(f64::from_bits(p.offset_bits), 0.5);
    assert_eq!(f64::from_bits(p.opacity_bits), 0.85);
    assert_eq!(p.opacity_bits, DEFAULT_OPACITY_BITS);
    assert_eq!(p.panel_width, 380);
    assert!(p.enabled);
    assert!(p.is_vertical());
    let mut q = Pod::default();
    q.edge = "top".into();
    assert!(!q.is_vertical());
}

#[test]
fn pod_from_config_accepts_numeric_strings() {
    let cfg = object(
        r#"{"name":"我的匣","edge":"left","stagingFolder":"D:\\暂存","opacity":"0.85","panelWidth":"380"}"#,
    );
    // The fractional readings of the fields, as the app computes them.
    let nums = PodNumbers {
        offset_bits: 0.5f64.to_bits(),
        opacity_bits: "0.85".trim().parse::<f64>().unwrap().to_bits(),
        panel_width_fallback: "380".trim().parse::<f64>().unwrap() as u64,
        hover_delay_fallback: 120,
    };
    let pod = pod_from_config(&cfg, &nums);
    assert_eq!(pod.name, "我的匣");
    assert_eq!(f64::from_bits(pod.opacity_bits), 0.85);
    assert_eq!(pod.panel_width, 380);
    assert!(pod.enabled);
}

#[test]
fn pod_from_config_integer_fields() {
    let cfg = object(r#"{"panelWidth":420,"enabled":false}"#);
    let nums = PodNumbers { offset_bits: 1, opacity_bits: 2, panel_width_fallback: 7, hover_delay_fallback: 9 };
    let pod = pod_from_config(&cfg, &nums);
    assert_eq!(pod.panel_width, 420);
    assert_eq!(pod.hover_delay_ms, 120);
    assert!(!pod.enabled);
    assert_eq!(pod.name, "新匣");
    assert_eq!(pod.edge, "left");
    assert_eq!(pod.material, "acrylic");
    assert_eq!(pod.drop_action, "ask");
    assert_eq!(pod.monitor, "");
    assert_eq!(pod.staging_folder, "");
    assert_eq!(pod.id, 0);
}

#[test]
fn pod_patch_fields() {
    let mut p = pod(3);
    let patch = object(r#"{"name":"New","panelWidth":" 1000 ","enabled":false,"edge":5,"stagingFolder":"D:\\b","opacity":0.2}"#);
    let changed = apply_pod_patch(&mut p, &patch);
    assert!(changed);
    assert_eq!(p.name, "New");
    assert_eq!(p.edge, "left");
    assert_eq!(p.panel_width, 520);
    assert!(!p.enabled);
    assert_eq!(p.staging_folder, "D:\\b");
    assert_eq!(p.opacity_bits, 0.85f64.to_bits());
    let mut q = pod(3);
    let small = object(r#"{"panelWidth":12,"stagingFolder":"C:\\a"}"#);
    assert!(!apply_pod_patch(&mut q, &small));
    assert_eq!(q.panel_width, 300);
    let mut r = pod(3);
    let junk = object(r#"{"panelWidth":"abc"}"#);
    apply_pod_patch(&mut r, &junk);
    assert_eq!(r.panel_width, 380);
}

#[test]
fn hotkey_changes_and_first_enabled() {
    let a = Hotkeys::with_defaults();
    let mut b = Hotkeys::with_defaults();
    assert!(!hotkeys_changed(&a, &b));
    b.open_panel = "Ctrl+P".into();
    assert!(hotkeys_changed(&a, &b));
    let mut p1 = pod(1);
    p1.enabled = false;
    assert_eq!(collect_into_first_pod(&vec![p1, pod(2), pod(3)]), Some(2));
    assert_eq!(collect_into_first_pod(&vec![]), None);
    let mut next = Settings::default();
    next.theme = "dark".into();
    next.hotkeys = b;
    rollback_hotkeys(&mut next, &a);
    assert_eq!(next.hotkeys.open_panel, "Alt+Shift+P");
    assert_eq!(next.theme, "dark");
}

#[test]
fn pod_lookup_or_missing() {
    let mut s = Settings::default();
    let mut p = Pod::default();
    p.id = 4;
    upsert_pod(&mut s, &p);
    match pod_by_id(&s.pods, 4) {
        Ok(p) => assert_eq!(p.id, 4),
        Err(e) => panic!("{}", e),
    }
    match pod_by_id(&s.pods, 5) {
        Err(e) => assert_eq!(e, "匣不存在"),
        Ok(_) => panic!("pod 5 should be missing"),
    }
}

#[test]
fn numeric_strings_read_like_numbers() {
    let nums = PodNumbers { offset_bits: 1, opacity_bits: 2, panel_width_fallback: 7, hover_delay_fallback: 9 };
    let a = pod_from_config(&object(r#"{"panelWidth":420,"hoverDelayMs":150}"#), &nums);
    let b = pod_from_config(&object(r#"{"panelWidth":" 420 ","hoverDelayMs":"+150"}"#), &nums);
    assert_eq!(a.panel_width, b.panel_width);
    assert_eq!(a.hover_delay_ms, b.hover_delay_ms);
    assert_eq!(b.panel_width, 420);
    let c = pod_from_config(&object(r#"{"panelWidth":"4.5e2"}"#), &nums);
    assert_eq!(c.panel_width, 7);
}
