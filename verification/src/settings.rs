//! Application settings: hotkeys, the list of pods and the scalar preferences,
//! their defaults, the legacy migration, patch merging and pod CRUD.

use vstd::prelude::*;

use crate::json::{JsonObject, JsonValue, keys_unique, lookup};
use crate::text::{
    chars_of, parse_u64_chars, parse_u64_spec, str_eq, to_owned_string, trim_chars, trim_spec,
};

verus! {

/// The storage key of the settings document.
pub const KEY: &'static str = "app";

/// Bits of the `f64` value 0.5 (a pod's default position along its edge).
pub const DEFAULT_OFFSET_BITS: u64 = 0x3FE0_0000_0000_0000;

/// Bits of the `f64` value 0.85 (a pod's default opacity).
pub const DEFAULT_OPACITY_BITS: u64 = 0x3FEB_3333_3333_3333;

/* ---------- hotkeys ---------- */

pub struct Hotkeys {
    pub toggle_bar: String,
    pub collect_clipboard: String,
    pub open_panel: String,
}

pub struct HotkeysView {
    pub toggle_bar: Seq<char>,
    pub collect_clipboard: Seq<char>,
    pub open_panel: Seq<char>,
}

impl View for Hotkeys {
    type V = HotkeysView;

    open spec fn view(&self) -> HotkeysView {
        HotkeysView {
            toggle_bar: self.toggle_bar@,
            collect_clipboard: self.collect_clipboard@,
            open_panel: self.open_panel@,
        }
    }
}

pub open spec fn default_hotkeys_view() -> HotkeysView {
    HotkeysView {
        toggle_bar: "Alt+Shift+F"@,
        collect_clipboard: "Alt+Shift+S"@,
        open_panel: "Alt+Shift+P"@,
    }
}

fn d_toggle_bar() -> (r: String)
    ensures
        r@ == "Alt+Shift+F"@,
{
    to_owned_string("Alt+Shift+F")
}

fn d_collect_clipboard() -> (r: String)
    ensures
        r@ == "Alt+Shift+S"@,
{
    to_owned_string("Alt+Shift+S")
}

fn d_open_panel() -> (r: String)
    ensures
        r@ == "Alt+Shift+P"@,
{
    to_owned_string("Alt+Shift+P")
}

impl Hotkeys {
    /// The default shortcuts.
    pub fn with_defaults() -> (r: Self)
        ensures
            r@ == default_hotkeys_view(),
    {
        Hotkeys {
            toggle_bar: d_toggle_bar(),
            collect_clipboard: d_collect_clipboard(),
            open_panel: d_open_panel(),
        }
    }

    pub fn copy(&self) -> (r: Self)
        ensures
            r == *self,
    {
        Hotkeys {
            toggle_bar: self.toggle_bar.clone(),
            collect_clipboard: self.collect_clipboard.clone(),
            open_panel: self.open_panel.clone(),
        }
    }
}

/// Whether any of the three shortcuts differs (a change must be re-registered).
pub fn hotkeys_changed(prev: &Hotkeys, next: &Hotkeys) -> (r: bool)
    ensures
        r == (prev@ != next@),
{
    let changed = !(next.toggle_bar == prev.toggle_bar) || !(next.collect_clipboard
        == prev.collect_clipboard) || !(next.open_panel == prev.open_panel);
    if !changed {
        assert(prev@ == next@);
    }
    changed
}

/// A rejected shortcut change is rolled back: the new settings keep the previous
/// shortcuts (`save_settings`).
pub fn rollback_hotkeys(next: &mut Settings, prev: &Hotkeys)
    ensures
        final(next).hotkeys == *prev,
        final(next).theme == old(next).theme,
        final(next).first_run_done == old(next).first_run_done,
        final(next).autostart == old(next).autostart,
        final(next).pods == old(next).pods,
        final(next).version == old(next).version,
        final(next).data_dir == old(next).data_dir,
{
    next.hotkeys = prev.copy();
}

/* ---------- pods ---------- */

/// A pod: a staging point docked on a screen edge, with its own folder and look.
/// The two fractional settings are held as the bits of their `f64` values.
pub struct Pod {
    pub id: u64,
    pub name: String,
    /// top / right / bottom / left
    pub edge: String,
    /// Monitor name; empty means the primary monitor.
    pub monitor: String,
    /// Position along the edge, 0.0 - 1.0 (bits of the `f64`).
    pub offset_bits: u64,
    pub staging_folder: String,
    /// Window opacity (bits of the `f64`).
    pub opacity_bits: u64,
    pub material: String,
    pub panel_width: u32,
    pub hover_delay_ms: u64,
    pub drop_action: String,
    pub enabled: bool,
}

pub struct PodView {
    pub id: u64,
    pub name: Seq<char>,
    pub edge: Seq<char>,
    pub monitor: Seq<char>,
    pub offset_bits: u64,
    pub staging_folder: Seq<char>,
    pub opacity_bits: u64,
    pub material: Seq<char>,
    pub panel_width: u32,
    pub hover_delay_ms: u64,
    pub drop_action: Seq<char>,
    pub enabled: bool,
}

impl View for Pod {
    type V = PodView;

    open spec fn view(&self) -> PodView {
        PodView {
            id: self.id,
            name: self.name@,
            edge: self.edge@,
            monitor: self.monitor@,
            offset_bits: self.offset_bits,
            staging_folder: self.staging_folder@,
            opacity_bits: self.opacity_bits,
            material: self.material@,
            panel_width: self.panel_width,
            hover_delay_ms: self.hover_delay_ms,
            drop_action: self.drop_action@,
            enabled: self.enabled,
        }
    }
}

pub open spec fn default_pod_view() -> PodView {
    PodView {
        id: 0,
        name: "新匣"@,
        edge: "left"@,
        monitor: Seq::empty(),
        offset_bits: DEFAULT_OFFSET_BITS,
        staging_folder: Seq::empty(),
        opacity_bits: DEFAULT_OPACITY_BITS,
        material: "acrylic"@,
        panel_width: 380,
        hover_delay_ms: 120,
        drop_action: "ask"@,
        enabled: true,
    }
}

/// Whether an edge name lays the bar out vertically (left and right edges).
pub open spec fn is_vertical_edge(edge: Seq<char>) -> bool {
    edge == "left"@ || edge == "right"@
}

impl Pod {
    pub fn is_vertical(&self) -> (r: bool)
        ensures
            r == is_vertical_edge(self.edge@),
    {
        str_eq(self.edge.as_str(), "left") || str_eq(self.edge.as_str(), "right")
    }

    pub fn copy(&self) -> (r: Self)
        ensures
            r == *self,
    {
        Pod {
            id: self.id,
            name: self.name.clone(),
            edge: self.edge.clone(),
            monitor: self.monitor.clone(),
            offset_bits: self.offset_bits,
            staging_folder: self.staging_folder.clone(),
            opacity_bits: self.opacity_bits,
            material: self.material.clone(),
            panel_width: self.panel_width,
            hover_delay_ms: self.hover_delay_ms,
            drop_action: self.drop_action.clone(),
            enabled: self.enabled,
        }
    }
}

impl Default for Pod {
    fn default() -> (r: Self)
        ensures
            r@ == default_pod_view(),
    {
        Pod {
            id: 0,
            name: to_owned_string("新匣"),
            edge: to_owned_string("left"),
            monitor: String::new(),
            offset_bits: DEFAULT_OFFSET_BITS,
            staging_folder: String::new(),
            opacity_bits: DEFAULT_OPACITY_BITS,
            material: to_owned_string("acrylic"),
            panel_width: 380,
            hover_delay_ms: 120,
            drop_action: to_owned_string("ask"),
            enabled: true,
        }
    }
}

/* ---------- settings ---------- */

pub struct Settings {
    pub theme: String,
    pub first_run_done: bool,
    pub autostart: bool,
    pub hotkeys: Hotkeys,
    pub pods: Vec<Pod>,
    /// Read-only: injected on every load, never stored.
    pub version: String,
    pub data_dir: String,
}

/// Everything but the two injected fields agrees.
pub open spec fn same_content(a: Settings, b: Settings) -> bool {
    &&& a.theme == b.theme
    &&& a.first_run_done == b.first_run_done
    &&& a.autostart == b.autostart
    &&& a.hotkeys == b.hotkeys
    &&& a.pods@ == b.pods@
}

/// The stored content of a fresh installation.
pub open spec fn default_content(s: Settings) -> bool {
    &&& s.theme@ == "system"@
    &&& !s.first_run_done
    &&& !s.autostart
    &&& s.hotkeys@ == default_hotkeys_view()
    &&& s.pods@.len() == 0
}

fn d_theme() -> (r: String)
    ensures
        r@ == "system"@,
{
    to_owned_string("system")
}

impl Default for Settings {
    fn default() -> (r: Self)
        ensures
            default_content(r),
            r.version@ == Seq::<char>::empty(),
            r.data_dir@ == Seq::<char>::empty(),
    {
        Settings {
            theme: d_theme(),
            first_run_done: false,
            autostart: false,
            hotkeys: Hotkeys::with_defaults(),
            pods: Vec::new(),
            version: String::new(),
            data_dir: String::new(),
        }
    }
}

/* ---------- pod lists ---------- */

/// The index of the first pod with id `id`.
pub open spec fn first_index(s: Seq<Pod>, id: u64) -> Option<int>
    decreases s.len(),
{
    if s.len() == 0 {
        None
    } else {
        match first_index(s.drop_last(), id) {
            Some(i) => Some(i),
            None => if s.last().id == id {
                Some(s.len() - 1)
            } else {
                None
            },
        }
    }
}

/// The first pod with id `id`.
pub open spec fn find_pod_spec(s: Seq<Pod>, id: u64) -> Option<Pod> {
    match first_index(s, id) {
        Some(i) => Some(s[i]),
        None => None,
    }
}

/// `pod` replaces the first pod with its id, or is appended when there is none.
pub open spec fn upserted(s: Seq<Pod>, pod: Pod) -> Seq<Pod> {
    match first_index(s, pod.id) {
        Some(i) => s.update(i, pod),
        None => s.push(pod),
    }
}

/// The pods whose id is not `id`, in order.
pub open spec fn without_pod(s: Seq<Pod>, id: u64) -> Seq<Pod>
    decreases s.len(),
{
    if s.len() == 0 {
        s
    } else if s.last().id != id {
        without_pod(s.drop_last(), id).push(s.last())
    } else {
        without_pod(s.drop_last(), id)
    }
}

/// The largest pod id, 0 for no pods.
pub open spec fn max_pod_id(s: Seq<Pod>) -> u64
    decreases s.len(),
{
    if s.len() == 0 {
        0
    } else {
        let m = max_pod_id(s.drop_last());
        if s.last().id > m {
            s.last().id
        } else {
            m
        }
    }
}

pub proof fn lemma_first_index(s: Seq<Pod>, id: u64)
    ensures
        match first_index(s, id) {
            Some(i) => 0 <= i < s.len() && s[i].id == id && forall|j: int|
                0 <= j < i ==> s[j].id != id,
            None => forall|j: int| 0 <= j < s.len() ==> s[j].id != id,
        },
    decreases s.len(),
{
    if s.len() > 0 {
        lemma_first_index(s.drop_last(), id);
        assert forall|j: int| 0 <= j < s.len() - 1 implies s.drop_last()[j] == s[j] by {}
    }
}

/// The minimal index holding `id` is what `first_index` gives.
pub proof fn lemma_first_index_is(s: Seq<Pod>, id: u64, i: int)
    requires
        0 <= i < s.len(),
        s[i].id == id,
        forall|j: int| 0 <= j < i ==> s[j].id != id,
    ensures
        first_index(s, id) == Some(i),
{
    lemma_first_index(s, id);
}

pub proof fn lemma_max_pod_id(s: Seq<Pod>)
    ensures
        forall|j: int| 0 <= j < s.len() ==> s[j].id <= max_pod_id(s),
    decreases s.len(),
{
    if s.len() > 0 {
        lemma_max_pod_id(s.drop_last());
        assert forall|j: int| 0 <= j < s.len() - 1 implies s.drop_last()[j] == s[j] by {}
    }
}

fn pod_position(pods: &Vec<Pod>, id: u64) -> (r: Option<usize>)
    ensures
        match r {
            Some(i) => i < pods@.len() && first_index(pods@, id) == Some(i as int),
            None => first_index(pods@, id) is None,
        },
{
    proof {
        lemma_first_index(pods@, id);
    }
    let mut i: usize = 0;
    while i < pods.len()
        invariant
            i <= pods.len(),
            forall|j: int| 0 <= j < i ==> pods@[j].id != id,
        decreases pods.len() - i,
    {
        if pods[i].id == id {
            proof {
                lemma_first_index_is(pods@, id, i as int);
            }
            return Some(i);
        }
        i = i + 1;
    }
    None
}

/// The first pod with id `id` (`pods.find(|p| p.id == id)`).
pub fn find_pod(pods: &Vec<Pod>, id: u64) -> (r: Option<Pod>)
    ensures
        r == find_pod_spec(pods@, id),
{
    match pod_position(pods, id) {
        Some(i) => Some(pods[i].copy()),
        None => None,
    }
}

/// The pod with id `id`, or the error "匣不存在" when there is none
/// (`pod_of_conn`).
pub fn pod_by_id(pods: &Vec<Pod>, id: u64) -> (r: Result<Pod, String>)
    ensures
        match find_pod_spec(pods@, id) {
            Some(p) => r == Ok::<Pod, String>(p),
            None => r matches Err(e) && e@ == "匣不存在"@,
        },
{
    match find_pod(pods, id) {
        Some(p) => Ok(p),
        None => Err(to_owned_string("匣不存在")),
    }
}

/// One more than the largest pod id in use.
pub fn next_pod_id(s: &Settings) -> (r: u64)
    requires
        max_pod_id(s.pods@) < u64::MAX,
    ensures
        r == max_pod_id(s.pods@) + 1,
{
    let mut m: u64 = 0;
    let mut i: usize = 0;
    while i < s.pods.len()
        invariant
            i <= s.pods.len(),
            m == max_pod_id(s.pods@.take(i as int)),
        decreases s.pods.len() - i,
    {
        assert(s.pods@.take(i + 1).drop_last() =~= s.pods@.take(i as int));
        if s.pods[i].id > m {
            m = s.pods[i].id;
        }
        i = i + 1;
    }
    assert(s.pods@.take(s.pods.len() as int) =~= s.pods@);
    m + 1
}

/// Inserts `pod` or replaces the pod with the same id.
pub fn upsert_pod(s: &mut Settings, pod: &Pod)
    ensures
        final(s).pods@ == upserted(old(s).pods@, *pod),
        final(s).theme == old(s).theme,
        final(s).first_run_done == old(s).first_run_done,
        final(s).autostart == old(s).autostart,
        final(s).hotkeys == old(s).hotkeys,
        final(s).version == old(s).version,
        final(s).data_dir == old(s).data_dir,
{
    let p = pod.copy();
    match pod_position(&s.pods, pod.id) {
        Some(i) => {
            s.pods.set(i, p);
        },
        None => {
            s.pods.push(p);
        },
    }
}

/// Removes every pod with id `id`.
pub fn delete_pod(s: &mut Settings, id: u64)
    ensures
        final(s).pods@ == without_pod(old(s).pods@, id),
        final(s).theme == old(s).theme,
        final(s).first_run_done == old(s).first_run_done,
        final(s).autostart == old(s).autostart,
        final(s).hotkeys == old(s).hotkeys,
        final(s).version == old(s).version,
        final(s).data_dir == old(s).data_dir,
{
    let mut kept: Vec<Pod> = Vec::new();
    let mut i: usize = 0;
    while i < s.pods.len()
        invariant
            i <= s.pods.len(),
            s.pods@ == old(s).pods@,
            kept@ == without_pod(s.pods@.take(i as int), id),
        decreases s.pods.len() - i,
    {
        assert(s.pods@.take(i + 1).drop_last() =~= s.pods@.take(i as int));
        if s.pods[i].id != id {
            kept.push(s.pods[i].copy());
        }
        i = i + 1;
    }
    assert(s.pods@.take(s.pods.len() as int) =~= s.pods@);
    s.pods = kept;
}

/* ---------- laws of the pod list ---------- */

proof fn lemma_find_push(s: Seq<Pod>, p: Pod, id: u64)
    ensures
        find_pod_spec(s.push(p), id) == match find_pod_spec(s, id) {
            Some(q) => Some(q),
            None => if p.id == id {
                Some(p)
            } else {
                None
            },
        },
{
    assert(s.push(p).drop_last() =~= s);
    lemma_first_index(s, id);
    if let Some(i) = first_index(s, id) {
        assert(s.push(p)[i] == s[i]);
    }
}

/// After an upsert, looking the pod's id up gives that pod.
pub proof fn law_upsert_then_find(s: Seq<Pod>, pod: Pod)
    ensures
        find_pod_spec(upserted(s, pod), pod.id) == Some(pod),
{
    lemma_first_index(s, pod.id);
    match first_index(s, pod.id) {
        Some(i) => {
            let t = s.update(i, pod);
            assert forall|j: int| 0 <= j < i implies t[j].id != pod.id by {}
            lemma_first_index_is(t, pod.id, i);
        },
        None => {
            let t = s.push(pod);
            assert forall|j: int| 0 <= j < s.len() implies t[j].id != pod.id by {
                assert(t[j] == s[j]);
            }
            lemma_first_index_is(t, pod.id, s.len() as int);
        },
    }
}

/// An upsert leaves the lookup of every other id unchanged.
pub proof fn law_upsert_keeps_others(s: Seq<Pod>, pod: Pod, id: u64)
    requires
        id != pod.id,
    ensures
        find_pod_spec(upserted(s, pod), id) == find_pod_spec(s, id),
{
    lemma_first_index(s, pod.id);
    lemma_first_index(s, id);
    match first_index(s, pod.id) {
        Some(i) => {
            let t = s.update(i, pod);
            lemma_first_index(t, id);
            match first_index(s, id) {
                Some(k) => {
                    assert(k != i);
                    assert forall|j: int| 0 <= j < k implies t[j].id != id by {
                        if j != i {
                            assert(t[j] == s[j]);
                        }
                    }
                    lemma_first_index_is(t, id, k);
                },
                None => {
                    assert forall|j: int| 0 <= j < t.len() implies t[j].id != id by {
                        if j != i {
                            assert(t[j] == s[j]);
                        }
                    }
                },
            }
        },
        None => {
            lemma_find_push(s, pod, id);
        },
    }
}

/// After deleting an id, no pod has it.
pub proof fn law_delete_then_find(s: Seq<Pod>, id: u64)
    ensures
        find_pod_spec(without_pod(s, id), id) is None,
    decreases s.len(),
{
    if s.len() > 0 {
        law_delete_then_find(s.drop_last(), id);
        if s.last().id != id {
            lemma_find_push(without_pod(s.drop_last(), id), s.last(), id);
        }
    }
}

/// Deleting an id leaves the lookup of every other id unchanged.
pub proof fn law_delete_keeps_others(s: Seq<Pod>, id: u64, other: u64)
    requires
        other != id,
    ensures
        find_pod_spec(without_pod(s, id), other) == find_pod_spec(s, other),
    decreases s.len(),
{
    if s.len() > 0 {
        let d = s.drop_last();
        law_delete_keeps_others(d, id, other);
        assert(s =~= d.push(s.last()));
        lemma_find_push(d, s.last(), other);
        if s.last().id != id {
            lemma_find_push(without_pod(d, id), s.last(), other);
        }
    }
}

/// The next pod id is used by no pod, so upserting a pod with it appends.
pub proof fn law_next_id_is_fresh(s: Seq<Pod>, pod: Pod)
    requires
        max_pod_id(s) < u64::MAX,
        pod.id == max_pod_id(s) + 1,
    ensures
        find_pod_spec(s, pod.id) is None,
        upserted(s, pod) == s.push(pod),
{
    lemma_max_pod_id(s);
    lemma_first_index(s, pod.id);
}

/* ---------- loading and the legacy migration ---------- */

/// The pod that a settings document of the single-folder era describes, if any.
pub open spec fn legacy_pod_view(v: JsonObject) -> Option<PodView> {
    match v.get_str_spec("stagingFolder"@) {
        Some(folder) => if folder.len() > 0 {
            Some(
                PodView {
                    id: 1,
                    name: "我的匣"@,
                    edge: match v.get_str_spec("edge"@) {
                        Some(e) => if e == "top"@ || e == "right"@ || e == "bottom"@ || e
                            == "left"@ {
                            e
                        } else {
                            "left"@
                        },
                        None => "left"@,
                    },
                    monitor: Seq::empty(),
                    offset_bits: DEFAULT_OFFSET_BITS,
                    staging_folder: folder,
                    opacity_bits: match v.get_float_spec("opacity"@) {
                        Some(b) => b,
                        None => DEFAULT_OPACITY_BITS,
                    },
                    material: match v.get_str_spec("material"@) {
                        Some(m) => m,
                        None => "acrylic"@,
                    },
                    panel_width: (match v.get_u64_spec("panelWidth"@) {
                        Some(w) => w,
                        None => 380,
                    }) as u32,
                    hover_delay_ms: match v.get_u64_spec("hoverDelayMs"@) {
                        Some(h) => h,
                        None => 120,
                    },
                    drop_action: match v.get_str_spec("dropAction"@) {
                        Some(d) => d,
                        None => "ask"@,
                    },
                    enabled: true,
                },
            )
        } else {
            None
        },
        None => None,
    }
}

/// The pod list after the legacy migration: a document with no pods but a
/// staging folder gains exactly the pod that describes it.
pub open spec fn migrated_pods(old_pods: Seq<Pod>, v: JsonObject, new_pods: Seq<Pod>) -> bool {
    if old_pods.len() == 0 && legacy_pod_view(v) is Some {
        new_pods.len() == 1 && new_pods[0]@ == legacy_pod_view(v).unwrap()
    } else {
        new_pods == old_pods
    }
}

fn or_default_str(s: Option<&String>, d: &str) -> (r: String)
    ensures
        r@ == match s {
            Some(x) => x@,
            None => d@,
        },
{
    match s {
        Some(x) => x.clone(),
        None => to_owned_string(d),
    }
}

/// Settings of the single-folder era (0.2/0.3) become one pod, so that an
/// upgrade keeps the user's folder.
pub fn migrate_legacy(s: &mut Settings, v: &JsonObject)
    ensures
        migrated_pods(old(s).pods@, *v, final(s).pods@),
        final(s).theme == old(s).theme,
        final(s).first_run_done == old(s).first_run_done,
        final(s).autostart == old(s).autostart,
        final(s).hotkeys == old(s).hotkeys,
        final(s).version == old(s).version,
        final(s).data_dir == old(s).data_dir,
{
    if s.pods.len() != 0 {
        return;
    }
    let folder = match v.get_str("stagingFolder") {
        Some(f) => {
            if f.as_str().unicode_len() == 0 {
                return;
            }
            f.clone()
        },
        None => {
            return;
        },
    };
    let edge = match v.get_str("edge") {
        Some(e) => {
            if str_eq(e.as_str(), "top") || str_eq(e.as_str(), "right") || str_eq(
                e.as_str(),
                "bottom",
            ) || str_eq(e.as_str(), "left") {
                e.clone()
            } else {
                to_owned_string("left")
            }
        },
        None => to_owned_string("left"),
    };
    let opacity_bits = match v.get_float_bits("opacity") {
        Some(b) => b,
        None => DEFAULT_OPACITY_BITS,
    };
    let panel_width = match v.get_u64("panelWidth") {
        Some(w) => w,
        None => 380,
    };
    let hover_delay_ms = match v.get_u64("hoverDelayMs") {
        Some(h) => h,
        None => 120,
    };
    let pod = Pod {
        id: 1,
        name: to_owned_string("我的匣"),
        edge,
        monitor: String::new(),
        offset_bits: DEFAULT_OFFSET_BITS,
        staging_folder: folder,
        opacity_bits,
        material: or_default_str(v.get_str("material"), "acrylic"),
        panel_width: panel_width as u32,
        hover_delay_ms,
        drop_action: or_default_str(v.get_str("dropAction"), "ask"),
        enabled: true,
    };
    s.pods.push(pod);
    assert(s.pods@.len() == 1);
}

/// The settings as read: the stored document (already decoded, with its raw
/// fields for the migration) or the defaults, with the data directory and
/// version injected.
pub fn load(stored: Option<(Settings, JsonObject)>, data_dir: &str, version: &str) -> (r: Settings)
    ensures
        r.version@ == version@,
        r.data_dir@ == data_dir@,
        match stored {
            Some((s, v)) => {
                &&& r.theme == s.theme
                &&& r.first_run_done == s.first_run_done
                &&& r.autostart == s.autostart
                &&& r.hotkeys == s.hotkeys
                &&& migrated_pods(s.pods@, v, r.pods@)
            },
            None => default_content(r),
        },
{
    let mut s = match stored {
        Some((s0, v)) => {
            let mut s = s0;
            migrate_legacy(&mut s, &v);
            s
        },
        None => Settings::default(),
    };
    s.version = to_owned_string(version);
    s.data_dir = to_owned_string(data_dir);
    s
}

/// Migration never touches a document that already has pods, and otherwise
/// yields at most one pod, numbered 1.
pub proof fn law_migration_adds_at_most_pod_one(old_pods: Seq<Pod>, v: JsonObject, new_pods: Seq<
    Pod,
>)
    requires
        migrated_pods(old_pods, v, new_pods),
    ensures
        old_pods.len() > 0 ==> new_pods == old_pods,
        old_pods.len() == 0 ==> new_pods.len() <= 1,
        old_pods.len() == 0 && new_pods.len() == 1 ==> new_pods[0].id == 1,
{
}

/* ---------- merging a settings patch ---------- */

/// Keys of the single-folder era, which the legacy migration reads.
pub open spec fn is_legacy_key(k: Seq<char>) -> bool {
    k == "stagingFolder"@ || k == "edge"@ || k == "opacity"@ || k == "material"@ || k
        == "panelWidth"@ || k == "hoverDelayMs"@ || k == "dropAction"@
}

/// Keys a settings patch may not change: pods have their own commands, and the
/// version and data directory are injected on load.  Where the stored document
/// has no pods (`no_pods`), the legacy keys are kept too: the reload would
/// otherwise migrate a pod from them, and the pod list would change.
pub open spec fn is_protected_key(k: Seq<char>, no_pods: bool) -> bool {
    k == "version"@ || k == "dataDir"@ || k == "pods"@ || (no_pods && is_legacy_key(k))
}

fn protected_key(k: &str, no_pods: bool) -> (r: bool)
    ensures
        r == is_protected_key(k@, no_pods),
{
    str_eq(k, "version") || str_eq(k, "dataDir") || str_eq(k, "pods") || (no_pods && (str_eq(
        k,
        "stagingFolder",
    ) || str_eq(k, "edge") || str_eq(k, "opacity") || str_eq(k, "material") || str_eq(
        k,
        "panelWidth",
    ) || str_eq(k, "hoverDelayMs") || str_eq(k, "dropAction")))
}

/// The value of `k` after merging `patch` into `stored`.
pub open spec fn merged_value(stored: JsonObject, patch: JsonObject, k: Seq<char>, no_pods: bool) -> Option<
    JsonValue,
> {
    if !is_protected_key(k, no_pods) && patch.get_spec(k) is Some {
        patch.get_spec(k)
    } else {
        stored.get_spec(k)
    }
}

proof fn lemma_lookup_take_step(es: Seq<(String, JsonValue)>, i: int, k: Seq<char>)
    requires
        keys_unique(es),
        0 <= i < es.len(),
    ensures
        lookup(es.take(i + 1), k) == if es[i].0@ == k {
            Some(es[i].1)
        } else {
            lookup(es.take(i), k)
        },
{
    let t = es.take(i + 1);
    assert(t.drop_last() =~= es.take(i));
    if es[i].0@ == k {
        assert forall|j: int| 0 <= j < i implies es.take(i)[j].0@ != k by {
            assert(es.take(i)[j] == es[j]);
        }
        crate::json::lemma_lookup_none(es.take(i), k);
    }
}

/// Merges the fields of `patch` into the stored settings document, except the
/// protected keys (`merge_persist` before it writes and reloads).  `stored_pods`
/// are the pods the stored document holds, as decoded.
pub fn merge_persist(stored: &mut JsonObject, patch: &JsonObject, stored_pods: &Vec<Pod>)
    ensures
        forall|k: Seq<char>| #[trigger]
            final(stored).get_spec(k) == merged_value(
                *old(stored),
                *patch,
                k,
                stored_pods@.len() == 0,
            ),
        forall|k: Seq<char>| #[trigger]
            patch.get_spec(k) is Some && k != "version"@ && k != "dataDir"@ && k != "pods"@ && (
            stored_pods@.len() > 0 || (k != "stagingFolder"@ && k != "edge"@ && k != "opacity"@
                && k != "material"@ && k != "panelWidth"@ && k != "hoverDelayMs"@ && k
                != "dropAction"@)) ==> final(stored).get_spec(k) == patch.get_spec(k),
{
    let no_pods = stored_pods.len() == 0;
    let es = patch.entries();
    let ghost pe = patch@;
    let mut i: usize = 0;
    while i < es.len()
        invariant
            es@ == pe,
            pe == patch@,
            keys_unique(pe),
            i <= es.len(),
            no_pods == (stored_pods@.len() == 0),
            forall|k: Seq<char>| #[trigger]
                stored.get_spec(k) == if !is_protected_key(k, no_pods) && lookup(
                    pe.take(i as int),
                    k,
                ) is Some {
                    lookup(pe.take(i as int), k)
                } else {
                    old(stored).get_spec(k)
                },
        decreases es.len() - i,
    {
        let ghost before = *stored;
        let (k, v) = &es[i];
        if !protected_key(k.as_str(), no_pods) {
            stored.insert(k.clone(), v.copy());
        }
        proof {
            assert forall|q: Seq<char>| #[trigger]
                stored.get_spec(q) == if !is_protected_key(q, no_pods) && lookup(
                    pe.take(i + 1),
                    q,
                ) is Some {
                    lookup(pe.take(i + 1), q)
                } else {
                    old(stored).get_spec(q)
                } by {
                lemma_lookup_take_step(pe, i as int, q);
                assert(before.get_spec(q) == if !is_protected_key(q, no_pods) && lookup(
                    pe.take(i as int),
                    q,
                ) is Some {
                    lookup(pe.take(i as int), q)
                } else {
                    old(stored).get_spec(q)
                });
            }
        }
        i = i + 1;
    }
    assert(pe.take(es.len() as int) =~= pe);
}

/// A patch never changes the protected keys.
pub proof fn law_merge_keeps_protected(
    stored: JsonObject,
    patch: JsonObject,
    k: Seq<char>,
    no_pods: bool,
)
    requires
        is_protected_key(k, no_pods),
    ensures
        merged_value(stored, patch, k, no_pods) == stored.get_spec(k),
{
}

/// A patch is saved: every key it carries other than "version", "dataDir" and
/// "pods" (and, when the stored document has no pods, the single-folder keys
/// the migration reads) takes the patch's value.
pub proof fn law_merge_writes_patch(
    stored: JsonObject,
    patch: JsonObject,
    k: Seq<char>,
    no_pods: bool,
)
    requires
        k != "version"@,
        k != "dataDir"@,
        k != "pods"@,
        no_pods ==> k != "stagingFolder"@ && k != "edge"@ && k != "opacity"@ && k
            != "material"@ && k != "panelWidth"@ && k != "hoverDelayMs"@ && k != "dropAction"@,
        patch.get_spec(k) is Some,
    ensures
        merged_value(stored, patch, k, no_pods) == patch.get_spec(k),
{
}

/// Merging settings does not change the pod list: the stored pods are kept, and
/// the reload migrates exactly the pod it migrated before (if any): with stored
/// pods nothing is migrated, and without them no key that the migration reads
/// can be patched.
pub proof fn law_merge_keeps_pods(
    stored: JsonObject,
    patch: JsonObject,
    merged: JsonObject,
    pods: Seq<Pod>,
    before: Seq<Pod>,
    after: Seq<Pod>,
)
    requires
        forall|k: Seq<char>| #[trigger]
            merged.get_spec(k) == merged_value(stored, patch, k, pods.len() == 0),
        migrated_pods(pods, stored, before),
        migrated_pods(pods, merged, after),
    ensures
        merged.get_spec("pods"@) == stored.get_spec("pods"@),
        after.len() == before.len(),
        forall|i: int| 0 <= i < after.len() ==> #[trigger] after[i]@ == before[i]@,
{
    assert(merged.get_spec("pods"@) == merged_value(stored, patch, "pods"@, pods.len() == 0));
    if pods.len() == 0 {
        assert(merged.get_spec("stagingFolder"@) == stored.get_spec("stagingFolder"@));
        assert(merged.get_spec("edge"@) == stored.get_spec("edge"@));
        assert(merged.get_spec("opacity"@) == stored.get_spec("opacity"@));
        assert(merged.get_spec("material"@) == stored.get_spec("material"@));
        assert(merged.get_spec("panelWidth"@) == stored.get_spec("panelWidth"@));
        assert(merged.get_spec("hoverDelayMs"@) == stored.get_spec("hoverDelayMs"@));
        assert(merged.get_spec("dropAction"@) == stored.get_spec("dropAction"@));
        assert(legacy_pod_view(merged) == legacy_pod_view(stored));
    }
}

/// Merging the same patch twice is the same as merging it once.
pub proof fn law_merge_idempotent(
    stored: JsonObject,
    patch: JsonObject,
    once: JsonObject,
    twice: JsonObject,
    no_pods: bool,
)
    requires
        forall|k: Seq<char>| #[trigger] once.get_spec(k) == merged_value(stored, patch, k, no_pods),
        forall|k: Seq<char>| #[trigger] twice.get_spec(k) == merged_value(once, patch, k, no_pods),
    ensures
        forall|k: Seq<char>| #[trigger] twice.get_spec(k) == once.get_spec(k),
{
    assert forall|k: Seq<char>| #[trigger] twice.get_spec(k) == once.get_spec(k) by {
        assert(once.get_spec(k) == merged_value(stored, patch, k, no_pods));
        assert(twice.get_spec(k) == merged_value(once, patch, k, no_pods));
    }
}

/* ---------- pod patches and new pods ---------- */

/// The integer a patch value gives for an integer field: a JSON integer, or a
/// string whose trimmed text parses as one, or else the current value.
pub open spec fn patch_u64(v: JsonValue, d: u32) -> u64 {
    match v.u64_view() {
        Some(n) => n,
        None => match v.str_view() {
            Some(s) => match parse_u64_spec(trim_spec(s)) {
                Some(n) => n,
                None => d as u64,
            },
            None => d as u64,
        },
    }
}

pub open spec fn clamp_u32(x: u32, lo: u32, hi: u32) -> u32 {
    if x < lo {
        lo
    } else if x > hi {
        hi
    } else {
        x
    }
}

/// A string field after a patch: replaced when the patch holds a string for it.
pub open spec fn patched_str(old_v: Seq<char>, patch: JsonObject, k: Seq<char>) -> Seq<char> {
    match patch.get_str_spec(k) {
        Some(s) => s,
        None => old_v,
    }
}

fn patch_u64_value(v: &JsonValue, d: u32) -> (r: u64)
    ensures
        r == patch_u64(*v, d),
{
    match v.as_u64() {
        Some(n) => n,
        None => match v.as_str() {
            Some(s) => {
                let cs = chars_of(s.as_str());
                let t = trim_chars(&cs);
                match parse_u64_chars(&t) {
                    Some(n) => n,
                    None => d as u64,
                }
            },
            None => d as u64,
        },
    }
}

fn patch_str_field(field: &mut String, patch: &JsonObject, key: &str)
    ensures
        final(field)@ == patched_str(old(field)@, *patch, key@),
{
    if let Some(s) = patch.get_str(key) {
        *field = s.clone();
    }
}

/// Applies the string, boolean and integer fields of a pod patch (`update_pod`):
/// each string field takes a string value, `enabled` a boolean, and `panelWidth`
/// an integer (or numeric string) clamped to 300..=520.  Returns whether the
/// staging folder changed.  The fractional fields (`offset`, `opacity`,
/// `hoverDelayMs`) are left to the caller, which handles floating point.
pub fn apply_pod_patch(pod: &mut Pod, patch: &JsonObject) -> (folder_changed: bool)
    ensures
        final(pod).id == old(pod).id,
        final(pod).name@ == patched_str(old(pod).name@, *patch, "name"@),
        final(pod).edge@ == patched_str(old(pod).edge@, *patch, "edge"@),
        final(pod).monitor@ == patched_str(old(pod).monitor@, *patch, "monitor"@),
        final(pod).staging_folder@ == patched_str(
            old(pod).staging_folder@,
            *patch,
            "stagingFolder"@,
        ),
        final(pod).material@ == patched_str(old(pod).material@, *patch, "material"@),
        final(pod).drop_action@ == patched_str(old(pod).drop_action@, *patch, "dropAction"@),
        final(pod).enabled == match patch.get_bool_spec("enabled"@) {
            Some(b) => b,
            None => old(pod).enabled,
        },
        final(pod).panel_width == match patch.get_spec("panelWidth"@) {
            Some(v) => clamp_u32(patch_u64(v, old(pod).panel_width) as u32, 300, 520),
            None => old(pod).panel_width,
        },
        final(pod).offset_bits == old(pod).offset_bits,
        final(pod).opacity_bits == old(pod).opacity_bits,
        final(pod).hover_delay_ms == old(pod).hover_delay_ms,
        folder_changed == (final(pod).staging_folder@ != old(pod).staging_folder@),
{
    let old_folder = pod.staging_folder.clone();
    patch_str_field(&mut pod.name, patch, "name");
    patch_str_field(&mut pod.edge, patch, "edge");
    patch_str_field(&mut pod.monitor, patch, "monitor");
    patch_str_field(&mut pod.staging_folder, patch, "stagingFolder");
    patch_str_field(&mut pod.material, patch, "material");
    patch_str_field(&mut pod.drop_action, patch, "dropAction");
    if let Some(b) = patch.get_bool("enabled") {
        pod.enabled = b;
    }
    if let Some(v) = patch.get("panelWidth") {
        let w = patch_u64_value(v, pod.panel_width) as u32;
        pod.panel_width = if w < 300 {
            300
        } else if w > 520 {
            520
        } else {
            w
        };
    }
    !(old_folder == pod.staging_folder)
}

/// The numeric fields of a new pod that the caller computes with floating point:
/// the `f64` bits of the two fractions, and the value a non-integer entry gives
/// for each integer field.
pub struct PodNumbers {
    pub offset_bits: u64,
    pub opacity_bits: u64,
    pub panel_width_fallback: u64,
    pub hover_delay_fallback: u64,
}

/// The largest integer that an `f64` holds exactly, so that a decimal string no
/// larger reads as the same integer through `f64` as through `u64`.
pub const F64_EXACT_INT: u64 = 9007199254740992;

/// The integer a string gives for an integer field: its trimmed text read as an
/// integer, where that fits an `f64` exactly.
pub open spec fn int_string(s: Seq<char>) -> Option<u64> {
    match parse_u64_spec(trim_spec(s)) {
        Some(n) => if n <= F64_EXACT_INT {
            Some(n)
        } else {
            None
        },
        None => None,
    }
}

/// An integer field of a new pod: a JSON integer as given, a string holding an
/// integer as that integer, another present value through its fractional
/// reading (`fallback`), and the default when absent.
pub open spec fn config_u64(cfg: JsonObject, k: Seq<char>, fallback: u64, d: u64) -> u64 {
    match cfg.get_spec(k) {
        Some(v) => match v.u64_view() {
            Some(n) => n,
            None => match v.str_view() {
                Some(t) => match int_string(t) {
                    Some(n) => n,
                    None => fallback,
                },
                None => fallback,
            },
        },
        None => d,
    }
}

/// A numeric string reads like the number it spells: where one configuration
/// holds the integer `n` at key `k` and another the string of `n`, the integer
/// field they give is the same.
pub proof fn law_numeric_strings_read_like_numbers(
    with_number: JsonObject,
    with_string: JsonObject,
    k: Seq<char>,
    n: u64,
    text: Seq<char>,
    fallback: u64,
    d: u64,
)
    requires
        with_number.get_spec(k) matches Some(v) && v.u64_view() == Some(n),
        with_string.get_spec(k) matches Some(v) && v.str_view() == Some(text),
        parse_u64_spec(trim_spec(text)) == Some(n),
        n <= F64_EXACT_INT,
    ensures
        config_u64(with_string, k, fallback, d) == config_u64(with_number, k, fallback, d),
{
    let v = with_string.get_spec(k).unwrap();
    assert(v.u64_view() is None) by {
        assert(v.str_view() is Some);
    }
}

/// A text field of a new pod: the string given, or the default `d` where the key
/// is absent or not a string.
pub open spec fn config_str(cfg: JsonObject, k: Seq<char>, d: Seq<char>) -> Seq<char> {
    match cfg.get_str_spec(k) {
        Some(s) => s,
        None => d,
    }
}

fn config_u64_value(cfg: &JsonObject, k: &str, fallback: u64, d: u64) -> (r: u64)
    ensures
        r == config_u64(*cfg, k@, fallback, d),
{
    match cfg.get(k) {
        Some(v) => match v.as_u64() {
            Some(n) => n,
            None => match v.as_str() {
                Some(t) => {
                    let cs = chars_of(t.as_str());
                    let tr = trim_chars(&cs);
                    match parse_u64_chars(&tr) {
                        Some(n) => if n <= F64_EXACT_INT {
                            n
                        } else {
                            fallback
                        },
                        None => fallback,
                    }
                },
                None => fallback,
            },
        },
        None => d,
    }
}

fn config_str_value(cfg: &JsonObject, k: &str, d: &str) -> (r: String)
    ensures
        r@ == config_str(*cfg, k@, d@),
{
    match cfg.get_str(k) {
        Some(s) => s.clone(),
        None => to_owned_string(d),
    }
}

/// A new pod from the front end's configuration: a missing field takes the
/// default pod's value, and the id is left for the caller to assign.
pub fn pod_from_config(cfg: &JsonObject, nums: &PodNumbers) -> (r: Pod)
    ensures
        r.id == 0,
        r.name@ == config_str(*cfg, "name"@, "新匣"@),
        r.edge@ == config_str(*cfg, "edge"@, "left"@),
        r.monitor@ == config_str(*cfg, "monitor"@, ""@),
        r.staging_folder@ == config_str(*cfg, "stagingFolder"@, ""@),
        r.material@ == config_str(*cfg, "material"@, "acrylic"@),
        r.drop_action@ == config_str(*cfg, "dropAction"@, "ask"@),
        r.offset_bits == nums.offset_bits,
        r.opacity_bits == nums.opacity_bits,
        r.panel_width == config_u64(*cfg, "panelWidth"@, nums.panel_width_fallback, 380) as u32,
        r.hover_delay_ms == config_u64(
            *cfg,
            "hoverDelayMs"@,
            nums.hover_delay_fallback,
            120,
        ),
        r.enabled == match cfg.get_bool_spec("enabled"@) {
            Some(b) => b,
            None => true,
        },
{
    let panel_width = config_u64_value(cfg, "panelWidth", nums.panel_width_fallback, 380);
    Pod {
        id: 0,
        name: config_str_value(cfg, "name", "新匣"),
        edge: config_str_value(cfg, "edge", "left"),
        monitor: config_str_value(cfg, "monitor", ""),
        offset_bits: nums.offset_bits,
        staging_folder: config_str_value(cfg, "stagingFolder", ""),
        opacity_bits: nums.opacity_bits,
        material: config_str_value(cfg, "material", "acrylic"),
        panel_width: panel_width as u32,
        hover_delay_ms: config_u64_value(
            cfg,
            "hoverDelayMs",
            nums.hover_delay_fallback,
            120,
        ),
        drop_action: config_str_value(cfg, "dropAction", "ask"),
        enabled: match cfg.get_bool("enabled") {
            Some(b) => b,
            None => true,
        },
    }
}

} // verus!
