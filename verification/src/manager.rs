//! Window orchestration decisions: the panel state machine of every pod, the
//! watchdog rule, and the geometry of bars and panels.

use std::collections::HashMap;

use vstd::prelude::*;

use crate::settings::{Pod, Settings, is_vertical_edge};
use crate::state::{PanelMode, PodRuntime, is_fresh_runtime, mode_of_name};
use crate::text::{
    all_digits, chars_of, decimal, decimal_chars, digit_char, digit_value, digits_value,
    ends_with_chars, has_prefix, lemma_decimal, has_suffix, parse_u64_chars, parse_u64_spec, push_all,
    push_str_chars, starts_with_chars, str_eq, string_from_chars, sub_chars, to_owned_string,
};

verus! {

broadcast use vstd::std_specs::hash::group_hash_axioms;

/// The runtime state of every pod, by pod id.
pub type Runtimes = HashMap<u64, PodRuntime>;

/* ---------- the single active panel ---------- */

/// A panel that another panel's showing dismisses: visible, not pinned, and
/// showing its list (asking or resolving a conflict keeps it up).
pub open spec fn dismissable(r: PodRuntime) -> bool {
    r.panel_visible && !r.panel_pinned && r.mode == PanelMode::List
}

/// The pods whose panels must make way for `id`'s.
pub open spec fn others_to_dismiss(m: Map<u64, PodRuntime>, id: u64) -> Set<u64> {
    Set::new(|k: u64| k != id && m.contains_key(k) && dismissable(m[k]))
}

/// Every pod but those in `ids` keeps its state, and the set of pods is unchanged.
pub open spec fn others_unchanged(old: Map<u64, PodRuntime>, new: Map<u64, PodRuntime>, ids: Set<
    u64,
>) -> bool {
    &&& new.dom() == old.dom()
    &&& forall|k: u64| #[trigger] old.contains_key(k) && !ids.contains(k) ==> new[k] == old[k]
}

/// How long the pointer must have been away before the watchdog hides a panel.
pub const WATCHDOG_GRACE_MS: u64 = 320;

/// The watchdog's rule: a visible panel that is not pinned, not dragging files
/// out, showing its list, with the pointer outside both the bar and the panel
/// for longer than the grace period, is hidden.
pub open spec fn watchdog_should_hide(r: PodRuntime, now_ms: u64) -> bool {
    &&& r.panel_visible
    &&& !r.panel_pinned
    &&& !r.dragging_out
    &&& r.mode == PanelMode::List
    &&& !r.bar_inside
    &&& !r.panel_inside
    &&& match r.last_change_ms {
        Some(t) => now_ms > t && now_ms - t > WATCHDOG_GRACE_MS,
        None => false,
    }
}

pub fn should_hide(r: &PodRuntime, now_ms: u64) -> (b: bool)
    ensures
        b == watchdog_should_hide(*r, now_ms),
        r.bar_inside || r.panel_inside ==> !b,
{
    r.panel_visible && !r.panel_pinned && !r.dragging_out && r.mode == PanelMode::List
        && !r.bar_inside && !r.panel_inside && match r.last_change_ms {
        Some(t) => now_ms.saturating_sub(t) > WATCHDOG_GRACE_MS,
        None => false,
    }
}

/// Which panels a sweep picks: those making way for a pod's panel, or those the
/// watchdog finds idle at a given time.
pub enum Selector {
    Dismiss(u64),
    Idle(u64),
}

pub open spec fn selects(sel: Selector, k: u64, r: PodRuntime) -> bool {
    match sel {
        Selector::Dismiss(id) => k != id && dismissable(r),
        Selector::Idle(now) => watchdog_should_hide(r, now),
    }
}

pub open spec fn selected(m: Map<u64, PodRuntime>, sel: Selector) -> Set<u64> {
    Set::new(|k: u64| m.contains_key(k) && selects(sel, k, m[k]))
}

fn selects_exec(sel: &Selector, k: u64, r: &PodRuntime) -> (b: bool)
    ensures
        b == selects(*sel, k, *r),
{
    match sel {
        Selector::Dismiss(id) => k != *id && r.panel_visible && !r.panel_pinned && r.mode
            == PanelMode::List,
        Selector::Idle(now) => should_hide(r, *now),
    }
}

/// The ids of the pods a selector picks, each once.
fn select_pods(pods: &Runtimes, sel: &Selector) -> (r: Vec<u64>)
    ensures
        r@.to_set() == selected(pods@, *sel),
        r@.no_duplicates(),
{
    let mut out: Vec<u64> = Vec::new();
    let ghost mut seen: Set<u64> = Set::empty();
    for k in it: pods.keys()
        invariant
            it.seq().unref().to_set() == pods@.dom(),
            it.seq().unref().no_duplicates(),
            out@.no_duplicates(),
            forall|j: int| 0 <= j < it.index() ==> seen.contains(#[trigger] *it.seq()[j]),
            forall|x: u64| #[trigger] seen.contains(x) ==> (exists|j: int| 0 <= j < it.index() && *it.seq()[j] == x),
            forall|x: u64| #[trigger] seen.contains(x) ==> pods@.dom().contains(x),
            forall|x: u64| #[trigger]
                out@.contains(x) <==> (seen.contains(x) && selects(*sel, x, pods@[x])),
    {
        let pid = *k;
        proof {
            let s = it.seq().unref();
            assert(s[it.index() as int] == pid);
            assert(s.to_set().contains(pid));
            assert(s.contains(pid));
            assert(pods@.dom().contains(pid));
            assert forall|j: int| 0 <= j < it.index() implies *it.seq()[j] != pid by {
                assert(s[j] == *it.seq()[j]);
            }
        }
        let take = match pods.get(&pid) {
            Some(r) => selects_exec(sel, pid, r),
            None => false,
        };
        assert(take == selects(*sel, pid, pods@[pid]));
        assert(!seen.contains(pid));
        assert(!out@.contains(pid));
        let ghost prev = out@;
        if take {
            out.push(pid);
            assert(out@ == prev.push(pid));
            assert forall|x: u64| #[trigger] out@.contains(x) <==> (prev.contains(x) || x == pid) by {
                if out@.contains(x) {
                    let j = choose|j: int| 0 <= j < out@.len() && out@[j] == x;
                    if j < prev.len() {
                        assert(prev[j] == x);
                    }
                }
                if prev.contains(x) {
                    let j = choose|j: int| 0 <= j < prev.len() && prev[j] == x;
                    assert(out@[j] == x);
                }
                if x == pid {
                    assert(out@[prev.len() as int] == pid);
                }
            }
        }
        proof {
            seen = seen.insert(pid);
        }
    }
    proof {
        assert forall|x: u64| #[trigger] pods@.dom().contains(x) implies seen.contains(x) by {
            assert(pods@.dom().contains(x));
        }
        assert forall|x: u64| #[trigger] out@.to_set().contains(x) == selected(
            pods@,
            *sel,
        ).contains(x) by {
            assert(out@.to_set().contains(x) == out@.contains(x));
            if pods@.dom().contains(x) {
                assert(seen.contains(x));
            }
        }
        assert(out@.to_set() =~= selected(pods@, *sel));
    }
    out
}


/* ---------- field updates of a pod's runtime state ---------- */

pub open spec fn with_visible(r: PodRuntime, v: bool) -> PodRuntime {
    PodRuntime { panel_visible: v, ..r }
}

pub open spec fn with_pinned(r: PodRuntime, p: bool) -> PodRuntime {
    PodRuntime { panel_pinned: p, ..r }
}

pub open spec fn with_dragging(r: PodRuntime, d: bool) -> PodRuntime {
    PodRuntime { dragging_out: d, ..r }
}

pub open spec fn with_mode(r: PodRuntime, m: PanelMode, pending: Vec<String>) -> PodRuntime {
    PodRuntime { mode: m, pending_drop: pending, ..r }
}

pub open spec fn with_height(r: PodRuntime, h: u32) -> PodRuntime {
    PodRuntime { panel_height: h, ..r }
}

pub open spec fn with_material(r: PodRuntime, m: Option<String>) -> PodRuntime {
    PodRuntime { material: m, ..r }
}

pub open spec fn with_presence(r: PodRuntime, bar: bool, panel: bool, t: u64) -> PodRuntime {
    PodRuntime { bar_inside: bar, panel_inside: panel, last_change_ms: Some(t), ..r }
}

pub open spec fn without_presence(r: PodRuntime) -> PodRuntime {
    PodRuntime { bar_inside: false, panel_inside: false, last_change_ms: None, ..r }
}

/// Whether the material already applied is `m`.
pub open spec fn material_is(r: PodRuntime, m: Seq<char>) -> bool {
    match r.material {
        Some(x) => x@ == m,
        None => false,
    }
}

/// The ids of the panels that must make way for `id`'s, each once.
pub fn panels_to_dismiss(pods: &Runtimes, id: u64) -> (r: Vec<u64>)
    ensures
        r@.to_set() == others_to_dismiss(pods@, id),
        r@.no_duplicates(),
{
    let r = select_pods(pods, &Selector::Dismiss(id));
    assert(selected(pods@, Selector::Dismiss(id)) =~= others_to_dismiss(pods@, id));
    r
}

/// `new` is `old` with its panel hidden: not visible, not pinned, back to the
/// list, no pending drop; everything else as it was.
pub open spec fn hidden_from(old: PodRuntime, new: PodRuntime) -> bool {
    &&& new.pending_drop@.len() == 0
    &&& new == PodRuntime {
        panel_visible: false,
        panel_pinned: false,
        mode: PanelMode::List,
        pending_drop: new.pending_drop,
        ..old
    }
}

/// Hides `id`'s panel in the runtime state (`hide_panel`).
pub fn hide_panel(pods: &mut Runtimes, id: u64)
    ensures
        others_unchanged(old(pods)@, final(pods)@, set![id]),
        old(pods)@.contains_key(id) ==> hidden_from(old(pods)@[id], final(pods)@[id]),
{
    if let Some(mut r) = pods.remove(&id) {
        r.panel_visible = false;
        r.panel_pinned = false;
        r.mode = PanelMode::List;
        r.pending_drop = Vec::new();
        pods.insert(id, r);
    }
    assert(pods@.dom() =~= old(pods)@.dom());
}

/// Hides each listed panel.
pub fn hide_panels(pods: &mut Runtimes, ids: &Vec<u64>)
    ensures
        others_unchanged(old(pods)@, final(pods)@, ids@.to_set()),
        forall|k: u64| #[trigger]
            old(pods)@.contains_key(k) && ids@.contains(k) ==> hidden_from(
                old(pods)@[k],
                final(pods)@[k],
            ),
{
    let mut i: usize = 0;
    while i < ids.len()
        invariant
            i <= ids.len(),
            others_unchanged(old(pods)@, pods@, ids@.take(i as int).to_set()),
            forall|k: u64| #[trigger]
                old(pods)@.contains_key(k) && ids@.take(i as int).contains(k) ==> hidden_from(
                    old(pods)@[k],
                    pods@[k],
                ),
        decreases ids.len() - i,
    {
        let ghost before = pods@;
        let k = ids[i];
        hide_panel(pods, k);
        proof {
            let t = ids@.take(i as int);
            let t1 = ids@.take(i + 1);
            assert(t1 =~= t.push(k));
            assert forall|q: u64| #[trigger] t1.contains(q) <==> (t.contains(q) || q == k) by {
                if t1.contains(q) {
                    let j = choose|j: int| 0 <= j < t1.len() && t1[j] == q;
                    if j < t.len() {
                        assert(t[j] == q);
                    }
                }
                if t.contains(q) {
                    let j = choose|j: int| 0 <= j < t.len() && t[j] == q;
                    assert(t1[j] == q);
                }
                if q == k {
                    assert(t1[i as int] == k);
                }
            }
            assert forall|q: u64| #[trigger] t1.to_set().contains(q) <==> (t.to_set().contains(q)
                || q == k) by {}
        }
        i = i + 1;
    }
    assert(ids@.take(ids.len() as int) =~= ids@);
}

/// No panel other than `id`'s is left visible, unpinned and showing its list.
pub open spec fn single_active(m: Map<u64, PodRuntime>, id: u64) -> bool {
    forall|k: u64| #[trigger] m.contains_key(k) && k != id ==> !dismissable(m[k])
}

/// Hides every panel that must make way for `id`'s (`dismiss_other_panels`);
/// returns their ids.
pub fn dismiss_other_panels(pods: &mut Runtimes, id: u64) -> (r: Vec<u64>)
    ensures
        r@.to_set() == others_to_dismiss(old(pods)@, id),
        r@.no_duplicates(),
        others_unchanged(old(pods)@, final(pods)@, r@.to_set()),
        forall|k: u64| #[trigger]
            others_to_dismiss(old(pods)@, id).contains(k) ==> hidden_from(
                old(pods)@[k],
                final(pods)@[k],
            ),
        single_active(final(pods)@, id),
        final(pods)@.contains_key(id) ==> final(pods)@[id] == old(pods)@[id],
{
    let ids = panels_to_dismiss(pods, id);
    hide_panels(pods, &ids);
    proof {
        assert forall|k: u64| #[trigger] pods@.contains_key(k) && k != id implies !dismissable(
            pods@[k],
        ) by {
            if ids@.to_set().contains(k) {
                assert(ids@.contains(k));
            }
        }
        assert forall|k: u64| #[trigger]
            others_to_dismiss(old(pods)@, id).contains(k) implies hidden_from(
            old(pods)@[k],
            pods@[k],
        ) by {
            assert(ids@.to_set().contains(k));
            assert(ids@.contains(k));
        }
        if pods@.contains_key(id) {
            assert(!ids@.to_set().contains(id));
        }
    }
    ids
}

/// Marks `id`'s panel visible, creating its runtime state if needed.  Returns
/// false when it was already visible (nothing more to do).
pub fn begin_show(pods: &mut Runtimes, id: u64) -> (proceed: bool)
    ensures
        others_unchanged(old(pods)@.remove(id), final(pods)@.remove(id), set![id]),
        final(pods)@.contains_key(id),
        final(pods)@[id].panel_visible,
        proceed == !(old(pods)@.contains_key(id) && old(pods)@[id].panel_visible),
        old(pods)@.contains_key(id) ==> final(pods)@[id] == with_visible(old(pods)@[id], true),
        !old(pods)@.contains_key(id) ==> is_fresh_runtime(with_visible(final(pods)@[id], false)),
{
    let mut r = match pods.remove(&id) {
        Some(r) => r,
        None => PodRuntime::default(),
    };
    if r.panel_visible {
        pods.insert(id, r);
        assert(pods@.remove(id).dom() =~= old(pods)@.remove(id).dom());
        return false;
    }
    r.panel_visible = true;
    pods.insert(id, r);
    assert(pods@.remove(id).dom() =~= old(pods)@.remove(id).dom());
    true
}

/// Shows `id`'s panel in the runtime state (`show_panel`): the panels that must
/// make way are hidden first; returns their ids and whether the panel still
/// has to be brought up.  Afterwards `id`'s panel is the single active one.
pub fn show_panel(pods: &mut Runtimes, id: u64) -> (r: (Vec<u64>, bool))
    ensures
        r.0@.to_set() == others_to_dismiss(old(pods)@, id),
        r.0@.no_duplicates(),
        forall|k: u64| #[trigger]
            others_to_dismiss(old(pods)@, id).contains(k) ==> hidden_from(
                old(pods)@[k],
                final(pods)@[k],
            ),
        final(pods)@.contains_key(id),
        final(pods)@[id].panel_visible,
        r.1 == !(old(pods)@.contains_key(id) && old(pods)@[id].panel_visible),
        single_active(final(pods)@, id),
        others_unchanged(
            old(pods)@.remove(id),
            final(pods)@.remove(id),
            others_to_dismiss(old(pods)@, id),
        ),
        old(pods)@.contains_key(id) ==> final(pods)@[id] == with_visible(old(pods)@[id], true),
        !old(pods)@.contains_key(id) ==> is_fresh_runtime(with_visible(final(pods)@[id], false)),
{
    let others = dismiss_other_panels(pods, id);
    let ghost mid = pods@;
    let proceed = begin_show(pods, id);
    proof {
        assert(pods@.remove(id).dom() =~= old(pods)@.remove(id).dom());
        assert forall|k: u64| #[trigger] old(pods)@.remove(id).contains_key(k)
            && !others_to_dismiss(old(pods)@, id).contains(k) implies pods@.remove(id)[k]
            == old(pods)@.remove(id)[k] by {
            assert(!others@.to_set().contains(k));
            assert(mid.remove(id).contains_key(k));
            assert(pods@.remove(id)[k] == mid.remove(id)[k]);
        }
        assert forall|k: u64| #[trigger] pods@.contains_key(k) && k != id implies pods@[k]
            == mid[k] && mid.contains_key(k) by {
            assert(pods@.remove(id).contains_key(k));
            assert(mid.remove(id).contains_key(k));
            assert(pods@.remove(id)[k] == mid.remove(id)[k]);
        }
        assert forall|k: u64| #[trigger]
            others_to_dismiss(old(pods)@, id).contains(k) implies hidden_from(
            old(pods)@[k],
            pods@[k],
        ) by {
            assert(mid.contains_key(k));
            assert(mid.remove(id).contains_key(k));
            assert(pods@.remove(id)[k] == mid.remove(id)[k]);
        }
    }
    (others, proceed)
}

/// A show that found no pod to show: the panel is marked hidden again.
pub fn abandon_show(pods: &mut Runtimes, id: u64)
    ensures
        others_unchanged(old(pods)@, final(pods)@, set![id]),
        old(pods)@.contains_key(id) ==> final(pods)@[id] == with_visible(old(pods)@[id], false),
{
    if let Some(mut r) = pods.remove(&id) {
        r.panel_visible = false;
        pods.insert(id, r);
    }
    assert(pods@.dom() =~= old(pods)@.dom());
}

/// Shows `id`'s panel (`show_panel`) when the pod is known to the settings
/// (`found`): the panels that must make way are hidden either way; a panel that
/// was down is brought up only for a known pod, and one that was up stays up.
/// Returns the dismissed ids and whether the panel still has to be brought up.
pub fn show_known_panel(pods: &mut Runtimes, id: u64, found: bool) -> (r: (Vec<u64>, bool))
    ensures
        r.0@.to_set() == others_to_dismiss(old(pods)@, id),
        r.0@.no_duplicates(),
        forall|k: u64| #[trigger]
            others_to_dismiss(old(pods)@, id).contains(k) ==> hidden_from(
                old(pods)@[k],
                final(pods)@[k],
            ),
        single_active(final(pods)@, id),
        others_unchanged(
            old(pods)@.remove(id),
            final(pods)@.remove(id),
            others_to_dismiss(old(pods)@, id),
        ),
        final(pods)@.contains_key(id),
        final(pods)@[id].panel_visible == ((old(pods)@.contains_key(id)
            && old(pods)@[id].panel_visible) || found),
        r.1 == (!(old(pods)@.contains_key(id) && old(pods)@[id].panel_visible) && found),
        old(pods)@.contains_key(id) ==> final(pods)@[id] == with_visible(
            old(pods)@[id],
            old(pods)@[id].panel_visible || found,
        ),
        !old(pods)@.contains_key(id) ==> is_fresh_runtime(with_visible(final(pods)@[id], false)),
{
    let (others, proceed) = show_panel(pods, id);
    let ghost mid = pods@;
    if proceed && !found {
        abandon_show(pods, id);
        proof {
            assert(pods@.remove(id).dom() =~= mid.remove(id).dom());
            assert forall|k: u64| #[trigger] mid.remove(id).contains_key(k) implies pods@.remove(
                id,
            )[k] == mid.remove(id)[k] by {
                assert(k != id);
            }
            assert forall|k: u64| #[trigger] pods@.contains_key(k) && k != id implies !dismissable(
                pods@[k],
            ) by {
                assert(mid.contains_key(k));
            }
            assert forall|k: u64| #[trigger]
                others_to_dismiss(old(pods)@, id).contains(k) implies hidden_from(
                old(pods)@[k],
                pods@[k],
            ) by {
                assert(k != id);
                assert(mid.contains_key(k));
            }
            if old(pods)@.contains_key(id) {
                assert(pods@[id] == with_visible(old(pods)@[id], false));
            }
        }
    }
    (others, proceed && found)
}

pub fn panel_visible(pods: &Runtimes, id: u64) -> (b: bool)
    ensures
        b == (pods@.contains_key(id) && pods@[id].panel_visible),
{
    match pods.get(&id) {
        Some(r) => r.panel_visible,
        None => false,
    }
}

pub fn panel_pinned(pods: &Runtimes, id: u64) -> (b: bool)
    ensures
        b == (pods@.contains_key(id) && pods@[id].panel_pinned),
{
    match pods.get(&id) {
        Some(r) => r.panel_pinned,
        None => false,
    }
}

/// What a click on the pod's toggle does.
#[derive(Debug, Clone, Copy, PartialEq, Eq, Structural)]
pub enum PanelToggle {
    /// Show the panel, then pin it.
    Show,
    /// Hide the pinned panel.
    Hide,
    /// Pin the panel that hover opened.
    Pin,
}

/// `toggle_panel`: a hidden panel is shown and pinned, a pinned one hidden, and
/// one opened by hover pinned.
pub fn toggle_panel(pods: &Runtimes, id: u64) -> (t: PanelToggle)
    ensures
        t == if !(pods@.contains_key(id) && pods@[id].panel_visible) {
            PanelToggle::Show
        } else if pods@[id].panel_pinned {
            PanelToggle::Hide
        } else {
            PanelToggle::Pin
        },
{
    let visible = panel_visible(pods, id);
    let pinned = panel_pinned(pods, id);
    if !visible {
        PanelToggle::Show
    } else if pinned {
        PanelToggle::Hide
    } else {
        PanelToggle::Pin
    }
}

/// Sets the pinned flag of an existing pod.
pub fn set_pinned(pods: &mut Runtimes, id: u64, pinned: bool)
    ensures
        others_unchanged(old(pods)@, final(pods)@, set![id]),
        old(pods)@.contains_key(id) ==> final(pods)@[id] == with_pinned(old(pods)@[id], pinned),
{
    if let Some(mut r) = pods.remove(&id) {
        r.panel_pinned = pinned;
        pods.insert(id, r);
    }
    assert(pods@.dom() =~= old(pods)@.dom());
}

/// `set_panel_pinned`: pinning a hidden panel shows it first.
pub fn pin_needs_show(pods: &Runtimes, id: u64, pinned: bool) -> (b: bool)
    ensures
        b == (pinned && !(pods@.contains_key(id) && pods@[id].panel_visible)),
{
    pinned && !panel_visible(pods, id)
}

/// `set_dragging_out`.
pub fn set_dragging_out(pods: &mut Runtimes, id: u64, dragging: bool)
    ensures
        others_unchanged(old(pods)@, final(pods)@, set![id]),
        old(pods)@.contains_key(id) ==> final(pods)@[id] == with_dragging(
            old(pods)@[id],
            dragging,
        ),
{
    if let Some(mut r) = pods.remove(&id) {
        r.dragging_out = dragging;
        pods.insert(id, r);
    }
    assert(pods@.dom() =~= old(pods)@.dom());
}

/// The pointer entered or left the bar or the panel at `now_ms`
/// (`report_presence`).  When it entered a pod whose panel is up, the other
/// panels make way; their ids are returned.
pub fn report_presence(pods: &mut Runtimes, id: u64, window: &str, inside: bool, now_ms: u64) -> (r:
    Vec<u64>)
    ensures
        final(pods)@.contains_key(id),
        old(pods)@.contains_key(id) ==> final(pods)@[id] == with_presence(
            old(pods)@[id],
            if window@ == "bar"@ {
                inside
            } else {
                old(pods)@[id].bar_inside
            },
            if window@ == "panel"@ && window@ != "bar"@ {
                inside
            } else {
                old(pods)@[id].panel_inside
            },
            now_ms,
        ),
        !old(pods)@.contains_key(id) ==> is_fresh_runtime(without_presence(final(pods)@[id])),
        !old(pods)@.contains_key(id) ==> final(pods)@[id].last_change_ms == Some(now_ms),
        !old(pods)@.contains_key(id) ==> final(pods)@[id].bar_inside == (window@ == "bar"@
            && inside),
        !old(pods)@.contains_key(id) ==> final(pods)@[id].panel_inside == (window@ == "panel"@
            && window@ != "bar"@ && inside),
        inside && final(pods)@[id].panel_visible ==> single_active(final(pods)@, id),
        inside && final(pods)@[id].panel_visible ==> r@.to_set() == others_to_dismiss(
            old(pods)@,
            id,
        ),
        forall|k: u64| #[trigger]
            r@.contains(k) ==> hidden_from(old(pods)@[k], final(pods)@[k]),
        !(inside && final(pods)@[id].panel_visible) ==> r@.len() == 0,
        others_unchanged(old(pods)@.remove(id), final(pods)@.remove(id), r@.to_set()),
{
    let mut r = match pods.remove(&id) {
        Some(r) => r,
        None => PodRuntime::default(),
    };
    if crate::text::str_eq(window, "bar") {
        r.bar_inside = inside;
    } else if crate::text::str_eq(window, "panel") {
        r.panel_inside = inside;
    }
    r.last_change_ms = Some(now_ms);
    let visible = r.panel_visible;
    pods.insert(id, r);
    let ghost mid = pods@;
    assert(mid.remove(id) =~= old(pods)@.remove(id));
    if inside && visible {
        let out = dismiss_other_panels(pods, id);
        proof {
            assert(others_to_dismiss(mid, id) =~= others_to_dismiss(old(pods)@, id)) by {
                assert forall|k: u64| k != id implies (mid.contains_key(k) == old(pods)@.contains_key(k)
                    && (mid.contains_key(k) ==> mid[k] == old(pods)@[k])) by {
                    assert(mid.remove(id).contains_key(k) == old(pods)@.remove(id).contains_key(k));
                }
            }
            assert forall|k: u64| #[trigger] out@.contains(k) implies hidden_from(
                old(pods)@[k],
                pods@[k],
            ) by {
                assert(out@.to_set().contains(k));
                assert(k != id);
                assert(mid.remove(id).contains_key(k));
                assert(mid[k] == mid.remove(id)[k]);
            }
            assert(pods@.remove(id).dom() =~= old(pods)@.remove(id).dom());
            assert forall|k: u64| #[trigger] old(pods)@.remove(id).contains_key(k)
                && !out@.to_set().contains(k) implies pods@.remove(id)[k] == old(pods)@.remove(
                id,
            )[k] by {
                assert(mid.contains_key(k));
            }
        }
        out
    } else {
        let out: Vec<u64> = Vec::new();
        proof {
            assert(out@.to_set() =~= Set::<u64>::empty());
        }
        out
    }
}

/// The panels the watchdog hides at `now_ms` (`spawn_watchdog`'s sweep): each
/// idle panel is hidden and its id returned.
pub fn watchdog_sweep(pods: &mut Runtimes, now_ms: u64) -> (r: Vec<u64>)
    ensures
        r@.to_set() == selected(old(pods)@, Selector::Idle(now_ms)),
        r@.no_duplicates(),
        others_unchanged(old(pods)@, final(pods)@, r@.to_set()),
        forall|k: u64| #[trigger]
            r@.contains(k) ==> hidden_from(old(pods)@[k], final(pods)@[k]),
        forall|k: u64| #[trigger]
            r@.contains(k) ==> !old(pods)@[k].bar_inside && !old(pods)@[k].panel_inside,
{
    let ids = select_pods(pods, &Selector::Idle(now_ms));
    hide_panels(pods, &ids);
    proof {
        assert forall|k: u64| #[trigger] ids@.contains(k) implies hidden_from(
            old(pods)@[k],
            pods@[k],
        ) by {
            assert(ids@.to_set().contains(k));
        }
        assert forall|k: u64| #[trigger] ids@.contains(k) implies !old(pods)@[k].bar_inside
            && !old(pods)@[k].panel_inside by {
            assert(ids@.to_set().contains(k));
            assert(selected(old(pods)@, Selector::Idle(now_ms)).contains(k));
        }
    }
    ids
}

/// The watchdog never hides a pinned panel, nor one dragging files out.
pub proof fn law_watchdog_spares_pinned(r: PodRuntime, now_ms: u64)
    requires
        r.panel_pinned || r.dragging_out || r.mode != PanelMode::List,
    ensures
        !watchdog_should_hide(r, now_ms),
{
}

/// The watchdog hides only a panel the pointer has left: a panel it picks at any
/// time is up and unpinned, not being dragged from, with the pointer outside
/// both the bar and the panel, and its last pointer change more than 320 ms
/// before that time.
pub proof fn law_watchdog_hides_only_left_panels(pods: Map<u64, PodRuntime>, now_ms: u64, k: u64)
    requires
        selected(pods, Selector::Idle(now_ms)).contains(k),
    ensures
        pods.contains_key(k),
        !pods[k].bar_inside,
        !pods[k].panel_inside,
        pods[k].panel_visible,
        !pods[k].panel_pinned,
        !pods[k].dragging_out,
        pods[k].last_change_ms matches Some(t) && now_ms > t + 320,
{
}

/// After a hide, the panel is down, unpinned and back to its list.
pub proof fn law_hidden_panel_is_down(old: PodRuntime, new: PodRuntime, now_ms: u64)
    requires
        hidden_from(old, new),
    ensures
        !new.panel_visible,
        !new.panel_pinned,
        new.mode == PanelMode::List,
        !dismissable(new),
        !watchdog_should_hide(new, now_ms),
{
}

/// `set_panel_mode`: the list clears any pending drop.
pub fn set_panel_mode(pods: &mut Runtimes, id: u64, mode: &str)
    ensures
        others_unchanged(old(pods)@, final(pods)@, set![id]),
        old(pods)@.contains_key(id) ==> {
            let m = mode_of_name(mode@);
            &&& final(pods)@[id].mode == m
            &&& m == PanelMode::List ==> final(pods)@[id].pending_drop@.len() == 0
            &&& m != PanelMode::List ==> final(pods)@[id].pending_drop == old(
                pods,
            )@[id].pending_drop
            &&& final(pods)@[id] == with_mode(old(pods)@[id], m, final(pods)@[id].pending_drop)
        },
{
    if let Some(mut r) = pods.remove(&id) {
        r.mode = PanelMode::parse(mode);
        if r.mode == PanelMode::List {
            r.pending_drop = Vec::new();
        }
        pods.insert(id, r);
    }
    assert(pods@.dom() =~= old(pods)@.dom());
}

/// `hold_pending_drop`: the dropped paths wait while the panel asks what to do.
pub fn hold_pending_drop(pods: &mut Runtimes, id: u64, paths: Vec<String>)
    ensures
        others_unchanged(old(pods)@, final(pods)@, set![id]),
        old(pods)@.contains_key(id) ==> final(pods)@[id] == with_mode(
            old(pods)@[id],
            PanelMode::Ask,
            paths,
        ),
{
    if let Some(mut r) = pods.remove(&id) {
        r.pending_drop = paths;
        r.mode = PanelMode::Ask;
        pods.insert(id, r);
    }
    assert(pods@.dom() =~= old(pods)@.dom());
}

pub const PANEL_MIN_HEIGHT: u32 = 160;

pub const PANEL_MAX_HEIGHT: u32 = 900;

pub open spec fn clamp_height(h: u32) -> u32 {
    if h < PANEL_MIN_HEIGHT {
        PANEL_MIN_HEIGHT
    } else if h > PANEL_MAX_HEIGHT {
        PANEL_MAX_HEIGHT
    } else {
        h
    }
}

/// `set_panel_size`: records the panel's height (in physical pixels, clamped to
/// 160..=900); returns whether the window must be resized now, which is when the
/// height changed while the panel is visible.
pub fn set_panel_size(pods: &mut Runtimes, id: u64, scaled_height: u32) -> (resize_now: bool)
    ensures
        others_unchanged(old(pods)@, final(pods)@, set![id]),
        old(pods)@.contains_key(id) ==> final(pods)@[id] == with_height(
            old(pods)@[id],
            clamp_height(scaled_height),
        ),
        resize_now == (old(pods)@.contains_key(id) && old(pods)@[id].panel_height != clamp_height(
            scaled_height,
        ) && old(pods)@[id].panel_visible),
{
    let h = if scaled_height < PANEL_MIN_HEIGHT {
        PANEL_MIN_HEIGHT
    } else if scaled_height > PANEL_MAX_HEIGHT {
        PANEL_MAX_HEIGHT
    } else {
        scaled_height
    };
    let resize = if let Some(mut r) = pods.remove(&id) {
        let changed = r.panel_height != h;
        r.panel_height = h;
        let visible = r.panel_visible;
        pods.insert(id, r);
        changed && visible
    } else {
        false
    };
    assert(pods@.dom() =~= old(pods)@.dom());
    resize
}

/// The panel height to lay out with: the recorded one, or 420 until the front
/// end has reported one.
pub fn layout_panel_height(pods: &Runtimes, id: u64) -> (h: u32)
    ensures
        h == if pods@.contains_key(id) && pods@[id].panel_height > 0 {
            pods@[id].panel_height
        } else {
            420
        },
{
    match pods.get(&id) {
        Some(r) => if r.panel_height > 0 {
            r.panel_height
        } else {
            420
        },
        None => 420,
    }
}

/// `apply_material_once`: records `material` for an existing pod; returns whether
/// it differs from the one already applied (only then is the window effect set).
pub fn apply_material_once(pods: &mut Runtimes, id: u64, material: &str) -> (changed: bool)
    ensures
        others_unchanged(old(pods)@, final(pods)@, set![id]),
        changed == (old(pods)@.contains_key(id) && !material_is(old(pods)@[id], material@)),
        changed ==> material_is(final(pods)@[id], material@),
        old(pods)@.contains_key(id) ==> final(pods)@[id] == with_material(
            old(pods)@[id],
            final(pods)@[id].material,
        ),
        !changed ==> final(pods)@ == old(pods)@,
{
    let changed = if let Some(mut r) = pods.remove(&id) {
        let same = match &r.material {
            Some(m) => crate::text::str_eq(m.as_str(), material),
            None => false,
        };
        if !same {
            r.material = Some(crate::text::to_owned_string(material));
        }
        pods.insert(id, r);
        !same
    } else {
        false
    };
    assert(pods@.dom() =~= old(pods)@.dom());
    if !changed {
        assert(pods@ =~= old(pods)@);
    }
    changed
}

/// The mode and the pending paths the panel is told about (`emit_panel_mode`).
pub fn panel_mode_payload(pods: &Runtimes, id: u64) -> (r: (PanelMode, Vec<String>))
    ensures
        pods@.contains_key(id) ==> r.0 == pods@[id].mode && r.1@ == pods@[id].pending_drop@,
        !pods@.contains_key(id) ==> r.0 == PanelMode::List && r.1@.len() == 0,
{
    match pods.get(&id) {
        Some(r) => {
            let mut paths: Vec<String> = Vec::new();
            let mut i: usize = 0;
            while i < r.pending_drop.len()
                invariant
                    i <= r.pending_drop.len(),
                    paths@ == r.pending_drop@.take(i as int),
                decreases r.pending_drop.len() - i,
            {
                paths.push(r.pending_drop[i].clone());
                i = i + 1;
                assert(paths@ =~= r.pending_drop@.take(i as int));
            }
            assert(r.pending_drop@.take(r.pending_drop.len() as int) =~= r.pending_drop@);
            (r.mode, paths)
        },
        None => (PanelMode::List, Vec::new()),
    }
}

/* ---------- geometry ---------- */

/// A screen rectangle in physical pixels.
#[derive(Debug, Clone, Copy, PartialEq, Eq, Structural)]
pub struct Rect {
    pub x: i32,
    pub y: i32,
    pub w: i32,
    pub h: i32,
}

/// The bar's short side (against the screen edge) and long side.
pub const POD_BAR_SHORT: i32 = 44;

pub const POD_BAR_LONG: i32 = 190;

/// The short side while a drag hovers over the bar (it widens to accept).
pub const POD_BAR_ACCEPT: i32 = 62;

/// The gap between a bar and its panel.
pub const PANEL_GAP: i32 = 10;

/// The panel keeps this far from the monitor's sides.
pub const PANEL_MARGIN: i32 = 8;

/// The smallest height a panel window is given.
pub const PANEL_MIN_WINDOW_HEIGHT: i32 = 120;

/// Which screen edge a pod is docked on; any other name docks on the left.
pub enum Edge {
    Right,
    Bottom,
    Top,
    Left,
}

pub open spec fn edge_of(e: Seq<char>) -> Edge {
    if e == "right"@ {
        Edge::Right
    } else if e == "bottom"@ {
        Edge::Bottom
    } else if e == "top"@ {
        Edge::Top
    } else {
        Edge::Left
    }
}

fn edge_exec(e: &str) -> (r: Edge)
    ensures
        r == edge_of(e@),
{
    if str_eq(e, "right") {
        Edge::Right
    } else if str_eq(e, "bottom") {
        Edge::Bottom
    } else if str_eq(e, "top") {
        Edge::Top
    } else {
        Edge::Left
    }
}

pub open spec fn in_i32(v: int) -> bool {
    i32::MIN <= v <= i32::MAX
}

pub open spec fn clamp_int(v: int, lo: int, hi: int) -> int {
    if v < lo {
        lo
    } else if v > hi {
        hi
    } else {
        v
    }
}

pub open spec fn max_int(a: int, b: int) -> int {
    if a >= b {
        a
    } else {
        b
    }
}

/// The bar's width and height.
pub open spec fn bar_size(edge: Seq<char>, accepting: bool) -> (int, int) {
    let short: int = if accepting {
        POD_BAR_ACCEPT as int
    } else {
        POD_BAR_SHORT as int
    };
    if is_vertical_edge(edge) {
        (short, POD_BAR_LONG as int)
    } else {
        (POD_BAR_LONG as int, short)
    }
}

/// The bar's top-left corner before it is kept on the monitor.  `along_h` and
/// `along_v` are the pod's position along the monitor's width and height, in
/// pixels (the offset fraction times the side, rounded).
pub open spec fn bar_origin(mon: Rect, edge: Seq<char>, along_h: int, along_v: int, w: int, h: int) -> (
    int,
    int,
) {
    match edge_of(edge) {
        Edge::Right => (mon.x + mon.w - w, mon.y + along_v - h / 2),
        Edge::Bottom => (mon.x + along_h - w / 2, mon.y + mon.h - h),
        Edge::Top => (mon.x + along_h - w / 2, mon.y as int),
        Edge::Left => (mon.x as int, mon.y + along_v - h / 2),
    }
}

/// The bar's rectangle (`bar_geometry`): docked on its edge at its offset and
/// kept on the monitor.
pub open spec fn bar_rect(mon: Rect, edge: Seq<char>, along_h: int, along_v: int, accepting: bool) -> (
    int,
    int,
    int,
    int,
) {
    let (w, h) = bar_size(edge, accepting);
    let (x, y) = bar_origin(mon, edge, along_h, along_v, w, h);
    (
        clamp_int(x, mon.x as int, max_int(mon.x + mon.w - w, mon.x as int)),
        clamp_int(y, mon.y as int, max_int(mon.y + mon.h - h, mon.y as int)),
        w,
        h,
    )
}

/// Every intermediate value of the bar computation fits in an `i32`.
pub open spec fn bar_fits(mon: Rect, edge: Seq<char>, along_h: int, along_v: int, accepting: bool) -> bool {
    let (w, h) = bar_size(edge, accepting);
    &&& in_i32(mon.x + mon.w)
    &&& in_i32(mon.x + mon.w - w)
    &&& in_i32(mon.y + mon.h)
    &&& in_i32(mon.y + mon.h - h)
    &&& in_i32(mon.x + along_h)
    &&& in_i32(mon.x + along_h - w / 2)
    &&& in_i32(mon.y + along_v)
    &&& in_i32(mon.y + along_v - h / 2)
}

fn clamp_i64(v: i64, lo: i64, hi: i64) -> (r: i64)
    requires
        lo <= hi,
    ensures
        r == clamp_int(v as int, lo as int, hi as int),
{
    if v < lo {
        lo
    } else if v > hi {
        hi
    } else {
        v
    }
}

fn in_i32_exec(v: i64) -> (b: bool)
    ensures
        b == in_i32(v as int),
{
    -2147483648i64 <= v && v <= 2147483647i64
}

/// Whether `bar_geometry` can lay the bar out in `i32` for these inputs.
pub fn bar_fits_at(mon: &Rect, edge: &str, along_h: i32, along_v: i32, accepting: bool) -> (b: bool)
    ensures
        b == bar_fits(*mon, edge@, along_h as int, along_v as int, accepting),
{
    let short: i64 = if accepting {
        POD_BAR_ACCEPT as i64
    } else {
        POD_BAR_SHORT as i64
    };
    let vertical = str_eq(edge, "left") || str_eq(edge, "right");
    let (w, h): (i64, i64) = if vertical {
        (short, POD_BAR_LONG as i64)
    } else {
        (POD_BAR_LONG as i64, short)
    };
    let x: i64 = mon.x as i64;
    let y: i64 = mon.y as i64;
    let mw: i64 = mon.w as i64;
    let mh: i64 = mon.h as i64;
    let ah: i64 = along_h as i64;
    let av: i64 = along_v as i64;
    in_i32_exec(x + mw) && in_i32_exec(x + mw - w) && in_i32_exec(y + mh) && in_i32_exec(
        y + mh - h,
    ) && in_i32_exec(x + ah) && in_i32_exec(x + ah - w / 2) && in_i32_exec(y + av)
        && in_i32_exec(y + av - h / 2)
}

/// Whether `place_panel` can lay the panel out in `i32` for these inputs.
pub fn panel_fits_at(mon: &Rect, bar: &Rect, pw: i32, ph: i32) -> (b: bool)
    ensures
        b == panel_fits(*mon, *bar, pw as int, ph as int),
{
    let g: i64 = PANEL_GAP as i64;
    let m: i64 = PANEL_MARGIN as i64;
    let x: i64 = mon.x as i64;
    let y: i64 = mon.y as i64;
    let mw: i64 = mon.w as i64;
    let mh: i64 = mon.h as i64;
    let bx: i64 = bar.x as i64;
    let by: i64 = bar.y as i64;
    let bw: i64 = bar.w as i64;
    let bh: i64 = bar.h as i64;
    let w: i64 = pw as i64;
    let h: i64 = ph as i64;
    in_i32_exec(x + m) && in_i32_exec(y + m) && in_i32_exec(x + mw) && in_i32_exec(x + mw - w)
        && in_i32_exec(x + mw - w - m) && in_i32_exec(y + mh) && in_i32_exec(y + mh - h)
        && in_i32_exec(y + mh - h - m) && in_i32_exec(bx - g) && in_i32_exec(bx - g - w)
        && in_i32_exec(by - g) && in_i32_exec(by - g - h) && in_i32_exec(bx + bw) && in_i32_exec(
        bx + bw + g,
    ) && in_i32_exec(by + bh) && in_i32_exec(by + bh + g) && in_i32_exec(bx + bw / 2)
        && in_i32_exec(bx + bw / 2 - w / 2) && in_i32_exec(by + bh / 2) && in_i32_exec(
        by + bh / 2 - h / 2,
    )
}

/// The bar's rectangle on monitor `mon` (`bar_geometry`).
pub fn bar_geometry(mon: &Rect, edge: &str, along_h: i32, along_v: i32, accepting: bool) -> (r: Rect)
    requires
        bar_fits(*mon, edge@, along_h as int, along_v as int, accepting),
    ensures
        (r.x as int, r.y as int, r.w as int, r.h as int) == bar_rect(
            *mon,
            edge@,
            along_h as int,
            along_v as int,
            accepting,
        ),
{
    let short: i64 = if accepting {
        POD_BAR_ACCEPT as i64
    } else {
        POD_BAR_SHORT as i64
    };
    let vertical = str_eq(edge, "left") || str_eq(edge, "right");
    let (w, h): (i64, i64) = if vertical {
        (short, POD_BAR_LONG as i64)
    } else {
        (POD_BAR_LONG as i64, short)
    };
    let mx = mon.x as i64;
    let my = mon.y as i64;
    let mw = mon.w as i64;
    let mh = mon.h as i64;
    let ah = along_h as i64;
    let av = along_v as i64;
    let (x, y): (i64, i64) = match edge_exec(edge) {
        Edge::Right => (mx + mw - w, my + av - h / 2),
        Edge::Bottom => (mx + ah - w / 2, my + mh - h),
        Edge::Top => (mx + ah - w / 2, my),
        Edge::Left => (mx, my + av - h / 2),
    };
    let max_y = if my + mh - h >= my {
        my + mh - h
    } else {
        my
    };
    let max_x = if mx + mw - w >= mx {
        mx + mw - w
    } else {
        mx
    };
    let y = clamp_i64(y, my, max_y);
    let x = clamp_i64(x, mx, max_x);
    Rect { x: x as i32, y: y as i32, w: w as i32, h: h as i32 }
}

/// A bar that fits on its monitor lies entirely on it.
pub proof fn law_bar_on_monitor(mon: Rect, edge: Seq<char>, along_h: int, along_v: int, accepting: bool)
    requires
        bar_size(edge, accepting).0 <= mon.w,
        bar_size(edge, accepting).1 <= mon.h,
    ensures
        ({
            let (x, y, w, h) = bar_rect(mon, edge, along_h, along_v, accepting);
            mon.x <= x && x + w <= mon.x + mon.w && mon.y <= y && y + h <= mon.y + mon.h
        }),
{
}

/// Where a panel sits: the window's position and size.
#[derive(Debug, Clone, Copy, PartialEq, Eq, Structural)]
pub struct Placement {
    pub x: i32,
    pub y: i32,
    pub w: u32,
    pub h: u32,
}

/// The panel's top-left corner next to its bar, centred on the bar's long side.
pub open spec fn panel_origin(bar: Rect, edge: Seq<char>, pw: int, ph: int) -> (int, int) {
    let g = PANEL_GAP as int;
    match edge_of(edge) {
        Edge::Right => (bar.x - g - pw, bar.y + bar.h / 2 - ph / 2),
        Edge::Bottom => (bar.x + bar.w / 2 - pw / 2, bar.y - g - ph),
        Edge::Top => (bar.x + bar.w / 2 - pw / 2, bar.y + bar.h + g),
        Edge::Left => (bar.x + bar.w + g, bar.y + bar.h / 2 - ph / 2),
    }
}

/// The panel's position (`place_panel`): next to the bar, kept `PANEL_MARGIN`
/// inside the monitor.
pub open spec fn panel_pos(mon: Rect, bar: Rect, edge: Seq<char>, pw: int, ph: int) -> (int, int) {
    let m = PANEL_MARGIN as int;
    let (x, y) = panel_origin(bar, edge, pw, ph);
    (
        max_int(clamp_int(x, mon.x + m, mon.x + mon.w - pw - m), mon.x as int),
        max_int(clamp_int(y, mon.y + m, mon.y + mon.h - ph - m), mon.y as int),
    )
}

/// Every intermediate value of the panel computation fits in an `i32`.
pub open spec fn panel_fits(mon: Rect, bar: Rect, pw: int, ph: int) -> bool {
    let g = PANEL_GAP as int;
    let m = PANEL_MARGIN as int;
    &&& in_i32(mon.x + m) &&& in_i32(mon.y + m)
    &&& in_i32(mon.x + mon.w) &&& in_i32(mon.x + mon.w - pw) &&& in_i32(mon.x + mon.w - pw - m)
    &&& in_i32(mon.y + mon.h) &&& in_i32(mon.y + mon.h - ph) &&& in_i32(mon.y + mon.h - ph - m)
    &&& in_i32(bar.x - g) &&& in_i32(bar.x - g - pw)
    &&& in_i32(bar.y - g) &&& in_i32(bar.y - g - ph)
    &&& in_i32(bar.x + bar.w) &&& in_i32(bar.x + bar.w + g)
    &&& in_i32(bar.y + bar.h) &&& in_i32(bar.y + bar.h + g)
    &&& in_i32(bar.x + bar.w / 2) &&& in_i32(bar.x + bar.w / 2 - pw / 2)
    &&& in_i32(bar.y + bar.h / 2) &&& in_i32(bar.y + bar.h / 2 - ph / 2)
}

/// The panel window's placement (`place_panel`), given the monitor, the bar's
/// rectangle, and the panel's width and height in physical pixels.  The panel
/// must leave the margin free on both sides of the monitor (otherwise the
/// clamping has no valid range).
pub fn place_panel(mon: &Rect, bar: &Rect, edge: &str, pw: i32, ph: i32) -> (r: Placement)
    requires
        pw >= 0,
        ph >= 0,
        bar.w >= 0,
        bar.h >= 0,
        mon.w - pw >= 2 * PANEL_MARGIN,
        mon.h - ph >= 2 * PANEL_MARGIN,
        panel_fits(*mon, *bar, pw as int, ph as int),
    ensures
        (r.x as int, r.y as int) == panel_pos(*mon, *bar, edge@, pw as int, ph as int),
        r.w == pw as u32,
        r.h == (if ph >= PANEL_MIN_WINDOW_HEIGHT {
            ph
        } else {
            PANEL_MIN_WINDOW_HEIGHT
        }) as u32,
{
    let g = PANEL_GAP as i64;
    let m = PANEL_MARGIN as i64;
    let (pw64, ph64) = (pw as i64, ph as i64);
    let (bx, by, bw, bh) = (bar.x as i64, bar.y as i64, bar.w as i64, bar.h as i64);
    let (x, y): (i64, i64) = match edge_exec(edge) {
        Edge::Right => (bx - g - pw64, by + bh / 2 - ph64 / 2),
        Edge::Bottom => (bx + bw / 2 - pw64 / 2, by - g - ph64),
        Edge::Top => (bx + bw / 2 - pw64 / 2, by + bh + g),
        Edge::Left => (bx + bw + g, by + bh / 2 - ph64 / 2),
    };
    let (mx, my, mw, mh) = (mon.x as i64, mon.y as i64, mon.w as i64, mon.h as i64);
    let x = clamp_i64(x, mx + m, mx + mw - pw64 - m);
    let x = if x >= mx {
        x
    } else {
        mx
    };
    let y = clamp_i64(y, my + m, my + mh - ph64 - m);
    let y = if y >= my {
        y
    } else {
        my
    };
    let h = if ph >= PANEL_MIN_WINDOW_HEIGHT {
        ph
    } else {
        PANEL_MIN_WINDOW_HEIGHT
    };
    Placement { x: x as i32, y: y as i32, w: pw as u32, h: h as u32 }
}

/// Whether `x` is the panel's left edge pushed against the monitor's left or
/// right margin.
pub open spec fn at_x_margin(mon: Rect, pw: int, x: int) -> bool {
    x == mon.x + PANEL_MARGIN || x + pw == mon.x + mon.w - PANEL_MARGIN
}

/// Whether `y` is the panel's top edge pushed against the monitor's top or
/// bottom margin.
pub open spec fn at_y_margin(mon: Rect, ph: int, y: int) -> bool {
    y == mon.y + PANEL_MARGIN || y + ph == mon.y + mon.h - PANEL_MARGIN
}

/// The panel sits next to its bar, on the side away from the screen edge,
/// `PANEL_GAP` from it and centred on it along the bar; only the monitor's
/// margins move it from there.  Bottom bar: the panel ends the gap above the bar
/// and shares its horizontal centre; top bar: it starts the gap below the bar;
/// right bar: it ends the gap left of the bar and shares its vertical centre;
/// any other edge (left): it starts the gap right of the bar.
pub proof fn law_panel_beside_bar(mon: Rect, bar: Rect, edge: Seq<char>, pw: int, ph: int)
    requires
        pw >= 0,
        ph >= 0,
        bar.w >= 0,
        bar.h >= 0,
        mon.w - pw >= 2 * PANEL_MARGIN,
        mon.h - ph >= 2 * PANEL_MARGIN,
    ensures
        ({
            let (x, y) = panel_pos(mon, bar, edge, pw, ph);
            &&& edge == "bottom"@ ==> (x + pw / 2 == bar.x + bar.w / 2 || at_x_margin(mon, pw, x))
                && (y + ph + PANEL_GAP == bar.y || at_y_margin(mon, ph, y))
            &&& edge == "top"@ ==> (x + pw / 2 == bar.x + bar.w / 2 || at_x_margin(mon, pw, x))
                && (y == bar.y + bar.h + PANEL_GAP || at_y_margin(mon, ph, y))
            &&& edge == "right"@ ==> (x + pw + PANEL_GAP == bar.x || at_x_margin(mon, pw, x))
                && (y + ph / 2 == bar.y + bar.h / 2 || at_y_margin(mon, ph, y))
            &&& (edge != "bottom"@ && edge != "top"@ && edge != "right"@) ==> (x == bar.x + bar.w
                + PANEL_GAP || at_x_margin(mon, pw, x)) && (y + ph / 2 == bar.y + bar.h / 2
                || at_y_margin(mon, ph, y))
        }),
{
    reveal_strlit("bottom");
    reveal_strlit("top");
    reveal_strlit("right");
    assert("bottom"@ != "right"@) by {
        assert("bottom"@[0] != "right"@[0]);
    }
    assert("top"@ != "right"@) by {
        assert("top"@[0] != "right"@[0]);
    }
    assert("top"@ != "bottom"@) by {
        assert("top"@[0] != "bottom"@[0]);
    }
}

/// A placed panel lies on its monitor, inside the margin.
pub proof fn law_panel_inside_margin(mon: Rect, bar: Rect, edge: Seq<char>, pw: int, ph: int)
    requires
        mon.w - pw >= 2 * PANEL_MARGIN,
        mon.h - ph >= 2 * PANEL_MARGIN,
    ensures
        ({
            let (x, y) = panel_pos(mon, bar, edge, pw, ph);
            &&& mon.x + PANEL_MARGIN <= x && x + pw <= mon.x + mon.w - PANEL_MARGIN
            &&& mon.y + PANEL_MARGIN <= y && y + ph <= mon.y + mon.h - PANEL_MARGIN
        }),
{
}

/* ---------- monitors ---------- */

/// A monitor as the windowing system reports it.
pub struct MonitorInfo {
    pub name: Option<String>,
    pub rect: Rect,
}

pub open spec fn named(m: MonitorInfo, wanted: Seq<char>) -> bool {
    match m.name {
        Some(n) => n@ == wanted,
        None => false,
    }
}

/// The monitor a pod lives on (`monitor`): the first one with the pod's monitor
/// name, or else the primary one.
pub open spec fn chosen_monitor(ms: Seq<MonitorInfo>, wanted: Seq<char>, primary: Option<Rect>) -> Option<
    Rect,
> {
    if wanted.len() > 0 && exists|i: int| 0 <= i < ms.len() && named(ms[i], wanted) {
        let i = choose|i: int|
            0 <= i < ms.len() && named(ms[i], wanted) && forall|j: int|
                0 <= j < i ==> !named(ms[j], wanted);
        Some(ms[i].rect)
    } else {
        primary
    }
}

pub fn select_monitor(monitors: &Vec<MonitorInfo>, wanted: &str, primary: Option<Rect>) -> (r: Option<
    Rect,
>)
    ensures
        r == chosen_monitor(monitors@, wanted@, primary),
{
    let wanted_len = wanted.unicode_len();
    if wanted_len > 0 {
        let mut i: usize = 0;
        while i < monitors.len()
            invariant
                i <= monitors.len(),
                wanted@.len() > 0,
                forall|j: int| 0 <= j < i ==> !named(monitors@[j], wanted@),
            decreases monitors.len() - i,
        {
            let hit = match &monitors[i].name {
                Some(n) => str_eq(n.as_str(), wanted),
                None => false,
            };
            if hit {
                proof {
                    let ms = monitors@;
                    let k = choose|k: int|
                        0 <= k < ms.len() && named(ms[k], wanted@) && forall|j: int|
                            0 <= j < k ==> !named(ms[j], wanted@);
                    assert(k == i) by {
                        if k < i {
                        } else if k > i {
                            assert(!named(ms[i as int], wanted@));
                        }
                    }
                }
                return Some(monitors[i].rect);
            }
            i = i + 1;
        }
    }
    primary
}

/// A monitor entry for the settings page (`list_monitors`).
pub struct MonitorEntry {
    pub name: String,
    pub label: String,
    pub primary: bool,
}

/// Whether monitor name `n` is the primary's (names compare as options, so two
/// unnamed monitors compare equal).
pub open spec fn is_primary_name(primary: Option<Option<String>>, n: Option<String>) -> bool {
    match primary {
        Some(p) => match (p, n) {
            (Some(a), Some(b)) => a@ == b@,
            (None, None) => true,
            _ => false,
        },
        None => false,
    }
}

/// "主显示器" for the primary monitor, else "显示器 N" with N its 1-based position.
pub open spec fn monitor_label(primary: bool, position: nat) -> Seq<char> {
    if primary {
        "主显示器"@
    } else {
        "显示器 "@ + decimal(position)
    }
}

fn primary_matches(primary: &Option<Option<String>>, n: &Option<String>) -> (b: bool)
    ensures
        b == is_primary_name(*primary, *n),
{
    match primary {
        Some(p) => match (p, n) {
            (Some(a), Some(b)) => *a == *b,
            (None, None) => true,
            _ => false,
        },
        None => false,
    }
}

/// The monitor list shown in settings.
pub fn list_monitors(names: &Vec<Option<String>>, primary: &Option<Option<String>>) -> (r: Vec<
    MonitorEntry,
>)
    ensures
        r@.len() == names@.len(),
        forall|i: int|
            #![trigger r@[i]]
            0 <= i < names@.len() ==> {
                &&& r@[i].primary == is_primary_name(*primary, names@[i])
                &&& r@[i].label@ == monitor_label(r@[i].primary, (i + 1) as nat)
                &&& r@[i].name@ == match names@[i] {
                    Some(n) => n@,
                    None => Seq::<char>::empty(),
                }
            },
{
    let mut out: Vec<MonitorEntry> = Vec::new();
    let mut i: usize = 0;
    while i < names.len()
        invariant
            i <= names.len(),
            out@.len() == i,
            forall|k: int|
                #![trigger out@[k]]
                0 <= k < i ==> {
                    &&& out@[k].primary == is_primary_name(*primary, names@[k])
                    &&& out@[k].label@ == monitor_label(out@[k].primary, (k + 1) as nat)
                    &&& out@[k].name@ == match names@[k] {
                        Some(n) => n@,
                        None => Seq::<char>::empty(),
                    }
                },
        decreases names.len() - i,
    {
        let is_primary = primary_matches(primary, &names[i]);
        let label = if is_primary {
            to_owned_string("主显示器")
        } else {
            let mut cs = chars_of("显示器 ");
            let digits = decimal_chars((i + 1) as u64);
            push_all(&mut cs, &digits);
            string_from_chars(&cs)
        };
        let name = match &names[i] {
            Some(n) => n.clone(),
            None => String::new(),
        };
        out.push(MonitorEntry { name, label, primary: is_primary });
        i = i + 1;
    }
    out
}

/* ---------- window labels ---------- */

pub open spec fn bar_label_spec(id: u64) -> Seq<char> {
    "pod_"@ + decimal(id as nat)
}

pub open spec fn panel_label_spec(id: u64) -> Seq<char> {
    "pod_"@ + decimal(id as nat) + "_panel"@
}

/// The label of a pod's bar window.
pub fn bar_label(id: u64) -> (r: String)
    ensures
        r@ == bar_label_spec(id),
{
    let mut cs = chars_of("pod_");
    let digits = decimal_chars(id);
    push_all(&mut cs, &digits);
    string_from_chars(&cs)
}

/// The label of a pod's panel window.
pub fn panel_label(id: u64) -> (r: String)
    ensures
        r@ == panel_label_spec(id),
{
    let mut cs = chars_of("pod_");
    let digits = decimal_chars(id);
    push_all(&mut cs, &digits);
    push_str_chars(&mut cs, "_panel");
    string_from_chars(&cs)
}

/// The pod a window label belongs to (`sync_pods`): `pod_N` and `pod_N_panel`
/// give `N`; other labels give none.
pub open spec fn label_pod_id(l: Seq<char>) -> Option<u64> {
    if has_prefix(l, "pod_"@) {
        let rest = l.skip(4);
        let digits = if has_suffix(rest, "_panel"@) {
            rest.take(rest.len() - 6)
        } else {
            rest
        };
        parse_u64_spec(digits)
    } else {
        None
    }
}

pub fn pod_id_from_label(label: &str) -> (r: Option<u64>)
    ensures
        r == label_pod_id(label@),
{
    proof {
        reveal_strlit("pod_");
        reveal_strlit("_panel");
    }
    let cs = chars_of(label);
    let prefix = chars_of("pod_");
    if !starts_with_chars(&cs, &prefix) {
        return None;
    }
    let rest = sub_chars(&cs, 4, cs.len());
    assert(rest@ =~= label@.skip(4));
    let suffix = chars_of("_panel");
    let digits = if ends_with_chars(&rest, &suffix) {
        sub_chars(&rest, 0, rest.len() - 6)
    } else {
        rest
    };
    proof {
        if has_suffix(rest@, "_panel"@) {
            assert(digits@ =~= rest@.take(rest@.len() - 6));
        }
    }
    parse_u64_chars(&digits)
}

proof fn lemma_parse_decimal(n: u64)
    ensures
        parse_u64_spec(decimal(n as nat)) == Some(n),
        !has_suffix(decimal(n as nat), "_panel"@),
{
    lemma_decimal(n as nat);
    let d = decimal(n as nat);
    assert(crate::text::is_digit(d[0]));
    reveal_strlit("_panel");
    if has_suffix(d, "_panel"@) {
        assert(d.skip(d.len() - 6)[0] == d[d.len() - 6]);
        assert("_panel"@[0] == '_');
        assert(crate::text::is_digit(d[d.len() - 6]));
    }
}

/// Parsing the label of a pod's bar window gives the pod's id back.
pub proof fn law_bar_label_round_trip(id: u64)
    ensures
        label_pod_id(bar_label_spec(id)) == Some(id),
{
    reveal_strlit("pod_");
    lemma_parse_decimal(id);
    let d = decimal(id as nat);
    let b = bar_label_spec(id);
    assert(b.take(4) =~= "pod_"@);
    assert(b.skip(4) =~= d);
}

/// Parsing the label of a pod's panel window gives the pod's id back.
pub proof fn law_panel_label_round_trip(id: u64)
    ensures
        label_pod_id(panel_label_spec(id)) == Some(id),
{
    reveal_strlit("pod_");
    reveal_strlit("_panel");
    lemma_parse_decimal(id);
    let d = decimal(id as nat);
    let p = panel_label_spec(id);
    assert(p.take(4) =~= "pod_"@);
    let rest = p.skip(4);
    assert(rest =~= d + "_panel"@);
    assert(rest.skip(rest.len() - 6) =~= "_panel"@);
    assert(rest.take(rest.len() - 6) =~= d);
}

/* ---------- which windows to keep ---------- */

/// Whether an enabled pod has id `id`.
pub open spec fn is_wanted(pods: Seq<Pod>, id: u64) -> bool {
    exists|i: int| 0 <= i < pods.len() && pods[i].enabled && pods[i].id == id
}

fn wanted_exec(pods: &Vec<Pod>, id: u64) -> (b: bool)
    ensures
        b == is_wanted(pods@, id),
{
    let mut i: usize = 0;
    while i < pods.len()
        invariant
            i <= pods.len(),
            forall|j: int| 0 <= j < i ==> !(pods@[j].enabled && pods@[j].id == id),
        decreases pods.len() - i,
    {
        if pods[i].enabled && pods[i].id == id {
            return true;
        }
        i = i + 1;
    }
    false
}

/// The pods whose windows exist but which no enabled pod wants, in label order
/// (`sync_pods`).
pub open spec fn stale_ids(labels: Seq<String>, pods: Seq<Pod>) -> Seq<u64>
    decreases labels.len(),
{
    if labels.len() == 0 {
        Seq::empty()
    } else {
        let rest = stale_ids(labels.drop_last(), pods);
        match label_pod_id(labels.last()@) {
            Some(id) => if !is_wanted(pods, id) {
                rest.push(id)
            } else {
                rest
            },
            None => rest,
        }
    }
}

pub fn pods_to_destroy(labels: &Vec<String>, pods: &Vec<Pod>) -> (r: Vec<u64>)
    ensures
        r@ == stale_ids(labels@, pods@),
{
    let mut out: Vec<u64> = Vec::new();
    let mut i: usize = 0;
    while i < labels.len()
        invariant
            i <= labels.len(),
            out@ == stale_ids(labels@.take(i as int), pods@),
        decreases labels.len() - i,
    {
        assert(labels@.take(i + 1).drop_last() =~= labels@.take(i as int));
        match pod_id_from_label(labels[i].as_str()) {
            Some(id) => {
                if !wanted_exec(pods, id) {
                    out.push(id);
                }
            },
            None => {},
        }
        i = i + 1;
    }
    assert(labels@.take(labels.len() as int) =~= labels@);
    out
}

/// A window is destroyed only when no enabled pod wants it.
pub proof fn law_destroy_only_unwanted(labels: Seq<String>, pods: Seq<Pod>, k: int)
    requires
        0 <= k < stale_ids(labels, pods).len(),
    ensures
        !is_wanted(pods, stale_ids(labels, pods)[k]),
    decreases labels.len(),
{
    if labels.len() > 0 {
        let rest = stale_ids(labels.drop_last(), pods);
        if k < rest.len() {
            law_destroy_only_unwanted(labels.drop_last(), pods, k);
        }
    }
}

/// The ids of the enabled pods, in order (the pods with windows).
pub open spec fn enabled_ids(pods: Seq<Pod>) -> Seq<u64>
    decreases pods.len(),
{
    if pods.len() == 0 {
        Seq::empty()
    } else if pods.last().enabled {
        enabled_ids(pods.drop_last()).push(pods.last().id)
    } else {
        enabled_ids(pods.drop_last())
    }
}

pub fn enabled_pod_ids(pods: &Vec<Pod>) -> (r: Vec<u64>)
    ensures
        r@ == enabled_ids(pods@),
{
    let mut out: Vec<u64> = Vec::new();
    let mut i: usize = 0;
    while i < pods.len()
        invariant
            i <= pods.len(),
            out@ == enabled_ids(pods@.take(i as int)),
        decreases pods.len() - i,
    {
        assert(pods@.take(i + 1).drop_last() =~= pods@.take(i as int));
        if pods[i].enabled {
            out.push(pods[i].id);
        }
        i = i + 1;
    }
    assert(pods@.take(pods.len() as int) =~= pods@);
    out
}

/// Bars appear once setup is finished and a pod exists (`apply_settings`).
pub fn should_reveal_bars(s: &Settings) -> (b: bool)
    ensures
        b == (s.first_run_done && s.pods@.len() > 0),
{
    s.first_run_done && s.pods.len() > 0
}

} // verus!
