//! Runtime state of each pod's panel, and the staging clock rule.

use vstd::prelude::*;

use crate::text::str_eq;

verus! {

/// What a pod's panel shows: its item list, the drop question, or a conflict.
#[derive(Debug, Clone, Copy, PartialEq, Eq, Structural)]
pub enum PanelMode {
    List,
    Ask,
    Conflict,
}

/// The name of a mode as the front end spells it.
pub open spec fn mode_name(m: PanelMode) -> Seq<char> {
    match m {
        PanelMode::List => "list"@,
        PanelMode::Ask => "ask"@,
        PanelMode::Conflict => "conflict"@,
    }
}

/// The mode a front-end name denotes; anything unknown is the list.
pub open spec fn mode_of_name(s: Seq<char>) -> PanelMode {
    if s == "ask"@ {
        PanelMode::Ask
    } else if s == "conflict"@ {
        PanelMode::Conflict
    } else {
        PanelMode::List
    }
}

impl PanelMode {
    pub fn as_str(&self) -> (r: &'static str)
        ensures
            r@ == mode_name(*self),
    {
        match self {
            PanelMode::List => "list",
            PanelMode::Ask => "ask",
            PanelMode::Conflict => "conflict",
        }
    }

    pub fn parse(s: &str) -> (r: Self)
        ensures
            r == mode_of_name(s@),
    {
        if str_eq(s, "ask") {
            PanelMode::Ask
        } else if str_eq(s, "conflict") {
            PanelMode::Conflict
        } else {
            PanelMode::List
        }
    }
}

/// Parsing the name of a mode gives the mode back.
pub proof fn law_mode_name_round_trip(m: PanelMode)
    ensures
        mode_of_name(mode_name(m)) == m,
{
    reveal_strlit("list");
    reveal_strlit("ask");
    reveal_strlit("conflict");
    assert("list"@.len() == 4);
    assert("ask"@.len() == 3);
    assert("conflict"@.len() == 8);
}

/// The runtime state of one pod (watchdog and panel visibility).
pub struct PodRuntime {
    pub bar_inside: bool,
    pub panel_inside: bool,
    pub panel_visible: bool,
    pub panel_pinned: bool,
    /// The panel is dragging files out (an OLE drag is in progress).
    pub dragging_out: bool,
    pub mode: PanelMode,
    pub pending_drop: Vec<String>,
    pub panel_height: u32,
    /// When the pointer last entered or left the bar or the panel (milliseconds
    /// on the caller's monotonic clock).
    pub last_change_ms: Option<u64>,
    /// The window material already applied (re-applying acrylic makes it flicker).
    pub material: Option<String>,
}

pub open spec fn is_fresh_runtime(r: PodRuntime) -> bool {
    &&& !r.bar_inside
    &&& !r.panel_inside
    &&& !r.panel_visible
    &&& !r.panel_pinned
    &&& !r.dragging_out
    &&& r.mode == PanelMode::List
    &&& r.pending_drop@.len() == 0
    &&& r.panel_height == 0
    &&& r.last_change_ms is None
    &&& r.material is None
}

impl Default for PodRuntime {
    fn default() -> (r: Self)
        ensures
            is_fresh_runtime(r),
    {
        PodRuntime {
            bar_inside: false,
            panel_inside: false,
            panel_visible: false,
            panel_pinned: false,
            dragging_out: false,
            mode: PanelMode::List,
            pending_drop: Vec::new(),
            panel_height: 0,
            last_change_ms: None,
            material: None,
        }
    }
}

/// Within this many milliseconds of the app's own staging, folder changes are
/// taken to be the app's own writes.
pub const STAGE_QUIET_MS: u64 = 3000;

/// Whether the app staged something recently (`AppState::staged_recently` at
/// time `now_ms`, given the stored time of the last staging, 0 for never).
pub open spec fn staged_recently_spec(last_ms: u64, now_ms: u64) -> bool {
    last_ms != 0 && (if now_ms >= last_ms {
        now_ms - last_ms
    } else {
        0
    }) < STAGE_QUIET_MS
}

pub fn staged_recently(last_ms: u64, now_ms: u64) -> (r: bool)
    ensures
        r == staged_recently_spec(last_ms, now_ms),
{
    if last_ms == 0 {
        return false;
    }
    now_ms.saturating_sub(last_ms) < STAGE_QUIET_MS
}

} // verus!
