//! Keyboard modifier state, read from `GetAsyncKeyState` results.

use vstd::prelude::*;

verus! {

/// The state `GetAsyncKeyState` reports for a key that is down now (its high bit).
pub const PRESSED: i16 = -32768;

/// Which modifier keys are held.
pub struct ModifierState {
    pub ctrl: bool,
    pub shift: bool,
    pub alt: bool,
}

/// Whether a `GetAsyncKeyState` result means the key is down.
pub fn key_down(state: i16) -> (b: bool)
    ensures
        b == (state == PRESSED),
{
    state == PRESSED
}

/// The modifier state from the three keys' `GetAsyncKeyState` results.
pub fn modifier_state(ctrl: i16, shift: i16, alt: i16) -> (r: ModifierState)
    ensures
        r.ctrl == (ctrl == PRESSED),
        r.shift == (shift == PRESSED),
        r.alt == (alt == PRESSED),
{
    ModifierState { ctrl: key_down(ctrl), shift: key_down(shift), alt: key_down(alt) }
}

} // verus!
