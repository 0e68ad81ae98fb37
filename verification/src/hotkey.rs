//! Dictation hotkey presets. The library knows the preset identifiers and how
//! an arbitrary identifier is normalised; the key chords behind each preset
//! belong to the shortcut plugin and are bound where the app registers them.

use vstd::prelude::*;
use crate::text::str_eq;

verus! {

broadcast use vstd::string::group_string_axioms;

/// The preset used when none (or an unknown one) is configured.
pub const DEFAULT_DICTATION_HOTKEY_ID: &'static str = "primary_d";

/// The preset identifiers, in the order the shortcut table lists them.
pub open spec fn hotkey_ids() -> Seq<Seq<char>> {
    seq!["primary_d"@, "primary_r"@, "primary_space"@, "ctrl_alt_space"@]
}

/// `id` names one of the presets.
pub open spec fn is_known_hotkey_id(id: Seq<char>) -> bool {
    hotkey_ids().contains(id)
}

/// The preset that `id` selects: itself when known, else the default.
pub open spec fn normalized_hotkey_id(id: Seq<char>) -> Seq<char> {
    if is_known_hotkey_id(id) {
        id
    } else {
        DEFAULT_DICTATION_HOTKEY_ID@
    }
}

/// The preset identifiers, in table order.
pub fn dictation_hotkey_ids() -> (ids: Vec<&'static str>)
    ensures
        ids@.map_values(|s: &str| s@) == hotkey_ids(),
{
    let ids: Vec<&'static str> = vec!["primary_d", "primary_r", "primary_space", "ctrl_alt_space"];
    assert(ids@.map_values(|s: &str| s@) =~= hotkey_ids());
    ids
}

/// The preset that `id` selects, as a static identifier.
pub fn resolve_hotkey_id(id: &str) -> (r: &'static str)
    ensures
        r@ == normalized_hotkey_id(id@),
{
    let ids = dictation_hotkey_ids();
    let mut i: usize = 0;
    while i < ids.len()
        invariant
            0 <= i <= ids.len(),
            ids@.map_values(|s: &str| s@) == hotkey_ids(),
            forall|j: int| 0 <= j < i ==> hotkey_ids()[j] != id@,
        decreases ids.len() - i,
    {
        assert(ids@.map_values(|s: &str| s@)[i as int] == ids@[i as int]@);
        if str_eq(ids[i], id) {
            proof {
                assert(hotkey_ids()[i as int] == id@);
                assert(is_known_hotkey_id(id@));
            }
            return ids[i];
        }
        i = i + 1;
    }
    proof {
        assert(!is_known_hotkey_id(id@)) by {
            if hotkey_ids().contains(id@) {
                let k = choose|k: int| 0 <= k < hotkey_ids().len() && hotkey_ids()[k] == id@;
                assert(hotkey_ids()[k] != id@);
            }
        }
        assert(DEFAULT_DICTATION_HOTKEY_ID@ == "primary_d"@);
    }
    DEFAULT_DICTATION_HOTKEY_ID
}

/// Maps a configured hotkey identifier to a known preset: a known identifier
/// is kept, anything else falls back to [`DEFAULT_DICTATION_HOTKEY_ID`].
pub fn normalize_dictation_hotkey_id(id: &str) -> (r: String)
    ensures
        r@ == normalized_hotkey_id(id@),
{
    resolve_hotkey_id(id).to_string()
}

/// Normalising always yields a known preset, keeps a known one, and
/// normalising twice changes nothing more.
pub proof fn law_normalized_hotkey_is_known(id: Seq<char>)
    ensures
        is_known_hotkey_id(normalized_hotkey_id(id)),
        is_known_hotkey_id(id) ==> normalized_hotkey_id(id) == id,
        normalized_hotkey_id(normalized_hotkey_id(id)) == normalized_hotkey_id(id),
{
    assert(DEFAULT_DICTATION_HOTKEY_ID@ == "primary_d"@);
    assert(hotkey_ids()[0] == DEFAULT_DICTATION_HOTKEY_ID@);
}

// ---------------------------------------------------------------------------
// Long press of the fn key
// ---------------------------------------------------------------------------

/// How long fn must be held before a press counts as a long press.
pub const LONG_PRESS_MS: u64 = 500;

/// The fn-key detector: whether fn is held, whether the current press has
/// crossed the long-press threshold, and the number of the latest press or
/// release (a timer for an older number is stale).
#[derive(Debug, Clone, Copy, PartialEq, Eq, Structural)]
pub struct FnState {
    pub pressed: bool,
    pub active: bool,
    pub press_id: u64,
}

/// What the detector asks the app to do.
#[derive(Debug, Clone, Copy, PartialEq, Eq, Structural)]
pub enum FnAction {
    Nothing,
    /// Start a [`LONG_PRESS_MS`] timer for press `press_id`.
    ScheduleActivation { press_id: u64 },
    /// Announce the start of a long press.
    EmitPressStart,
    /// Announce the end of a long press.
    EmitPressEnd,
}

/// The number after `n`, wrapping around.
pub open spec fn next_id(n: u64) -> u64 {
    if n == u64::MAX {
        0
    } else {
        (n + 1) as u64
    }
}

/// The detector after the modifier flags change to `now_pressed`, and what
/// it asks for: a press starts a timer for a new press number and clears
/// the long-press mark; a release takes a new number (so the pending timer
/// goes stale) and ends a long press that had started; anything else
/// changes nothing.
pub open spec fn fn_flags(s: FnState, now_pressed: bool) -> (FnState, FnAction) {
    if now_pressed && !s.pressed {
        (
            FnState { pressed: true, active: false, press_id: next_id(s.press_id) },
            FnAction::ScheduleActivation { press_id: next_id(s.press_id) },
        )
    } else if !now_pressed && s.pressed {
        (
            FnState { pressed: false, active: false, press_id: next_id(s.press_id) },
            if s.active {
                FnAction::EmitPressEnd
            } else {
                FnAction::Nothing
            },
        )
    } else {
        (FnState { pressed: now_pressed, ..s }, FnAction::Nothing)
    }
}

/// The detector after the timer of press `press_id` fires: when that press
/// is still the latest, still held and not yet a long press, it becomes
/// one and its start is announced; otherwise nothing happens.
pub open spec fn fn_timer(s: FnState, press_id: u64) -> (FnState, FnAction) {
    if s.press_id == press_id && s.pressed && !s.active {
        (FnState { active: true, ..s }, FnAction::EmitPressStart)
    } else {
        (s, FnAction::Nothing)
    }
}

impl FnState {
    /// A detector that has seen nothing.
    pub fn new() -> (r: Self)
        ensures
            r == (FnState { pressed: false, active: false, press_id: 0 }),
    {
        FnState { pressed: false, active: false, press_id: 0 }
    }

    /// Folds a modifier-flags change into the detector (see [`fn_flags`]).
    pub fn on_flags(&mut self, now_pressed: bool) -> (a: FnAction)
        ensures
            (*final(self), a) == fn_flags(*old(self), now_pressed),
    {
        let was_pressed = self.pressed;
        self.pressed = now_pressed;
        if now_pressed && !was_pressed {
            self.press_id = self.press_id.wrapping_add(1);
            self.active = false;
            FnAction::ScheduleActivation { press_id: self.press_id }
        } else if !now_pressed && was_pressed {
            self.press_id = self.press_id.wrapping_add(1);
            let was_active = self.active;
            self.active = false;
            if was_active {
                FnAction::EmitPressEnd
            } else {
                FnAction::Nothing
            }
        } else {
            FnAction::Nothing
        }
    }

    /// Folds the firing of press `press_id`'s timer into the detector (see
    /// [`fn_timer`]).
    pub fn on_timer(&mut self, press_id: u64) -> (a: FnAction)
        ensures
            (*final(self), a) == fn_timer(*old(self), press_id),
    {
        if self.press_id != press_id || !self.pressed || self.active {
            return FnAction::Nothing;
        }
        self.active = true;
        FnAction::EmitPressStart
    }
}

/// A press released before its timer fires announces nothing: neither the
/// release nor the late timer.
pub proof fn law_short_press_announces_nothing(s: FnState)
    requires
        !s.pressed,
    ensures
        ({
            let (s1, a1) = fn_flags(s, true);
            let (s2, a2) = fn_flags(s1, false);
            let (s3, a3) = fn_timer(s2, a1->press_id);
            &&& a1 is ScheduleActivation
            &&& a2 == FnAction::Nothing
            &&& a3 == FnAction::Nothing
        }),
{
}

/// A press held until its timer fires announces its start then, and its end
/// when released.
pub proof fn law_long_press_announces_start_then_end(s: FnState)
    requires
        !s.pressed,
    ensures
        ({
            let (s1, a1) = fn_flags(s, true);
            let (s2, a2) = fn_timer(s1, a1->press_id);
            let (s3, a3) = fn_flags(s2, false);
            &&& a2 == FnAction::EmitPressStart
            &&& a3 == FnAction::EmitPressEnd
            &&& !s3.active
        }),
{
}

} // verus!
