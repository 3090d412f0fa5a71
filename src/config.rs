use vstd::prelude::*;
use std::collections::HashMap;
use crate::event::JamEvent;
use crate::instrument::{InstrumentEvent, InstrumentParam, NoteEvent};
use crate::keycode::{code_index, key_index, KeyCode};
use crate::keyspec::{KeyChord, KeyModifiers};
use crate::params::NoteParam;

verus! {

broadcast use vstd::std_specs::hash::group_hash_axioms;

/// A handle to a callback that the scripting host holds.
#[derive(PartialEq, Eq, Structural, Clone, Copy, Debug)]
pub struct KeyCallback(pub u32);

/// What a binding does: the callback on press, an optional callback on
/// release, and the mode to enter.
#[derive(PartialEq, Eq, Structural, Clone, Copy, Debug)]
pub struct JamStateKeyAction {
    pub effect: KeyCallback,
    pub effect_up: Option<KeyCallback>,
    pub state: u32,
}

/// A mode: its bindings, keyed by [`chord_index`], and the action for every
/// chord without one.
pub struct JamState {
    pub name: String,
    pub keys: HashMap<u64, JamStateKeyAction>,
    pub default: JamStateKeyAction,
}

/// The mathematical value of a mode.
pub struct ModeView {
    pub name: Seq<char>,
    pub keys: Map<u64, JamStateKeyAction>,
    pub default: JamStateKeyAction,
}

/// A callback to invoke, with the chord to hand it.
#[derive(PartialEq, Eq, Structural, Clone, Copy, Debug)]
pub struct Fired {
    pub effect: KeyCallback,
    pub chord: KeyChord,
}

/// Why a change to the modes was refused.
#[derive(PartialEq, Eq, Structural, Clone, Copy, Debug)]
pub enum DispatchError {
    /// No mode has this index.
    BadMode(u32),
    /// Modes cannot change while a key callback runs.
    InsideEffect,
    /// A release handler was given for a chord with no binding.
    NotBound,
    /// A note duration was given; notes end only by a mute.
    DurationUnsupported,
    /// No more modes can be numbered.
    TooManyModes,
}

/// The table key of a chord.
pub open spec fn chord_key(c: KeyChord) -> int {
    code_index(c.0) * 256 + c.1.bits as int
}

/// The table key of a chord.
pub fn chord_index(c: KeyChord) -> (r: u64)
    ensures
        r == chord_key(c),
{
    key_index(c.0) * 256 + c.1.bits as u64
}

/// The modifier masks from most to least specific: all four; the triples
/// SAW, CAW, CSW, CSA; the pairs AW, SW, SA, CW, CA, CS; W, A, S, C; none.
pub open spec fn ordered_mask(i: int) -> u8 {
    if i == 0 { 15 }
    else if i == 1 { 14 }
    else if i == 2 { 13 }
    else if i == 3 { 11 }
    else if i == 4 { 7 }
    else if i == 5 { 12 }
    else if i == 6 { 10 }
    else if i == 7 { 6 }
    else if i == 8 { 9 }
    else if i == 9 { 5 }
    else if i == 10 { 3 }
    else if i == 11 { 8 }
    else if i == 12 { 4 }
    else if i == 13 { 2 }
    else if i == 14 { 1 }
    else { 0 }
}

/// The `i`-th mask of the precedence order.
pub fn ordered_modifier(i: usize) -> (r: KeyModifiers)
    requires
        i < 16,
    ensures
        r.bits == ordered_mask(i as int),
{
    let bits: u8 = if i == 0 { 15 }
    else if i == 1 { 14 }
    else if i == 2 { 13 }
    else if i == 3 { 11 }
    else if i == 4 { 7 }
    else if i == 5 { 12 }
    else if i == 6 { 10 }
    else if i == 7 { 6 }
    else if i == 8 { 9 }
    else if i == 9 { 5 }
    else if i == 10 { 3 }
    else if i == 11 { 8 }
    else if i == 12 { 4 }
    else if i == 13 { 2 }
    else if i == 14 { 1 }
    else { 0 };
    KeyModifiers { bits }
}

/// The first mask, from position `i` of the precedence order on, that the
/// held modifiers include and that `keys` binds for `code`.
pub open spec fn match_from(keys: Map<u64, JamStateKeyAction>, code: KeyCode, mods: u8, i: int) -> Option<u8>
    decreases 16 - i,
{
    if i >= 16 {
        None
    } else if mods & ordered_mask(i) == ordered_mask(i) && keys.contains_key(
        chord_key(KeyChord(code, KeyModifiers { bits: ordered_mask(i) })) as u64,
    ) {
        Some(ordered_mask(i))
    } else {
        match_from(keys, code, mods, i + 1)
    }
}

/// The mask under which a press of `key` matches a binding of `keys`.
pub open spec fn resolve(keys: Map<u64, JamStateKeyAction>, key: KeyChord) -> Option<u8> {
    match_from(keys, key.0, key.1.bits, 0)
}

/// The action bound to `chord` in `mode`, or its default.
pub open spec fn action_for(mode: ModeView, chord: KeyChord) -> JamStateKeyAction {
    if mode.keys.contains_key(chord_key(chord) as u64) {
        mode.keys[chord_key(chord) as u64]
    } else {
        mode.default
    }
}

/// What a press of `key` in `mode` does: the chord it matched (the bound
/// chord, or the key as pressed) and the action that fires.
pub open spec fn press_spec(mode: ModeView, key: KeyChord) -> (KeyChord, JamStateKeyAction) {
    match resolve(mode.keys, key) {
        Some(m) => {
            let c = KeyChord(key.0, KeyModifiers { bits: m });
            (c, mode.keys[chord_key(c) as u64])
        },
        None => (key, mode.default),
    }
}

/// What a release of `code` fires, given what presses recorded: the release
/// handler of the action that the press matched, in the mode it was pressed
/// in.
pub open spec fn release_spec(
    modes: Seq<ModeView>,
    pressed: Map<u64, (u32, KeyModifiers)>,
    code: KeyCode,
) -> Option<Fired> {
    let k = code_index(code) as u64;
    if !pressed.contains_key(k) {
        None
    } else {
        let chord = KeyChord(code, pressed[k].1);
        match action_for(modes[pressed[k].0 as int], chord).effect_up {
            Some(e) => Some(Fired { effect: e, chord }),
            None => None,
        }
    }
}

/// The key dispatch state: the modes (mode 0 is "Normal"), the current mode,
/// for each held key the mode and mask its press matched, and whether a key
/// callback is running.
pub struct JamConfig {
    state_machine: Vec<JamState>,
    current_state: u32,
    keyup_actions: HashMap<u64, (u32, KeyModifiers)>,
    in_effect: bool,
}

/// The mode a press enters: the action's target when that mode exists, else
/// the mode it was pressed in.
pub open spec fn entered(mode_count: nat, current: u32, target: u32) -> u32 {
    if target < mode_count {
        target
    } else {
        current
    }
}

impl JamConfig {
    pub closed spec fn modes(&self) -> Seq<ModeView> {
        Seq::new(
            self.state_machine@.len(),
            |i: int|
                ModeView {
                    name: self.state_machine@[i].name@,
                    keys: self.state_machine@[i].keys@,
                    default: self.state_machine@[i].default,
                },
        )
    }

    pub closed spec fn current(&self) -> u32 {
        self.current_state
    }

    pub closed spec fn pressed(&self) -> Map<u64, (u32, KeyModifiers)> {
        self.keyup_actions@
    }

    /// Whether a key callback is running.
    pub closed spec fn in_effect_spec(&self) -> bool {
        self.in_effect
    }

    /// The current mode and every mode recorded for a held key exist.
    pub open spec fn wf(&self) -> bool {
        &&& 0 < self.modes().len() <= u32::MAX
        &&& self.current() < self.modes().len()
        &&& forall|k: u64| #[trigger] self.pressed().contains_key(k) ==> self.pressed()[k].0 < self.modes().len()
    }

    /// The dispatch state with only the mode "Normal", which binds nothing and
    /// whose default runs `noop` and stays in Normal.
    pub fn new(noop: KeyCallback) -> (r: JamConfig)
        ensures
            r.wf(),
            r.modes().len() == 1,
            r.modes()[0].name == "Normal"@,
            r.modes()[0].keys == Map::<u64, JamStateKeyAction>::empty(),
            r.modes()[0].default == (JamStateKeyAction { effect: noop, effect_up: None, state: 0 }),
            r.current() == 0,
            r.pressed() == Map::<u64, (u32, KeyModifiers)>::empty(),
            !r.in_effect_spec(),
    {
        let mut state_machine: Vec<JamState> = Vec::new();
        state_machine.push(
            JamState {
                name: String::from_str("Normal"),
                keys: HashMap::new(),
                default: JamStateKeyAction { effect: noop, effect_up: None, state: 0 },
            },
        );
        let r = JamConfig {
            state_machine,
            current_state: 0,
            keyup_actions: HashMap::new(),
            in_effect: false,
        };
        assert(r.modes()[0].keys =~= Map::<u64, JamStateKeyAction>::empty());
        r
    }

    /// The number of modes.
    pub fn mode_count(&self) -> (r: usize)
        ensures
            r == self.modes().len(),
    {
        self.state_machine.len()
    }

    /// The current mode.
    pub fn current_state(&self) -> (r: u32)
        ensures
            r == self.current(),
    {
        self.current_state
    }

    /// Whether a key callback is running.
    pub fn in_effect(&self) -> (r: bool)
        ensures
            r == self.in_effect_spec(),
    {
        self.in_effect
    }

    /// Marks a key callback as running (`true`) or finished (`false`).
    pub fn set_in_effect(&mut self, active: bool)
        requires
            old(self).wf(),
        ensures
            final(self).wf(),
            final(self).in_effect_spec() == active,
            final(self).modes() == old(self).modes(),
            final(self).current() == old(self).current(),
            final(self).pressed() == old(self).pressed(),
    {
        self.in_effect = active;
        proof {
            assert(self.modes() =~= old(self).modes());
            assert forall|k: u64| #[trigger] self.pressed().contains_key(k) implies self.pressed()[k].0
                < self.modes().len() by {
                assert(old(self).pressed().contains_key(k));
            }
        }
    }

    /// Dispatches a press of `key` in the current mode: the first mask of the
    /// precedence order that the held modifiers include and that the mode
    /// binds for the key wins; otherwise the mode's default fires with the
    /// chord as pressed. Enters the action's target mode if it exists (else
    /// stays), and records, for the release, the mode of the press and the
    /// matched mask.
    pub fn keymap_action(&mut self, key: KeyChord) -> (r: Fired)
        requires
            old(self).wf(),
        ensures
            final(self).wf(),
            final(self).modes() == old(self).modes(),
            final(self).in_effect_spec() == old(self).in_effect_spec(),
            ({
                let (c, a) = press_spec(old(self).modes()[old(self).current() as int], key);
                &&& r == (Fired { effect: a.effect, chord: c })
                &&& final(self).current() == entered(
                    old(self).modes().len(),
                    old(self).current(),
                    a.state,
                )
                &&& final(self).pressed() == old(self).pressed().insert(
                    code_index(key.0) as u64,
                    (old(self).current(), c.1),
                )
            }),
    {
        let st = self.current_state;
        let ghost mode = self.modes()[st as int];
        let mut found: Option<(KeyModifiers, JamStateKeyAction)> = None;
        let mut i: usize = 0;
        {
            let state = &self.state_machine[st as usize];
            assert(state.keys@ == mode.keys);
            while i < 16
                invariant_except_break
                    found.is_none(),
                invariant
                    i <= 16,
                    state.keys@ == mode.keys,
                    resolve(mode.keys, key) == match_from(mode.keys, key.0, key.1.bits, i as int),
                ensures
                    match found {
                        Some((m, a)) => resolve(mode.keys, key) == Some(m.bits) && mode.keys.contains_key(
                            chord_key(KeyChord(key.0, m)) as u64,
                        ) && a == mode.keys[chord_key(KeyChord(key.0, m)) as u64],
                        None => resolve(mode.keys, key).is_none(),
                    },
                decreases 16 - i,
            {
                let mask = ordered_modifier(i);
                if key.1.contains(mask) {
                    let k = chord_index(KeyChord(key.0, mask));
                    match state.keys.get(&k) {
                        Some(a) => {
                            found = Some((mask, *a));
                            break;
                        },
                        None => {},
                    }
                }
                i = i + 1;
            }
        }
        let (chord, action) = match found {
            Some((m, a)) => (KeyChord(key.0, m), a),
            None => (key, self.state_machine[st as usize].default),
        };
        proof {
            assert(mode == old(self).modes()[st as int]);
        }
        if (action.state as usize) < self.state_machine.len() {
            self.current_state = action.state;
        }
        self.keyup_actions.insert(key_index(key.0), (st, chord.1));
        proof {
            assert(self.modes() =~= old(self).modes());
            assert forall|k: u64| #[trigger] self.pressed().contains_key(k) implies self.pressed()[k].0
                < self.modes().len() by {
                if k != code_index(key.0) as u64 {
                    assert(old(self).pressed().contains_key(k));
                }
            }
        }
        Fired { effect: action.effect, chord }
    }

    /// Dispatches a release of `code`: forgets the record of its press and
    /// fires the release handler of the action that the press matched, in the
    /// mode it was pressed in. A key with no record fires nothing.
    pub fn keymap_release_action(&mut self, code: KeyCode) -> (r: Option<Fired>)
        requires
            old(self).wf(),
        ensures
            final(self).wf(),
            final(self).modes() == old(self).modes(),
            final(self).current() == old(self).current(),
            final(self).in_effect_spec() == old(self).in_effect_spec(),
            final(self).pressed() == old(self).pressed().remove(code_index(code) as u64),
            r == release_spec(old(self).modes(), old(self).pressed(), code),
    {
        let removed = self.keyup_actions.remove(&key_index(code));
        proof {
            assert(self.modes() =~= old(self).modes());
        }
        match removed {
            None => None,
            Some((st, mods)) => {
                let chord = KeyChord(code, mods);
                let state = &self.state_machine[st as usize];
                let action = match state.keys.get(&chord_index(chord)) {
                    Some(a) => *a,
                    None => state.default,
                };
                match action.effect_up {
                    Some(e) => Some(Fired { effect: e, chord }),
                    None => None,
                }
            },
        }
    }

    /// Appends a mode named `name` whose default runs `default_action` and
    /// enters `default_target` (which may be a mode made later); returns its
    /// index. Refused while a key callback runs.
    pub fn native_make_mode(
        &mut self,
        name: String,
        default_target: u32,
        default_action: KeyCallback,
    ) -> (r: Result<u32, DispatchError>)
        requires
            old(self).wf(),
        ensures
            final(self).wf(),
            final(self).current() == old(self).current(),
            final(self).pressed() == old(self).pressed(),
            final(self).in_effect_spec() == old(self).in_effect_spec(),
            old(self).in_effect_spec() ==> {
                &&& r == Err::<u32, DispatchError>(DispatchError::InsideEffect)
                &&& final(self).modes() == old(self).modes()
            },
            !old(self).in_effect_spec() && old(self).modes().len() >= u32::MAX ==> {
                &&& r == Err::<u32, DispatchError>(DispatchError::TooManyModes)
                &&& final(self).modes() == old(self).modes()
            },
            !old(self).in_effect_spec() && old(self).modes().len() < u32::MAX ==> {
                &&& r == Ok::<u32, DispatchError>(old(self).modes().len() as u32)
                &&& final(self).modes() == old(self).modes().push(
                    ModeView {
                        name: name@,
                        keys: Map::empty(),
                        default: JamStateKeyAction {
                            effect: default_action,
                            effect_up: None,
                            state: default_target,
                        },
                    },
                )
            },
    {
        if self.in_effect {
            return Err(DispatchError::InsideEffect);
        }
        let n = self.state_machine.len();
        if n >= u32::MAX as usize {
            return Err(DispatchError::TooManyModes);
        }
        let ghost name_view = name@;
        self.state_machine.push(
            JamState {
                name,
                keys: HashMap::new(),
                default: JamStateKeyAction {
                    effect: default_action,
                    effect_up: None,
                    state: default_target,
                },
            },
        );
        proof {
            let added = ModeView {
                name: name_view,
                keys: Map::empty(),
                default: JamStateKeyAction {
                    effect: default_action,
                    effect_up: None,
                    state: default_target,
                },
            };
            assert(self.modes()[n as int].keys =~= Map::<u64, JamStateKeyAction>::empty());
            assert(self.modes() =~= old(self).modes().push(added));
            assert forall|k: u64| #[trigger] self.pressed().contains_key(k) implies self.pressed()[k].0
                < self.modes().len() by {
                assert(old(self).pressed().contains_key(k));
            }
        }
        Ok(n as u32)
    }

    proof fn lemma_keys_update(&self, before: &JamConfig, m: int, keys: Map<u64, JamStateKeyAction>)
        requires
            before.wf(),
            0 <= m < before.modes().len(),
            self.modes() == before.modes().update(m, ModeView { keys, ..before.modes()[m] }),
            self.current() == before.current(),
            self.pressed() == before.pressed(),
        ensures
            self.wf(),
    {
        assert forall|k: u64| #[trigger] self.pressed().contains_key(k) implies self.pressed()[k].0
            < self.modes().len() by {
            assert(before.pressed().contains_key(k));
        }
    }

    /// Binds `key` in `mode` to run `action` and enter `next` (by default the
    /// same mode; it may be a mode made later), with no release handler;
    /// returns the effect it replaced. Refused while a key callback runs.
    pub fn native_bind(
        &mut self,
        mode: u32,
        key: KeyChord,
        action: KeyCallback,
        next: Option<u32>,
    ) -> (r: Result<Option<KeyCallback>, DispatchError>)
        requires
            old(self).wf(),
        ensures
            final(self).wf(),
            final(self).current() == old(self).current(),
            final(self).pressed() == old(self).pressed(),
            final(self).in_effect_spec() == old(self).in_effect_spec(),
            ({
                let target = match next {
                    Some(n) => n,
                    None => mode,
                };
                let k = chord_key(key) as u64;
                if old(self).in_effect_spec() {
                    r == Err::<Option<KeyCallback>, DispatchError>(DispatchError::InsideEffect)
                        && final(self).modes() == old(self).modes()
                } else if mode >= old(self).modes().len() {
                    r == Err::<Option<KeyCallback>, DispatchError>(DispatchError::BadMode(mode))
                        && final(self).modes() == old(self).modes()
                } else {
                    let before = old(self).modes()[mode as int];
                    &&& r == Ok::<Option<KeyCallback>, DispatchError>(
                        if before.keys.contains_key(k) {
                            Some(before.keys[k].effect)
                        } else {
                            None
                        },
                    )
                    &&& final(self).modes() == old(self).modes().update(
                        mode as int,
                        ModeView {
                            keys: before.keys.insert(
                                k,
                                JamStateKeyAction { effect: action, effect_up: None, state: target },
                            ),
                            ..before
                        },
                    )
                }
            }),
    {
        if self.in_effect {
            return Err(DispatchError::InsideEffect);
        }
        let target = match next {
            Some(n) => n,
            None => mode,
        };
        if mode as usize >= self.state_machine.len() {
            return Err(DispatchError::BadMode(mode));
        }
        let k = chord_index(key);
        let ghost before = self.modes()[mode as int];
        let prev = self.state_machine[mode as usize].keys.insert(
            k,
            JamStateKeyAction { effect: action, effect_up: None, state: target },
        );
        proof {
            let keys = before.keys.insert(
                k,
                JamStateKeyAction { effect: action, effect_up: None, state: target },
            );
            assert(self.modes() =~= old(self).modes().update(mode as int, ModeView { keys, ..before }));
            self.lemma_keys_update(old(self), mode as int, keys);
        }
        match prev {
            Some(a) => Ok(Some(a.effect)),
            None => Ok(None),
        }
    }

    /// Sets the release handler of the binding of `key` in `mode`; returns
    /// the handler it replaced. Refused while a key callback runs.
    pub fn native_bind_up(&mut self, mode: u32, key: KeyChord, action: KeyCallback) -> (r: Result<
        Option<KeyCallback>,
        DispatchError,
    >)
        requires
            old(self).wf(),
        ensures
            final(self).wf(),
            final(self).current() == old(self).current(),
            final(self).pressed() == old(self).pressed(),
            final(self).in_effect_spec() == old(self).in_effect_spec(),
            ({
                let k = chord_key(key) as u64;
                if old(self).in_effect_spec() {
                    r == Err::<Option<KeyCallback>, DispatchError>(DispatchError::InsideEffect)
                        && final(self).modes() == old(self).modes()
                } else if mode >= old(self).modes().len() {
                    r == Err::<Option<KeyCallback>, DispatchError>(DispatchError::BadMode(mode))
                        && final(self).modes() == old(self).modes()
                } else if !old(self).modes()[mode as int].keys.contains_key(k) {
                    r == Err::<Option<KeyCallback>, DispatchError>(DispatchError::NotBound)
                        && final(self).modes() == old(self).modes()
                } else {
                    let before = old(self).modes()[mode as int];
                    &&& r == Ok::<Option<KeyCallback>, DispatchError>(before.keys[k].effect_up)
                    &&& final(self).modes() == old(self).modes().update(
                        mode as int,
                        ModeView {
                            keys: before.keys.insert(
                                k,
                                JamStateKeyAction { effect_up: Some(action), ..before.keys[k] },
                            ),
                            ..before
                        },
                    )
                }
            }),
    {
        if self.in_effect {
            return Err(DispatchError::InsideEffect);
        }
        if mode as usize >= self.state_machine.len() {
            return Err(DispatchError::BadMode(mode));
        }
        let k = chord_index(key);
        let ghost before = self.modes()[mode as int];
        let current = match self.state_machine[mode as usize].keys.get(&k) {
            Some(a) => *a,
            None => {
                return Err(DispatchError::NotBound);
            },
        };
        let updated = JamStateKeyAction { effect_up: Some(action), ..current };
        self.state_machine[mode as usize].keys.insert(k, updated);
        proof {
            let keys = before.keys.insert(k, updated);
            assert(self.modes() =~= old(self).modes().update(mode as int, ModeView { keys, ..before }));
            self.lemma_keys_update(old(self), mode as int, keys);
        }
        Ok(current.effect_up)
    }

    /// Removes the binding of `key` in `mode`; returns the effect it had.
    /// Refused while a key callback runs.
    pub fn native_unbind(&mut self, mode: u32, key: KeyChord) -> (r: Result<
        Option<KeyCallback>,
        DispatchError,
    >)
        requires
            old(self).wf(),
        ensures
            final(self).wf(),
            final(self).current() == old(self).current(),
            final(self).pressed() == old(self).pressed(),
            final(self).in_effect_spec() == old(self).in_effect_spec(),
            ({
                let k = chord_key(key) as u64;
                if old(self).in_effect_spec() {
                    r == Err::<Option<KeyCallback>, DispatchError>(DispatchError::InsideEffect)
                        && final(self).modes() == old(self).modes()
                } else if mode >= old(self).modes().len() {
                    r == Err::<Option<KeyCallback>, DispatchError>(DispatchError::BadMode(mode))
                        && final(self).modes() == old(self).modes()
                } else {
                    let before = old(self).modes()[mode as int];
                    &&& r == Ok::<Option<KeyCallback>, DispatchError>(
                        if before.keys.contains_key(k) {
                            Some(before.keys[k].effect)
                        } else {
                            None
                        },
                    )
                    &&& final(self).modes() == old(self).modes().update(
                        mode as int,
                        ModeView { keys: before.keys.remove(k), ..before },
                    )
                }
            }),
    {
        if self.in_effect {
            return Err(DispatchError::InsideEffect);
        }
        if mode as usize >= self.state_machine.len() {
            return Err(DispatchError::BadMode(mode));
        }
        let k = chord_index(key);
        let ghost before = self.modes()[mode as int];
        let prev = self.state_machine[mode as usize].keys.remove(&k);
        proof {
            let keys = before.keys.remove(k);
            assert(self.modes() =~= old(self).modes().update(mode as int, ModeView { keys, ..before }));
            self.lemma_keys_update(old(self), mode as int, keys);
        }
        match prev {
            Some(a) => Ok(Some(a.effect)),
            None => Ok(None),
        }
    }
}

/// The events a play sends: the instrument's next pitch when one is given,
/// then a hit on `voice` (voice 0 when none is given). A duration is refused.
pub fn native_play(instrument: u32, pitch: Option<u32>, voice: Option<u32>, duration: Option<u32>) -> (r:
    Result<Vec<JamEvent>, DispatchError>)
    ensures
        duration is Some ==> r == Err::<Vec<JamEvent>, DispatchError>(DispatchError::DurationUnsupported),
        duration is None ==> r is Ok && ({
            let hit = JamEvent::InstrumentEvent {
                instrument,
                event: InstrumentEvent::NoteEvent {
                    voice: match voice {
                        Some(v) => v,
                        None => 0,
                    },
                    event: NoteEvent::Hit {  },
                },
            };
            match pitch {
                Some(p) => r->Ok_0@ == seq![
                    JamEvent::InstrumentEvent {
                        instrument,
                        event: InstrumentEvent::SetParam {
                            param: InstrumentParam::NextNote(NoteParam::Pitch(p)),
                        },
                    },
                    hit,
                ],
                None => r->Ok_0@ == seq![hit],
            }
        }),
{
    if duration.is_some() {
        return Err(DispatchError::DurationUnsupported);
    }
    let v = match voice {
        Some(v) => v,
        None => 0,
    };
    let mut events: Vec<JamEvent> = Vec::new();
    match pitch {
        Some(p) => {
            events.push(
                JamEvent::InstrumentEvent {
                    instrument,
                    event: InstrumentEvent::SetParam {
                        param: InstrumentParam::NextNote(NoteParam::Pitch(p)),
                    },
                },
            );
        },
        None => {},
    }
    events.push(
        JamEvent::InstrumentEvent {
            instrument,
            event: InstrumentEvent::NoteEvent { voice: v, event: NoteEvent::Hit {  } },
        },
    );
    proof {
        let hit = JamEvent::InstrumentEvent {
            instrument,
            event: InstrumentEvent::NoteEvent { voice: v, event: NoteEvent::Hit {  } },
        };
        match pitch {
            Some(p) => {
                assert(events@ =~= seq![
                    JamEvent::InstrumentEvent {
                        instrument,
                        event: InstrumentEvent::SetParam {
                            param: InstrumentParam::NextNote(NoteParam::Pitch(p)),
                        },
                    },
                    hit,
                ]);
            },
            None => {
                assert(events@ =~= seq![hit]);
            },
        }
    }
    Ok(events)
}

/// The event a mute sends: a mute of `voice` (voice 0 when none is given).
pub fn native_mute(instrument: u32, voice: Option<u32>) -> (r: JamEvent)
    ensures
        r == (JamEvent::InstrumentEvent {
            instrument,
            event: InstrumentEvent::NoteEvent {
                voice: match voice {
                    Some(v) => v,
                    None => 0,
                },
                event: NoteEvent::Mute {  },
            },
        }),
{
    let v = match voice {
        Some(v) => v,
        None => 0,
    };
    JamEvent::InstrumentEvent {
        instrument,
        event: InstrumentEvent::NoteEvent { voice: v, event: NoteEvent::Mute {  } },
    }
}

/// The table key of `code` under the modifier mask `bits`.
pub open spec fn masked_key(code: KeyCode, bits: u8) -> u64 {
    chord_key(KeyChord(code, KeyModifiers { bits })) as u64
}

/// With `C-x` and `C-S-x` bound (and neither `S-x` nor a bare `x`),
/// Ctrl+Shift+x fires `C-S-x`; once that binding is removed it fires `C-x`;
/// once both are removed it fires the mode's default.
pub proof fn lemma_modifier_precedence(mode: ModeView, code: KeyCode)
    requires
        mode.keys.contains_key(masked_key(code, 1)),
        mode.keys.contains_key(masked_key(code, 3)),
        !mode.keys.contains_key(masked_key(code, 2)),
        !mode.keys.contains_key(masked_key(code, 0)),
    ensures
        ({
            let pressed = KeyChord(code, KeyModifiers { bits: 3 });
            let without_cs = ModeView { keys: mode.keys.remove(masked_key(code, 3)), ..mode };
            let without_both = ModeView {
                keys: mode.keys.remove(masked_key(code, 3)).remove(masked_key(code, 1)),
                ..mode
            };
            &&& press_spec(mode, pressed) == (pressed, mode.keys[masked_key(code, 3)])
            &&& press_spec(without_cs, pressed) == (
                KeyChord(code, KeyModifiers { bits: 1 }),
                mode.keys[masked_key(code, 1)],
            )
            &&& press_spec(without_both, pressed) == (pressed, mode.default)
        }),
{
    assert(3u8 & 15u8 != 15u8 && 3u8 & 14u8 != 14u8 && 3u8 & 13u8 != 13u8 && 3u8 & 11u8 != 11u8
        && 3u8 & 7u8 != 7u8 && 3u8 & 12u8 != 12u8 && 3u8 & 10u8 != 10u8 && 3u8 & 6u8 != 6u8
        && 3u8 & 9u8 != 9u8 && 3u8 & 5u8 != 5u8 && 3u8 & 3u8 == 3u8 && 3u8 & 8u8 != 8u8
        && 3u8 & 4u8 != 4u8 && 3u8 & 2u8 == 2u8 && 3u8 & 1u8 == 1u8 && 3u8 & 0u8 == 0u8) by (bit_vector);
    reveal_with_fuel(match_from, 17);
    let k1 = masked_key(code, 1);
    let k3 = masked_key(code, 3);
    assert(k1 != k3);
    assert(masked_key(code, 2) != k3 && masked_key(code, 2) != k1);
    assert(masked_key(code, 0) != k3 && masked_key(code, 0) != k1);
}

/// A release fires the handler of the binding its press matched, in the mode
/// the press happened in, whatever mode is current by then.
pub proof fn lemma_release_routing(
    modes: Seq<ModeView>,
    pressed: Map<u64, (u32, KeyModifiers)>,
    mode: u32,
    key: KeyChord,
)
    requires
        mode < modes.len(),
    ensures
        ({
            let (chord, _) = press_spec(modes[mode as int], key);
            let recorded = pressed.insert(code_index(key.0) as u64, (mode, chord.1));
            &&& chord.0 == key.0
            &&& release_spec(modes, recorded, key.0) == match action_for(modes[mode as int], chord).effect_up {
                Some(e) => Some(Fired { effect: e, chord }),
                None => None,
            }
        }),
{
}

} // verus!
