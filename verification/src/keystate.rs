//! The debounce/hold/repeat state machine.
//!
//! Each analysis window yields an optional symbol; feeding it together with
//! the current time (in milliseconds) into the state machine decides whether
//! a press, repeat or release event is emitted. A note must sustain for
//! `HOLD_THRESHOLD_MILLIS` before auto-repeat begins, and repeats are spaced
//! at least `REPEAT_INTERVAL_MILLIS` apart.

use vstd::prelude::*;
use crate::classifier::Symbol;

verus! {

/// How long a note must sustain before auto-repeat begins, in milliseconds.
pub const HOLD_THRESHOLD_MILLIS: u64 = 250;

/// Minimum spacing between consecutive auto-repeated presses, in milliseconds.
pub const REPEAT_INTERVAL_MILLIS: u64 = 100;

/// A discrete event decided by the state machine for one analysis window.
#[derive(Clone, Copy, Debug, PartialEq, Eq, Structural)]
pub enum Action {
    /// A symbol became active: its key is pressed once.
    Press(Symbol),
    /// The active symbol sustained past the hold threshold: its key is
    /// pressed again.
    Repeat(Symbol),
    /// The pitch disappeared: the active symbol is let go. No key event is
    /// injected for a release; it only clears the machine's state.
    Release(Symbol),
}

/// The mutable core of the pipeline: which symbol is currently held, when it
/// became active, and when a press or repeat was last emitted for it.
#[derive(Clone, Copy, Debug)]
pub struct KeyState {
    /// The symbol currently considered held, if any.
    pub active_symbol: Option<Symbol>,
    /// When the active symbol first became active, in milliseconds.
    pub hold_start: Option<u64>,
    /// When the last press or repeat was emitted for the active symbol,
    /// in milliseconds.
    pub last_repeat_emit: Option<u64>,
}

impl KeyState {
    /// Structural invariant: an idle machine carries no timestamps, and a
    /// holding machine knows when its hold began.
    pub open spec fn wf(self) -> bool {
        &&& self.active_symbol is None ==> self.hold_start is None
            && self.last_repeat_emit is None
        &&& self.active_symbol is Some ==> self.hold_start is Some
    }

    /// Every timestamp the machine carries lies at or before `now`: the
    /// clock it is driven with never runs backwards.
    pub open spec fn marks_at_most(self, now: int) -> bool {
        &&& (self.hold_start matches Some(t) ==> t <= now)
        &&& (self.last_repeat_emit matches Some(t) ==> t <= now)
    }

    /// The idle state: no active symbol, no timestamps.
    pub open spec fn spec_idle() -> KeyState {
        KeyState { active_symbol: None, hold_start: None, last_repeat_emit: None }
    }

    /// The state right after `s` was pressed at time `now`.
    pub open spec fn spec_pressed(s: Symbol, now: u64) -> KeyState {
        KeyState { active_symbol: Some(s), hold_start: Some(now), last_repeat_emit: Some(now) }
    }

    /// Creates the machine in its idle state.
    pub fn new() -> (r: KeyState)
        ensures
            r == KeyState::spec_idle(),
    {
        KeyState { active_symbol: None, hold_start: None, last_repeat_emit: None }
    }

    /// Feeds one classification result into the machine and returns the
    /// emitted action, if any, exactly as `spec_step` describes.
    pub fn step(&mut self, new_symbol: Option<Symbol>, now: u64) -> (act: Option<Action>)
        requires
            old(self).wf(),
            old(self).marks_at_most(now as int),
        ensures
            *final(self) == spec_step(*old(self), new_symbol, now).0,
            act == spec_step(*old(self), new_symbol, now).1,
            final(self).wf(),
            final(self).marks_at_most(now as int),
    {
        let active = self.active_symbol;
        match (new_symbol, active) {
            (Some(s), Some(a)) if s == a => {
                let start = match self.hold_start {
                    Some(t) => t,
                    None => now,
                };
                if now - start >= HOLD_THRESHOLD_MILLIS {
                    let due = match self.last_repeat_emit {
                        Some(last) => now - last >= REPEAT_INTERVAL_MILLIS,
                        None => true,
                    };
                    if due {
                        self.last_repeat_emit = Some(now);
                        Some(Action::Repeat(a))
                    } else {
                        None
                    }
                } else {
                    None
                }
            }
            (Some(s), _) => {
                self.active_symbol = Some(s);
                self.hold_start = Some(now);
                self.last_repeat_emit = Some(now);
                Some(Action::Press(s))
            }
            (None, Some(a)) => {
                self.active_symbol = None;
                self.hold_start = None;
                self.last_repeat_emit = None;
                Some(Action::Release(a))
            }
            (None, None) => None,
        }
    }
}

/// The transition function of the machine: from a state, a classification
/// result and the current time to the next state and the emitted action.
///
/// A sustained symbol repeats once the hold threshold has passed and the
/// last emission lies at least a repeat interval back; a new symbol is
/// pressed at once, even over a different held one, with no release in
/// between; silence releases whatever was held.
pub open spec fn spec_step(st: KeyState, new_symbol: Option<Symbol>, now: u64) -> (KeyState, Option<Action>) {
    match (new_symbol, st.active_symbol) {
        (Some(s), Some(a)) => {
            if s == a {
                let start = st.hold_start->Some_0;
                let repeat_due = now - start >= HOLD_THRESHOLD_MILLIS
                    && (st.last_repeat_emit is None
                        || now - st.last_repeat_emit->Some_0 >= REPEAT_INTERVAL_MILLIS);
                if repeat_due {
                    (
                        KeyState {
                            active_symbol: Some(a),
                            hold_start: st.hold_start,
                            last_repeat_emit: Some(now),
                        },
                        Some(Action::Repeat(a)),
                    )
                } else {
                    (st, None)
                }
            } else {
                (KeyState::spec_pressed(s, now), Some(Action::Press(s)))
            }
        }
        (Some(s), None) => (KeyState::spec_pressed(s, now), Some(Action::Press(s))),
        (None, Some(a)) => (KeyState::spec_idle(), Some(Action::Release(a))),
        (None, None) => (st, None),
    }
}

/// Runs the machine over a sequence of `(classification, time)` inputs from
/// a starting state, collecting every emitted action together with the time
/// it was emitted at.
pub open spec fn spec_run(st: KeyState, inputs: Seq<(Option<Symbol>, u64)>) -> (KeyState, Seq<(u64, Action)>)
    decreases inputs.len(),
{
    if inputs.len() == 0 {
        (st, Seq::empty())
    } else {
        let stepped = spec_step(st, inputs[0].0, inputs[0].1);
        let rest = spec_run(stepped.0, inputs.drop_first());
        match stepped.1 {
            Some(a) => (rest.0, seq![(inputs[0].1, a)] + rest.1),
            None => rest,
        }
    }
}

/// Every input of the sequence reports the same symbol `s`.
pub open spec fn sustained(inputs: Seq<(Option<Symbol>, u64)>, s: Symbol) -> bool {
    forall|i: int| 0 <= i < inputs.len() ==> (#[trigger] inputs[i]).0 == Some(s)
}

/// The input times never decrease.
pub open spec fn times_monotone(inputs: Seq<(Option<Symbol>, u64)>) -> bool {
    forall|i: int, j: int|
        0 <= i <= j < inputs.len() ==> (#[trigger] inputs[i]).1 <= (#[trigger] inputs[j]).1
}

/// While a held symbol is sustained and the hold threshold has not passed
/// yet, the machine emits nothing and does not move.
proof fn lemma_hold_quiet(st: KeyState, inputs: Seq<(Option<Symbol>, u64)>, s: Symbol, t0: u64)
    requires
        st.active_symbol == Some(s),
        st.hold_start == Some(t0),
        sustained(inputs, s),
        forall|i: int| 0 <= i < inputs.len() ==> (#[trigger] inputs[i]).1 < t0 + HOLD_THRESHOLD_MILLIS,
    ensures
        spec_run(st, inputs) == (st, Seq::<(u64, Action)>::empty()),
    decreases inputs.len(),
{
    if inputs.len() > 0 {
        let stepped = spec_step(st, inputs[0].0, inputs[0].1);
        assert(stepped == (st, None::<Action>));
        let rest = inputs.drop_first();
        assert forall|i: int| 0 <= i < rest.len() implies (#[trigger] rest[i]).0 == Some(s)
            && rest[i].1 < t0 + HOLD_THRESHOLD_MILLIS by {
            assert(rest[i] == inputs[i + 1]);
        }
        lemma_hold_quiet(st, rest, s, t0);
    }
}

/// Idempotence law under sustained input: from idle, a symbol reported on
/// every window of a span shorter than the hold threshold yields exactly one
/// press, at the first input time, and no repeat; the machine is left
/// holding the symbol as the press left it.
pub proof fn lemma_sustained_short_hold_presses_once(inputs: Seq<(Option<Symbol>, u64)>, s: Symbol)
    requires
        inputs.len() >= 1,
        sustained(inputs, s),
        times_monotone(inputs),
        inputs.last().1 < inputs[0].1 + HOLD_THRESHOLD_MILLIS,
    ensures
        spec_run(KeyState::spec_idle(), inputs).1 == seq![(inputs[0].1, Action::Press(s))],
        spec_run(KeyState::spec_idle(), inputs).0 == KeyState::spec_pressed(s, inputs[0].1),
{
    let t0 = inputs[0].1;
    let stepped = spec_step(KeyState::spec_idle(), inputs[0].0, t0);
    assert(stepped == (KeyState::spec_pressed(s, t0), Some(Action::Press(s))));
    let rest = inputs.drop_first();
    assert forall|i: int| 0 <= i < rest.len() implies (#[trigger] rest[i]).0 == Some(s)
        && rest[i].1 < t0 + HOLD_THRESHOLD_MILLIS by {
        assert(rest[i] == inputs[i + 1]);
        assert(inputs[i + 1].1 <= inputs.last().1);
        assert(inputs[0].1 <= inputs[i + 1].1);
    }
    lemma_hold_quiet(KeyState::spec_pressed(s, t0), rest, s, t0);
    assert(spec_run(KeyState::spec_idle(), inputs).1
        =~= seq![(t0, Action::Press(s))]);
}

/// From a holding state, sustained input emits only repeats of the held
/// symbol: none before the hold threshold has passed since the hold began,
/// none within a repeat interval of the last emission, and consecutive
/// repeats spaced at least a repeat interval apart.
proof fn lemma_hold_cadence(st: KeyState, inputs: Seq<(Option<Symbol>, u64)>, s: Symbol, t0: u64, tl: u64)
    requires
        st == (KeyState { active_symbol: Some(s), hold_start: Some(t0), last_repeat_emit: Some(tl) }),
        sustained(inputs, s),
        times_monotone(inputs),
    ensures
        forall|k: int| 0 <= k < spec_run(st, inputs).1.len()
            ==> (#[trigger] spec_run(st, inputs).1[k]).1 == Action::Repeat(s),
        forall|k: int| 0 <= k < spec_run(st, inputs).1.len()
            ==> (#[trigger] spec_run(st, inputs).1[k]).0 >= t0 + HOLD_THRESHOLD_MILLIS,
        spec_run(st, inputs).1.len() >= 1
            ==> spec_run(st, inputs).1[0].0 >= tl + REPEAT_INTERVAL_MILLIS,
        forall|k: int| 1 <= k < spec_run(st, inputs).1.len()
            ==> (#[trigger] spec_run(st, inputs).1[k]).0
                >= spec_run(st, inputs).1[k - 1].0 + REPEAT_INTERVAL_MILLIS,
    decreases inputs.len(),
{
    if inputs.len() > 0 {
        let t = inputs[0].1;
        let stepped = spec_step(st, inputs[0].0, t);
        let rest = inputs.drop_first();
        assert forall|i: int| 0 <= i < rest.len() implies (#[trigger] rest[i]).0 == Some(s) by {
            assert(rest[i] == inputs[i + 1]);
        }
        assert forall|i: int, j: int| 0 <= i <= j < rest.len()
            implies (#[trigger] rest[i]).1 <= (#[trigger] rest[j]).1 by {
            assert(rest[i] == inputs[i + 1]);
            assert(rest[j] == inputs[j + 1]);
        }
        if t - t0 >= HOLD_THRESHOLD_MILLIS && t - tl >= REPEAT_INTERVAL_MILLIS {
            let st1 = KeyState { active_symbol: Some(s), hold_start: Some(t0), last_repeat_emit: Some(t) };
            assert(stepped == (st1, Some(Action::Repeat(s))));
            lemma_hold_cadence(st1, rest, s, t0, t);
            let out = spec_run(st, inputs).1;
            let tail = spec_run(st1, rest).1;
            assert(out == seq![(t, Action::Repeat(s))] + tail);
            assert forall|k: int| 1 <= k < out.len() implies (#[trigger] out[k]) == tail[k - 1] by {
            }
        } else {
            assert(stepped == (st, None::<Action>));
            lemma_hold_cadence(st, rest, s, t0, tl);
            assert forall|i: int| 0 <= i < rest.len() implies (#[trigger] rest[i]).1 >= inputs[0].1 by {
                assert(rest[i] == inputs[i + 1]);
                assert(inputs[0].1 <= inputs[i + 1].1);
            }
        }
    }
}

/// Repeat-cadence law: under sustained input from idle, the first emitted
/// action is a press at the first input time and every later one a repeat of
/// the same symbol; the first repeat comes no earlier than the hold
/// threshold after the press, and consecutive emissions are spaced at least
/// a repeat interval apart.
pub proof fn lemma_sustained_cadence(inputs: Seq<(Option<Symbol>, u64)>, s: Symbol)
    requires
        inputs.len() >= 1,
        sustained(inputs, s),
        times_monotone(inputs),
    ensures
        spec_run(KeyState::spec_idle(), inputs).1.len() >= 1,
        spec_run(KeyState::spec_idle(), inputs).1[0] == (inputs[0].1, Action::Press(s)),
        forall|k: int| 1 <= k < spec_run(KeyState::spec_idle(), inputs).1.len()
            ==> (#[trigger] spec_run(KeyState::spec_idle(), inputs).1[k]).1 == Action::Repeat(s),
        forall|k: int| 1 <= k < spec_run(KeyState::spec_idle(), inputs).1.len()
            ==> (#[trigger] spec_run(KeyState::spec_idle(), inputs).1[k]).0
                >= inputs[0].1 + HOLD_THRESHOLD_MILLIS,
        forall|k: int| 1 <= k < spec_run(KeyState::spec_idle(), inputs).1.len()
            ==> (#[trigger] spec_run(KeyState::spec_idle(), inputs).1[k]).0
                >= spec_run(KeyState::spec_idle(), inputs).1[k - 1].0 + REPEAT_INTERVAL_MILLIS,
{
    let t0 = inputs[0].1;
    let stepped = spec_step(KeyState::spec_idle(), inputs[0].0, t0);
    assert(stepped == (KeyState::spec_pressed(s, t0), Some(Action::Press(s))));
    let rest = inputs.drop_first();
    assert forall|i: int| 0 <= i < rest.len() implies (#[trigger] rest[i]).0 == Some(s) by {
        assert(rest[i] == inputs[i + 1]);
    }
    assert forall|i: int, j: int| 0 <= i <= j < rest.len()
        implies (#[trigger] rest[i]).1 <= (#[trigger] rest[j]).1 by {
        assert(rest[i] == inputs[i + 1]);
        assert(rest[j] == inputs[j + 1]);
    }
    lemma_hold_cadence(KeyState::spec_pressed(s, t0), rest, s, t0, t0);
    let out = spec_run(KeyState::spec_idle(), inputs).1;
    let tail = spec_run(KeyState::spec_pressed(s, t0), rest).1;
    assert(out == seq![(t0, Action::Press(s))] + tail);
    assert forall|k: int| 1 <= k < out.len() implies (#[trigger] out[k]) == tail[k - 1] by {
    }
    assert forall|k: int| 1 <= k < out.len()
        implies (#[trigger] out[k]).0 >= out[k - 1].0 + REPEAT_INTERVAL_MILLIS by {
        if k == 1 {
            assert(out[1].0 >= t0 + HOLD_THRESHOLD_MILLIS);
        } else {
            assert(out[k] == tail[k - 1] && out[k - 1] == tail[k - 2]);
        }
    }
}

/// Switch-without-release law: a second symbol detected right after another
/// was pressed is itself pressed at once; no release of the first symbol is
/// emitted in between, and the machine ends up holding the second.
pub proof fn lemma_switch_without_release(a: Symbol, b: Symbol, t0: u64, t1: u64)
    requires
        a != b,
    ensures
        spec_run(KeyState::spec_idle(), seq![(Some(a), t0), (Some(b), t1)]).1
            == seq![(t0, Action::Press(a)), (t1, Action::Press(b))],
        spec_run(KeyState::spec_idle(), seq![(Some(a), t0), (Some(b), t1)]).0
            == KeyState::spec_pressed(b, t1),
{
    let inputs = seq![(Some(a), t0), (Some(b), t1)];
    let st1 = KeyState::spec_pressed(a, t0);
    assert(spec_step(KeyState::spec_idle(), inputs[0].0, inputs[0].1)
        == (st1, Some(Action::Press(a))));
    let rest = inputs.drop_first();
    assert(rest =~= seq![(Some(b), t1)]);
    let st2 = KeyState::spec_pressed(b, t1);
    assert(spec_step(st1, rest[0].0, rest[0].1) == (st2, Some(Action::Press(b))));
    assert(rest.drop_first() =~= Seq::<(Option<Symbol>, u64)>::empty());
    assert(spec_run(st2, rest.drop_first()) == (st2, Seq::<(u64, Action)>::empty()));
    assert(spec_run(st1, rest).1 =~= seq![(t1, Action::Press(b))]);
    assert(spec_run(KeyState::spec_idle(), inputs).1
        =~= seq![(t0, Action::Press(a)), (t1, Action::Press(b))]);
}

/// Release-on-silence law: a press followed by a window with no symbol
/// yields exactly the press and then a release of the same symbol, and the
/// machine returns to idle.
pub proof fn lemma_release_on_silence(a: Symbol, t0: u64, t1: u64)
    ensures
        spec_run(KeyState::spec_idle(), seq![(Some(a), t0), (None, t1)]).1
            == seq![(t0, Action::Press(a)), (t1, Action::Release(a))],
        spec_run(KeyState::spec_idle(), seq![(Some(a), t0), (None, t1)]).0
            == KeyState::spec_idle(),
{
    let inputs = seq![(Some(a), t0), (None::<Symbol>, t1)];
    let st1 = KeyState::spec_pressed(a, t0);
    assert(spec_step(KeyState::spec_idle(), inputs[0].0, inputs[0].1)
        == (st1, Some(Action::Press(a))));
    let rest = inputs.drop_first();
    assert(rest =~= seq![(None::<Symbol>, t1)]);
    assert(spec_step(st1, rest[0].0, rest[0].1)
        == (KeyState::spec_idle(), Some(Action::Release(a))));
    assert(rest.drop_first() =~= Seq::<(Option<Symbol>, u64)>::empty());
    assert(spec_run(KeyState::spec_idle(), rest.drop_first())
        == (KeyState::spec_idle(), Seq::<(u64, Action)>::empty()));
    assert(spec_run(st1, rest).1 =~= seq![(t1, Action::Release(a))]);
    assert(spec_run(KeyState::spec_idle(), inputs).1
        =~= seq![(t0, Action::Press(a)), (t1, Action::Release(a))]);
}

} // verus!
