use pitch_to_key::classifier::Symbol;
use pitch_to_key::keystate::{Action, KeyState};

#[test]
fn new_machine_is_idle() {
    let st = KeyState::new();
    assert_eq!(st.active_symbol, None);
    assert_eq!(st.hold_start, None);
    assert_eq!(st.last_repeat_emit, None);
}

#[test]
fn first_symbol_is_pressed_at_once() {
    let mut st = KeyState::new();
    let act = st.step(Some(Symbol::SymA), 7);
    assert_eq!(act, Some(Action::Press(Symbol::SymA)));
    assert_eq!(st.active_symbol, Some(Symbol::SymA));
    assert_eq!(st.hold_start, Some(7));
    assert_eq!(st.last_repeat_emit, Some(7));
}

#[test]
fn sustained_below_hold_threshold_presses_once() {
    // One press, zero repeats, while the note sustains for less than the
    // hold threshold of 250 ms.
    let mut st = KeyState::new();
    let mut actions: Vec<Action> = Vec::new();
    for now in [0u64, 50, 100, 150, 200, 249] {
        if let Some(a) = st.step(Some(Symbol::Up), now) {
            actions.push(a);
        }
    }
    assert_eq!(actions, vec![Action::Press(Symbol::Up)]);
}

#[test]
fn sustained_past_hold_threshold_repeats_on_cadence() {
    // Ticks every 50 ms for 500 ms: one press at 0, then repeats at 250,
    // 350 and 450 — exactly one press followed by exactly three repeats,
    // each spaced at least 100 ms apart.
    let mut st = KeyState::new();
    let mut emitted: Vec<(u64, Action)> = Vec::new();
    let mut now: u64 = 0;
    while now <= 500 {
        if let Some(a) = st.step(Some(Symbol::Down), now) {
            emitted.push((now, a));
        }
        now += 50;
    }
    assert_eq!(
        emitted,
        vec![
            (0, Action::Press(Symbol::Down)),
            (250, Action::Repeat(Symbol::Down)),
            (350, Action::Repeat(Symbol::Down)),
            (450, Action::Repeat(Symbol::Down)),
        ]
    );
    for pair in emitted.windows(2) {
        assert!(pair[1].0 - pair[0].0 >= 100);
    }
}

#[test]
fn switching_symbols_presses_without_release() {
    let mut st = KeyState::new();
    let first = st.step(Some(Symbol::SymX), 0);
    let second = st.step(Some(Symbol::SymZ), 10);
    assert_eq!(first, Some(Action::Press(Symbol::SymX)));
    assert_eq!(second, Some(Action::Press(Symbol::SymZ)));
    assert_eq!(st.active_symbol, Some(Symbol::SymZ));
    assert_eq!(st.hold_start, Some(10));
}

#[test]
fn silence_releases_and_returns_to_idle() {
    let mut st = KeyState::new();
    let first = st.step(Some(Symbol::Confirm), 0);
    let second = st.step(None, 60);
    assert_eq!(first, Some(Action::Press(Symbol::Confirm)));
    assert_eq!(second, Some(Action::Release(Symbol::Confirm)));
    assert_eq!(st.active_symbol, None);
    assert_eq!(st.hold_start, None);
    assert_eq!(st.last_repeat_emit, None);
}

#[test]
fn silence_while_idle_emits_nothing() {
    let mut st = KeyState::new();
    assert_eq!(st.step(None, 0), None);
    assert_eq!(st.step(None, 100), None);
    assert_eq!(st.active_symbol, None);
}

#[test]
fn repeat_waits_for_both_thresholds() {
    let mut st = KeyState::new();
    assert_eq!(st.step(Some(Symbol::Left), 0), Some(Action::Press(Symbol::Left)));
    // Past the hold threshold: first repeat.
    assert_eq!(st.step(Some(Symbol::Left), 250), Some(Action::Repeat(Symbol::Left)));
    // Only 99 ms after the last emission: nothing.
    assert_eq!(st.step(Some(Symbol::Left), 349), None);
    // 100 ms after the last emission: next repeat.
    assert_eq!(st.step(Some(Symbol::Left), 350), Some(Action::Repeat(Symbol::Left)));
}
