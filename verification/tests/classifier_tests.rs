use pitch_to_key::classifier::{classify, Symbol};

fn rows() -> Vec<(u64, u64, Symbol)> {
    vec![
        (100_000, 115_000, Symbol::Down),
        (115_000, 130_000, Symbol::Left),
        (130_000, 145_000, Symbol::Right),
        (145_000, 160_000, Symbol::Up),
        (160_000, 175_000, Symbol::Backspace),
        (175_000, 200_000, Symbol::SymX),
        (200_000, 230_000, Symbol::SymZ),
        (230_000, 270_000, Symbol::SymA),
        (270_000, 305_000, Symbol::SymS),
        (305_000, 338_000, Symbol::Confirm),
    ]
}

#[test]
fn row_low_ends_classify_to_their_symbol() {
    for (low, _, s) in rows() {
        assert_eq!(classify(low), Some(s));
    }
}

#[test]
fn just_below_row_high_ends_classify_to_their_symbol() {
    for (_, high, s) in rows() {
        assert_eq!(classify(high - 1), Some(s));
    }
}

#[test]
fn row_high_ends_classify_to_the_next_row_or_nothing() {
    for (_, high, s) in rows() {
        assert_ne!(classify(high), Some(s));
    }
}

#[test]
fn frequencies_below_the_table_classify_to_nothing() {
    assert_eq!(classify(0), None);
    assert_eq!(classify(50_000), None);
    assert_eq!(classify(99_999), None);
}

#[test]
fn frequencies_above_the_table_classify_to_nothing() {
    assert_eq!(classify(338_000), None);
    assert_eq!(classify(338_001), None);
    assert_eq!(classify(1_000_000), None);
    assert_eq!(classify(u64::MAX), None);
}

#[test]
fn no_gap_inside_the_register() {
    // Every millihertz value inside [100 Hz, 338 Hz) maps to some symbol.
    let mut f: u64 = 100_000;
    while f < 338_000 {
        assert!(classify(f).is_some());
        f += 1_000;
    }
}

#[test]
fn sung_a_120_hz_note_is_the_left_arrow() {
    assert_eq!(classify(120_000), Some(Symbol::Left));
}

#[test]
fn mid_row_values_classify_exactly() {
    assert_eq!(classify(107_500), Some(Symbol::Down));
    assert_eq!(classify(152_000), Some(Symbol::Up),);
    assert_eq!(classify(187_000), Some(Symbol::SymX));
    assert_eq!(classify(215_000), Some(Symbol::SymZ));
    assert_eq!(classify(250_000), Some(Symbol::SymA));
    assert_eq!(classify(287_000), Some(Symbol::SymS));
    assert_eq!(classify(320_000), Some(Symbol::Confirm));
}
