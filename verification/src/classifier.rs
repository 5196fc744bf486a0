//! Frequency-to-symbol classification.
//!
//! A detected pitch is reported here as an integer number of millihertz, so
//! that the fixed boundary table is exact. Each table row is a half-open
//! range `[low, high)` of frequencies mapped to one symbol; a frequency
//! outside every row maps to no symbol at all.

use vstd::prelude::*;

verus! {

/// The abstract key identity produced by classification, decoupled from any
/// specific keyboard scancode. Equality is the only operation the state
/// machine needs on it.
#[derive(Clone, Copy, Debug, PartialEq, Eq, Structural)]
pub enum Symbol {
    Down,
    Left,
    Right,
    Up,
    Backspace,
    SymX,
    SymZ,
    SymA,
    SymS,
    Confirm,
}

/// Lowest classified frequency, in millihertz.
pub const LOWEST_MILLIHZ: u64 = 100_000;

/// One past the highest classified frequency, in millihertz.
pub const HIGHEST_MILLIHZ: u64 = 338_000;

/// The classification table as a mathematical function: half-open rows
/// `[low, high)`, contiguous from 100 Hz up to 338 Hz, `None` outside.
pub open spec fn spec_classify(f: int) -> Option<Symbol> {
    if 100_000 <= f < 115_000 {
        Some(Symbol::Down)
    } else if 115_000 <= f < 130_000 {
        Some(Symbol::Left)
    } else if 130_000 <= f < 145_000 {
        Some(Symbol::Right)
    } else if 145_000 <= f < 160_000 {
        Some(Symbol::Up)
    } else if 160_000 <= f < 175_000 {
        Some(Symbol::Backspace)
    } else if 175_000 <= f < 200_000 {
        Some(Symbol::SymX)
    } else if 200_000 <= f < 230_000 {
        Some(Symbol::SymZ)
    } else if 230_000 <= f < 270_000 {
        Some(Symbol::SymA)
    } else if 270_000 <= f < 305_000 {
        Some(Symbol::SymS)
    } else if 305_000 <= f < 338_000 {
        Some(Symbol::Confirm)
    } else {
        None
    }
}

/// Maps a frequency in millihertz to the symbol of the table row containing
/// it, or `None` when the frequency lies outside the supported register.
pub fn classify(freq_millihz: u64) -> (r: Option<Symbol>)
    ensures
        r == spec_classify(freq_millihz as int),
{
    if freq_millihz < 100_000 {
        None
    } else if freq_millihz < 115_000 {
        Some(Symbol::Down)
    } else if freq_millihz < 130_000 {
        Some(Symbol::Left)
    } else if freq_millihz < 145_000 {
        Some(Symbol::Right)
    } else if freq_millihz < 160_000 {
        Some(Symbol::Up)
    } else if freq_millihz < 175_000 {
        Some(Symbol::Backspace)
    } else if freq_millihz < 200_000 {
        Some(Symbol::SymX)
    } else if freq_millihz < 230_000 {
        Some(Symbol::SymZ)
    } else if freq_millihz < 270_000 {
        Some(Symbol::SymA)
    } else if freq_millihz < 305_000 {
        Some(Symbol::SymS)
    } else if freq_millihz < 338_000 {
        Some(Symbol::Confirm)
    } else {
        None
    }
}

/// Holds exactly when `[low, high)` mapped to `s` is one of the ten rows of
/// the classification table.
pub open spec fn is_table_row(low: int, high: int, s: Symbol) -> bool {
    ||| (low == 100_000 && high == 115_000 && s == Symbol::Down)
    ||| (low == 115_000 && high == 130_000 && s == Symbol::Left)
    ||| (low == 130_000 && high == 145_000 && s == Symbol::Right)
    ||| (low == 145_000 && high == 160_000 && s == Symbol::Up)
    ||| (low == 160_000 && high == 175_000 && s == Symbol::Backspace)
    ||| (low == 175_000 && high == 200_000 && s == Symbol::SymX)
    ||| (low == 200_000 && high == 230_000 && s == Symbol::SymZ)
    ||| (low == 230_000 && high == 270_000 && s == Symbol::SymA)
    ||| (low == 270_000 && high == 305_000 && s == Symbol::SymS)
    ||| (low == 305_000 && high == 338_000 && s == Symbol::Confirm)
}

/// Boundary law: every table row is half-open. Its low end and the last
/// frequency below its high end classify to the row's symbol; the high end
/// itself does not.
pub proof fn lemma_row_boundaries(low: int, high: int, s: Symbol)
    requires
        is_table_row(low, high, s),
    ensures
        spec_classify(low) == Some(s),
        spec_classify(high - 1) == Some(s),
        spec_classify(high) != Some(s),
{
}

/// Gap law: every frequency below the lowest row or at or above the top of
/// the highest row classifies to nothing, and the rows leave no gap in
/// between: every frequency inside `[100 Hz, 338 Hz)` classifies to some
/// symbol.
pub proof fn lemma_classifier_gaps(f: int)
    ensures
        f < LOWEST_MILLIHZ ==> spec_classify(f) is None,
        f >= HIGHEST_MILLIHZ ==> spec_classify(f) is None,
        LOWEST_MILLIHZ <= f < HIGHEST_MILLIHZ ==> spec_classify(f) is Some,
{
}

} // verus!
