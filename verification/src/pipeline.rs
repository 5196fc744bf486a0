//! The per-window analysis pipeline around the classifier and the state
//! machine: splitting the queued samples into fixed-size windows, turning
//! one pitch estimate into a state-machine step, and deciding which emitted
//! actions reach the key injector.
//!
//! The pitch estimator itself is an external black box run by the caller;
//! this module consumes its per-window result as a plain optional frequency
//! in millihertz.

use vstd::prelude::*;
use crate::buffer::FrameBuffer;
use crate::classifier::{classify, spec_classify, Symbol};
use crate::keystate::{spec_step, Action, KeyState};

verus! {

/// Number of samples analysed as one window.
pub const WINDOW_SIZE: usize = 2048;

/// The symbol a window's pitch estimate stands for: the classified symbol of
/// the estimated frequency, or none when no confident pitch was detected.
pub open spec fn spec_symbol_for(freq_millihz: Option<u64>) -> Option<Symbol> {
    match freq_millihz {
        Some(f) => spec_classify(f as int),
        None => None,
    }
}

/// Drives one analysis window through the pipeline: classifies the window's
/// pitch estimate, if any, and feeds the result into the state machine,
/// returning the emitted action exactly as `spec_step` describes.
pub fn process_window(state: &mut KeyState, freq_millihz: Option<u64>, now_millis: u64) -> (act: Option<Action>)
    requires
        old(state).wf(),
        old(state).marks_at_most(now_millis as int),
    ensures
        *final(state) == spec_step(*old(state), spec_symbol_for(freq_millihz), now_millis).0,
        act == spec_step(*old(state), spec_symbol_for(freq_millihz), now_millis).1,
        final(state).wf(),
        final(state).marks_at_most(now_millis as int),
{
    let new_symbol = match freq_millihz {
        Some(f) => classify(f),
        None => None,
    };
    state.step(new_symbol, now_millis)
}

/// The symbol the key injector is invoked with for an emitted action:
/// presses and repeats inject one click of the symbol's key; a release
/// injects nothing, since presses are instantaneous clicks rather than held
/// keys.
pub open spec fn spec_injection_for(act: Action) -> Option<Symbol> {
    match act {
        Action::Press(s) => Some(s),
        Action::Repeat(s) => Some(s),
        Action::Release(_) => None,
    }
}

/// Decides which symbol, if any, to hand the key injector for an action.
pub fn injection_for(act: Action) -> (r: Option<Symbol>)
    ensures
        r == spec_injection_for(act),
{
    match act {
        Action::Press(s) => Some(s),
        Action::Repeat(s) => Some(s),
        Action::Release(_) => None,
    }
}

/// Drains every complete window currently queued, in arrival order: window
/// `i` holds exactly the samples at offsets `[i*window_size, (i+1)*window_size)`
/// of the old contents, the remainder stays queued in order, and fewer than
/// `window_size` samples are left behind.
pub fn take_ready_windows<T: Copy>(buf: &mut FrameBuffer<T>, window_size: usize) -> (ws: Vec<Vec<T>>)
    requires
        window_size >= 1,
    ensures
        ws@.len() * window_size <= old(buf)@.len(),
        forall|i: int| 0 <= i < ws@.len()
            ==> (#[trigger] ws@[i])@ == old(buf)@.subrange(
                i * window_size,
                i * window_size + window_size,
            ),
        final(buf)@ == old(buf)@.skip(ws@.len() * window_size),
        final(buf)@.len() < window_size,
{
    let mut ws: Vec<Vec<T>> = Vec::new();
    proof {
        assert(ws@.len() * window_size == 0) by (nonlinear_arith)
            requires
                ws@.len() == 0,
        ;
        assert(old(buf)@.skip(0) =~= old(buf)@);
    }
    while buf.len() >= window_size
        invariant
            window_size >= 1,
            ws@.len() * window_size <= old(buf)@.len(),
            forall|i: int| 0 <= i < ws@.len()
                ==> (#[trigger] ws@[i])@ == old(buf)@.subrange(
                    i * window_size,
                    i * window_size + window_size,
                ),
            buf@ == old(buf)@.skip(ws@.len() * window_size),
        decreases buf@.len(),
    {
        let ghost consumed = ws@.len() * window_size;
        let w = buf.drain_front(window_size);
        proof {
            assert(w@ =~= old(buf)@.subrange(consumed, consumed + window_size));
            assert(buf@ =~= old(buf)@.skip(consumed + window_size));
            assert((ws@.len() + 1) * window_size == consumed + window_size) by (nonlinear_arith)
                requires
                    consumed == ws@.len() * window_size,
            ;
        }
        ws.push(w);
    }
    ws
}

} // verus!
