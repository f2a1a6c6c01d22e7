//! The render loop's state machine.
//!
//! The loop has two states: it runs until a press of the quit key is
//! observed during a poll, and then terminates. The loop itself performs
//! terminal work; the decision which state comes next is taken here, from
//! plain values.

use vstd::prelude::*;

use crate::QUIT_KEY;

verus! {

/// The two states of the render loop.
#[derive(Clone, Copy, Debug, PartialEq, Eq, Structural)]
pub enum LoopState {
    Running,
    Terminating,
}

/// One key observation handed in by a poll: the character of the key and
/// whether the event was a press (rather than a release or repeat).
#[derive(Clone, Copy, Debug, PartialEq, Eq, Structural)]
pub struct KeyInput {
    pub code: char,
    pub pressed: bool,
}

/// Is this observation a press of the quit key?
pub open spec fn is_quit_event(event: Option<KeyInput>) -> bool {
    match event {
        Some(k) => k.code == QUIT_KEY && k.pressed,
        None => false,
    }
}

/// The state after one poll: a press of the quit key moves the loop to
/// `Terminating`; anything else, including no event at all, leaves the
/// state as it is.
pub open spec fn spec_next_state(state: LoopState, event: Option<KeyInput>) -> LoopState {
    if is_quit_event(event) {
        LoopState::Terminating
    } else {
        state
    }
}

/// Decide the loop's next state from what one poll observed.
pub fn next_state(state: LoopState, event: Option<KeyInput>) -> (next: LoopState)
    ensures
        next == spec_next_state(state, event),
        (next == LoopState::Terminating) <==> (state == LoopState::Terminating || is_quit_event(
            event,
        )),
{
    match event {
        Some(k) => if k.code == QUIT_KEY && k.pressed {
            LoopState::Terminating
        } else {
            state
        },
        None => state,
    }
}

} // verus!
