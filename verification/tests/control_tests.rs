use rain::control::{next_state, KeyInput, LoopState};
use rain::QUIT_KEY;

#[test]
fn quit_key_press_terminates_within_one_poll() {
    let observed = Some(KeyInput { code: QUIT_KEY, pressed: true });
    assert_eq!(next_state(LoopState::Running, observed), LoopState::Terminating);
}

#[test]
fn quit_key_release_does_not_terminate() {
    let observed = Some(KeyInput { code: QUIT_KEY, pressed: false });
    assert_eq!(next_state(LoopState::Running, observed), LoopState::Running);
}

#[test]
fn other_keys_do_not_terminate() {
    let observed = Some(KeyInput { code: 'x', pressed: true });
    assert_eq!(next_state(LoopState::Running, observed), LoopState::Running);
}

#[test]
fn no_event_keeps_the_loop_running() {
    assert_eq!(next_state(LoopState::Running, None), LoopState::Running);
}

#[test]
fn terminating_is_absorbing() {
    assert_eq!(next_state(LoopState::Terminating, None), LoopState::Terminating);
    let other = Some(KeyInput { code: 'x', pressed: true });
    assert_eq!(next_state(LoopState::Terminating, other), LoopState::Terminating);
}
