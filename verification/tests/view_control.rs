use spectroterm::control::frame_budget_micros;
use spectroterm::control::next_state;
use spectroterm::control::sleep_micros;
use spectroterm::control::LoopState;
use spectroterm::control::TARGET_FPS;
use spectroterm::input::parse_device_choice;
use spectroterm::view::dispatch;
use spectroterm::view::Action;
use spectroterm::view::Key;
use spectroterm::view::ViewState;
use spectroterm::view::STEP_LIMIT;

#[test]
fn dispatch_maps_the_bound_keys() {
    assert_eq!(dispatch(Key::Char('q')), Action::Quit);
    assert_eq!(dispatch(Key::Char('+')), Action::GainUp);
    assert_eq!(dispatch(Key::Char('-')), Action::GainDown);
    assert_eq!(dispatch(Key::Char('w')), Action::ZoomUp);
    assert_eq!(dispatch(Key::Char('s')), Action::ZoomDown);
    assert_eq!(dispatch(Key::Char('x')), Action::Idle);
    assert_eq!(dispatch(Key::Other), Action::Idle);
}

#[test]
fn gain_returns_after_ten_up_and_ten_down() {
    let mut state = ViewState::new();
    for _ in 0..10 {
        state.apply(dispatch(Key::Char('+')));
    }
    assert_eq!(state.gain_steps(), 10);
    for _ in 0..10 {
        state.apply(dispatch(Key::Char('-')));
    }
    assert_eq!(state.gain_steps(), 0);
    // The multiplier the steps denote is restored exactly as well.
    let multiplier = 1.2f32.powi(state.gain_steps());
    assert!((multiplier - 1.0).abs() < 1e-6);
}

#[test]
fn zoom_returns_after_ten_up_and_ten_down() {
    let mut state = ViewState::new();
    for _ in 0..10 {
        state.apply(dispatch(Key::Char('w')));
    }
    for _ in 0..10 {
        state.apply(dispatch(Key::Char('s')));
    }
    assert_eq!(state.zoom_steps(), 0);
}

#[test]
fn steps_saturate_at_the_limit() {
    let mut state = ViewState::new();
    for _ in 0..(STEP_LIMIT + 25) {
        state.apply(Action::GainUp);
        state.apply(Action::ZoomDown);
    }
    assert_eq!(state.gain_steps(), STEP_LIMIT);
    assert_eq!(state.zoom_steps(), -STEP_LIMIT);
}

#[test]
fn quit_and_idle_leave_the_view_alone() {
    let mut state = ViewState::new();
    state.apply(Action::GainUp);
    state.apply(Action::Quit);
    state.apply(Action::Idle);
    assert_eq!(state.gain_steps(), 1);
    assert_eq!(state.zoom_steps(), 0);
}

#[test]
fn loop_terminates_on_quit_and_only_then() {
    assert_eq!(next_state(LoopState::Running, Action::Quit), LoopState::Terminating);
    assert_eq!(next_state(LoopState::Running, Action::GainUp), LoopState::Running);
    assert_eq!(next_state(LoopState::Running, Action::Idle), LoopState::Running);
    assert_eq!(next_state(LoopState::Terminating, Action::Idle), LoopState::Terminating);
    assert_eq!(next_state(LoopState::Terminating, Action::GainUp), LoopState::Terminating);
}

#[test]
fn frame_budget_and_sleep() {
    assert_eq!(frame_budget_micros(TARGET_FPS), 33_333);
    assert_eq!(sleep_micros(33_333, 10_000), 23_333);
    assert_eq!(sleep_micros(33_333, 33_333), 0);
    assert_eq!(sleep_micros(33_333, 50_000), 0);
}

#[test]
fn parse_device_choice_accepts_digits_below_max() {
    assert_eq!(parse_device_choice("3", 5), Some(3));
    assert_eq!(parse_device_choice("0", 5), Some(0));
    assert_eq!(parse_device_choice("003", 5), Some(3));
    assert_eq!(parse_device_choice("4", 5), Some(4));
}

#[test]
fn parse_device_choice_rejects_everything_else() {
    assert_eq!(parse_device_choice("5", 5), None);
    assert_eq!(parse_device_choice("12", 5), None);
    assert_eq!(parse_device_choice("", 5), None);
    assert_eq!(parse_device_choice("abc", 5), None);
    assert_eq!(parse_device_choice("1x", 5), None);
    assert_eq!(parse_device_choice("-1", 5), None);
    assert_eq!(parse_device_choice(" 1", 5), None);
    assert_eq!(parse_device_choice("999999999999999999999999999999", 5), None);
    assert_eq!(parse_device_choice("0", 0), None);
}
