use daemon_console_lite::editor::{
    ConsoleState, CtrlCMessage, KeyCode, KeyInput, KeyKind, MOD_ALT, MOD_CONTROL, MOD_NONE,
};
use daemon_console_lite::render::DrawOp;

fn press(code: KeyCode) -> KeyInput {
    KeyInput { code, modifiers: MOD_NONE, kind: KeyKind::Press }
}

fn ctrl(c: char) -> KeyInput {
    KeyInput { code: KeyCode::Char(c), modifiers: MOD_CONTROL, kind: KeyKind::Press }
}

fn type_line(state: &mut ConsoleState, line: &str) {
    for c in line.chars() {
        state.handle_char_input(c);
    }
}

#[test]
fn insert_advances_cursor_and_buffer() {
    let mut state = ConsoleState::new();
    state.handle_char_input('h');
    state.handle_char_input('i');
    assert_eq!(state.current_input, "hi");
    assert_eq!(state.cursor_position, 2);
}

#[test]
fn insert_at_cursor_in_the_middle() {
    let mut state = ConsoleState::new();
    type_line(&mut state, "ac");
    state.cursor_position = 1;
    state.handle_char_input('b');
    assert_eq!(state.current_input, "abc");
    assert_eq!(state.cursor_position, 2);
}

#[test]
fn cursor_stays_in_bounds_through_edit_sequence() {
    let mut state = ConsoleState::new();
    let events = [
        press(KeyCode::Char('a')),
        press(KeyCode::Left),
        press(KeyCode::Left),
        press(KeyCode::Char('b')),
        press(KeyCode::Backspace),
        press(KeyCode::Backspace),
        press(KeyCode::Backspace),
        press(KeyCode::Right),
        press(KeyCode::Char('c')),
        press(KeyCode::Right),
    ];
    for (i, ev) in events.iter().enumerate() {
        state.process_event(*ev, i as u64);
        assert!(state.cursor_position <= state.current_input.chars().count());
    }
}

#[test]
fn backspace_removes_before_cursor() {
    let mut state = ConsoleState::new();
    type_line(&mut state, "abc");
    state.process_event(press(KeyCode::Left), 0);
    state.process_event(press(KeyCode::Backspace), 1);
    assert_eq!(state.current_input, "ac");
    assert_eq!(state.cursor_position, 1);
}

#[test]
fn backspace_at_start_is_a_no_op() {
    let mut state = ConsoleState::new();
    type_line(&mut state, "x");
    state.cursor_position = 0;
    let outcome = state.process_event(press(KeyCode::Backspace), 0);
    assert_eq!(state.current_input, "x");
    assert_eq!(state.cursor_position, 0);
    assert!(outcome.ops.is_empty());
}

#[test]
fn arrows_clamp_at_buffer_bounds() {
    let mut state = ConsoleState::new();
    type_line(&mut state, "ab");
    // At the right edge, Right is a no-op.
    state.process_event(press(KeyCode::Right), 0);
    assert_eq!(state.cursor_position, 2);
    state.process_event(press(KeyCode::Left), 1);
    assert_eq!(state.cursor_position, 1);
    // A repeated identical Left is debounced; vary the modifiers to move
    // again and hit the lower bound.
    let shifted_left = KeyInput { code: KeyCode::Left, modifiers: 1, kind: KeyKind::Press };
    state.process_event(shifted_left, 2);
    assert_eq!(state.cursor_position, 0);
    state.process_event(press(KeyCode::Left), 3);
    assert_eq!(state.cursor_position, 0);
}

#[test]
fn submit_pushes_raw_buffer_and_clears() {
    let mut state = ConsoleState::new();
    type_line(&mut state, "  run now ");
    let (quit, submitted) = state.handle_enter_key();
    assert!(!quit);
    assert_eq!(submitted.as_deref(), Some("  run now "));
    assert_eq!(state.command_history, vec!["  run now ".to_string()]);
    assert_eq!(state.current_input, "");
    assert_eq!(state.cursor_position, 0);
    assert_eq!(state.history_index, None);
}

#[test]
fn blank_submit_touches_no_history() {
    let mut state = ConsoleState::new();
    type_line(&mut state, "   ");
    let (quit, submitted) = state.handle_enter_key();
    assert!(!quit);
    assert_eq!(submitted, None);
    assert!(state.command_history.is_empty());
    assert_eq!(state.current_input, "   ");
}

#[test]
fn history_round_trip() {
    let mut state = ConsoleState::new();
    type_line(&mut state, "a");
    state.handle_enter_key();
    type_line(&mut state, "b");
    state.handle_enter_key();

    state.handle_up_key();
    assert_eq!(state.current_input, "b");
    state.handle_up_key();
    assert_eq!(state.current_input, "a");
    state.handle_up_key();
    assert_eq!(state.current_input, "a");
    state.handle_down_key();
    assert_eq!(state.current_input, "b");
    state.handle_down_key();
    assert_eq!(state.current_input, "");
    assert_eq!(state.history_index, None);
}

#[test]
fn history_up_on_empty_history_is_a_no_op() {
    let mut state = ConsoleState::new();
    state.handle_up_key();
    assert_eq!(state.current_input, "");
    assert_eq!(state.history_index, None);
}

#[test]
fn history_loads_entry_with_cursor_at_end() {
    let mut state = ConsoleState::new();
    type_line(&mut state, "hello");
    state.handle_enter_key();
    state.handle_up_key();
    assert_eq!(state.current_input, "hello");
    assert_eq!(state.cursor_position, 5);
}

#[test]
fn ctrl_c_protocol_on_empty_buffer() {
    let mut state = ConsoleState::new();
    let (quit, msg) = state.handle_ctrl_c(1_000);
    assert!(!quit);
    assert_eq!(msg, CtrlCMessage::PressAgain);
    assert_eq!(state.last_ctrl_c, Some(1_000));

    // A second press within five seconds confirms the exit.
    let (quit, msg) = state.handle_ctrl_c(5_999);
    assert!(quit);
    assert_eq!(msg, CtrlCMessage::Exiting);
}

#[test]
fn ctrl_c_expired_timer_rearms() {
    let mut state = ConsoleState::new();
    state.handle_ctrl_c(0);
    let (quit, msg) = state.handle_ctrl_c(5_000);
    assert!(!quit);
    assert_eq!(msg, CtrlCMessage::PressAgain);
    assert_eq!(state.last_ctrl_c, Some(5_000));
}

#[test]
fn ctrl_c_with_text_clears_buffer_and_arms_timer() {
    let mut state = ConsoleState::new();
    type_line(&mut state, "half-typed");
    let (quit, msg) = state.handle_ctrl_c(42);
    assert!(!quit);
    assert_eq!(msg, CtrlCMessage::InputCleared);
    assert_eq!(state.current_input, "");
    assert_eq!(state.cursor_position, 0);
    assert_eq!(state.last_ctrl_c, Some(42));
}

#[test]
fn ctrl_d_always_quits() {
    let mut state = ConsoleState::new();
    type_line(&mut state, "whatever");
    let outcome = state.process_event(ctrl('d'), 0);
    assert!(outcome.should_quit);
    assert_eq!(state.current_input, "");
    assert_eq!(state.cursor_position, 0);
}

#[test]
fn debounce_drops_identical_second_press() {
    let mut state = ConsoleState::new();
    let a = press(KeyCode::Char('a'));
    state.process_event(a, 0);
    let outcome = state.process_event(a, 1);
    assert_eq!(state.current_input, "a");
    assert!(outcome.ops.is_empty());
    assert!(!outcome.should_quit);
}

#[test]
fn debounce_never_drops_interrupt_keys() {
    let mut state = ConsoleState::new();
    let c = ctrl('c');
    let first = state.process_event(c, 0);
    assert_eq!(first.message, Some(CtrlCMessage::PressAgain));
    let second = state.process_event(c, 1_000);
    assert_eq!(second.message, Some(CtrlCMessage::Exiting));
    assert!(second.should_quit);
}

#[test]
fn release_events_are_ignored() {
    let mut state = ConsoleState::new();
    let release = KeyInput {
        code: KeyCode::Char('a'),
        modifiers: MOD_NONE,
        kind: KeyKind::Release,
    };
    let outcome = state.process_event(release, 0);
    assert_eq!(state.current_input, "");
    assert!(outcome.ops.is_empty());
}

#[test]
fn varying_fields_defeat_the_debounce() {
    let mut state = ConsoleState::new();
    let plain = press(KeyCode::Char('x'));
    let shifted = KeyInput { code: KeyCode::Char('x'), modifiers: 1, kind: KeyKind::Press };
    state.process_event(plain, 0);
    state.process_event(shifted, 1);
    assert_eq!(state.current_input, "xx");
}

#[test]
fn tab_applies_best_match() {
    let mut state = ConsoleState::new();
    state.enable_tab_completion();
    assert!(state.is_tab_completion_enabled());
    state.register_tab_completions("config", &["start", "stop"]);
    type_line(&mut state, "config sta");
    state.handle_tab_key();
    assert_eq!(state.current_input, "config start");
    assert_eq!(state.cursor_position, "config start".chars().count());
}

#[test]
fn typing_updates_candidates_and_selection_moves() {
    let mut state = ConsoleState::new();
    state.enable_tab_completion();
    state.register_tab_completions("", &["alpha", "beta", "ampere"]);
    for (i, c) in "a".chars().enumerate() {
        state.process_event(press(KeyCode::Char(c)), i as u64);
    }
    // Candidates are now ["alpha", "ampere"]; Alt+Right selects the second.
    let alt_right = KeyInput { code: KeyCode::Right, modifiers: MOD_ALT, kind: KeyKind::Press };
    state.process_event(alt_right, 10);
    state.handle_tab_key();
    assert_eq!(state.current_input, "ampere");
}

#[test]
fn submit_via_process_event_reports_submission() {
    let mut state = ConsoleState::new();
    type_line(&mut state, "do it");
    let outcome = state.process_event(press(KeyCode::Enter), 0);
    assert!(!outcome.should_quit);
    assert_eq!(outcome.submitted.as_deref(), Some("do it"));
    assert_eq!(state.command_history, vec!["do it".to_string()]);
    // The draw operations echo the submitted line behind the prompt.
    assert!(outcome.ops.contains(&DrawOp::Print("> do it".to_string())));
    assert!(outcome.ops.contains(&DrawOp::Print("\n".to_string())));
}

#[test]
fn ctrl_c_with_text_via_dispatcher_reports_input_cleared() {
    let mut state = ConsoleState::new();
    type_line(&mut state, "half");
    let outcome = state.process_event(ctrl('c'), 123);
    assert!(!outcome.should_quit);
    assert_eq!(outcome.message, Some(CtrlCMessage::InputCleared));
    assert_eq!(state.current_input, "");
    assert_eq!(state.last_ctrl_c, Some(123));
}
