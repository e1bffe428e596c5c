use frost::{InputState, WindowAction, WindowInput};

fn key(code: u32, pressed: bool) -> WindowInput {
    WindowInput::Key { code: Some(code), pressed, escape: false }
}

#[test]
fn a_new_input_state_holds_nothing() {
    let s = InputState::new();
    assert!(!s.key_down(0));
    assert!(!s.key_down(42));
    assert!(!s.button_down(0));
    assert!(!s.cursor_inside());
}

#[test]
fn pressing_then_releasing_a_key_leaves_it_up() {
    let mut s = InputState::new();
    assert_eq!(s.handle(key(7, true)), WindowAction::Nothing);
    assert!(s.key_down(7));
    assert!(!s.key_down(8));
    assert_eq!(s.handle(key(8, true)), WindowAction::Nothing);
    assert_eq!(s.handle(key(7, false)), WindowAction::Nothing);
    assert!(!s.key_down(7));
    assert!(s.key_down(8));
}

#[test]
fn a_repeated_press_is_released_by_one_release() {
    let mut s = InputState::new();
    s.handle(key(3, true));
    s.handle(key(3, true));
    s.handle(key(3, false));
    assert!(!s.key_down(3));
}

#[test]
fn an_unidentified_key_changes_nothing() {
    let mut s = InputState::new();
    s.handle(key(1, true));
    let action = s.handle(WindowInput::Key { code: None, pressed: false, escape: false });
    assert_eq!(action, WindowAction::Nothing);
    assert!(s.key_down(1));
}

#[test]
fn pressing_escape_exits_and_releasing_it_does_not() {
    let mut s = InputState::new();
    let pressed = s.handle(WindowInput::Key { code: Some(9), pressed: true, escape: true });
    assert_eq!(pressed, WindowAction::Exit);
    assert!(s.key_down(9));
    let released = s.handle(WindowInput::Key { code: Some(9), pressed: false, escape: true });
    assert_eq!(released, WindowAction::Nothing);
    let unidentified = s.handle(WindowInput::Key { code: None, pressed: true, escape: true });
    assert_eq!(unidentified, WindowAction::Exit);
}

#[test]
fn close_requested_exits() {
    let mut s = InputState::new();
    assert_eq!(s.handle(WindowInput::CloseRequested), WindowAction::Exit);
}

#[test]
fn mouse_buttons_are_tracked_and_dropped_when_the_cursor_leaves() {
    let mut s = InputState::new();
    s.handle(WindowInput::CursorMoved);
    assert!(s.cursor_inside());
    s.handle(WindowInput::MouseButton { button: 0, pressed: true });
    s.handle(WindowInput::MouseButton { button: 2, pressed: true });
    assert!(s.button_down(0));
    assert!(s.button_down(2));
    s.handle(WindowInput::MouseButton { button: 0, pressed: false });
    assert!(!s.button_down(0));
    assert!(s.button_down(2));
    s.handle(key(5, true));
    assert_eq!(s.handle(WindowInput::CursorLeft), WindowAction::Nothing);
    assert!(!s.cursor_inside());
    assert!(!s.button_down(2));
    assert!(s.key_down(5));
}

#[test]
fn losing_the_focus_drops_every_held_control() {
    let mut s = InputState::new();
    s.handle(WindowInput::CursorMoved);
    s.handle(key(5, true));
    s.handle(key(6, true));
    s.handle(WindowInput::MouseButton { button: 1, pressed: true });
    assert_eq!(s.handle(WindowInput::FocusLost), WindowAction::Nothing);
    assert!(!s.key_down(5));
    assert!(!s.key_down(6));
    assert!(!s.button_down(1));
    assert!(!s.cursor_inside());
}

#[test]
fn resizes_to_an_empty_size_are_ignored() {
    let mut s = InputState::new();
    assert_eq!(s.handle(WindowInput::Resized { width: 800, height: 600 }), WindowAction::Resize);
    assert_eq!(s.handle(WindowInput::Resized { width: 0, height: 600 }), WindowAction::Nothing);
    assert_eq!(s.handle(WindowInput::Resized { width: 800, height: 0 }), WindowAction::Nothing);
    assert_eq!(s.handle(WindowInput::ScaleChanged), WindowAction::Resize);
}

#[test]
fn redraw_requests_render_and_other_events_do_nothing() {
    let mut s = InputState::new();
    s.handle(key(4, true));
    assert_eq!(s.handle(WindowInput::RedrawRequested), WindowAction::Render);
    assert_eq!(s.handle(WindowInput::Other), WindowAction::Nothing);
    assert!(s.key_down(4));
}
