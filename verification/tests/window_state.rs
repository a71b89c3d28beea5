use procmod_overlay::input::{InteractionMode, KeyState, MouseButton, WindowEvent};
use procmod_overlay::window::{
    mouse_button, mouse_button_mask, needs_mode_change, style_for_mode, MessageAction, ModeSwitch, WindowState,
    MAX_PENDING_EVENTS, WM_CAPTURECHANGED, WM_CHAR, WM_CLOSE, WM_DESTROY, WM_KEYDOWN, WM_KEYUP,
    WM_KILLFOCUS, WM_LBUTTONDOWN, WM_LBUTTONUP, WM_MOUSEMOVE, WM_MOUSEWHEEL, WM_NCDESTROY,
    WM_RBUTTONDOWN, WM_SETFOCUS, WM_XBUTTONDOWN, WS_EX_NOACTIVATE, WS_EX_TRANSPARENT,
};

fn state() -> WindowState {
    WindowState::new()
}

fn lparam(x: i16, y: i16) -> isize {
    ((y as u16 as isize) << 16) | (x as u16 as isize)
}

#[test]
fn consecutive_mouse_moves_are_coalesced() {
    let mut state = state();
    state.push_event(WindowEvent::MouseMoved { x: 1, y: 2 });
    state.push_event(WindowEvent::MouseMoved { x: 3, y: 4 });

    assert_eq!(
        state.events.into_iter().collect::<Vec<_>>(),
        vec![WindowEvent::MouseMoved { x: 3, y: 4 }]
    );
}

#[test]
fn event_queue_is_bounded_and_counts_drops() {
    let mut state = state();
    for virtual_key in 0..=MAX_PENDING_EVENTS {
        state.push_event(WindowEvent::Key {
            virtual_key: virtual_key as u16,
            state: KeyState::Pressed,
        });
    }

    assert_eq!(state.events.len(), MAX_PENDING_EVENTS);
    assert_eq!(state.dropped_events, 1);
}

#[test]
fn utf16_surrogate_pair_produces_one_character() {
    let mut state = state();
    state.push_utf16_code_unit(0xd83d);
    state.push_utf16_code_unit(0xde80);

    assert_eq!(state.events.pop_front(), Some(WindowEvent::Text('🚀')));
    assert!(state.events.is_empty());
}

#[test]
fn releasing_pressed_buttons_preserves_other_events() {
    let mut state = state();
    state.last_mouse_position = (12, 34);
    state.pressed_mouse_buttons =
        mouse_button_mask(MouseButton::Left) | mouse_button_mask(MouseButton::Right);

    state.release_pressed_mouse_buttons();

    assert_eq!(state.pressed_mouse_buttons, 0);
    assert_eq!(state.events.len(), 2);
    assert!(state.events.iter().all(|event| matches!(
        event,
        WindowEvent::MouseButton {
            pressed: false,
            x: 12,
            y: 34,
            ..
        }
    )));
}

#[test]
fn moves_between_other_events_are_kept() {
    let mut state = state();
    state.push_event(WindowEvent::MouseMoved { x: 1, y: 1 });
    state.push_event(WindowEvent::Focused(true));
    state.push_event(WindowEvent::MouseMoved { x: 2, y: 2 });
    assert_eq!(state.events.len(), 3);
}

#[test]
fn a_full_queue_drops_the_oldest_event() {
    let mut state = state();
    for virtual_key in 0..(MAX_PENDING_EVENTS + 3) {
        state.push_event(WindowEvent::Key {
            virtual_key: virtual_key as u16,
            state: KeyState::Released,
        });
    }
    assert_eq!(state.dropped_events, 3);
    assert_eq!(
        state.events.front(),
        Some(&WindowEvent::Key { virtual_key: 3, state: KeyState::Released })
    );
    assert_eq!(state.take_dropped_event_count(), 3);
    assert_eq!(state.take_dropped_event_count(), 0);
}

#[test]
fn lone_and_broken_surrogates() {
    let mut state = state();
    state.push_utf16_code_unit(0xdc00);
    assert!(state.events.is_empty());
    state.push_utf16_code_unit(0xd800);
    state.push_utf16_code_unit(0x41);
    assert_eq!(state.drain_events(), vec![WindowEvent::Text('A')]);
    assert_eq!(state.pending_high_surrogate, None);
    state.push_utf16_code_unit(0xe9);
    assert_eq!(state.drain_events(), vec![WindowEvent::Text('é')]);
}

#[test]
fn button_masks_are_distinct_bits() {
    let masks = [
        MouseButton::Left,
        MouseButton::Right,
        MouseButton::Middle,
        MouseButton::X1,
        MouseButton::X2,
    ]
    .map(mouse_button_mask);
    assert_eq!(masks, [1, 2, 4, 8, 16]);
}

#[test]
fn extra_buttons_are_told_apart_by_the_high_word() {
    assert_eq!(mouse_button(WM_LBUTTONDOWN, 0), MouseButton::Left);
    assert_eq!(mouse_button(WM_RBUTTONDOWN, 0), MouseButton::Right);
    assert_eq!(mouse_button(WM_XBUTTONDOWN, 1 << 16), MouseButton::X1);
    assert_eq!(mouse_button(WM_XBUTTONDOWN, 2 << 16), MouseButton::X2);
}

#[test]
fn messages_become_events() {
    let mut state = state();
    assert_eq!(
        state.handle_message(WM_MOUSEMOVE, 0, lparam(-5, 7)),
        MessageAction::Handled
    );
    assert_eq!(
        state.handle_message(WM_LBUTTONDOWN, 0, lparam(3, 4)),
        MessageAction::SetCapture
    );
    assert_eq!(
        state.handle_message(WM_RBUTTONDOWN, 0, lparam(3, 4)),
        MessageAction::SetCapture
    );
    assert_eq!(
        state.handle_message(WM_LBUTTONUP, 0, lparam(3, 5)),
        MessageAction::Handled
    );
    assert_eq!(state.pressed_mouse_buttons, 2);
    assert_eq!(
        state.handle_message(WM_KEYDOWN, 0x1b, 0),
        MessageAction::Handled
    );
    assert_eq!(state.handle_message(WM_KEYUP, 0x1b, 0), MessageAction::Handled);
    assert_eq!(state.handle_message(WM_CHAR, 0x61, 0), MessageAction::Handled);
    assert_eq!(
        state.handle_message(WM_MOUSEWHEEL, (0xff88usize) << 16, lparam(100, 200)),
        MessageAction::ConvertWheel { delta: -120, x: 100, y: 200 }
    );
    assert_eq!(
        state.handle_message(WM_KILLFOCUS, 0, 0),
        MessageAction::ReleaseCapture
    );
    assert_eq!(state.pressed_mouse_buttons, 0);
    assert_eq!(state.handle_message(WM_SETFOCUS, 0, 0), MessageAction::Handled);
    assert_eq!(state.handle_message(WM_CLOSE, 0, 0), MessageAction::Handled);
    assert_eq!(state.handle_message(0x000f, 0, 0), MessageAction::Default);
    assert_eq!(
        state.drain_events(),
        vec![
            WindowEvent::MouseMoved { x: -5, y: 7 },
            WindowEvent::MouseButton { button: MouseButton::Left, pressed: true, x: 3, y: 4 },
            WindowEvent::MouseButton { button: MouseButton::Right, pressed: true, x: 3, y: 4 },
            WindowEvent::MouseButton { button: MouseButton::Left, pressed: false, x: 3, y: 5 },
            WindowEvent::Key { virtual_key: 0x1b, state: KeyState::Pressed },
            WindowEvent::Key { virtual_key: 0x1b, state: KeyState::Released },
            WindowEvent::Text('a'),
            WindowEvent::MouseButton { button: MouseButton::Right, pressed: false, x: 3, y: 5 },
            WindowEvent::Focused(false),
            WindowEvent::Focused(true),
            WindowEvent::CloseRequested,
        ]
    );
    assert!(state.events.is_empty());
}

#[test]
fn last_button_up_releases_the_capture() {
    let mut state = state();
    state.handle_message(WM_LBUTTONDOWN, 0, lparam(1, 1));
    assert_eq!(
        state.handle_message(WM_LBUTTONUP, 0, lparam(1, 1)),
        MessageAction::ReleaseCapture
    );
    assert_eq!(
        state.handle_message(WM_CAPTURECHANGED, 0, 0),
        MessageAction::ReleaseCapture
    );
    assert_eq!(state.events.len(), 2);
}

#[test]
fn destruction_closes_and_detaches() {
    let mut state = state();
    assert_eq!(state.handle_message(WM_DESTROY, 0, 0), MessageAction::Handled);
    assert!(state.closed);
    let mut state = WindowState::new();
    assert_eq!(state.handle_message(WM_NCDESTROY, 0, 0), MessageAction::Detach);
    assert!(state.closed);
}

#[test]
fn wheel_events_carry_the_converted_point() {
    let mut state = state();
    state.push_wheel(240, 10, 20);
    assert_eq!(
        state.drain_events(),
        vec![WindowEvent::MouseWheel { delta: 240, x: 10, y: 20 }]
    );
}

#[test]
fn mode_change_discards_pending_input() {
    let mut state = state();
    state.push_event(WindowEvent::Focused(true));
    state.pressed_mouse_buttons = 3;
    state.pending_high_surrogate = Some(0xd800);
    state.reset_for_mode_change();
    assert!(state.events.is_empty());
    assert_eq!(state.pressed_mouse_buttons, 0);
    assert_eq!(state.pending_high_surrogate, None);
}

#[test]
fn interaction_modes_toggle_the_input_bits() {
    let base = 0x0004_0000u32;
    let pass = style_for_mode(InteractionMode::PassThrough, base);
    assert_eq!(pass, base | WS_EX_TRANSPARENT | WS_EX_NOACTIVATE);
    assert_eq!(style_for_mode(InteractionMode::Interactive, pass), base);
    assert_eq!(InteractionMode::default(), InteractionMode::PassThrough);
}

#[test]
fn completing_a_mode_change_hands_input_over() {
    let mut state = state();
    let mut mode = InteractionMode::PassThrough;
    state.push_event(WindowEvent::Focused(true));
    let switch = state.complete_mode_change(&mut mode, InteractionMode::Interactive);
    assert_eq!(mode, InteractionMode::Interactive);
    assert_eq!(switch, ModeSwitch { release_capture: false, focus_overlay: true });
    assert!(state.events.is_empty());
    let switch = state.complete_mode_change(&mut mode, InteractionMode::PassThrough);
    assert_eq!(switch, ModeSwitch { release_capture: true, focus_overlay: false });
}

#[test]
fn only_a_different_mode_needs_a_change() {
    assert!(!needs_mode_change(InteractionMode::PassThrough, InteractionMode::PassThrough));
    assert!(needs_mode_change(InteractionMode::PassThrough, InteractionMode::Interactive));
    assert!(!needs_mode_change(InteractionMode::Interactive, InteractionMode::Interactive));
}
