use regxorder::event::{
    AbsoluteScreenPoint, DisplayMetadata, InputAction, KeyDescriptor, MouseButton, ScanCode,
    ScreenSize, ScrollAxis,
};
use regxorder::input::{
    cleanup_inputs, input_for_action, key_input, raw_mouse_button_actions,
    to_absolute_mouse_coordinates, translate_keyboard_message, translate_mouse_message,
    translate_raw_keyboard, wheel_delta, x_button_from_mouse_data, InputRecord, MouseTranslation,
    KEYEVENTF_KEYUP, KEYEVENTF_SCANCODE, LLKHF_EXTENDED, LLKHF_INJECTED, MOUSEEVENTF_LEFTUP,
    MOUSEEVENTF_WHEEL, RI_KEY_BREAK, RI_KEY_E0, RI_MOUSE_BUTTON_4_DOWN, RI_MOUSE_LEFT_BUTTON_DOWN,
    RI_MOUSE_WHEEL, WM_KEYDOWN, WM_KEYUP, WM_MOUSEMOVE, WM_MOUSEWHEEL, WM_XBUTTONDOWN, XBUTTON1,
};
use regxorder::session::PressedInputState;

fn wide_display() -> DisplayMetadata {
    DisplayMetadata {
        virtual_origin: AbsoluteScreenPoint { x: -1920, y: 0 },
        virtual_size: ScreenSize {
            width: 3840,
            height: 1080,
        },
        monitors: Vec::new(),
    }
}

fn key_a() -> KeyDescriptor {
    KeyDescriptor {
        scan_code: ScanCode::new(30),
        logical_name: Some(String::from("A")),
        extended: false,
    }
}

#[test]
fn absolute_mouse_coordinates_respect_virtual_display_origin() {
    let display = wide_display();
    let point = AbsoluteScreenPoint { x: 0, y: 540 };

    let (dx, dy) = to_absolute_mouse_coordinates(point, &display);

    assert!(dx > 32_000 && dx < 33_600, "unexpected dx: {dx}");
    assert!(dy > 32_700 && dy < 32_900, "unexpected dy: {dy}");
}

#[test]
fn absolute_mouse_coordinates_clamp_to_the_desktop() {
    let display = wide_display();
    assert_eq!(to_absolute_mouse_coordinates(AbsoluteScreenPoint { x: -5000, y: -1 }, &display), (0, 0));
    assert_eq!(
        to_absolute_mouse_coordinates(AbsoluteScreenPoint { x: 1919, y: 1079 }, &display),
        (65_535, 65_535)
    );
    assert_eq!(
        to_absolute_mouse_coordinates(AbsoluteScreenPoint { x: 5000, y: 5000 }, &display),
        (65_535, 65_535)
    );
    assert_eq!(
        to_absolute_mouse_coordinates(AbsoluteScreenPoint { x: 0, y: 540 }, &display),
        (32_776, 32_797)
    );
}

#[test]
fn pressed_state_releases_tracked_inputs_in_reverse_order() {
    let key = key_a();

    let mut state = PressedInputState::new();
    state.note_action(&InputAction::MouseButtonPressed {
        button: MouseButton::Left,
    });
    state.note_action(&InputAction::KeyPressed { key: key.duplicate() });

    let cleanup = cleanup_inputs(&state, &wide_display());
    assert_eq!(cleanup.len(), 2);

    let keyup = key_input(&key, false);
    assert!(matches!(cleanup[0], InputRecord::Mouse { flags, .. } if flags == MOUSEEVENTF_LEFTUP));
    assert_eq!(cleanup[1], keyup);
    assert_eq!(
        keyup,
        InputRecord::Keyboard {
            scan_code: 30,
            flags: KEYEVENTF_SCANCODE | KEYEVENTF_KEYUP
        }
    );
}

#[test]
fn wheel_inputs_carry_the_rotation_as_twos_complement() {
    let record = input_for_action(
        &InputAction::MouseWheelScrolled {
            axis: ScrollAxis::Vertical,
            delta: -120,
        },
        &wide_display(),
    );
    assert_eq!(
        record,
        InputRecord::Mouse {
            dx: 0,
            dy: 0,
            mouse_data: (-120i32) as u32,
            flags: MOUSEEVENTF_WHEEL
        }
    );
}

#[test]
fn keyboard_translation_maps_key_messages_into_actions() {
    let down_action =
        translate_keyboard_message(WM_KEYDOWN, 30, LLKHF_EXTENDED).expect("key down should translate");
    let up_action =
        translate_keyboard_message(WM_KEYUP, 30, LLKHF_EXTENDED).expect("key up should translate");

    match down_action {
        InputAction::KeyPressed { key } => {
            assert_eq!(key.scan_code.get(), 30);
            assert!(key.extended);
        }
        other => panic!("unexpected action: {other:?}"),
    }

    assert!(matches!(up_action, InputAction::KeyReleased { .. }));
    assert!(translate_keyboard_message(WM_KEYDOWN, 30, LLKHF_INJECTED).is_none());
}

#[test]
fn mouse_translation_maps_move_wheel_and_xbutton_messages() {
    let point = AbsoluteScreenPoint { x: 960, y: 540 };
    let mouse_data = (120_i32 as u32) << 16;

    let move_action = translate_mouse_message(WM_MOUSEMOVE, 0, point, mouse_data)
        .expect("mouse move should translate");
    let wheel_action = translate_mouse_message(WM_MOUSEWHEEL, 0, point, mouse_data)
        .expect("mouse wheel should translate");
    let xbutton_action = translate_mouse_message(WM_XBUTTONDOWN, 0, point, XBUTTON1 << 16)
        .expect("xbutton should translate");

    assert_eq!(move_action, MouseTranslation::PointerMovedTo(AbsoluteScreenPoint { x: 960, y: 540 }));
    assert!(matches!(
        wheel_action,
        MouseTranslation::Action(InputAction::MouseWheelScrolled {
            axis: ScrollAxis::Vertical,
            delta: 120
        })
    ));
    assert!(matches!(
        xbutton_action,
        MouseTranslation::Action(InputAction::MouseButtonPressed {
            button: MouseButton::X1
        })
    ));
    assert!(translate_mouse_message(WM_MOUSEMOVE, 1, point, 0).is_none());
}

#[test]
fn wheel_delta_reads_the_signed_high_word() {
    assert_eq!(wheel_delta(0x0078_0000), 120);
    assert_eq!(wheel_delta(0xFF88_0000), -120);
    assert_eq!(wheel_delta(0x8000_FFFF), -32_768);
    assert_eq!(x_button_from_mouse_data(0x0002_0000), Some(MouseButton::X2));
    assert_eq!(x_button_from_mouse_data(0x0003_0000), None);
}

#[test]
fn raw_keyboard_translation_uses_break_and_extended_flags() {
    let pressed_action = translate_raw_keyboard(0, 30, RI_KEY_E0, WM_KEYDOWN)
        .expect("raw key-down input should translate");
    let released_action = translate_raw_keyboard(0, 30, RI_KEY_E0 | RI_KEY_BREAK, WM_KEYDOWN)
        .expect("raw key-up input should translate");

    match pressed_action {
        InputAction::KeyPressed { key } => {
            assert_eq!(key.scan_code.get(), 30);
            assert!(key.extended);
        }
        other => panic!("unexpected action: {other:?}"),
    }

    assert!(matches!(released_action, InputAction::KeyReleased { .. }));
    assert!(translate_raw_keyboard(255, 30, 0, WM_KEYDOWN).is_none());
    assert!(matches!(
        translate_raw_keyboard(0, 30, 0, WM_KEYUP),
        Some(InputAction::KeyReleased { .. })
    ));
}

#[test]
fn raw_mouse_button_decoder_handles_buttons_and_wheels() {
    let actions = raw_mouse_button_actions(
        RI_MOUSE_LEFT_BUTTON_DOWN | RI_MOUSE_WHEEL | RI_MOUSE_BUTTON_4_DOWN,
        120_i16 as u16,
    );

    assert!(matches!(
        actions[0],
        InputAction::MouseButtonPressed {
            button: MouseButton::Left
        }
    ));
    assert!(matches!(
        actions[1],
        InputAction::MouseButtonPressed {
            button: MouseButton::X1
        }
    ));
    assert!(matches!(
        actions[2],
        InputAction::MouseWheelScrolled {
            axis: ScrollAxis::Vertical,
            delta: 120
        }
    ));
    assert_eq!(actions.len(), 3);
}

#[test]
fn raw_mouse_button_decoder_ignores_empty_flag_sets() {
    let actions = raw_mouse_button_actions(0, 0);

    assert!(actions.is_empty());
}
