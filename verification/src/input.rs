use vstd::prelude::*;

use crate::event::{
    AbsoluteScreenPoint, DisplayMetadata, InputAction, KeyDescriptor, MouseButton, ScanCode,
    ScrollAxis,
};
use crate::session::{release_actions, PressedInputState};

verus! {

/// The `WM_KEYDOWN` window message.
pub const WM_KEYDOWN: u32 = 0x0100;

/// The `WM_KEYUP` window message.
pub const WM_KEYUP: u32 = 0x0101;

/// The `WM_SYSKEYDOWN` window message.
pub const WM_SYSKEYDOWN: u32 = 0x0104;

/// The `WM_SYSKEYUP` window message.
pub const WM_SYSKEYUP: u32 = 0x0105;

/// The `WM_MOUSEMOVE` window message.
pub const WM_MOUSEMOVE: u32 = 0x0200;

/// The `WM_LBUTTONDOWN` window message.
pub const WM_LBUTTONDOWN: u32 = 0x0201;

/// The `WM_LBUTTONUP` window message.
pub const WM_LBUTTONUP: u32 = 0x0202;

/// The `WM_RBUTTONDOWN` window message.
pub const WM_RBUTTONDOWN: u32 = 0x0204;

/// The `WM_RBUTTONUP` window message.
pub const WM_RBUTTONUP: u32 = 0x0205;

/// The `WM_MBUTTONDOWN` window message.
pub const WM_MBUTTONDOWN: u32 = 0x0207;

/// The `WM_MBUTTONUP` window message.
pub const WM_MBUTTONUP: u32 = 0x0208;

/// The `WM_MOUSEWHEEL` window message.
pub const WM_MOUSEWHEEL: u32 = 0x020A;

/// The `WM_XBUTTONDOWN` window message.
pub const WM_XBUTTONDOWN: u32 = 0x020B;

/// The `WM_XBUTTONUP` window message.
pub const WM_XBUTTONUP: u32 = 0x020C;

/// The `WM_MOUSEHWHEEL` window message.
pub const WM_MOUSEHWHEEL: u32 = 0x020E;

/// The low-level keyboard hook flag of an extended key.
pub const LLKHF_EXTENDED: u32 = 0x01;

/// The low-level keyboard hook flag of an injected key event.
pub const LLKHF_INJECTED: u32 = 0x10;

/// The low-level mouse hook flag of an injected mouse event.
pub const LLMHF_INJECTED: u32 = 0x01;

/// The high word of the mouse data that names the first extra button.
pub const XBUTTON1: u32 = 0x0001;

/// The high word of the mouse data that names the second extra button.
pub const XBUTTON2: u32 = 0x0002;

/// The Raw Input keyboard flag of a key release.
pub const RI_KEY_BREAK: u16 = 0x0001;

/// The Raw Input keyboard flag of an `E0`-prefixed scan code.
pub const RI_KEY_E0: u16 = 0x0002;

/// The Raw Input keyboard flag of an `E1`-prefixed scan code.
pub const RI_KEY_E1: u16 = 0x0004;

/// The Raw Input mouse button flags, in the order the decoder reports them.
pub const RI_MOUSE_LEFT_BUTTON_DOWN: u16 = 0x0001;

pub const RI_MOUSE_LEFT_BUTTON_UP: u16 = 0x0002;

pub const RI_MOUSE_RIGHT_BUTTON_DOWN: u16 = 0x0004;

pub const RI_MOUSE_RIGHT_BUTTON_UP: u16 = 0x0008;

pub const RI_MOUSE_MIDDLE_BUTTON_DOWN: u16 = 0x0010;

pub const RI_MOUSE_MIDDLE_BUTTON_UP: u16 = 0x0020;

pub const RI_MOUSE_BUTTON_4_DOWN: u16 = 0x0040;

pub const RI_MOUSE_BUTTON_4_UP: u16 = 0x0080;

pub const RI_MOUSE_BUTTON_5_DOWN: u16 = 0x0100;

pub const RI_MOUSE_BUTTON_5_UP: u16 = 0x0200;

pub const RI_MOUSE_WHEEL: u16 = 0x0400;

pub const RI_MOUSE_HWHEEL: u16 = 0x0800;

/// The `SendInput` keyboard flags.
pub const KEYEVENTF_EXTENDEDKEY: u32 = 0x0001;

pub const KEYEVENTF_KEYUP: u32 = 0x0002;

pub const KEYEVENTF_SCANCODE: u32 = 0x0008;

/// The `SendInput` mouse flags.
pub const MOUSEEVENTF_MOVE: u32 = 0x0001;

pub const MOUSEEVENTF_LEFTDOWN: u32 = 0x0002;

pub const MOUSEEVENTF_LEFTUP: u32 = 0x0004;

pub const MOUSEEVENTF_RIGHTDOWN: u32 = 0x0008;

pub const MOUSEEVENTF_RIGHTUP: u32 = 0x0010;

pub const MOUSEEVENTF_MIDDLEDOWN: u32 = 0x0020;

pub const MOUSEEVENTF_MIDDLEUP: u32 = 0x0040;

pub const MOUSEEVENTF_XDOWN: u32 = 0x0080;

pub const MOUSEEVENTF_XUP: u32 = 0x0100;

pub const MOUSEEVENTF_WHEEL: u32 = 0x0800;

pub const MOUSEEVENTF_HWHEEL: u32 = 0x1000;

pub const MOUSEEVENTF_VIRTUALDESK: u32 = 0x4000;

pub const MOUSEEVENTF_ABSOLUTE: u32 = 0x8000;

/// The largest normalized absolute mouse coordinate `SendInput` accepts.
pub const ABSOLUTE_COORDINATE_MAX: i64 = 65_535;

/// The high word of a 32-bit value, read as a signed 16-bit number.
pub open spec fn signed_high_word(value: u32) -> i32 {
    let high = value >> 16;
    if high >= 0x8000 {
        (high - 0x10000) as i32
    } else {
        high as i32
    }
}

/// The signed wheel rotation carried in the high word of the mouse data.
pub fn wheel_delta(mouse_data: u32) -> (delta: i32)
    ensures
        delta == signed_high_word(mouse_data),
{
    let high: u32 = mouse_data >> 16;
    assert(high < 0x10000) by (bit_vector)
        requires
            high == mouse_data >> 16,
    ;
    if high >= 0x8000 {
        (high as i32) - 0x10000
    } else {
        high as i32
    }
}

/// The extra mouse button named in the high word of the mouse data, if any.
pub open spec fn x_button_for(mouse_data: u32) -> Option<MouseButton> {
    if mouse_data >> 16 == XBUTTON1 {
        Some(MouseButton::X1)
    } else if mouse_data >> 16 == XBUTTON2 {
        Some(MouseButton::X2)
    } else {
        None
    }
}

/// Decodes which extra mouse button an `XBUTTON` message is about.
pub fn x_button_from_mouse_data(mouse_data: u32) -> (button: Option<MouseButton>)
    ensures
        button == x_button_for(mouse_data),
{
    let high: u32 = mouse_data >> 16;
    if high == XBUTTON1 {
        Some(MouseButton::X1)
    } else if high == XBUTTON2 {
        Some(MouseButton::X2)
    } else {
        None
    }
}

/// The key a keyboard hook reports: its scan code, no logical name, and whether
/// it is an extended key.
pub open spec fn hook_key(scan_code: u32, flags: u32) -> KeyDescriptor {
    KeyDescriptor {
        scan_code: ScanCode::spec_new((scan_code % 0x10000) as u16),
        logical_name: None,
        extended: flags & LLKHF_EXTENDED != 0,
    }
}

/// The action a low-level keyboard hook message records: none for injected
/// input or other messages, a press for key-down messages and a release for
/// key-up messages.
pub open spec fn keyboard_message_action(message: u32, scan_code: u32, flags: u32) -> Option<
    InputAction,
> {
    if flags & LLKHF_INJECTED != 0 {
        None
    } else if message == WM_KEYDOWN || message == WM_SYSKEYDOWN {
        Some(InputAction::KeyPressed { key: hook_key(scan_code, flags) })
    } else if message == WM_KEYUP || message == WM_SYSKEYUP {
        Some(InputAction::KeyReleased { key: hook_key(scan_code, flags) })
    } else {
        None
    }
}

/// Translates a low-level keyboard hook message into a canonical action.
pub fn translate_keyboard_message(message: u32, scan_code: u32, flags: u32) -> (action: Option<
    InputAction,
>)
    ensures
        action == keyboard_message_action(message, scan_code, flags),
{
    if flags & LLKHF_INJECTED != 0 {
        return None;
    }
    let low: u32 = scan_code & 0xFFFF;
    assert(low == scan_code % 0x10000) by (bit_vector)
        requires
            low == scan_code & 0xFFFF,
    ;
    let key = KeyDescriptor {
        scan_code: ScanCode::new(low as u16),
        logical_name: None,
        extended: flags & LLKHF_EXTENDED != 0,
    };
    if message == WM_KEYDOWN || message == WM_SYSKEYDOWN {
        Some(InputAction::KeyPressed { key })
    } else if message == WM_KEYUP || message == WM_SYSKEYUP {
        Some(InputAction::KeyReleased { key })
    } else {
        None
    }
}

/// What a low-level mouse hook message records: a pointer move to a point (whose
/// normalized coordinates the caller computes) or a finished action.
#[derive(Debug, Clone, PartialEq, Eq)]
pub enum MouseTranslation {
    PointerMovedTo(AbsoluteScreenPoint),
    Action(InputAction),
}

/// The translation of a low-level mouse hook message: none for injected input
/// or other messages.
pub open spec fn mouse_message_translation(
    message: u32,
    flags: u32,
    point: AbsoluteScreenPoint,
    mouse_data: u32,
) -> Option<MouseTranslation> {
    if flags & LLMHF_INJECTED != 0 {
        None
    } else if message == WM_MOUSEMOVE {
        Some(MouseTranslation::PointerMovedTo(point))
    } else if message == WM_LBUTTONDOWN {
        Some(MouseTranslation::Action(InputAction::MouseButtonPressed { button: MouseButton::Left }))
    } else if message == WM_LBUTTONUP {
        Some(MouseTranslation::Action(InputAction::MouseButtonReleased { button: MouseButton::Left }))
    } else if message == WM_RBUTTONDOWN {
        Some(MouseTranslation::Action(InputAction::MouseButtonPressed { button: MouseButton::Right }))
    } else if message == WM_RBUTTONUP {
        Some(MouseTranslation::Action(InputAction::MouseButtonReleased { button: MouseButton::Right }))
    } else if message == WM_MBUTTONDOWN {
        Some(MouseTranslation::Action(InputAction::MouseButtonPressed { button: MouseButton::Middle }))
    } else if message == WM_MBUTTONUP {
        Some(MouseTranslation::Action(InputAction::MouseButtonReleased { button: MouseButton::Middle }))
    } else if message == WM_XBUTTONDOWN {
        match x_button_for(mouse_data) {
            Some(button) => Some(MouseTranslation::Action(InputAction::MouseButtonPressed { button })),
            None => None,
        }
    } else if message == WM_XBUTTONUP {
        match x_button_for(mouse_data) {
            Some(button) => Some(MouseTranslation::Action(InputAction::MouseButtonReleased { button })),
            None => None,
        }
    } else if message == WM_MOUSEWHEEL {
        Some(MouseTranslation::Action(InputAction::MouseWheelScrolled {
            axis: ScrollAxis::Vertical,
            delta: signed_high_word(mouse_data),
        }))
    } else if message == WM_MOUSEHWHEEL {
        Some(MouseTranslation::Action(InputAction::MouseWheelScrolled {
            axis: ScrollAxis::Horizontal,
            delta: signed_high_word(mouse_data),
        }))
    } else {
        None
    }
}

/// The recorded translation of pressing `button`.
pub open spec fn press_translation(button: MouseButton) -> Option<MouseTranslation> {
    Some(MouseTranslation::Action(InputAction::MouseButtonPressed { button }))
}

/// The recorded translation of releasing `button`.
pub open spec fn release_translation(button: MouseButton) -> Option<MouseTranslation> {
    Some(MouseTranslation::Action(InputAction::MouseButtonReleased { button }))
}

/// A real (not injected) mouse hook message records what happened to the
/// button Windows names in it: the left, right and middle buttons' down
/// messages press that very button and their up messages release it; the extra
/// button messages press or release the extra button named in the high word of
/// the mouse data; a move goes to the reported point; the vertical and
/// horizontal wheel messages scroll their own axis by the signed high word.
/// Injected input records nothing, whatever the message.
pub proof fn lemma_mouse_hook_messages(flags: u32, point: AbsoluteScreenPoint, mouse_data: u32)
    ensures
        flags & LLMHF_INJECTED != 0 ==> forall|message: u32|
            #[trigger] mouse_message_translation(message, flags, point, mouse_data) is None,
        flags & LLMHF_INJECTED == 0 ==> {
            &&& mouse_message_translation(WM_LBUTTONDOWN, flags, point, mouse_data)
                == press_translation(MouseButton::Left)
            &&& mouse_message_translation(WM_LBUTTONUP, flags, point, mouse_data)
                == release_translation(MouseButton::Left)
            &&& mouse_message_translation(WM_RBUTTONDOWN, flags, point, mouse_data)
                == press_translation(MouseButton::Right)
            &&& mouse_message_translation(WM_RBUTTONUP, flags, point, mouse_data)
                == release_translation(MouseButton::Right)
            &&& mouse_message_translation(WM_MBUTTONDOWN, flags, point, mouse_data)
                == press_translation(MouseButton::Middle)
            &&& mouse_message_translation(WM_MBUTTONUP, flags, point, mouse_data)
                == release_translation(MouseButton::Middle)
            &&& mouse_data >> 16 == XBUTTON1 ==> mouse_message_translation(
                WM_XBUTTONDOWN,
                flags,
                point,
                mouse_data,
            ) == press_translation(MouseButton::X1) && mouse_message_translation(
                WM_XBUTTONUP,
                flags,
                point,
                mouse_data,
            ) == release_translation(MouseButton::X1)
            &&& mouse_data >> 16 == XBUTTON2 ==> mouse_message_translation(
                WM_XBUTTONDOWN,
                flags,
                point,
                mouse_data,
            ) == press_translation(MouseButton::X2) && mouse_message_translation(
                WM_XBUTTONUP,
                flags,
                point,
                mouse_data,
            ) == release_translation(MouseButton::X2)
            &&& mouse_message_translation(WM_MOUSEMOVE, flags, point, mouse_data) == Some(
                MouseTranslation::PointerMovedTo(point),
            )
            &&& mouse_message_translation(WM_MOUSEWHEEL, flags, point, mouse_data) == Some(
                MouseTranslation::Action(
                    InputAction::MouseWheelScrolled {
                        axis: ScrollAxis::Vertical,
                        delta: signed_high_word(mouse_data),
                    },
                ),
            )
            &&& mouse_message_translation(WM_MOUSEHWHEEL, flags, point, mouse_data) == Some(
                MouseTranslation::Action(
                    InputAction::MouseWheelScrolled {
                        axis: ScrollAxis::Horizontal,
                        delta: signed_high_word(mouse_data),
                    },
                ),
            )
        },
{
}

/// Two button messages that record the same button action are the same
/// message: the mouse hook never records two different buttons, or a press and
/// a release, alike.
pub proof fn lemma_mouse_hook_buttons_distinct(
    first: u32,
    second: u32,
    flags: u32,
    point: AbsoluteScreenPoint,
    mouse_data: u32,
)
    requires
        flags & LLMHF_INJECTED == 0,
        first != WM_XBUTTONDOWN && first != WM_XBUTTONUP,
        second != WM_XBUTTONDOWN && second != WM_XBUTTONUP,
        mouse_message_translation(first, flags, point, mouse_data) matches Some(
            MouseTranslation::Action(action),
        ) && (action is MouseButtonPressed || action is MouseButtonReleased),
        mouse_message_translation(first, flags, point, mouse_data) == mouse_message_translation(
            second,
            flags,
            point,
            mouse_data,
        ),
    ensures
        first == second,
{
}

/// A real keyboard hook message records the key it reports: a key-down (or
/// system key-down) message presses and a key-up (or system key-up) message
/// releases the same key, whose scan code is the low word of the reported scan
/// code and which is extended exactly when the extended flag is set. Injected
/// input records nothing.
pub proof fn lemma_keyboard_hook_messages(scan_code: u32, flags: u32)
    ensures
        flags & LLKHF_INJECTED != 0 ==> forall|message: u32|
            #[trigger] keyboard_message_action(message, scan_code, flags) is None,
        flags & LLKHF_INJECTED == 0 ==> {
            &&& keyboard_message_action(WM_KEYDOWN, scan_code, flags) matches Some(
                InputAction::KeyPressed { key },
            ) && key.scan_code.code() == scan_code % 0x10000 && key.extended == (flags
                & LLKHF_EXTENDED != 0) && key.logical_name is None
            &&& keyboard_message_action(WM_SYSKEYDOWN, scan_code, flags)
                == keyboard_message_action(WM_KEYDOWN, scan_code, flags)
            &&& keyboard_message_action(WM_KEYUP, scan_code, flags) matches Some(
                InputAction::KeyReleased { key },
            ) && keyboard_message_action(WM_KEYDOWN, scan_code, flags) == Some(
                InputAction::KeyPressed { key },
            )
            &&& keyboard_message_action(WM_SYSKEYUP, scan_code, flags)
                == keyboard_message_action(WM_KEYUP, scan_code, flags)
        },
{
    ScanCode::lemma_spec_new_code((scan_code % 0x10000) as u16);
}

/// A Raw Input keyboard packet records the key it reports by its make code,
/// extended when either prefix flag is set: a packet with the break flag
/// releases it, a key-down packet without it presses it, and the fake key
/// `255` records nothing.
pub proof fn lemma_raw_keyboard_packets(virtual_key: u16, make_code: u16, flags: u16)
    ensures
        raw_keyboard_action(255, make_code, flags, WM_KEYDOWN) is None,
        virtual_key != 255 && flags & RI_KEY_BREAK != 0 ==> (raw_keyboard_action(
            virtual_key,
            make_code,
            flags,
            WM_KEYDOWN,
        ) matches Some(InputAction::KeyReleased { key }) && key.scan_code.code() == make_code
            && key.extended == (flags & (RI_KEY_E0 | RI_KEY_E1) != 0)),
        virtual_key != 255 && flags & RI_KEY_BREAK == 0 ==> (raw_keyboard_action(
            virtual_key,
            make_code,
            flags,
            WM_KEYDOWN,
        ) matches Some(InputAction::KeyPressed { key }) && key.scan_code.code() == make_code
            && key.extended == (flags & (RI_KEY_E0 | RI_KEY_E1) != 0)),
        virtual_key != 255 ==> raw_keyboard_action(virtual_key, make_code, flags, WM_KEYUP)
            is Some && raw_keyboard_action(virtual_key, make_code, flags, WM_KEYUP)->0
            is KeyReleased,
{
    ScanCode::lemma_spec_new_code(make_code);
}

/// Translates a low-level mouse hook message.
pub fn translate_mouse_message(
    message: u32,
    flags: u32,
    point: AbsoluteScreenPoint,
    mouse_data: u32,
) -> (translation: Option<MouseTranslation>)
    ensures
        translation == mouse_message_translation(message, flags, point, mouse_data),
{
    if flags & LLMHF_INJECTED != 0 {
        return None;
    }
    if message == WM_MOUSEMOVE {
        Some(MouseTranslation::PointerMovedTo(point))
    } else if message == WM_LBUTTONDOWN {
        Some(MouseTranslation::Action(InputAction::MouseButtonPressed { button: MouseButton::Left }))
    } else if message == WM_LBUTTONUP {
        Some(MouseTranslation::Action(InputAction::MouseButtonReleased { button: MouseButton::Left }))
    } else if message == WM_RBUTTONDOWN {
        Some(MouseTranslation::Action(InputAction::MouseButtonPressed { button: MouseButton::Right }))
    } else if message == WM_RBUTTONUP {
        Some(MouseTranslation::Action(InputAction::MouseButtonReleased { button: MouseButton::Right }))
    } else if message == WM_MBUTTONDOWN {
        Some(MouseTranslation::Action(InputAction::MouseButtonPressed { button: MouseButton::Middle }))
    } else if message == WM_MBUTTONUP {
        Some(MouseTranslation::Action(InputAction::MouseButtonReleased { button: MouseButton::Middle }))
    } else if message == WM_XBUTTONDOWN {
        match x_button_from_mouse_data(mouse_data) {
            Some(button) => Some(MouseTranslation::Action(InputAction::MouseButtonPressed { button })),
            None => None,
        }
    } else if message == WM_XBUTTONUP {
        match x_button_from_mouse_data(mouse_data) {
            Some(button) => Some(MouseTranslation::Action(InputAction::MouseButtonReleased { button })),
            None => None,
        }
    } else if message == WM_MOUSEWHEEL {
        Some(MouseTranslation::Action(InputAction::MouseWheelScrolled {
            axis: ScrollAxis::Vertical,
            delta: wheel_delta(mouse_data),
        }))
    } else if message == WM_MOUSEHWHEEL {
        Some(MouseTranslation::Action(InputAction::MouseWheelScrolled {
            axis: ScrollAxis::Horizontal,
            delta: wheel_delta(mouse_data),
        }))
    } else {
        None
    }
}

/// The action a Raw Input keyboard packet records: none for the fake key `255`;
/// a release when the break flag is set; otherwise a press, unless the message
/// is a key-up message. The key is extended when either prefix flag is set.
pub open spec fn raw_keyboard_action(virtual_key: u16, make_code: u16, flags: u16, message: u32) -> Option<
    InputAction,
> {
    let key = KeyDescriptor {
        scan_code: ScanCode::spec_new(make_code),
        logical_name: None,
        extended: flags & (RI_KEY_E0 | RI_KEY_E1) != 0,
    };
    if virtual_key == 255 {
        None
    } else if flags & RI_KEY_BREAK != 0 {
        Some(InputAction::KeyReleased { key })
    } else if message == WM_KEYUP || message == WM_SYSKEYUP {
        Some(InputAction::KeyReleased { key })
    } else {
        Some(InputAction::KeyPressed { key })
    }
}

/// Translates a Raw Input keyboard packet into a canonical action.
pub fn translate_raw_keyboard(virtual_key: u16, make_code: u16, flags: u16, message: u32) -> (action: Option<
    InputAction,
>)
    ensures
        action == raw_keyboard_action(virtual_key, make_code, flags, message),
{
    if virtual_key == 255 {
        return None;
    }
    let key = KeyDescriptor {
        scan_code: ScanCode::new(make_code),
        logical_name: None,
        extended: flags & (RI_KEY_E0 | RI_KEY_E1) != 0,
    };
    if flags & RI_KEY_BREAK != 0 {
        return Some(InputAction::KeyReleased { key });
    }
    if message == WM_KEYUP || message == WM_SYSKEYUP {
        Some(InputAction::KeyReleased { key })
    } else {
        Some(InputAction::KeyPressed { key })
    }
}

/// The 16-bit button data read as a signed wheel rotation.
pub open spec fn signed_word(value: u16) -> i32 {
    if value >= 0x8000 {
        (value - 0x10000) as i32
    } else {
        value as i32
    }
}

/// One Raw Input mouse button flag and the action it stands for, when set.
pub open spec fn flagged(flags: u16, flag: u16, action: InputAction) -> Seq<InputAction> {
    if flags & flag != 0 {
        seq![action]
    } else {
        Seq::empty()
    }
}

/// The actions a Raw Input mouse packet records from its button flags: left,
/// right, middle, first and second extra button (each press before release),
/// then the vertical and horizontal wheel.
pub open spec fn raw_button_actions(flags: u16, data: u16) -> Seq<InputAction> {
    flagged(flags, RI_MOUSE_LEFT_BUTTON_DOWN, InputAction::MouseButtonPressed { button: MouseButton::Left })
        + flagged(flags, RI_MOUSE_LEFT_BUTTON_UP, InputAction::MouseButtonReleased { button: MouseButton::Left })
        + flagged(flags, RI_MOUSE_RIGHT_BUTTON_DOWN, InputAction::MouseButtonPressed { button: MouseButton::Right })
        + flagged(flags, RI_MOUSE_RIGHT_BUTTON_UP, InputAction::MouseButtonReleased { button: MouseButton::Right })
        + flagged(flags, RI_MOUSE_MIDDLE_BUTTON_DOWN, InputAction::MouseButtonPressed { button: MouseButton::Middle })
        + flagged(flags, RI_MOUSE_MIDDLE_BUTTON_UP, InputAction::MouseButtonReleased { button: MouseButton::Middle })
        + flagged(flags, RI_MOUSE_BUTTON_4_DOWN, InputAction::MouseButtonPressed { button: MouseButton::X1 })
        + flagged(flags, RI_MOUSE_BUTTON_4_UP, InputAction::MouseButtonReleased { button: MouseButton::X1 })
        + flagged(flags, RI_MOUSE_BUTTON_5_DOWN, InputAction::MouseButtonPressed { button: MouseButton::X2 })
        + flagged(flags, RI_MOUSE_BUTTON_5_UP, InputAction::MouseButtonReleased { button: MouseButton::X2 })
        + flagged(flags, RI_MOUSE_WHEEL, InputAction::MouseWheelScrolled {
            axis: ScrollAxis::Vertical,
            delta: signed_word(data),
        }) + flagged(flags, RI_MOUSE_HWHEEL, InputAction::MouseWheelScrolled {
            axis: ScrollAxis::Horizontal,
            delta: signed_word(data),
        })
}

fn push_flagged(actions: &mut Vec<InputAction>, flags: u16, flag: u16, action: InputAction)
    ensures
        final(actions)@ == old(actions)@ + flagged(flags, flag, action),
{
    if flags & flag != 0 {
        actions.push(action);
        assert(actions@ =~= old(actions)@ + flagged(flags, flag, action));
    } else {
        assert(actions@ =~= old(actions)@ + flagged(flags, flag, action));
    }
}

proof fn lemma_concat_contains(first: Seq<InputAction>, second: Seq<InputAction>, action: InputAction)
    ensures
        (first + second).contains(action) == (first.contains(action) || second.contains(action)),
{
    if first.contains(action) {
        let i = choose|i: int| 0 <= i < first.len() && first[i] == action;
        assert((first + second)[i] == action);
    }
    if second.contains(action) {
        let i = choose|i: int| 0 <= i < second.len() && second[i] == action;
        assert((first + second)[first.len() + i] == action);
    }
    if (first + second).contains(action) {
        let i = choose|i: int| 0 <= i < (first + second).len() && (first + second)[i] == action;
        if i < first.len() {
            assert(first[i] == action);
        } else {
            assert(second[i - first.len()] == action);
        }
    }
}

proof fn lemma_flagged_contains(flags: u16, flag: u16, recorded: InputAction, action: InputAction)
    ensures
        flagged(flags, flag, recorded).contains(action) == (flags & flag != 0 && recorded == action),
{
    if flags & flag != 0 {
        assert(flagged(flags, flag, recorded)[0] == recorded);
    }
}

/// A Raw Input mouse packet records a button's press exactly when its down flag
/// is set and the button's release exactly when its up flag is set, for each
/// of the five buttons, whatever other flags the packet carries.
pub proof fn lemma_raw_button_flags(flags: u16, data: u16)
    ensures
        raw_button_actions(flags, data).contains(InputAction::MouseButtonPressed { button: MouseButton::Left })
            == (flags & RI_MOUSE_LEFT_BUTTON_DOWN != 0),
        raw_button_actions(flags, data).contains(InputAction::MouseButtonReleased { button: MouseButton::Left })
            == (flags & RI_MOUSE_LEFT_BUTTON_UP != 0),
        raw_button_actions(flags, data).contains(InputAction::MouseButtonPressed { button: MouseButton::Right })
            == (flags & RI_MOUSE_RIGHT_BUTTON_DOWN != 0),
        raw_button_actions(flags, data).contains(InputAction::MouseButtonReleased { button: MouseButton::Right })
            == (flags & RI_MOUSE_RIGHT_BUTTON_UP != 0),
        raw_button_actions(flags, data).contains(InputAction::MouseButtonPressed { button: MouseButton::Middle })
            == (flags & RI_MOUSE_MIDDLE_BUTTON_DOWN != 0),
        raw_button_actions(flags, data).contains(InputAction::MouseButtonReleased { button: MouseButton::Middle })
            == (flags & RI_MOUSE_MIDDLE_BUTTON_UP != 0),
        raw_button_actions(flags, data).contains(InputAction::MouseButtonPressed { button: MouseButton::X1 })
            == (flags & RI_MOUSE_BUTTON_4_DOWN != 0),
        raw_button_actions(flags, data).contains(InputAction::MouseButtonReleased { button: MouseButton::X1 })
            == (flags & RI_MOUSE_BUTTON_4_UP != 0),
        raw_button_actions(flags, data).contains(InputAction::MouseButtonPressed { button: MouseButton::X2 })
            == (flags & RI_MOUSE_BUTTON_5_DOWN != 0),
        raw_button_actions(flags, data).contains(InputAction::MouseButtonReleased { button: MouseButton::X2 })
            == (flags & RI_MOUSE_BUTTON_5_UP != 0),
{
    let parts = seq![
        flagged(flags, RI_MOUSE_LEFT_BUTTON_DOWN, InputAction::MouseButtonPressed { button: MouseButton::Left }),
        flagged(flags, RI_MOUSE_LEFT_BUTTON_UP, InputAction::MouseButtonReleased { button: MouseButton::Left }),
        flagged(flags, RI_MOUSE_RIGHT_BUTTON_DOWN, InputAction::MouseButtonPressed { button: MouseButton::Right }),
        flagged(flags, RI_MOUSE_RIGHT_BUTTON_UP, InputAction::MouseButtonReleased { button: MouseButton::Right }),
        flagged(flags, RI_MOUSE_MIDDLE_BUTTON_DOWN, InputAction::MouseButtonPressed { button: MouseButton::Middle }),
        flagged(flags, RI_MOUSE_MIDDLE_BUTTON_UP, InputAction::MouseButtonReleased { button: MouseButton::Middle }),
        flagged(flags, RI_MOUSE_BUTTON_4_DOWN, InputAction::MouseButtonPressed { button: MouseButton::X1 }),
        flagged(flags, RI_MOUSE_BUTTON_4_UP, InputAction::MouseButtonReleased { button: MouseButton::X1 }),
        flagged(flags, RI_MOUSE_BUTTON_5_DOWN, InputAction::MouseButtonPressed { button: MouseButton::X2 }),
        flagged(flags, RI_MOUSE_BUTTON_5_UP, InputAction::MouseButtonReleased { button: MouseButton::X2 }),
        flagged(flags, RI_MOUSE_WHEEL, InputAction::MouseWheelScrolled { axis: ScrollAxis::Vertical, delta: signed_word(data) }),
        flagged(flags, RI_MOUSE_HWHEEL, InputAction::MouseWheelScrolled { axis: ScrollAxis::Horizontal, delta: signed_word(data) }),
    ];
    let actions = seq![
        InputAction::MouseButtonPressed { button: MouseButton::Left },
        InputAction::MouseButtonReleased { button: MouseButton::Left },
        InputAction::MouseButtonPressed { button: MouseButton::Right },
        InputAction::MouseButtonReleased { button: MouseButton::Right },
        InputAction::MouseButtonPressed { button: MouseButton::Middle },
        InputAction::MouseButtonReleased { button: MouseButton::Middle },
        InputAction::MouseButtonPressed { button: MouseButton::X1 },
        InputAction::MouseButtonReleased { button: MouseButton::X1 },
        InputAction::MouseButtonPressed { button: MouseButton::X2 },
        InputAction::MouseButtonReleased { button: MouseButton::X2 },
    ];
    let flag_values = seq![
        RI_MOUSE_LEFT_BUTTON_DOWN,
        RI_MOUSE_LEFT_BUTTON_UP,
        RI_MOUSE_RIGHT_BUTTON_DOWN,
        RI_MOUSE_RIGHT_BUTTON_UP,
        RI_MOUSE_MIDDLE_BUTTON_DOWN,
        RI_MOUSE_MIDDLE_BUTTON_UP,
        RI_MOUSE_BUTTON_4_DOWN,
        RI_MOUSE_BUTTON_4_UP,
        RI_MOUSE_BUTTON_5_DOWN,
        RI_MOUSE_BUTTON_5_UP,
    ];
    assert forall|j: int| 0 <= j < 10 implies raw_button_actions(flags, data).contains(#[trigger] actions[j])
        == (flags & flag_values[j] != 0) by {
        let action = actions[j];
        let p0 = parts[0];
        let p1 = parts[1];
        let p2 = parts[2];
        let p3 = parts[3];
        let p4 = parts[4];
        let p5 = parts[5];
        let p6 = parts[6];
        let p7 = parts[7];
        let p8 = parts[8];
        let p9 = parts[9];
        let p10 = parts[10];
        let p11 = parts[11];
        let s0 = p0;
        let s1 = s0 + p1;
        let s2 = s1 + p2;
        let s3 = s2 + p3;
        let s4 = s3 + p4;
        let s5 = s4 + p5;
        let s6 = s5 + p6;
        let s7 = s6 + p7;
        let s8 = s7 + p8;
        let s9 = s8 + p9;
        let s10 = s9 + p10;
        let s11 = s10 + p11;
        assert(raw_button_actions(flags, data) == s11);
        lemma_concat_contains(s0, p1, action);
        lemma_concat_contains(s1, p2, action);
        lemma_concat_contains(s2, p3, action);
        lemma_concat_contains(s3, p4, action);
        lemma_concat_contains(s4, p5, action);
        lemma_concat_contains(s5, p6, action);
        lemma_concat_contains(s6, p7, action);
        lemma_concat_contains(s7, p8, action);
        lemma_concat_contains(s8, p9, action);
        lemma_concat_contains(s9, p10, action);
        lemma_concat_contains(s10, p11, action);
        lemma_flagged_contains(flags, RI_MOUSE_LEFT_BUTTON_DOWN, InputAction::MouseButtonPressed { button: MouseButton::Left }, action);
        lemma_flagged_contains(flags, RI_MOUSE_LEFT_BUTTON_UP, InputAction::MouseButtonReleased { button: MouseButton::Left }, action);
        lemma_flagged_contains(flags, RI_MOUSE_RIGHT_BUTTON_DOWN, InputAction::MouseButtonPressed { button: MouseButton::Right }, action);
        lemma_flagged_contains(flags, RI_MOUSE_RIGHT_BUTTON_UP, InputAction::MouseButtonReleased { button: MouseButton::Right }, action);
        lemma_flagged_contains(flags, RI_MOUSE_MIDDLE_BUTTON_DOWN, InputAction::MouseButtonPressed { button: MouseButton::Middle }, action);
        lemma_flagged_contains(flags, RI_MOUSE_MIDDLE_BUTTON_UP, InputAction::MouseButtonReleased { button: MouseButton::Middle }, action);
        lemma_flagged_contains(flags, RI_MOUSE_BUTTON_4_DOWN, InputAction::MouseButtonPressed { button: MouseButton::X1 }, action);
        lemma_flagged_contains(flags, RI_MOUSE_BUTTON_4_UP, InputAction::MouseButtonReleased { button: MouseButton::X1 }, action);
        lemma_flagged_contains(flags, RI_MOUSE_BUTTON_5_DOWN, InputAction::MouseButtonPressed { button: MouseButton::X2 }, action);
        lemma_flagged_contains(flags, RI_MOUSE_BUTTON_5_UP, InputAction::MouseButtonReleased { button: MouseButton::X2 }, action);
        lemma_flagged_contains(flags, RI_MOUSE_WHEEL, InputAction::MouseWheelScrolled { axis: ScrollAxis::Vertical, delta: signed_word(data) }, action);
        lemma_flagged_contains(flags, RI_MOUSE_HWHEEL, InputAction::MouseWheelScrolled { axis: ScrollAxis::Horizontal, delta: signed_word(data) }, action);
    }
    assert(raw_button_actions(flags, data).contains(actions[0]) == (flags & flag_values[0] != 0));
    assert(raw_button_actions(flags, data).contains(actions[1]) == (flags & flag_values[1] != 0));
    assert(raw_button_actions(flags, data).contains(actions[2]) == (flags & flag_values[2] != 0));
    assert(raw_button_actions(flags, data).contains(actions[3]) == (flags & flag_values[3] != 0));
    assert(raw_button_actions(flags, data).contains(actions[4]) == (flags & flag_values[4] != 0));
    assert(raw_button_actions(flags, data).contains(actions[5]) == (flags & flag_values[5] != 0));
    assert(raw_button_actions(flags, data).contains(actions[6]) == (flags & flag_values[6] != 0));
    assert(raw_button_actions(flags, data).contains(actions[7]) == (flags & flag_values[7] != 0));
    assert(raw_button_actions(flags, data).contains(actions[8]) == (flags & flag_values[8] != 0));
    assert(raw_button_actions(flags, data).contains(actions[9]) == (flags & flag_values[9] != 0));
}

/// Decodes the button and wheel actions of a Raw Input mouse packet.
pub fn raw_mouse_button_actions(button_flags: u16, button_data: u16) -> (actions: Vec<InputAction>)
    ensures
        actions@ == raw_button_actions(button_flags, button_data),
{
    let delta: i32 = if button_data >= 0x8000 {
        (button_data as i32) - 0x10000
    } else {
        button_data as i32
    };
    let mut actions: Vec<InputAction> = Vec::new();
    push_flagged(&mut actions, button_flags, RI_MOUSE_LEFT_BUTTON_DOWN, InputAction::MouseButtonPressed { button: MouseButton::Left });
    push_flagged(&mut actions, button_flags, RI_MOUSE_LEFT_BUTTON_UP, InputAction::MouseButtonReleased { button: MouseButton::Left });
    push_flagged(&mut actions, button_flags, RI_MOUSE_RIGHT_BUTTON_DOWN, InputAction::MouseButtonPressed { button: MouseButton::Right });
    push_flagged(&mut actions, button_flags, RI_MOUSE_RIGHT_BUTTON_UP, InputAction::MouseButtonReleased { button: MouseButton::Right });
    push_flagged(&mut actions, button_flags, RI_MOUSE_MIDDLE_BUTTON_DOWN, InputAction::MouseButtonPressed { button: MouseButton::Middle });
    push_flagged(&mut actions, button_flags, RI_MOUSE_MIDDLE_BUTTON_UP, InputAction::MouseButtonReleased { button: MouseButton::Middle });
    push_flagged(&mut actions, button_flags, RI_MOUSE_BUTTON_4_DOWN, InputAction::MouseButtonPressed { button: MouseButton::X1 });
    push_flagged(&mut actions, button_flags, RI_MOUSE_BUTTON_4_UP, InputAction::MouseButtonReleased { button: MouseButton::X1 });
    push_flagged(&mut actions, button_flags, RI_MOUSE_BUTTON_5_DOWN, InputAction::MouseButtonPressed { button: MouseButton::X2 });
    push_flagged(&mut actions, button_flags, RI_MOUSE_BUTTON_5_UP, InputAction::MouseButtonReleased { button: MouseButton::X2 });
    push_flagged(&mut actions, button_flags, RI_MOUSE_WHEEL, InputAction::MouseWheelScrolled { axis: ScrollAxis::Vertical, delta });
    push_flagged(&mut actions, button_flags, RI_MOUSE_HWHEEL, InputAction::MouseWheelScrolled { axis: ScrollAxis::Horizontal, delta });
    actions
}

/// One entry of a `SendInput` batch.
#[derive(Debug, Clone, Copy, PartialEq, Eq, Structural)]
pub enum InputRecord {
    Keyboard { scan_code: u16, flags: u32 },
    Mouse { dx: i32, dy: i32, mouse_data: u32, flags: u32 },
}

/// The keyboard flags of a scan-code key event.
pub open spec fn key_flags(extended: bool, pressed: bool) -> u32 {
    KEYEVENTF_SCANCODE | (if extended {
        KEYEVENTF_EXTENDEDKEY
    } else {
        0u32
    }) | (if pressed {
        0u32
    } else {
        KEYEVENTF_KEYUP
    })
}

/// The `SendInput` entry that presses or releases a key by its scan code.
pub open spec fn key_record(key: KeyDescriptor, pressed: bool) -> InputRecord {
    InputRecord::Keyboard { scan_code: key.scan_code.code(), flags: key_flags(key.extended, pressed) }
}

/// Builds the `SendInput` entry that presses or releases a key.
pub fn key_input(key: &KeyDescriptor, pressed: bool) -> (record: InputRecord)
    ensures
        record == key_record(*key, pressed),
{
    let extended_flag: u32 = if key.extended {
        KEYEVENTF_EXTENDEDKEY
    } else {
        0
    };
    let release_flag: u32 = if pressed {
        0
    } else {
        KEYEVENTF_KEYUP
    };
    InputRecord::Keyboard {
        scan_code: key.scan_code.get(),
        flags: KEYEVENTF_SCANCODE | extended_flag | release_flag,
    }
}

/// The mouse flags and mouse data of pressing or releasing a button.
pub open spec fn button_flags(button: MouseButton, pressed: bool) -> (u32, u32) {
    match button {
        MouseButton::Left => (if pressed { MOUSEEVENTF_LEFTDOWN } else { MOUSEEVENTF_LEFTUP }, 0),
        MouseButton::Right => (if pressed { MOUSEEVENTF_RIGHTDOWN } else { MOUSEEVENTF_RIGHTUP }, 0),
        MouseButton::Middle => (if pressed { MOUSEEVENTF_MIDDLEDOWN } else { MOUSEEVENTF_MIDDLEUP }, 0),
        MouseButton::X1 => (if pressed { MOUSEEVENTF_XDOWN } else { MOUSEEVENTF_XUP }, XBUTTON1),
        MouseButton::X2 => (if pressed { MOUSEEVENTF_XDOWN } else { MOUSEEVENTF_XUP }, XBUTTON2),
    }
}

/// The `SendInput` entry that presses or releases a mouse button.
pub open spec fn button_record(button: MouseButton, pressed: bool) -> InputRecord {
    InputRecord::Mouse {
        dx: 0,
        dy: 0,
        mouse_data: button_flags(button, pressed).1,
        flags: button_flags(button, pressed).0,
    }
}

/// Builds the `SendInput` entry that presses or releases a mouse button.
pub fn mouse_button_input(button: MouseButton, pressed: bool) -> (record: InputRecord)
    ensures
        record == button_record(button, pressed),
{
    let (flags, mouse_data): (u32, u32) = match button {
        MouseButton::Left => (if pressed { MOUSEEVENTF_LEFTDOWN } else { MOUSEEVENTF_LEFTUP }, 0),
        MouseButton::Right => (if pressed { MOUSEEVENTF_RIGHTDOWN } else { MOUSEEVENTF_RIGHTUP }, 0),
        MouseButton::Middle => (if pressed { MOUSEEVENTF_MIDDLEDOWN } else { MOUSEEVENTF_MIDDLEUP }, 0),
        MouseButton::X1 => (if pressed { MOUSEEVENTF_XDOWN } else { MOUSEEVENTF_XUP }, XBUTTON1),
        MouseButton::X2 => (if pressed { MOUSEEVENTF_XDOWN } else { MOUSEEVENTF_XUP }, XBUTTON2),
    };
    InputRecord::Mouse { dx: 0, dy: 0, mouse_data, flags }
}

/// A signed wheel rotation as the unsigned mouse data `SendInput` takes (two's
/// complement).
pub open spec fn wheel_data(delta: i32) -> u32 {
    if delta < 0 {
        (delta + 0x1_0000_0000) as u32
    } else {
        delta as u32
    }
}

/// The `SendInput` entry that turns the wheel on an axis.
pub open spec fn wheel_record(axis: ScrollAxis, delta: i32) -> InputRecord {
    InputRecord::Mouse {
        dx: 0,
        dy: 0,
        mouse_data: wheel_data(delta),
        flags: match axis {
            ScrollAxis::Vertical => MOUSEEVENTF_WHEEL,
            ScrollAxis::Horizontal => MOUSEEVENTF_HWHEEL,
        },
    }
}

/// Builds the `SendInput` entry that turns the wheel.
pub fn mouse_wheel_input(axis: ScrollAxis, delta: i32) -> (record: InputRecord)
    ensures
        record == wheel_record(axis, delta),
{
    let flags = match axis {
        ScrollAxis::Vertical => MOUSEEVENTF_WHEEL,
        ScrollAxis::Horizontal => MOUSEEVENTF_HWHEEL,
    };
    let mouse_data: u32 = if delta < 0 {
        let magnitude: u32 = if delta == i32::MIN {
            0x8000_0000
        } else {
            (-delta) as u32
        };
        0xFFFF_FFFF - magnitude + 1
    } else {
        delta as u32
    };
    InputRecord::Mouse { dx: 0, dy: 0, mouse_data, flags }
}

/// Scales one coordinate onto the 0..=65535 range `SendInput` uses for the
/// virtual desktop: the offset from the desktop's origin, times 65535, divided
/// by one less than the span (at least one), truncated and clamped.
pub open spec fn scaled_axis(value: i32, origin: i32, span: u32) -> i32 {
    let relative = value - origin;
    let denominator = if span <= 1 {
        1
    } else {
        span - 1
    };
    if relative <= 0 {
        0
    } else if relative * 65_535 / denominator > 65_535 {
        65_535
    } else {
        (relative * 65_535 / denominator) as i32
    }
}

fn scale_axis(value: i32, origin: i32, span: u32) -> (scaled: i32)
    ensures
        scaled == scaled_axis(value, origin, span),
{
    let relative: i64 = (value as i64) - (origin as i64);
    let denominator: i64 = if span <= 1 {
        1
    } else {
        (span - 1) as i64
    };
    if relative <= 0 {
        return 0;
    }
    assert(relative * 65_535 <= 0x1_0000_0000 * 65_535) by (nonlinear_arith)
        requires
            0 < relative <= 0x1_0000_0000,
    ;
    let scaled: i64 = relative * 65_535 / denominator;
    if scaled > ABSOLUTE_COORDINATE_MAX {
        65_535
    } else {
        scaled as i32
    }
}

/// The absolute mouse coordinates of a point on the recorded virtual desktop.
pub open spec fn absolute_coordinates(position: AbsoluteScreenPoint, display: DisplayMetadata) -> (i32, i32) {
    (
        scaled_axis(position.x, display.virtual_origin.x, display.virtual_size.width),
        scaled_axis(position.y, display.virtual_origin.y, display.virtual_size.height),
    )
}

/// Maps a point on the recorded virtual desktop to the normalized absolute
/// coordinates of `SendInput`.
pub fn to_absolute_mouse_coordinates(position: AbsoluteScreenPoint, display: &DisplayMetadata) -> (coordinates: (
    i32,
    i32,
))
    ensures
        coordinates == absolute_coordinates(position, *display),
{
    (
        scale_axis(position.x, display.virtual_origin.x, display.virtual_size.width),
        scale_axis(position.y, display.virtual_origin.y, display.virtual_size.height),
    )
}

/// The `SendInput` entry that replays an action on the recorded desktop.
pub open spec fn action_record(action: InputAction, display: DisplayMetadata) -> InputRecord {
    match action {
        InputAction::KeyPressed { key } => key_record(key, true),
        InputAction::KeyReleased { key } => key_record(key, false),
        InputAction::PointerMoved { position } => InputRecord::Mouse {
            dx: absolute_coordinates(position.absolute, display).0,
            dy: absolute_coordinates(position.absolute, display).1,
            mouse_data: 0,
            flags: MOUSEEVENTF_MOVE | MOUSEEVENTF_ABSOLUTE | MOUSEEVENTF_VIRTUALDESK,
        },
        InputAction::MouseButtonPressed { button } => button_record(button, true),
        InputAction::MouseButtonReleased { button } => button_record(button, false),
        InputAction::MouseWheelScrolled { axis, delta } => wheel_record(axis, delta),
    }
}

/// Replaying a mouse button sends the `SendInput` flag Windows defines for that
/// button and direction (the left, right and middle buttons have their own
/// down and up flags; the extra buttons share the X flags and are told apart by
/// the mouse data), and no two button actions send the same entry.
pub proof fn lemma_button_records()
    ensures
        button_record(MouseButton::Left, true) == (InputRecord::Mouse {
            dx: 0,
            dy: 0,
            mouse_data: 0,
            flags: MOUSEEVENTF_LEFTDOWN,
        }),
        button_record(MouseButton::Left, false) == (InputRecord::Mouse {
            dx: 0,
            dy: 0,
            mouse_data: 0,
            flags: MOUSEEVENTF_LEFTUP,
        }),
        button_record(MouseButton::Right, true) == (InputRecord::Mouse {
            dx: 0,
            dy: 0,
            mouse_data: 0,
            flags: MOUSEEVENTF_RIGHTDOWN,
        }),
        button_record(MouseButton::Right, false) == (InputRecord::Mouse {
            dx: 0,
            dy: 0,
            mouse_data: 0,
            flags: MOUSEEVENTF_RIGHTUP,
        }),
        button_record(MouseButton::Middle, true) == (InputRecord::Mouse {
            dx: 0,
            dy: 0,
            mouse_data: 0,
            flags: MOUSEEVENTF_MIDDLEDOWN,
        }),
        button_record(MouseButton::Middle, false) == (InputRecord::Mouse {
            dx: 0,
            dy: 0,
            mouse_data: 0,
            flags: MOUSEEVENTF_MIDDLEUP,
        }),
        button_record(MouseButton::X1, true) == (InputRecord::Mouse {
            dx: 0,
            dy: 0,
            mouse_data: XBUTTON1,
            flags: MOUSEEVENTF_XDOWN,
        }),
        button_record(MouseButton::X1, false) == (InputRecord::Mouse {
            dx: 0,
            dy: 0,
            mouse_data: XBUTTON1,
            flags: MOUSEEVENTF_XUP,
        }),
        button_record(MouseButton::X2, true) == (InputRecord::Mouse {
            dx: 0,
            dy: 0,
            mouse_data: XBUTTON2,
            flags: MOUSEEVENTF_XDOWN,
        }),
        button_record(MouseButton::X2, false) == (InputRecord::Mouse {
            dx: 0,
            dy: 0,
            mouse_data: XBUTTON2,
            flags: MOUSEEVENTF_XUP,
        }),
        forall|first: MouseButton, first_pressed: bool, second: MouseButton, second_pressed: bool|
            #[trigger] button_record(first, first_pressed) == #[trigger] button_record(
                second,
                second_pressed,
            ) ==> first == second && first_pressed == second_pressed,
{
}

/// Replaying a key sends its scan code with the scan-code flag, the extended
/// flag exactly for an extended key, and the key-up flag exactly for a release.
pub proof fn lemma_key_records(key: KeyDescriptor, pressed: bool)
    ensures
        key_record(key, pressed) matches InputRecord::Keyboard { scan_code, flags } && scan_code
            == key.scan_code.code() && flags & KEYEVENTF_SCANCODE != 0 && (flags
            & KEYEVENTF_EXTENDEDKEY != 0) == key.extended && (flags & KEYEVENTF_KEYUP != 0)
            == !pressed,
{
    assert(((0x0008u32 | 0u32 | 0u32) & 0x0008u32 != 0) && ((0x0008u32 | 0u32 | 0u32) & 0x0001u32
        == 0) && ((0x0008u32 | 0u32 | 0u32) & 0x0002u32 == 0)) by (bit_vector);
    assert(((0x0008u32 | 0x0001u32 | 0u32) & 0x0008u32 != 0) && ((0x0008u32 | 0x0001u32 | 0u32)
        & 0x0001u32 != 0) && ((0x0008u32 | 0x0001u32 | 0u32) & 0x0002u32 == 0)) by (bit_vector);
    assert(((0x0008u32 | 0u32 | 0x0002u32) & 0x0008u32 != 0) && ((0x0008u32 | 0u32 | 0x0002u32)
        & 0x0001u32 == 0) && ((0x0008u32 | 0u32 | 0x0002u32) & 0x0002u32 != 0)) by (bit_vector);
    assert(((0x0008u32 | 0x0001u32 | 0x0002u32) & 0x0008u32 != 0) && ((0x0008u32 | 0x0001u32
        | 0x0002u32) & 0x0001u32 != 0) && ((0x0008u32 | 0x0001u32 | 0x0002u32) & 0x0002u32 != 0))
        by (bit_vector);
}

/// Replaying a wheel turn sends the wheel flag of its own axis, with mouse data
/// equal to the rotation modulo 2^32 (two's complement), so a turn down stays a
/// turn down.
pub proof fn lemma_wheel_records(axis: ScrollAxis, delta: i32)
    ensures
        wheel_record(axis, delta) matches InputRecord::Mouse { dx, dy, mouse_data, flags } && dx
            == 0 && dy == 0 && flags == (if axis == ScrollAxis::Vertical {
            MOUSEEVENTF_WHEEL
        } else {
            MOUSEEVENTF_HWHEEL
        }) && (mouse_data as int - delta) % 0x1_0000_0000 == 0 && (delta < 0) == (mouse_data
            >= 0x8000_0000),
{
}

/// Replaying a recorded button action presses or releases the same button the
/// action names, and replaying a key action presses or releases the same key.
pub proof fn lemma_action_records_follow_the_action(action: InputAction, display: DisplayMetadata)
    ensures
        action matches InputAction::MouseButtonPressed { button } ==> action_record(action, display)
            == button_record(button, true),
        action matches InputAction::MouseButtonReleased { button } ==> action_record(action, display)
            == button_record(button, false),
        action matches InputAction::KeyPressed { key } ==> action_record(action, display)
            == key_record(key, true),
        action matches InputAction::KeyReleased { key } ==> action_record(action, display)
            == key_record(key, false),
        action matches InputAction::MouseWheelScrolled { axis, delta } ==> action_record(
            action,
            display,
        ) == wheel_record(axis, delta),
{
}

/// Builds the `SendInput` entry that replays an action.
pub fn input_for_action(action: &InputAction, display: &DisplayMetadata) -> (record: InputRecord)
    ensures
        record == action_record(*action, *display),
{
    match action {
        InputAction::KeyPressed { key } => key_input(key, true),
        InputAction::KeyReleased { key } => key_input(key, false),
        InputAction::PointerMoved { position } => {
            let (dx, dy) = to_absolute_mouse_coordinates(position.absolute, display);
            InputRecord::Mouse {
                dx,
                dy,
                mouse_data: 0,
                flags: MOUSEEVENTF_MOVE | MOUSEEVENTF_ABSOLUTE | MOUSEEVENTF_VIRTUALDESK,
            }
        },
        InputAction::MouseButtonPressed { button } => mouse_button_input(*button, true),
        InputAction::MouseButtonReleased { button } => mouse_button_input(*button, false),
        InputAction::MouseWheelScrolled { axis, delta } => mouse_wheel_input(*axis, *delta),
    }
}

/// The entries that release whatever is held: buttons first, then keys, each
/// in the reverse of the order they were pressed.
pub fn cleanup_inputs(state: &PressedInputState, display: &DisplayMetadata) -> (records: Vec<InputRecord>)
    ensures
        records@.len() == release_actions(state@).len(),
        forall|i: int|
            0 <= i < records@.len() ==> #[trigger] records@[i] == action_record(
                release_actions(state@)[i],
                *display,
            ),
{
    let actions = state.release_action_list();
    let mut records: Vec<InputRecord> = Vec::new();
    let mut index: usize = 0;
    while index < actions.len()
        invariant
            index <= actions.len(),
            actions@ == release_actions(state@),
            records@.len() == index,
            forall|i: int| 0 <= i < index ==> #[trigger] records@[i] == action_record(actions@[i], *display),
        decreases actions.len() - index,
    {
        records.push(input_for_action(&actions[index], display));
        index += 1;
    }
    records
}

} // verus!
