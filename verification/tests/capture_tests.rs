use keyboard_usage_tracker::capture::{
    device_role, keyboard_hook_event, mouse_hook_event, CaptureAction, DeviceCaps, DeviceRole,
    ModifierState,
};
use keyboard_usage_tracker::events::{InputEvent, MouseButton};

#[test]
fn shifted_typing_reports_shift() {
    let mut m = ModifierState::new();
    assert_eq!(
        m.handle_key(42, 1),
        CaptureAction::Send(InputEvent::KeyDown { vk_code: 42, is_extended: false, shift_held: true, caps_on: false })
    );
    assert_eq!(
        m.handle_key(35, 1),
        CaptureAction::Send(InputEvent::KeyDown { vk_code: 35, is_extended: false, shift_held: true, caps_on: false })
    );
    assert_eq!(m.handle_key(35, 2), CaptureAction::Nothing);
    assert_eq!(m.handle_key(35, 0), CaptureAction::Send(InputEvent::KeyUp { vk_code: 35, is_extended: false }));
    assert_eq!(m.handle_key(42, 0), CaptureAction::Send(InputEvent::KeyUp { vk_code: 42, is_extended: false }));
    assert_eq!(
        m.handle_key(18, 1),
        CaptureAction::Send(InputEvent::KeyDown { vk_code: 18, is_extended: false, shift_held: false, caps_on: false })
    );
}

#[test]
fn caps_lock_toggles_on_press() {
    let mut m = ModifierState::new();
    assert_eq!(
        m.handle_key(58, 1),
        CaptureAction::Send(InputEvent::KeyDown { vk_code: 58, is_extended: false, shift_held: false, caps_on: true })
    );
    m.handle_key(58, 0);
    m.handle_key(58, 2);
    assert_eq!(
        m.handle_key(30, 1),
        CaptureAction::Send(InputEvent::KeyDown { vk_code: 30, is_extended: false, shift_held: false, caps_on: true })
    );
    m.handle_key(58, 1);
    assert_eq!(
        m.handle_key(30, 1),
        CaptureAction::Send(InputEvent::KeyDown { vk_code: 30, is_extended: false, shift_held: false, caps_on: false })
    );
}

#[test]
fn buttons_click_on_press_only() {
    let mut m = ModifierState::new();
    assert_eq!(m.handle_key(0x110, 1), CaptureAction::Click(MouseButton::Left));
    assert_eq!(m.handle_key(0x111, 1), CaptureAction::Click(MouseButton::Right));
    assert_eq!(m.handle_key(0x112, 1), CaptureAction::Click(MouseButton::Middle));
    assert_eq!(m.handle_key(0x110, 0), CaptureAction::Nothing);
    assert_eq!(m.handle_key(0x113, 1), CaptureAction::Send(InputEvent::KeyDown { vk_code: 0x113, is_extended: false, shift_held: false, caps_on: false }));
}

#[test]
fn windows_keyboard_hook() {
    assert_eq!(
        keyboard_hook_event(0, 0x100, 65, 0, 0, -128, 0, 1),
        Some(InputEvent::KeyDown { vk_code: 65, is_extended: false, shift_held: true, caps_on: true })
    );
    assert_eq!(
        keyboard_hook_event(0, 0x104, 13, 1, 0, 0, 0, 0),
        Some(InputEvent::KeyDown { vk_code: 13, is_extended: true, shift_held: false, caps_on: false })
    );
    assert_eq!(keyboard_hook_event(0, 0x105, 13, 0x81, 0, 0, 0, 0), Some(InputEvent::KeyUp { vk_code: 13, is_extended: true }));
    assert_eq!(keyboard_hook_event(0, 0x101, 13, 0x80, 0, 0, 0, 0), Some(InputEvent::KeyUp { vk_code: 13, is_extended: false }));
    assert_eq!(keyboard_hook_event(-1, 0x100, 65, 0, 0, 0, 0, 0), None);
    assert_eq!(keyboard_hook_event(0, 0x102, 65, 0, 0, 0, 0, 0), None);
    assert_eq!(
        keyboard_hook_event(0, 0x100, 65, 0, 0, 0, 0, -127),
        Some(InputEvent::KeyDown { vk_code: 65, is_extended: false, shift_held: false, caps_on: true })
    );
}

#[test]
fn windows_mouse_hook() {
    assert_eq!(mouse_hook_event(0, 0x201, 3, 4), Some(InputEvent::MouseClick { button: MouseButton::Left, x: 3, y: 4 }));
    assert_eq!(mouse_hook_event(0, 0x204, 3, 4), Some(InputEvent::MouseClick { button: MouseButton::Right, x: 3, y: 4 }));
    assert_eq!(mouse_hook_event(0, 0x207, -3, 4), Some(InputEvent::MouseClick { button: MouseButton::Middle, x: -3, y: 4 }));
    assert_eq!(mouse_hook_event(0, 0x202, 3, 4), None);
    assert_eq!(mouse_hook_event(-1, 0x201, 3, 4), None);
}

#[test]
fn device_roles() {
    let kb = DeviceCaps { keys: Some(vec![30, 44, 1]), has_relative_axes: false, absolute_axes: None };
    assert_eq!(device_role(&kb), DeviceRole::Input { mouse: false });
    let mouse = DeviceCaps { keys: Some(vec![0x110]), has_relative_axes: true, absolute_axes: None };
    assert_eq!(device_role(&mouse), DeviceRole::Input { mouse: true });
    let no_rel = DeviceCaps { keys: Some(vec![0x110]), has_relative_axes: false, absolute_axes: None };
    assert_eq!(device_role(&no_rel), DeviceRole::Ignored);
    let tp = DeviceCaps { keys: Some(vec![30, 44, 0x110]), has_relative_axes: true, absolute_axes: Some(vec![0x2f, 0x35, 0x36]) };
    assert_eq!(device_role(&tp), DeviceRole::Touchpad);
    let partial = DeviceCaps { keys: None, has_relative_axes: true, absolute_axes: Some(vec![0x35, 0x36]) };
    assert_eq!(device_role(&partial), DeviceRole::Ignored);
    let only_a = DeviceCaps { keys: Some(vec![30]), has_relative_axes: false, absolute_axes: None };
    assert_eq!(device_role(&only_a), DeviceRole::Ignored);
}

#[test]
fn key_presses_carry_the_last_shift_and_caps_parity() {
    let events: [(u16, i32); 10] =
        [(42, 1), (54, 1), (42, 0), (30, 1), (58, 1), (58, 1), (58, 1), (54, 2), (31, 1), (54, 0)];
    let mut m = ModifierState::new();
    for (i, &(code, value)) in events.iter().enumerate() {
        let action = m.handle_key(code, value);
        let seen = &events[..=i];
        let shift = seen.iter().filter(|e| e.0 == 42 || e.0 == 54).last().map_or(false, |e| e.1 != 0);
        let caps = seen.iter().filter(|e| e.0 == 58 && e.1 == 1).count() % 2 == 1;
        if let CaptureAction::Send(InputEvent::KeyDown { shift_held, caps_on, .. }) = action {
            assert_eq!((shift_held, caps_on), (shift, caps), "event {i}");
        }
    }
}
