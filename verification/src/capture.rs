//! What the platform capture layers make of raw device input: the Linux
//! key and button events with the shared modifier state, the Windows
//! keyboard and mouse hook messages, and which Linux devices are read.

use crate::events::{InputEvent, MouseButton};
use vstd::prelude::*;

verus! {

/// Linux key code of the left Shift key.
pub const KEY_LEFTSHIFT: u16 = 42;
/// Linux key code of the right Shift key.
pub const KEY_RIGHTSHIFT: u16 = 54;
/// Linux key code of Caps Lock.
pub const KEY_CAPSLOCK: u16 = 58;
/// Linux key code of A.
pub const KEY_A: u16 = 30;
/// Linux key code of Z.
pub const KEY_Z: u16 = 44;
/// Linux code of the left mouse button.
pub const BTN_LEFT: u16 = 0x110;
/// Linux code of the right mouse button.
pub const BTN_RIGHT: u16 = 0x111;
/// Linux code of the middle mouse button.
pub const BTN_MIDDLE: u16 = 0x112;
/// Linux absolute axis of the multitouch slot.
pub const ABS_MT_SLOT: u16 = 0x2f;
/// Linux absolute axis of a multitouch contact's x position.
pub const ABS_MT_POSITION_X: u16 = 0x35;
/// Linux absolute axis of a multitouch contact's y position.
pub const ABS_MT_POSITION_Y: u16 = 0x36;

/// Windows message of a key press.
pub const WM_KEYDOWN: u32 = 0x0100;
/// Windows message of a key release.
pub const WM_KEYUP: u32 = 0x0101;
/// Windows message of a key press with Alt.
pub const WM_SYSKEYDOWN: u32 = 0x0104;
/// Windows message of a key release with Alt.
pub const WM_SYSKEYUP: u32 = 0x0105;
/// Windows message of a left button press.
pub const WM_LBUTTONDOWN: u32 = 0x0201;
/// Windows message of a right button press.
pub const WM_RBUTTONDOWN: u32 = 0x0204;
/// Windows message of a middle button press.
pub const WM_MBUTTONDOWN: u32 = 0x0207;

/// What a Linux key event leads to.
#[derive(Debug, Clone, Copy, PartialEq, Eq, Structural)]
pub enum CaptureAction {
    /// Nothing to send.
    Nothing,
    /// A button was pressed: send a click at the cursor position.
    Click(MouseButton),
    /// Send this event.
    Send(InputEvent),
}

/// The mouse button of a Linux button code.
pub open spec fn button_of(code: u16) -> Option<MouseButton> {
    if code == BTN_LEFT {
        Some(MouseButton::Left)
    } else if code == BTN_RIGHT {
        Some(MouseButton::Right)
    } else if code == BTN_MIDDLE {
        Some(MouseButton::Middle)
    } else {
        None
    }
}

/// The modifier state, Shift then Caps Lock, after a key event with
/// `code` and `value` in state `m`: a Shift key sets Shift to whether it
/// is down, a press of Caps Lock toggles Caps Lock.
pub open spec fn modifier_step(m: (bool, bool), code: u16, value: i32) -> (bool, bool) {
    (
        if code == KEY_LEFTSHIFT || code == KEY_RIGHTSHIFT {
            value != 0
        } else {
            m.0
        },
        if code == KEY_CAPSLOCK && value == 1 {
            !m.1
        } else {
            m.1
        },
    )
}

/// What a key event with `code` and `value` leads to, `m` being the
/// modifier state after it: a button press is a click, other button
/// events nothing; a key press is sent with `m`, a release is sent, a
/// repeat is not.
pub open spec fn key_action(m: (bool, bool), code: u16, value: i32) -> CaptureAction {
    if button_of(code) is Some {
        if value == 1 {
            CaptureAction::Click(button_of(code).unwrap())
        } else {
            CaptureAction::Nothing
        }
    } else if value == 1 {
        CaptureAction::Send(
            InputEvent::KeyDown { vk_code: code as u32, is_extended: false, shift_held: m.0, caps_on: m.1 },
        )
    } else if value == 0 {
        CaptureAction::Send(InputEvent::KeyUp { vk_code: code as u32, is_extended: false })
    } else {
        CaptureAction::Nothing
    }
}

/// The modifier state after the key events `evs` (code, value), starting
/// with Shift up and Caps Lock off.
pub open spec fn modifiers_after(evs: Seq<(u16, i32)>) -> (bool, bool)
    decreases evs.len(),
{
    if evs.len() == 0 {
        (false, false)
    } else {
        modifier_step(modifiers_after(evs.drop_last()), evs.last().0, evs.last().1)
    }
}

/// An event of either Shift key.
pub open spec fn is_shift_event(e: (u16, i32)) -> bool {
    e.0 == KEY_LEFTSHIFT || e.0 == KEY_RIGHTSHIFT
}

/// A press of Caps Lock.
pub open spec fn is_caps_press(e: (u16, i32)) -> bool {
    e.0 == KEY_CAPSLOCK && e.1 == 1
}

/// Whether the last Shift event among `evs` left a Shift key down;
/// false when there was none.
pub open spec fn shift_down_after(evs: Seq<(u16, i32)>) -> bool {
    let shifts = evs.filter(|e: (u16, i32)| is_shift_event(e));
    shifts.len() > 0 && shifts.last().1 != 0
}

/// Whether Caps Lock was pressed an odd number of times in `evs`.
pub open spec fn caps_on_after(evs: Seq<(u16, i32)>) -> bool {
    evs.filter(|e: (u16, i32)| is_caps_press(e)).len() % 2 == 1
}

/// After any key events, Shift is down exactly when the last Shift event
/// was not a release, and Caps Lock is on exactly when it was pressed an
/// odd number of times.
pub proof fn lemma_modifiers_after(evs: Seq<(u16, i32)>)
    ensures
        modifiers_after(evs) == (shift_down_after(evs), caps_on_after(evs)),
    decreases evs.len(),
{
    reveal(Seq::filter);
    if evs.len() > 0 {
        lemma_modifiers_after(evs.drop_last());
    }
}

/// Every key press is sent with Shift held exactly when the last Shift
/// event up to it left a Shift key down, and with Caps Lock on exactly
/// when Caps Lock was pressed an odd number of times up to it.
pub proof fn lemma_key_down_carries_modifiers(evs: Seq<(u16, i32)>, i: int)
    requires
        0 <= i < evs.len(),
    ensures
        key_action(modifiers_after(evs.take(i + 1)), evs[i].0, evs[i].1) matches CaptureAction::Send(
            InputEvent::KeyDown { shift_held, caps_on, .. },
        ) ==> shift_held == shift_down_after(evs.take(i + 1)) && caps_on == caps_on_after(
            evs.take(i + 1),
        ),
{
    lemma_modifiers_after(evs.take(i + 1));
}

/// The modifier state that all Linux input devices share: whether a
/// Shift key is down and whether Caps Lock is on. It is always the state
/// after the key events handled so far.
pub struct ModifierState {
    shift: bool,
    caps: bool,
    history: Ghost<Seq<(u16, i32)>>,
}

impl ModifierState {
    pub closed spec fn shift(&self) -> bool {
        self.shift
    }

    pub closed spec fn caps(&self) -> bool {
        self.caps
    }

    /// The key events (code, value) handled since the state was made.
    pub closed spec fn history(&self) -> Seq<(u16, i32)> {
        self.history@
    }

    #[verifier::type_invariant]
    closed spec fn follows_history(self) -> bool {
        (self.shift, self.caps) == modifiers_after(self.history@)
    }

    /// No Shift key down, Caps Lock off, no event handled.
    pub fn new() -> (m: Self)
        ensures
            !m.shift(),
            !m.caps(),
            m.history() == Seq::<(u16, i32)>::empty(),
            (m.shift(), m.caps()) == modifiers_after(m.history()),
    {
        ModifierState { shift: false, caps: false, history: Ghost(Seq::empty()) }
    }

    /// A Linux key event with code `code` and value `value` (1 press,
    /// 0 release, 2 repeat). A Shift key sets the Shift state to whether
    /// it is down; a press of Caps Lock toggles Caps Lock. A button press
    /// is a click; other button events lead to nothing. A key press is
    /// sent with the modifier state after this event: Shift held exactly
    /// when the last Shift event handled so far was not a release, Caps
    /// Lock on exactly when it was pressed an odd number of times so far.
    /// A release is sent, a repeat is not.
    pub fn handle_key(&mut self, code: u16, value: i32) -> (a: CaptureAction)
        ensures
            final(self).history() == old(self).history().push((code, value)),
            (final(self).shift(), final(self).caps()) == modifier_step(
                (old(self).shift(), old(self).caps()),
                code,
                value,
            ),
            (final(self).shift(), final(self).caps()) == modifiers_after(final(self).history()),
            a == key_action((final(self).shift(), final(self).caps()), code, value),
            a matches CaptureAction::Send(InputEvent::KeyDown { shift_held, caps_on, .. })
                ==> shift_held == shift_down_after(final(self).history()) && caps_on
                == caps_on_after(final(self).history()),
    {
        proof {
            use_type_invariant(&*self);
        }
        let shift = if code == KEY_LEFTSHIFT || code == KEY_RIGHTSHIFT {
            value != 0
        } else {
            self.shift
        };
        let caps = if code == KEY_CAPSLOCK && value == 1 {
            !self.caps
        } else {
            self.caps
        };
        let ghost h = self.history@.push((code, value));
        proof {
            assert(h.drop_last() =~= self.history@);
            lemma_modifiers_after(h);
        }
        *self = ModifierState { shift, caps, history: Ghost(h) };
        if code == BTN_LEFT || code == BTN_RIGHT || code == BTN_MIDDLE {
            if value == 1 {
                let button = if code == BTN_LEFT {
                    MouseButton::Left
                } else if code == BTN_RIGHT {
                    MouseButton::Right
                } else {
                    MouseButton::Middle
                };
                return CaptureAction::Click(button);
            }
            return CaptureAction::Nothing;
        }
        if value == 1 {
            CaptureAction::Send(
                InputEvent::KeyDown { vk_code: code as u32, is_extended: false, shift_held: shift, caps_on: caps },
            )
        } else if value == 0 {
            CaptureAction::Send(InputEvent::KeyUp { vk_code: code as u32, is_extended: false })
        } else {
            CaptureAction::Nothing
        }
    }
}

/// The event of a Windows low-level keyboard hook call, given the hook
/// code, the message, the key's virtual code and flags, and the key
/// states of Shift, left Shift, right Shift and Caps Lock.
pub open spec fn keyboard_hook_spec(
    code: i32,
    msg: u32,
    vk_code: u32,
    flags: u32,
    shift_state: i16,
    lshift_state: i16,
    rshift_state: i16,
    capital_state: i16,
) -> Option<InputEvent> {
    if code < 0 {
        None
    } else if msg == WM_KEYDOWN || msg == WM_SYSKEYDOWN {
        Some(
            InputEvent::KeyDown {
                vk_code,
                is_extended: flags & 1 != 0,
                shift_held: shift_state < 0 || lshift_state < 0 || rshift_state < 0,
                caps_on: capital_state & 1 != 0,
            },
        )
    } else if msg == WM_KEYUP || msg == WM_SYSKEYUP {
        Some(InputEvent::KeyUp { vk_code, is_extended: flags & 1 != 0 })
    } else {
        None
    }
}

/// The event that a Windows keyboard hook call reports.
pub fn keyboard_hook_event(
    code: i32,
    msg: u32,
    vk_code: u32,
    flags: u32,
    shift_state: i16,
    lshift_state: i16,
    rshift_state: i16,
    capital_state: i16,
) -> (e: Option<InputEvent>)
    ensures
        e == keyboard_hook_spec(
            code,
            msg,
            vk_code,
            flags,
            shift_state,
            lshift_state,
            rshift_state,
            capital_state,
        ),
{
    if code < 0 {
        return None;
    }
    if msg == WM_KEYDOWN || msg == WM_SYSKEYDOWN {
        Some(
            InputEvent::KeyDown {
                vk_code,
                is_extended: (flags & 1) != 0,
                shift_held: shift_state < 0 || lshift_state < 0 || rshift_state < 0,
                caps_on: (capital_state & 1) != 0,
            },
        )
    } else if msg == WM_KEYUP || msg == WM_SYSKEYUP {
        Some(InputEvent::KeyUp { vk_code, is_extended: (flags & 1) != 0 })
    } else {
        None
    }
}

/// What the keyboard hook reports, for every call: nothing for a
/// negative hook code; for a key-down message (0x100 or 0x104) a press
/// of that key, extended when bit 0 of the flags is set, with Shift held
/// exactly when one of the Shift, left Shift or right Shift key states is
/// negative (the key is down), and Caps Lock on exactly when its state is
/// odd (toggled); for a key-up message (0x101 or 0x105) a release.
pub proof fn lemma_keyboard_hook_reports(
    code: i32,
    msg: u32,
    vk: u32,
    flags: u32,
    shift_state: i16,
    lshift_state: i16,
    rshift_state: i16,
    capital_state: i16,
)
    ensures
        ({
            let e = keyboard_hook_spec(
                code,
                msg,
                vk,
                flags,
                shift_state,
                lshift_state,
                rshift_state,
                capital_state,
            );
            &&& code < 0 ==> e is None
            &&& code >= 0 && (msg == 0x100 || msg == 0x104) ==> e == Some(
                InputEvent::KeyDown {
                    vk_code: vk,
                    is_extended: flags % 2 == 1,
                    shift_held: shift_state < 0 || lshift_state < 0 || rshift_state < 0,
                    caps_on: capital_state % 2 == 1,
                },
            )
            &&& code >= 0 && (msg == 0x101 || msg == 0x105) ==> e == Some(
                InputEvent::KeyUp { vk_code: vk, is_extended: flags % 2 == 1 },
            )
            &&& code >= 0 && msg != 0x100 && msg != 0x104 && msg != 0x101 && msg != 0x105 ==> e is None
        }),
{
    assert((flags & 1 != 0) == (flags % 2 == 1)) by (bit_vector);
    assert((capital_state & 1 != 0) == (capital_state % 2 == 1)) by (bit_vector);
}

/// The event of a Windows low-level mouse hook call.
pub open spec fn mouse_hook_spec(code: i32, msg: u32, x: i32, y: i32) -> Option<InputEvent> {
    if code < 0 {
        None
    } else if msg == WM_LBUTTONDOWN {
        Some(InputEvent::MouseClick { button: MouseButton::Left, x, y })
    } else if msg == WM_RBUTTONDOWN {
        Some(InputEvent::MouseClick { button: MouseButton::Right, x, y })
    } else if msg == WM_MBUTTONDOWN {
        Some(InputEvent::MouseClick { button: MouseButton::Middle, x, y })
    } else {
        None
    }
}

/// What the mouse hook reports, for every call: nothing for a negative
/// hook code; a click of the left, right or middle button at the given
/// position for the messages 0x201, 0x204 and 0x207; nothing otherwise.
pub proof fn lemma_mouse_hook_reports(code: i32, msg: u32, x: i32, y: i32)
    ensures
        code < 0 ==> mouse_hook_spec(code, msg, x, y) is None,
        code >= 0 && msg == 0x201 ==> mouse_hook_spec(code, msg, x, y) == Some(
            InputEvent::MouseClick { button: MouseButton::Left, x, y },
        ),
        code >= 0 && msg == 0x204 ==> mouse_hook_spec(code, msg, x, y) == Some(
            InputEvent::MouseClick { button: MouseButton::Right, x, y },
        ),
        code >= 0 && msg == 0x207 ==> mouse_hook_spec(code, msg, x, y) == Some(
            InputEvent::MouseClick { button: MouseButton::Middle, x, y },
        ),
        msg != 0x201 && msg != 0x204 && msg != 0x207 ==> mouse_hook_spec(code, msg, x, y) is None,
{
}

/// The event that a Windows mouse hook call reports.
pub fn mouse_hook_event(code: i32, msg: u32, x: i32, y: i32) -> (e: Option<InputEvent>)
    ensures
        e == mouse_hook_spec(code, msg, x, y),
{
    if code < 0 {
        None
    } else if msg == WM_LBUTTONDOWN {
        Some(InputEvent::MouseClick { button: MouseButton::Left, x, y })
    } else if msg == WM_RBUTTONDOWN {
        Some(InputEvent::MouseClick { button: MouseButton::Right, x, y })
    } else if msg == WM_MBUTTONDOWN {
        Some(InputEvent::MouseClick { button: MouseButton::Middle, x, y })
    } else {
        None
    }
}

/// What a Linux input device reports, as far as the tracker asks: the
/// key codes it supports, whether it has relative axes, and its absolute
/// axes (`None` where the device lists none of that kind).
pub struct DeviceCaps {
    pub keys: Option<Vec<u16>>,
    pub has_relative_axes: bool,
    pub absolute_axes: Option<Vec<u16>>,
}

/// How a device is read.
#[derive(Debug, Clone, Copy, PartialEq, Eq, Structural)]
pub enum DeviceRole {
    /// The device is not read.
    Ignored,
    /// A touchpad: its contacts are followed.
    Touchpad,
    /// A keyboard, a mouse or both: keys and buttons are read, and the
    /// cursor position is asked for when it is a mouse.
    Input { mouse: bool },
}

pub open spec fn lists(codes: Option<Vec<u16>>, code: u16) -> bool {
    match codes {
        Some(v) => v@.contains(code),
        None => false,
    }
}

/// A keyboard has both A and Z.
pub open spec fn is_keyboard_spec(caps: DeviceCaps) -> bool {
    lists(caps.keys, KEY_A) && lists(caps.keys, KEY_Z)
}

/// A mouse has the left button and a relative axis.
pub open spec fn is_mouse_spec(caps: DeviceCaps) -> bool {
    lists(caps.keys, BTN_LEFT) && caps.has_relative_axes
}

/// A touchpad has the multitouch slot and position axes.
pub open spec fn is_touchpad_spec(caps: DeviceCaps) -> bool {
    lists(caps.absolute_axes, ABS_MT_POSITION_X) && lists(caps.absolute_axes, ABS_MT_POSITION_Y)
        && lists(caps.absolute_axes, ABS_MT_SLOT)
}

/// The role of a device: a touchpad is followed as one even when it also
/// has keys; a keyboard or mouse is read; anything else is ignored.
pub open spec fn device_role_spec(caps: DeviceCaps) -> DeviceRole {
    if is_touchpad_spec(caps) {
        DeviceRole::Touchpad
    } else if is_keyboard_spec(caps) || is_mouse_spec(caps) {
        DeviceRole::Input { mouse: is_mouse_spec(caps) }
    } else {
        DeviceRole::Ignored
    }
}

fn contains_code(v: &Vec<u16>, code: u16) -> (r: bool)
    ensures
        r == v@.contains(code),
{
    let mut i: usize = 0;
    while i < v.len()
        invariant
            i <= v@.len(),
            forall|j: int| 0 <= j < i ==> v@[j] != code,
        decreases v@.len() - i,
    {
        if v[i] == code {
            assert(v@[i as int] == code);
            return true;
        }
        i = i + 1;
    }
    false
}

fn list_contains(codes: &Option<Vec<u16>>, code: u16) -> (r: bool)
    ensures
        r == lists(*codes, code),
{
    match codes {
        Some(v) => contains_code(v, code),
        None => false,
    }
}

/// Whether a device is a keyboard.
pub fn is_keyboard(caps: &DeviceCaps) -> (r: bool)
    ensures
        r == is_keyboard_spec(*caps),
{
    list_contains(&caps.keys, KEY_A) && list_contains(&caps.keys, KEY_Z)
}

/// Whether a device is a mouse.
pub fn is_mouse(caps: &DeviceCaps) -> (r: bool)
    ensures
        r == is_mouse_spec(*caps),
{
    list_contains(&caps.keys, BTN_LEFT) && caps.has_relative_axes
}

/// Whether a device is a touchpad.
pub fn is_touchpad(caps: &DeviceCaps) -> (r: bool)
    ensures
        r == is_touchpad_spec(*caps),
{
    list_contains(&caps.absolute_axes, ABS_MT_POSITION_X) && list_contains(
        &caps.absolute_axes,
        ABS_MT_POSITION_Y,
    ) && list_contains(&caps.absolute_axes, ABS_MT_SLOT)
}

/// How a device is read.
pub fn device_role(caps: &DeviceCaps) -> (r: DeviceRole)
    ensures
        r == device_role_spec(*caps),
{
    let kb = is_keyboard(caps);
    let m = is_mouse(caps);
    let tp = is_touchpad(caps);
    if tp {
        DeviceRole::Touchpad
    } else if kb || m {
        DeviceRole::Input { mouse: m }
    } else {
        DeviceRole::Ignored
    }
}

/// How every Linux device is read, in terms of what it reports: one with
/// the multitouch slot (0x2f) and position axes (0x35, 0x36) is followed
/// as a touchpad, whatever else it has; any other device is read for
/// input exactly when it lists both A (30) and Z (44), or the left button
/// (0x110) and has a relative axis, and the cursor is then asked for its
/// clicks exactly when it lists the left button and has a relative axis,
/// whether or not it is also a keyboard; everything else is ignored.
pub proof fn lemma_device_roles(caps: DeviceCaps)
    ensures
        ({
            let mt = lists(caps.absolute_axes, 0x2fu16) && lists(caps.absolute_axes, 0x35u16)
                && lists(caps.absolute_axes, 0x36u16);
            let kb = lists(caps.keys, 30u16) && lists(caps.keys, 44u16);
            let ms = lists(caps.keys, 0x110u16) && caps.has_relative_axes;
            &&& mt ==> device_role_spec(caps) == DeviceRole::Touchpad
            &&& !mt && (kb || ms) ==> device_role_spec(caps) == DeviceRole::Input { mouse: ms }
            &&& !mt && !kb && !ms ==> device_role_spec(caps) == DeviceRole::Ignored
        }),
{
}

} // verus!
