//! Decisions of the server's low-level input hooks: hotkeys, modifier
//! tracking, and whether each local input is forwarded to the active client
//! (and hidden from the local system) or passed through.
use vstd::prelude::*;
use crate::input::{ButtonAction, KeyEvent, KeyFlags, MouseButton, MouseClick, MouseMove, MouseScroll};
use crate::protocol::ControlPacket;
use crate::inject_linux::{action_value, linux_button_for, linux_key_for, LinuxKey};
use crate::inject_windows::{button_flags_spec, MouseFlag};

verus! {

pub const VK_LCONTROL: u16 = 0xA2;
pub const VK_RCONTROL: u16 = 0xA3;
pub const VK_LSHIFT: u16 = 0xA0;
pub const VK_RSHIFT: u16 = 0xA1;
pub const VK_LMENU: u16 = 0xA4;
pub const VK_RMENU: u16 = 0xA5;
pub const VK_SCROLL: u16 = 0x91;

/// Hotkey decoded from a key press.
#[derive(Debug, Clone, Copy, PartialEq, Eq)]
pub enum HotkeyAction {
    /// Ctrl+Shift+Alt+digit: give input to that slot (0: this machine).
    SwitchToSlot(u8),
    /// Scroll Lock: give input to the next client.
    Cycle,
}

/// What the hook hands to the server.
#[derive(Debug, Clone)]
pub enum CaptureEvent {
    InputPacket(ControlPacket),
    Hotkey(HotkeyAction),
}

/// What the hook does with one local input.
#[derive(Debug, Clone)]
pub enum HookDecision {
    /// Hand the event to the server and hide the input from the local system.
    Capture(CaptureEvent),
    /// Let the local system handle the input.
    PassThrough,
}

/// Whether local input is currently forwarded: the shared flag's value, or
/// false while no flag is installed.
pub fn should_suppress(flag: Option<bool>) -> (r: bool)
    ensures
        r == (flag == Some(true)),
{
    match flag {
        Some(b) => b,
        None => false,
    }
}

/// Which modifiers are held, as the keyboard hook has seen them.
#[derive(Debug, Clone, Copy, PartialEq, Eq)]
pub struct ModifierState {
    pub ctrl: bool,
    pub shift: bool,
    pub alt: bool,
}

pub open spec fn is_ctrl(vk: u16) -> bool {
    vk == VK_LCONTROL || vk == VK_RCONTROL
}

pub open spec fn is_shift(vk: u16) -> bool {
    vk == VK_LSHIFT || vk == VK_RSHIFT
}

pub open spec fn is_alt(vk: u16) -> bool {
    vk == VK_LMENU || vk == VK_RMENU
}

/// The modifiers that the hotkey tracking watches are the ones a Linux client
/// presses for the same codes: each left-hand or right-hand control, shift
/// and alt code injects the key of that hand, and the right-hand keys come
/// from no other code.
pub proof fn lemma_tracked_modifiers_inject_alike(vk: u16)
    ensures
        is_ctrl(vk) ==> linux_key_for(vk as u32) == Some(
            if vk == VK_LCONTROL { LinuxKey::LeftCtrl } else { LinuxKey::RightCtrl },
        ),
        is_shift(vk) ==> linux_key_for(vk as u32) == Some(
            if vk == VK_LSHIFT { LinuxKey::LeftShift } else { LinuxKey::RightShift },
        ),
        is_alt(vk) ==> linux_key_for(vk as u32) == Some(
            if vk == VK_LMENU { LinuxKey::LeftAlt } else { LinuxKey::RightAlt },
        ),
        linux_key_for(vk as u32) == Some(LinuxKey::RightCtrl) <==> vk == VK_RCONTROL,
        linux_key_for(vk as u32) == Some(LinuxKey::RightShift) <==> vk == VK_RSHIFT,
        linux_key_for(vk as u32) == Some(LinuxKey::RightAlt) <==> vk == VK_RMENU,
        linux_key_for(vk as u32) == Some(LinuxKey::ScrollLock) <==> vk == VK_SCROLL,
{
}

/// The modifier state after a key goes down (`is_press`) or up.
pub open spec fn after_key(m: ModifierState, vk: u16, is_press: bool) -> ModifierState {
    ModifierState {
        ctrl: if is_ctrl(vk) { is_press } else { m.ctrl },
        shift: if is_shift(vk) { is_press } else { m.shift },
        alt: if is_alt(vk) { is_press } else { m.alt },
    }
}

/// The event a key becomes when forwarded.
pub open spec fn forwarded_key(vk_code: u32, is_press: bool, scan_code: u32, hook_flags: u32) -> KeyEvent {
    KeyEvent {
        vk: vk_code,
        action: if is_press { ButtonAction::Press } else { ButtonAction::Release },
        scan: scan_code as u16,
        flags: KeyFlags { bits: if hook_flags & 1 != 0 { KeyFlags::EXTENDED } else { 0 } },
    }
}

/// What the keyboard hook decides, with modifier state `m` already updated
/// for this key.
pub open spec fn key_decision(
    m: ModifierState,
    vk_code: u32,
    is_press: bool,
    scan_code: u32,
    hook_flags: u32,
    suppress: bool,
) -> HookDecision {
    let vk = vk_code as u16;
    if is_press && m.ctrl && m.shift && m.alt && 0x30 <= vk <= 0x39 {
        HookDecision::Capture(CaptureEvent::Hotkey(HotkeyAction::SwitchToSlot((vk - 0x30) as u8)))
    } else if is_press && vk == VK_SCROLL {
        HookDecision::Capture(CaptureEvent::Hotkey(HotkeyAction::Cycle))
    } else if is_press && vk == VK_RCONTROL && !m.shift && !m.alt && suppress {
        HookDecision::Capture(CaptureEvent::Hotkey(HotkeyAction::SwitchToSlot(0)))
    } else if suppress {
        HookDecision::Capture(
            CaptureEvent::InputPacket(
                ControlPacket::KeyEvent(forwarded_key(vk_code, is_press, scan_code, hook_flags)),
            ),
        )
    } else {
        HookDecision::PassThrough
    }
}

impl ModifierState {
    /// No modifier held.
    pub fn new() -> (r: ModifierState)
        ensures
            !r.ctrl && !r.shift && !r.alt,
    {
        ModifierState { ctrl: false, shift: false, alt: false }
    }

    /// Takes one key going down (`is_press`) or up: tracks Ctrl, Shift and
    /// Alt, then decides. Ctrl+Shift+Alt+digit switches to that slot, Scroll
    /// Lock cycles, Right-Ctrl alone returns to this machine while input is
    /// forwarded; any other key is forwarded while `suppress` holds and
    /// passed through otherwise.
    pub fn on_key(
        &mut self,
        vk_code: u32,
        is_press: bool,
        scan_code: u32,
        hook_flags: u32,
        suppress: bool,
    ) -> (r: HookDecision)
        ensures
            *final(self) == after_key(*old(self), vk_code as u16, is_press),
            r == key_decision(*final(self), vk_code, is_press, scan_code, hook_flags, suppress),
    {
        let vk = vk_code as u16;
        if vk == VK_LCONTROL || vk == VK_RCONTROL {
            self.ctrl = is_press;
        }
        if vk == VK_LSHIFT || vk == VK_RSHIFT {
            self.shift = is_press;
        }
        if vk == VK_LMENU || vk == VK_RMENU {
            self.alt = is_press;
        }
        if is_press && self.ctrl && self.shift && self.alt && 0x30 <= vk && vk <= 0x39 {
            return HookDecision::Capture(
                CaptureEvent::Hotkey(HotkeyAction::SwitchToSlot((vk - 0x30) as u8)),
            );
        }
        if is_press && vk == VK_SCROLL {
            return HookDecision::Capture(CaptureEvent::Hotkey(HotkeyAction::Cycle));
        }
        if is_press && vk == VK_RCONTROL && !self.shift && !self.alt && suppress {
            return HookDecision::Capture(CaptureEvent::Hotkey(HotkeyAction::SwitchToSlot(0)));
        }
        if suppress {
            let mut flags = KeyFlags::empty();
            if hook_flags & 1 != 0 {
                flags.insert(KeyFlags::EXTENDED);
            }
            proof {
                assert(0u8 | 1u8 == 1u8) by (bit_vector);
            }
            let evt = KeyEvent {
                vk: vk_code,
                action: if is_press {
                    ButtonAction::Press
                } else {
                    ButtonAction::Release
                },
                scan: scan_code as u16,
                flags,
            };
            HookDecision::Capture(CaptureEvent::InputPacket(ControlPacket::KeyEvent(evt)))
        } else {
            HookDecision::PassThrough
        }
    }
}

/// The server's hotkeys: with Ctrl, Shift and Alt held, pressing digit `n`
/// (1 to 9) gives input to slot `n`, and pressing Scroll Lock cycles to the
/// next client, whether or not input is being forwarded.
pub proof fn lemma_hotkeys(m: ModifierState, n: u32, scan_code: u32, hook_flags: u32, suppress: bool)
    requires
        1 <= n <= 9,
    ensures
        m.ctrl && m.shift && m.alt ==> key_decision(
            after_key(m, (0x30 + n) as u16, true),
            (0x30 + n) as u32,
            true,
            scan_code,
            hook_flags,
            suppress,
        ) == HookDecision::Capture(CaptureEvent::Hotkey(HotkeyAction::SwitchToSlot(n as u8))),
        key_decision(after_key(m, VK_SCROLL, true), VK_SCROLL as u32, true, scan_code, hook_flags, suppress)
            == HookDecision::Capture(CaptureEvent::Hotkey(HotkeyAction::Cycle)),
{
    assert(((0x30 + n) as u16) == 0x30 + n);
    assert((((0x30 + n) as u16) - 0x30) as u8 == n as u8);
}

/// The low-level mouse messages the hook tells apart.
#[derive(Debug, Clone, Copy, PartialEq, Eq)]
pub enum MouseMessage {
    Move,
    LeftDown,
    LeftUp,
    RightDown,
    RightUp,
    MiddleDown,
    MiddleUp,
    XDown,
    XUp,
    Wheel,
    Other,
}

pub open spec fn click(button: MouseButton, action: ButtonAction, x: i32, y: i32) -> Option<ControlPacket> {
    Some(ControlPacket::MouseClick(MouseClick { button, action, x, y }))
}

/// The packet a mouse message becomes: moves carry the raw screen position,
/// clicks the button and position, X buttons are told apart by the high
/// word of the data, and the wheel delta is the signed high word.
pub open spec fn mouse_packet_spec(msg: MouseMessage, x: i32, y: i32, mouse_data: u32) -> Option<ControlPacket> {
    match msg {
        MouseMessage::Move => Some(ControlPacket::MouseMove(MouseMove { dx: x, dy: y })),
        MouseMessage::LeftDown => click(MouseButton::Left, ButtonAction::Press, x, y),
        MouseMessage::LeftUp => click(MouseButton::Left, ButtonAction::Release, x, y),
        MouseMessage::RightDown => click(MouseButton::Right, ButtonAction::Press, x, y),
        MouseMessage::RightUp => click(MouseButton::Right, ButtonAction::Release, x, y),
        MouseMessage::MiddleDown => click(MouseButton::Middle, ButtonAction::Press, x, y),
        MouseMessage::MiddleUp => click(MouseButton::Middle, ButtonAction::Release, x, y),
        MouseMessage::XDown => click(
            if mouse_data >> 16 == 1 { MouseButton::X1 } else { MouseButton::X2 },
            ButtonAction::Press,
            x,
            y,
        ),
        MouseMessage::XUp => click(
            if mouse_data >> 16 == 1 { MouseButton::X1 } else { MouseButton::X2 },
            ButtonAction::Release,
            x,
            y,
        ),
        MouseMessage::Wheel => Some(
            ControlPacket::Scroll(
                MouseScroll { delta_x: 0, delta_y: ((mouse_data >> 16) as i16) as i32 },
            ),
        ),
        MouseMessage::Other => None,
    }
}

fn make_click(button: MouseButton, action: ButtonAction, x: i32, y: i32) -> (r: Option<ControlPacket>)
    ensures
        r == click(button, action, x, y),
{
    Some(ControlPacket::MouseClick(MouseClick { button, action, x, y }))
}

/// The packet a mouse message becomes, if any.
pub fn mouse_packet(msg: MouseMessage, x: i32, y: i32, mouse_data: u32) -> (r: Option<ControlPacket>)
    ensures
        r == mouse_packet_spec(msg, x, y, mouse_data),
{
    match msg {
        MouseMessage::Move => Some(ControlPacket::MouseMove(MouseMove { dx: x, dy: y })),
        MouseMessage::LeftDown => make_click(MouseButton::Left, ButtonAction::Press, x, y),
        MouseMessage::LeftUp => make_click(MouseButton::Left, ButtonAction::Release, x, y),
        MouseMessage::RightDown => make_click(MouseButton::Right, ButtonAction::Press, x, y),
        MouseMessage::RightUp => make_click(MouseButton::Right, ButtonAction::Release, x, y),
        MouseMessage::MiddleDown => make_click(MouseButton::Middle, ButtonAction::Press, x, y),
        MouseMessage::MiddleUp => make_click(MouseButton::Middle, ButtonAction::Release, x, y),
        MouseMessage::XDown => {
            let b = if mouse_data >> 16 == 1 {
                MouseButton::X1
            } else {
                MouseButton::X2
            };
            make_click(b, ButtonAction::Press, x, y)
        },
        MouseMessage::XUp => {
            let b = if mouse_data >> 16 == 1 {
                MouseButton::X1
            } else {
                MouseButton::X2
            };
            make_click(b, ButtonAction::Release, x, y)
        },
        MouseMessage::Wheel => {
            let delta = (mouse_data >> 16) as i16;
            Some(ControlPacket::Scroll(MouseScroll { delta_x: 0, delta_y: delta as i32 }))
        },
        MouseMessage::Other => None,
    }
}

/// The click that a button message becomes, as `(button, action, x, y)`;
/// `None` for a message that is no click.
pub open spec fn captured_click(msg: MouseMessage, x: i32, y: i32, mouse_data: u32) -> Option<MouseClick> {
    match mouse_packet_spec(msg, x, y, mouse_data) {
        Some(ControlPacket::MouseClick(c)) => Some(c),
        _ => None,
    }
}

/// A button message captured on the server is replayed on the client as the
/// same button at the same place: on Windows with the input flag of the same
/// name, on Linux as the same-named button going to 1 on a press and 0 on a
/// release. The X buttons are told apart by the high word of the data.
pub proof fn lemma_click_replays_same_button(msg: MouseMessage, x: i32, y: i32, mouse_data: u32)
    ensures
        ({
            let c = captured_click(msg, x, y, mouse_data);
            let k = c.unwrap();
            let win = button_flags_spec(k.button);
            let at = c is Some && k.x == x && k.y == y;
            let press = k.action == ButtonAction::Press && action_value(k.action) == 1;
            let release = k.action == ButtonAction::Release && action_value(k.action) == 0;
            &&& msg == MouseMessage::LeftDown ==> at && press && win.0 == MouseFlag::LeftDown
                && linux_button_for(k.button) == LinuxKey::BtnLeft
            &&& msg == MouseMessage::LeftUp ==> at && release && win.1 == MouseFlag::LeftUp
                && linux_button_for(k.button) == LinuxKey::BtnLeft
            &&& msg == MouseMessage::RightDown ==> at && press && win.0 == MouseFlag::RightDown
                && linux_button_for(k.button) == LinuxKey::BtnRight
            &&& msg == MouseMessage::RightUp ==> at && release && win.1 == MouseFlag::RightUp
                && linux_button_for(k.button) == LinuxKey::BtnRight
            &&& msg == MouseMessage::MiddleDown ==> at && press && win.0 == MouseFlag::MiddleDown
                && linux_button_for(k.button) == LinuxKey::BtnMiddle
            &&& msg == MouseMessage::MiddleUp ==> at && release && win.1 == MouseFlag::MiddleUp
                && linux_button_for(k.button) == LinuxKey::BtnMiddle
            &&& msg == MouseMessage::XDown && mouse_data >> 16 == 1 ==> at && press && win.0
                == MouseFlag::XDown && win.2 == 1 && linux_button_for(k.button) == LinuxKey::BtnSide
            &&& msg == MouseMessage::XUp && mouse_data >> 16 == 2 ==> at && release && win.1
                == MouseFlag::XUp && win.2 == 2 && linux_button_for(k.button) == LinuxKey::BtnExtra
            &&& (msg is Move || msg is Wheel || msg is Other) ==> c is None
        }),
{
}

/// A press and its matching release name the same button, and the left,
/// right and middle buttons are never confused with one another.
pub proof fn lemma_press_release_pairs(x: i32, y: i32, x2: i32, y2: i32, mouse_data: u32, data2: u32)
    ensures
        ({
            let b = |m: MouseMessage, x: i32, y: i32, d: u32| captured_click(m, x, y, d).unwrap().button;
            &&& b(MouseMessage::LeftDown, x, y, mouse_data) == b(MouseMessage::LeftUp, x2, y2, data2)
            &&& b(MouseMessage::RightDown, x, y, mouse_data) == b(MouseMessage::RightUp, x2, y2, data2)
            &&& b(MouseMessage::MiddleDown, x, y, mouse_data) == b(MouseMessage::MiddleUp, x2, y2, data2)
            &&& (mouse_data >> 16 == data2 >> 16 ==> b(MouseMessage::XDown, x, y, mouse_data) == b(
                MouseMessage::XUp,
                x2,
                y2,
                data2,
            ))
            &&& b(MouseMessage::LeftDown, x, y, mouse_data) != b(MouseMessage::RightDown, x2, y2, data2)
            &&& b(MouseMessage::LeftDown, x, y, mouse_data) != b(MouseMessage::MiddleDown, x2, y2, data2)
            &&& b(MouseMessage::RightDown, x, y, mouse_data) != b(MouseMessage::MiddleDown, x2, y2, data2)
            &&& b(MouseMessage::XDown, x, y, mouse_data) != b(MouseMessage::LeftDown, x2, y2, data2)
            &&& b(MouseMessage::XDown, x, y, mouse_data) != b(MouseMessage::RightDown, x2, y2, data2)
            &&& b(MouseMessage::XDown, x, y, mouse_data) != b(MouseMessage::MiddleDown, x2, y2, data2)
        }),
{
}

/// What the mouse hook does with one message: forward its packet while
/// input is forwarded, otherwise (or when it has none) pass it through.
pub fn on_mouse(msg: MouseMessage, x: i32, y: i32, mouse_data: u32, suppress: bool) -> (r: HookDecision)
    ensures
        match mouse_packet_spec(msg, x, y, mouse_data) {
            Some(p) => if suppress {
                r == HookDecision::Capture(CaptureEvent::InputPacket(p))
            } else {
                r == HookDecision::PassThrough
            },
            None => r == HookDecision::PassThrough,
        },
{
    match mouse_packet(msg, x, y, mouse_data) {
        Some(p) => {
            if suppress {
                HookDecision::Capture(CaptureEvent::InputPacket(p))
            } else {
                HookDecision::PassThrough
            }
        },
        None => HookDecision::PassThrough,
    }
}

} // verus!
