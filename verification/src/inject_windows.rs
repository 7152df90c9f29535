//! Input injection on Windows: the synthetic inputs that reproduce each
//! received input event. The inputs are sent by the caller.
use vstd::prelude::*;
use crate::input::{ButtonAction, KeyEvent, KeyFlags, MouseButton, MouseClick, MouseMove, MouseScroll};

verus! {

/// The kind of a synthetic mouse input.
#[derive(Debug, Clone, Copy, PartialEq, Eq)]
pub enum MouseFlag {
    Move,
    LeftDown,
    LeftUp,
    RightDown,
    RightUp,
    MiddleDown,
    MiddleUp,
    XDown,
    XUp,
    Wheel,
    HWheel,
}

/// One synthetic mouse input.
#[derive(Debug, Clone, Copy, PartialEq, Eq)]
pub struct MouseInput {
    pub dx: i32,
    pub dy: i32,
    pub mouse_data: u32,
    pub flag: MouseFlag,
}

/// One synthetic keyboard input.
#[derive(Debug, Clone, Copy, PartialEq, Eq)]
pub struct KeyInput {
    pub vk: u16,
    pub scan: u16,
    pub key_up: bool,
    pub extended: bool,
    /// The scan code, not the virtual key, identifies the key.
    pub scancode: bool,
}

/// The down flag, up flag and button data of a mouse button.
pub open spec fn button_flags_spec(btn: MouseButton) -> (MouseFlag, MouseFlag, u32) {
    match btn {
        MouseButton::Left => (MouseFlag::LeftDown, MouseFlag::LeftUp, 0),
        MouseButton::Right => (MouseFlag::RightDown, MouseFlag::RightUp, 0),
        MouseButton::Middle => (MouseFlag::MiddleDown, MouseFlag::MiddleUp, 0),
        MouseButton::X1 => (MouseFlag::XDown, MouseFlag::XUp, 1),
        MouseButton::X2 => (MouseFlag::XDown, MouseFlag::XUp, 2),
    }
}

/// The down flag, up flag and button data of a mouse button.
pub fn button_flags(btn: MouseButton) -> (r: (MouseFlag, MouseFlag, u32))
    ensures
        r == button_flags_spec(btn),
{
    match btn {
        MouseButton::Left => (MouseFlag::LeftDown, MouseFlag::LeftUp, 0),
        MouseButton::Right => (MouseFlag::RightDown, MouseFlag::RightUp, 0),
        MouseButton::Middle => (MouseFlag::MiddleDown, MouseFlag::MiddleUp, 0),
        MouseButton::X1 => (MouseFlag::XDown, MouseFlag::XUp, 1),
        MouseButton::X2 => (MouseFlag::XDown, MouseFlag::XUp, 2),
    }
}

/// A relative move.
pub fn inject_mouse_move(ev: MouseMove) -> (r: MouseInput)
    ensures
        r == (MouseInput { dx: ev.dx, dy: ev.dy, mouse_data: 0, flag: MouseFlag::Move }),
{
    MouseInput { dx: ev.dx, dy: ev.dy, mouse_data: 0, flag: MouseFlag::Move }
}

/// The button going down or up at the event's position.
pub fn inject_mouse_click(ev: MouseClick) -> (r: MouseInput)
    ensures
        r == (MouseInput {
            dx: ev.x,
            dy: ev.y,
            mouse_data: button_flags_spec(ev.button).2,
            flag: if ev.action == ButtonAction::Press {
                button_flags_spec(ev.button).0
            } else {
                button_flags_spec(ev.button).1
            },
        }),
{
    let (down, up, data) = button_flags(ev.button);
    let flag = match ev.action {
        ButtonAction::Press => down,
        ButtonAction::Release => up,
    };
    MouseInput { dx: ev.x, dy: ev.y, mouse_data: data, flag }
}

/// The wheel inputs of a scroll: vertical when it moved, then horizontal when
/// it moved; the deltas go in the data as their 32-bit two's complement.
pub open spec fn scroll_inputs(ev: MouseScroll) -> Seq<MouseInput> {
    let v = if ev.delta_y != 0 {
        seq![MouseInput { dx: 0, dy: 0, mouse_data: ev.delta_y as u32, flag: MouseFlag::Wheel }]
    } else {
        Seq::<MouseInput>::empty()
    };
    let h = if ev.delta_x != 0 {
        seq![MouseInput { dx: 0, dy: 0, mouse_data: ev.delta_x as u32, flag: MouseFlag::HWheel }]
    } else {
        Seq::<MouseInput>::empty()
    };
    v + h
}

/// The wheel inputs of a scroll (none when nothing moved).
pub fn inject_scroll(ev: MouseScroll) -> (r: Vec<MouseInput>)
    ensures
        r@ == scroll_inputs(ev),
{
    let mut v: Vec<MouseInput> = Vec::new();
    if ev.delta_y != 0 {
        v.push(MouseInput { dx: 0, dy: 0, mouse_data: ev.delta_y as u32, flag: MouseFlag::Wheel });
    }
    if ev.delta_x != 0 {
        v.push(MouseInput { dx: 0, dy: 0, mouse_data: ev.delta_x as u32, flag: MouseFlag::HWheel });
    }
    assert(v@ =~= scroll_inputs(ev));
    v
}

/// The key going down or up: up on release, extended when flagged so, by
/// scan code when the event carries one. The virtual key keeps its low 16
/// bits.
pub fn inject_key(ev: KeyEvent) -> (r: KeyInput)
    ensures
        r == (KeyInput {
            vk: ev.vk as u16,
            scan: ev.scan,
            key_up: ev.action == ButtonAction::Release,
            extended: ev.flags.has(KeyFlags::EXTENDED),
            scancode: ev.scan != 0,
        }),
{
    let key_up = match ev.action {
        ButtonAction::Release => true,
        ButtonAction::Press => false,
    };
    KeyInput {
        vk: ev.vk as u16,
        scan: ev.scan,
        key_up,
        extended: ev.flags.contains(KeyFlags::EXTENDED),
        scancode: ev.scan != 0,
    }
}

} // verus!
