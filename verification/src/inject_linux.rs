//! Input injection on Linux: the virtual-device events that reproduce each
//! received input event. The events are emitted by the caller.
use vstd::prelude::*;
use crate::input::{ButtonAction, KeyEvent, MouseButton, MouseClick, MouseMove, MouseScroll};

verus! {

/// A key or button of the Linux input layer.
#[derive(Debug, Clone, Copy, PartialEq, Eq)]
pub enum LinuxKey {
    Backspace,
    Tab,
    Enter,
    Esc,
    Space,
    LeftShift,
    LeftCtrl,
    LeftAlt,
    RightShift,
    RightCtrl,
    RightAlt,
    LeftMeta,
    RightMeta,
    Num0,
    Num1,
    Num2,
    Num3,
    Num4,
    Num5,
    Num6,
    Num7,
    Num8,
    Num9,
    A,
    B,
    C,
    D,
    E,
    F,
    G,
    H,
    I,
    J,
    K,
    L,
    M,
    N,
    O,
    P,
    Q,
    R,
    S,
    T,
    U,
    V,
    W,
    X,
    Y,
    Z,
    F1,
    F2,
    F3,
    F4,
    F5,
    F6,
    F7,
    F8,
    F9,
    F10,
    F11,
    F12,
    Left,
    Up,
    Right,
    Down,
    Home,
    End,
    PageUp,
    PageDown,
    Insert,
    Delete,
    CapsLock,
    NumLock,
    ScrollLock,
    SysRq,
    Pause,
    Minus,
    Equal,
    LeftBrace,
    RightBrace,
    Backslash,
    Semicolon,
    Apostrophe,
    Grave,
    Comma,
    Dot,
    Slash,
    Kp0,
    Kp1,
    Kp2,
    Kp3,
    Kp4,
    Kp5,
    Kp6,
    Kp7,
    Kp8,
    Kp9,
    KpAsterisk,
    KpPlus,
    KpMinus,
    KpDot,
    KpSlash,
    BtnLeft,
    BtnRight,
    BtnMiddle,
    BtnSide,
    BtnExtra,
}

/// A relative axis of the Linux input layer.
#[derive(Debug, Clone, Copy, PartialEq, Eq)]
pub enum RelAxis {
    X,
    Y,
    Wheel,
    HWheel,
}

/// What an input event changes.
#[derive(Debug, Clone, Copy, PartialEq, Eq)]
pub enum LinuxEventKind {
    Key(LinuxKey),
    Relative(RelAxis),
    /// End of a batch of events.
    Sync,
}

/// One event for the virtual input device.
#[derive(Debug, Clone, Copy, PartialEq, Eq)]
pub struct LinuxEvent {
    pub kind: LinuxEventKind,
    pub value: i32,
}

/// The Linux key for a Windows virtual-key code (US layout), if it has one.
pub open spec fn linux_key_for(vk: u32) -> Option<LinuxKey> {
    match vk {
        0x08 => Some(LinuxKey::Backspace),
        0x09 => Some(LinuxKey::Tab),
        0x0D => Some(LinuxKey::Enter),
        0x1B => Some(LinuxKey::Esc),
        0x20 => Some(LinuxKey::Space),
        0x10 => Some(LinuxKey::LeftShift),
        0x11 => Some(LinuxKey::LeftCtrl),
        0x12 => Some(LinuxKey::LeftAlt),
        0xA0 => Some(LinuxKey::LeftShift),
        0xA1 => Some(LinuxKey::RightShift),
        0xA2 => Some(LinuxKey::LeftCtrl),
        0xA3 => Some(LinuxKey::RightCtrl),
        0xA4 => Some(LinuxKey::LeftAlt),
        0xA5 => Some(LinuxKey::RightAlt),
        0x5B => Some(LinuxKey::LeftMeta),
        0x5C => Some(LinuxKey::RightMeta),
        0x30 => Some(LinuxKey::Num0),
        0x31 => Some(LinuxKey::Num1),
        0x32 => Some(LinuxKey::Num2),
        0x33 => Some(LinuxKey::Num3),
        0x34 => Some(LinuxKey::Num4),
        0x35 => Some(LinuxKey::Num5),
        0x36 => Some(LinuxKey::Num6),
        0x37 => Some(LinuxKey::Num7),
        0x38 => Some(LinuxKey::Num8),
        0x39 => Some(LinuxKey::Num9),
        0x41 => Some(LinuxKey::A),
        0x42 => Some(LinuxKey::B),
        0x43 => Some(LinuxKey::C),
        0x44 => Some(LinuxKey::D),
        0x45 => Some(LinuxKey::E),
        0x46 => Some(LinuxKey::F),
        0x47 => Some(LinuxKey::G),
        0x48 => Some(LinuxKey::H),
        0x49 => Some(LinuxKey::I),
        0x4A => Some(LinuxKey::J),
        0x4B => Some(LinuxKey::K),
        0x4C => Some(LinuxKey::L),
        0x4D => Some(LinuxKey::M),
        0x4E => Some(LinuxKey::N),
        0x4F => Some(LinuxKey::O),
        0x50 => Some(LinuxKey::P),
        0x51 => Some(LinuxKey::Q),
        0x52 => Some(LinuxKey::R),
        0x53 => Some(LinuxKey::S),
        0x54 => Some(LinuxKey::T),
        0x55 => Some(LinuxKey::U),
        0x56 => Some(LinuxKey::V),
        0x57 => Some(LinuxKey::W),
        0x58 => Some(LinuxKey::X),
        0x59 => Some(LinuxKey::Y),
        0x5A => Some(LinuxKey::Z),
        0x70 => Some(LinuxKey::F1),
        0x71 => Some(LinuxKey::F2),
        0x72 => Some(LinuxKey::F3),
        0x73 => Some(LinuxKey::F4),
        0x74 => Some(LinuxKey::F5),
        0x75 => Some(LinuxKey::F6),
        0x76 => Some(LinuxKey::F7),
        0x77 => Some(LinuxKey::F8),
        0x78 => Some(LinuxKey::F9),
        0x79 => Some(LinuxKey::F10),
        0x7A => Some(LinuxKey::F11),
        0x7B => Some(LinuxKey::F12),
        0x25 => Some(LinuxKey::Left),
        0x26 => Some(LinuxKey::Up),
        0x27 => Some(LinuxKey::Right),
        0x28 => Some(LinuxKey::Down),
        0x24 => Some(LinuxKey::Home),
        0x23 => Some(LinuxKey::End),
        0x21 => Some(LinuxKey::PageUp),
        0x22 => Some(LinuxKey::PageDown),
        0x2D => Some(LinuxKey::Insert),
        0x2E => Some(LinuxKey::Delete),
        0x14 => Some(LinuxKey::CapsLock),
        0x90 => Some(LinuxKey::NumLock),
        0x91 => Some(LinuxKey::ScrollLock),
        0x2C => Some(LinuxKey::SysRq),
        0x13 => Some(LinuxKey::Pause),
        0xBD => Some(LinuxKey::Minus),
        0xBB => Some(LinuxKey::Equal),
        0xDB => Some(LinuxKey::LeftBrace),
        0xDD => Some(LinuxKey::RightBrace),
        0xDC => Some(LinuxKey::Backslash),
        0xBA => Some(LinuxKey::Semicolon),
        0xDE => Some(LinuxKey::Apostrophe),
        0xC0 => Some(LinuxKey::Grave),
        0xBC => Some(LinuxKey::Comma),
        0xBE => Some(LinuxKey::Dot),
        0xBF => Some(LinuxKey::Slash),
        0x60 => Some(LinuxKey::Kp0),
        0x61 => Some(LinuxKey::Kp1),
        0x62 => Some(LinuxKey::Kp2),
        0x63 => Some(LinuxKey::Kp3),
        0x64 => Some(LinuxKey::Kp4),
        0x65 => Some(LinuxKey::Kp5),
        0x66 => Some(LinuxKey::Kp6),
        0x67 => Some(LinuxKey::Kp7),
        0x68 => Some(LinuxKey::Kp8),
        0x69 => Some(LinuxKey::Kp9),
        0x6A => Some(LinuxKey::KpAsterisk),
        0x6B => Some(LinuxKey::KpPlus),
        0x6D => Some(LinuxKey::KpMinus),
        0x6E => Some(LinuxKey::KpDot),
        0x6F => Some(LinuxKey::KpSlash),
        _ => None,
    }
}

/// The virtual-key code that stands for each keyboard key, the left-hand one
/// for the modifiers; `None` for the mouse buttons.
pub open spec fn vk_of_key(k: LinuxKey) -> Option<u32> {
    match k {
        LinuxKey::Backspace => Some(0x08),
        LinuxKey::Tab => Some(0x09),
        LinuxKey::Enter => Some(0x0D),
        LinuxKey::Esc => Some(0x1B),
        LinuxKey::Space => Some(0x20),
        LinuxKey::LeftShift => Some(0xA0),
        LinuxKey::RightShift => Some(0xA1),
        LinuxKey::LeftCtrl => Some(0xA2),
        LinuxKey::RightCtrl => Some(0xA3),
        LinuxKey::LeftAlt => Some(0xA4),
        LinuxKey::RightAlt => Some(0xA5),
        LinuxKey::LeftMeta => Some(0x5B),
        LinuxKey::RightMeta => Some(0x5C),
        LinuxKey::Num0 => Some(0x30),
        LinuxKey::Num1 => Some(0x31),
        LinuxKey::Num2 => Some(0x32),
        LinuxKey::Num3 => Some(0x33),
        LinuxKey::Num4 => Some(0x34),
        LinuxKey::Num5 => Some(0x35),
        LinuxKey::Num6 => Some(0x36),
        LinuxKey::Num7 => Some(0x37),
        LinuxKey::Num8 => Some(0x38),
        LinuxKey::Num9 => Some(0x39),
        LinuxKey::A => Some(0x41),
        LinuxKey::B => Some(0x42),
        LinuxKey::C => Some(0x43),
        LinuxKey::D => Some(0x44),
        LinuxKey::E => Some(0x45),
        LinuxKey::F => Some(0x46),
        LinuxKey::G => Some(0x47),
        LinuxKey::H => Some(0x48),
        LinuxKey::I => Some(0x49),
        LinuxKey::J => Some(0x4A),
        LinuxKey::K => Some(0x4B),
        LinuxKey::L => Some(0x4C),
        LinuxKey::M => Some(0x4D),
        LinuxKey::N => Some(0x4E),
        LinuxKey::O => Some(0x4F),
        LinuxKey::P => Some(0x50),
        LinuxKey::Q => Some(0x51),
        LinuxKey::R => Some(0x52),
        LinuxKey::S => Some(0x53),
        LinuxKey::T => Some(0x54),
        LinuxKey::U => Some(0x55),
        LinuxKey::V => Some(0x56),
        LinuxKey::W => Some(0x57),
        LinuxKey::X => Some(0x58),
        LinuxKey::Y => Some(0x59),
        LinuxKey::Z => Some(0x5A),
        LinuxKey::F1 => Some(0x70),
        LinuxKey::F2 => Some(0x71),
        LinuxKey::F3 => Some(0x72),
        LinuxKey::F4 => Some(0x73),
        LinuxKey::F5 => Some(0x74),
        LinuxKey::F6 => Some(0x75),
        LinuxKey::F7 => Some(0x76),
        LinuxKey::F8 => Some(0x77),
        LinuxKey::F9 => Some(0x78),
        LinuxKey::F10 => Some(0x79),
        LinuxKey::F11 => Some(0x7A),
        LinuxKey::F12 => Some(0x7B),
        LinuxKey::Left => Some(0x25),
        LinuxKey::Up => Some(0x26),
        LinuxKey::Right => Some(0x27),
        LinuxKey::Down => Some(0x28),
        LinuxKey::Home => Some(0x24),
        LinuxKey::End => Some(0x23),
        LinuxKey::PageUp => Some(0x21),
        LinuxKey::PageDown => Some(0x22),
        LinuxKey::Insert => Some(0x2D),
        LinuxKey::Delete => Some(0x2E),
        LinuxKey::CapsLock => Some(0x14),
        LinuxKey::NumLock => Some(0x90),
        LinuxKey::ScrollLock => Some(0x91),
        LinuxKey::SysRq => Some(0x2C),
        LinuxKey::Pause => Some(0x13),
        LinuxKey::Minus => Some(0xBD),
        LinuxKey::Equal => Some(0xBB),
        LinuxKey::LeftBrace => Some(0xDB),
        LinuxKey::RightBrace => Some(0xDD),
        LinuxKey::Backslash => Some(0xDC),
        LinuxKey::Semicolon => Some(0xBA),
        LinuxKey::Apostrophe => Some(0xDE),
        LinuxKey::Grave => Some(0xC0),
        LinuxKey::Comma => Some(0xBC),
        LinuxKey::Dot => Some(0xBE),
        LinuxKey::Slash => Some(0xBF),
        LinuxKey::Kp0 => Some(0x60),
        LinuxKey::Kp1 => Some(0x61),
        LinuxKey::Kp2 => Some(0x62),
        LinuxKey::Kp3 => Some(0x63),
        LinuxKey::Kp4 => Some(0x64),
        LinuxKey::Kp5 => Some(0x65),
        LinuxKey::Kp6 => Some(0x66),
        LinuxKey::Kp7 => Some(0x67),
        LinuxKey::Kp8 => Some(0x68),
        LinuxKey::Kp9 => Some(0x69),
        LinuxKey::KpAsterisk => Some(0x6A),
        LinuxKey::KpPlus => Some(0x6B),
        LinuxKey::KpMinus => Some(0x6D),
        LinuxKey::KpDot => Some(0x6E),
        LinuxKey::KpSlash => Some(0x6F),
        _ => None,
    }
}

/// The generic shift, control and alt codes stand for the left-hand keys.
pub open spec fn is_generic_modifier_alias(vk: u32, left: u32) -> bool {
    (vk == 0x10 && left == 0xA0) || (vk == 0x11 && left == 0xA2) || (vk == 0x12 && left == 0xA4)
}

proof fn lemma_vk_of_key_inverts(vk: u32)
    ensures
        linux_key_for(vk) matches Some(k) ==> (vk_of_key(k) == Some(vk) || (vk_of_key(k) matches Some(
            left,
        ) && is_generic_modifier_alias(vk, left))),
{
}

/// The key table sends no two codes to the same key, but for the generic
/// shift, control and alt codes, which press the left-hand keys like the
/// left-hand codes do: Backspace is never Delete, nor one letter another.
pub proof fn lemma_vk_table_injective(vk1: u32, vk2: u32)
    requires
        linux_key_for(vk1) is Some,
        linux_key_for(vk1) == linux_key_for(vk2),
        vk1 != vk2,
    ensures
        is_generic_modifier_alias(vk1, vk2) || is_generic_modifier_alias(vk2, vk1),
{
    lemma_vk_of_key_inverts(vk1);
    lemma_vk_of_key_inverts(vk2);
}

/// Every keyboard key has a virtual-key code that presses it: the table
/// leaves no key of the virtual device out.
pub proof fn lemma_every_key_has_a_code(k: LinuxKey)
    requires
        !(k is BtnLeft || k is BtnRight || k is BtnMiddle || k is BtnSide || k is BtnExtra),
    ensures
        vk_of_key(k) matches Some(vk) && linux_key_for(vk) == Some(k),
{
}

/// Maps a Windows virtual-key code to the Linux key it stands for; `None`
/// for codes without a mapping.
pub fn vk_to_linux(vk: u32) -> (r: Option<LinuxKey>)
    ensures
        r == linux_key_for(vk),
{
    match vk {
        0x08 => Some(LinuxKey::Backspace),
        0x09 => Some(LinuxKey::Tab),
        0x0D => Some(LinuxKey::Enter),
        0x1B => Some(LinuxKey::Esc),
        0x20 => Some(LinuxKey::Space),
        0x10 => Some(LinuxKey::LeftShift),
        0x11 => Some(LinuxKey::LeftCtrl),
        0x12 => Some(LinuxKey::LeftAlt),
        0xA0 => Some(LinuxKey::LeftShift),
        0xA1 => Some(LinuxKey::RightShift),
        0xA2 => Some(LinuxKey::LeftCtrl),
        0xA3 => Some(LinuxKey::RightCtrl),
        0xA4 => Some(LinuxKey::LeftAlt),
        0xA5 => Some(LinuxKey::RightAlt),
        0x5B => Some(LinuxKey::LeftMeta),
        0x5C => Some(LinuxKey::RightMeta),
        0x30 => Some(LinuxKey::Num0),
        0x31 => Some(LinuxKey::Num1),
        0x32 => Some(LinuxKey::Num2),
        0x33 => Some(LinuxKey::Num3),
        0x34 => Some(LinuxKey::Num4),
        0x35 => Some(LinuxKey::Num5),
        0x36 => Some(LinuxKey::Num6),
        0x37 => Some(LinuxKey::Num7),
        0x38 => Some(LinuxKey::Num8),
        0x39 => Some(LinuxKey::Num9),
        0x41 => Some(LinuxKey::A),
        0x42 => Some(LinuxKey::B),
        0x43 => Some(LinuxKey::C),
        0x44 => Some(LinuxKey::D),
        0x45 => Some(LinuxKey::E),
        0x46 => Some(LinuxKey::F),
        0x47 => Some(LinuxKey::G),
        0x48 => Some(LinuxKey::H),
        0x49 => Some(LinuxKey::I),
        0x4A => Some(LinuxKey::J),
        0x4B => Some(LinuxKey::K),
        0x4C => Some(LinuxKey::L),
        0x4D => Some(LinuxKey::M),
        0x4E => Some(LinuxKey::N),
        0x4F => Some(LinuxKey::O),
        0x50 => Some(LinuxKey::P),
        0x51 => Some(LinuxKey::Q),
        0x52 => Some(LinuxKey::R),
        0x53 => Some(LinuxKey::S),
        0x54 => Some(LinuxKey::T),
        0x55 => Some(LinuxKey::U),
        0x56 => Some(LinuxKey::V),
        0x57 => Some(LinuxKey::W),
        0x58 => Some(LinuxKey::X),
        0x59 => Some(LinuxKey::Y),
        0x5A => Some(LinuxKey::Z),
        0x70 => Some(LinuxKey::F1),
        0x71 => Some(LinuxKey::F2),
        0x72 => Some(LinuxKey::F3),
        0x73 => Some(LinuxKey::F4),
        0x74 => Some(LinuxKey::F5),
        0x75 => Some(LinuxKey::F6),
        0x76 => Some(LinuxKey::F7),
        0x77 => Some(LinuxKey::F8),
        0x78 => Some(LinuxKey::F9),
        0x79 => Some(LinuxKey::F10),
        0x7A => Some(LinuxKey::F11),
        0x7B => Some(LinuxKey::F12),
        0x25 => Some(LinuxKey::Left),
        0x26 => Some(LinuxKey::Up),
        0x27 => Some(LinuxKey::Right),
        0x28 => Some(LinuxKey::Down),
        0x24 => Some(LinuxKey::Home),
        0x23 => Some(LinuxKey::End),
        0x21 => Some(LinuxKey::PageUp),
        0x22 => Some(LinuxKey::PageDown),
        0x2D => Some(LinuxKey::Insert),
        0x2E => Some(LinuxKey::Delete),
        0x14 => Some(LinuxKey::CapsLock),
        0x90 => Some(LinuxKey::NumLock),
        0x91 => Some(LinuxKey::ScrollLock),
        0x2C => Some(LinuxKey::SysRq),
        0x13 => Some(LinuxKey::Pause),
        0xBD => Some(LinuxKey::Minus),
        0xBB => Some(LinuxKey::Equal),
        0xDB => Some(LinuxKey::LeftBrace),
        0xDD => Some(LinuxKey::RightBrace),
        0xDC => Some(LinuxKey::Backslash),
        0xBA => Some(LinuxKey::Semicolon),
        0xDE => Some(LinuxKey::Apostrophe),
        0xC0 => Some(LinuxKey::Grave),
        0xBC => Some(LinuxKey::Comma),
        0xBE => Some(LinuxKey::Dot),
        0xBF => Some(LinuxKey::Slash),
        0x60 => Some(LinuxKey::Kp0),
        0x61 => Some(LinuxKey::Kp1),
        0x62 => Some(LinuxKey::Kp2),
        0x63 => Some(LinuxKey::Kp3),
        0x64 => Some(LinuxKey::Kp4),
        0x65 => Some(LinuxKey::Kp5),
        0x66 => Some(LinuxKey::Kp6),
        0x67 => Some(LinuxKey::Kp7),
        0x68 => Some(LinuxKey::Kp8),
        0x69 => Some(LinuxKey::Kp9),
        0x6A => Some(LinuxKey::KpAsterisk),
        0x6B => Some(LinuxKey::KpPlus),
        0x6D => Some(LinuxKey::KpMinus),
        0x6E => Some(LinuxKey::KpDot),
        0x6F => Some(LinuxKey::KpSlash),
        _ => None,
    }
}

/// The Linux button for a mouse button.
pub open spec fn linux_button_for(b: MouseButton) -> LinuxKey {
    match b {
        MouseButton::Left => LinuxKey::BtnLeft,
        MouseButton::Right => LinuxKey::BtnRight,
        MouseButton::Middle => LinuxKey::BtnMiddle,
        MouseButton::X1 => LinuxKey::BtnSide,
        MouseButton::X2 => LinuxKey::BtnExtra,
    }
}

/// The key value of an action: 1 pressed, 0 released.
pub open spec fn action_value(a: ButtonAction) -> i32 {
    match a {
        ButtonAction::Press => 1,
        ButtonAction::Release => 0,
    }
}

pub open spec fn sync_event() -> LinuxEvent {
    LinuxEvent { kind: LinuxEventKind::Sync, value: 0 }
}

pub open spec fn rel_event(axis: RelAxis, value: i32) -> LinuxEvent {
    LinuxEvent { kind: LinuxEventKind::Relative(axis), value }
}

pub open spec fn key_event(key: LinuxKey, value: i32) -> LinuxEvent {
    LinuxEvent { kind: LinuxEventKind::Key(key), value }
}

fn sync() -> (r: LinuxEvent)
    ensures
        r == sync_event(),
{
    LinuxEvent { kind: LinuxEventKind::Sync, value: 0 }
}

fn button_value(a: ButtonAction) -> (r: i32)
    ensures
        r == action_value(a),
{
    match a {
        ButtonAction::Press => 1,
        ButtonAction::Release => 0,
    }
}

/// A relative move on both axes, then a sync.
pub fn inject_mouse_move(ev: MouseMove) -> (r: Vec<LinuxEvent>)
    ensures
        r@ == seq![rel_event(RelAxis::X, ev.dx), rel_event(RelAxis::Y, ev.dy), sync_event()],
{
    let mut v: Vec<LinuxEvent> = Vec::new();
    v.push(LinuxEvent { kind: LinuxEventKind::Relative(RelAxis::X), value: ev.dx });
    v.push(LinuxEvent { kind: LinuxEventKind::Relative(RelAxis::Y), value: ev.dy });
    v.push(sync());
    assert(v@ =~= seq![rel_event(RelAxis::X, ev.dx), rel_event(RelAxis::Y, ev.dy), sync_event()]);
    v
}

/// The button going down or up, then a sync.
pub fn inject_mouse_click(ev: MouseClick) -> (r: Vec<LinuxEvent>)
    ensures
        r@ == seq![key_event(linux_button_for(ev.button), action_value(ev.action)), sync_event()],
{
    let btn = match ev.button {
        MouseButton::Left => LinuxKey::BtnLeft,
        MouseButton::Right => LinuxKey::BtnRight,
        MouseButton::Middle => LinuxKey::BtnMiddle,
        MouseButton::X1 => LinuxKey::BtnSide,
        MouseButton::X2 => LinuxKey::BtnExtra,
    };
    let mut v: Vec<LinuxEvent> = Vec::new();
    v.push(LinuxEvent { kind: LinuxEventKind::Key(btn), value: button_value(ev.action) });
    v.push(sync());
    assert(v@ =~= seq![key_event(linux_button_for(ev.button), action_value(ev.action)), sync_event()]);
    v
}

/// The events of a scroll: the vertical wheel (inverted) when it moved, the
/// horizontal wheel when it moved, then a sync.
pub open spec fn scroll_events(ev: MouseScroll) -> Seq<LinuxEvent> {
    let v = if ev.delta_y != 0 {
        seq![rel_event(RelAxis::Wheel, (-ev.delta_y) as i32)]
    } else {
        Seq::<LinuxEvent>::empty()
    };
    let h = if ev.delta_x != 0 {
        seq![rel_event(RelAxis::HWheel, ev.delta_x)]
    } else {
        Seq::<LinuxEvent>::empty()
    };
    v + h + seq![sync_event()]
}

/// The wheel events of a scroll, then a sync.
pub fn inject_scroll(ev: MouseScroll) -> (r: Vec<LinuxEvent>)
    requires
        ev.delta_y != i32::MIN,
    ensures
        r@ == scroll_events(ev),
{
    let mut v: Vec<LinuxEvent> = Vec::new();
    if ev.delta_y != 0 {
        v.push(LinuxEvent { kind: LinuxEventKind::Relative(RelAxis::Wheel), value: -ev.delta_y });
    }
    if ev.delta_x != 0 {
        v.push(LinuxEvent { kind: LinuxEventKind::Relative(RelAxis::HWheel), value: ev.delta_x });
    }
    v.push(sync());
    assert(v@ =~= scroll_events(ev));
    v
}

/// The modifier keys released on cursor entry, both sides of each.
pub open spec fn modifier_keys() -> Seq<LinuxKey> {
    seq![
        LinuxKey::LeftShift,
        LinuxKey::RightShift,
        LinuxKey::LeftCtrl,
        LinuxKey::RightCtrl,
        LinuxKey::LeftAlt,
        LinuxKey::RightAlt,
        LinuxKey::LeftMeta,
        LinuxKey::RightMeta,
    ]
}

/// Key-up events for every modifier key (Shift, Ctrl, Alt, Meta, both
/// sides), then a sync: modifiers held when the cursor crossed the edge
/// would otherwise stay stuck on the client.
pub fn release_all_modifiers() -> (r: Vec<LinuxEvent>)
    ensures
        r@.len() == 9,
        forall|i: int| 0 <= i < 8 ==> r@[i] == key_event(#[trigger] modifier_keys()[i], 0),
        r@[8] == sync_event(),
{
    let mut v: Vec<LinuxEvent> = Vec::new();
    v.push(LinuxEvent { kind: LinuxEventKind::Key(LinuxKey::LeftShift), value: 0 });
    v.push(LinuxEvent { kind: LinuxEventKind::Key(LinuxKey::RightShift), value: 0 });
    v.push(LinuxEvent { kind: LinuxEventKind::Key(LinuxKey::LeftCtrl), value: 0 });
    v.push(LinuxEvent { kind: LinuxEventKind::Key(LinuxKey::RightCtrl), value: 0 });
    v.push(LinuxEvent { kind: LinuxEventKind::Key(LinuxKey::LeftAlt), value: 0 });
    v.push(LinuxEvent { kind: LinuxEventKind::Key(LinuxKey::RightAlt), value: 0 });
    v.push(LinuxEvent { kind: LinuxEventKind::Key(LinuxKey::LeftMeta), value: 0 });
    v.push(LinuxEvent { kind: LinuxEventKind::Key(LinuxKey::RightMeta), value: 0 });
    v.push(sync());
    v
}

/// A key going down or up, then a sync; nothing for an unmapped code.
pub fn inject_key(ev: KeyEvent) -> (r: Vec<LinuxEvent>)
    ensures
        linux_key_for(ev.vk) is None ==> r@.len() == 0,
        linux_key_for(ev.vk) matches Some(k) ==> r@ == seq![key_event(k, action_value(ev.action)), sync_event()],
{
    let mut v: Vec<LinuxEvent> = Vec::new();
    match vk_to_linux(ev.vk) {
        None => {},
        Some(k) => {
            v.push(LinuxEvent { kind: LinuxEventKind::Key(k), value: button_value(ev.action) });
            v.push(sync());
            assert(v@ =~= seq![key_event(k, action_value(ev.action)), sync_event()]);
        },
    }
    v
}

} // verus!
