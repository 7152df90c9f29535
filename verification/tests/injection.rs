use netshare::input::{ButtonAction, KeyEvent, KeyFlags, MouseButton, MouseClick, MouseMove, MouseScroll};
use netshare::inject_linux::{self, LinuxEvent, LinuxEventKind, LinuxKey, RelAxis};
use netshare::inject_windows::{self, KeyInput, MouseFlag, MouseInput};

fn key(vk: u32, action: ButtonAction) -> KeyEvent {
    KeyEvent { vk, action, scan: 0, flags: KeyFlags::empty() }
}

#[test]
fn vk_mapping() {
    assert_eq!(inject_linux::vk_to_linux(0x41), Some(LinuxKey::A));
    assert_eq!(inject_linux::vk_to_linux(0x5A), Some(LinuxKey::Z));
    assert_eq!(inject_linux::vk_to_linux(0x30), Some(LinuxKey::Num0));
    assert_eq!(inject_linux::vk_to_linux(0x7B), Some(LinuxKey::F12));
    assert_eq!(inject_linux::vk_to_linux(0x10), Some(LinuxKey::LeftShift));
    assert_eq!(inject_linux::vk_to_linux(0xA1), Some(LinuxKey::RightShift));
    assert_eq!(inject_linux::vk_to_linux(0x6F), Some(LinuxKey::KpSlash));
    assert_eq!(inject_linux::vk_to_linux(0xBF), Some(LinuxKey::Slash));
    assert_eq!(inject_linux::vk_to_linux(0x07), None);
    assert_eq!(inject_linux::vk_to_linux(0x1_0041), None);
}

#[test]
fn linux_move_and_click() {
    let ev = inject_linux::inject_mouse_move(MouseMove { dx: 5, dy: -3 });
    assert_eq!(
        ev,
        vec![
            LinuxEvent { kind: LinuxEventKind::Relative(RelAxis::X), value: 5 },
            LinuxEvent { kind: LinuxEventKind::Relative(RelAxis::Y), value: -3 },
            LinuxEvent { kind: LinuxEventKind::Sync, value: 0 },
        ]
    );
    let c = inject_linux::inject_mouse_click(MouseClick {
        button: MouseButton::X2,
        action: ButtonAction::Press,
        x: 0,
        y: 0,
    });
    assert_eq!(c[0], LinuxEvent { kind: LinuxEventKind::Key(LinuxKey::BtnExtra), value: 1 });
    assert_eq!(c.len(), 2);
}

#[test]
fn linux_scroll_inverts_vertical() {
    let ev = inject_linux::inject_scroll(MouseScroll { delta_x: 2, delta_y: 1 });
    assert_eq!(
        ev,
        vec![
            LinuxEvent { kind: LinuxEventKind::Relative(RelAxis::Wheel), value: -1 },
            LinuxEvent { kind: LinuxEventKind::Relative(RelAxis::HWheel), value: 2 },
            LinuxEvent { kind: LinuxEventKind::Sync, value: 0 },
        ]
    );
    assert_eq!(inject_linux::inject_scroll(MouseScroll { delta_x: 0, delta_y: 0 }).len(), 1);
}

#[test]
fn linux_keys_and_modifiers() {
    assert!(inject_linux::inject_key(key(0x07, ButtonAction::Press)).is_empty());
    let k = inject_linux::inject_key(key(0x0D, ButtonAction::Release));
    assert_eq!(k[0], LinuxEvent { kind: LinuxEventKind::Key(LinuxKey::Enter), value: 0 });
    let m = inject_linux::release_all_modifiers();
    assert_eq!(m.len(), 9);
    assert!(m[..8].iter().all(|e| e.value == 0));
    assert_eq!(m[8].kind, LinuxEventKind::Sync);
}

#[test]
fn windows_buttons() {
    assert_eq!(inject_windows::button_flags(MouseButton::Left), (MouseFlag::LeftDown, MouseFlag::LeftUp, 0));
    assert_eq!(inject_windows::button_flags(MouseButton::X1), (MouseFlag::XDown, MouseFlag::XUp, 1));
    assert_eq!(inject_windows::button_flags(MouseButton::X2), (MouseFlag::XDown, MouseFlag::XUp, 2));
    let c = inject_windows::inject_mouse_click(MouseClick {
        button: MouseButton::Right,
        action: ButtonAction::Release,
        x: 10,
        y: 20,
    });
    assert_eq!(c, MouseInput { dx: 10, dy: 20, mouse_data: 0, flag: MouseFlag::RightUp });
    assert_eq!(
        inject_windows::inject_mouse_move(MouseMove { dx: 1, dy: 2 }),
        MouseInput { dx: 1, dy: 2, mouse_data: 0, flag: MouseFlag::Move }
    );
}

#[test]
fn windows_scroll_and_keys() {
    let s = inject_windows::inject_scroll(MouseScroll { delta_x: 0, delta_y: -120 });
    assert_eq!(s, vec![MouseInput { dx: 0, dy: 0, mouse_data: (-120i32) as u32, flag: MouseFlag::Wheel }]);
    assert!(inject_windows::inject_scroll(MouseScroll { delta_x: 0, delta_y: 0 }).is_empty());
    let k = inject_windows::inject_key(KeyEvent {
        vk: 0x1_00A3,
        action: ButtonAction::Release,
        scan: 0x1D,
        flags: KeyFlags::from_bits(KeyFlags::EXTENDED),
    });
    assert_eq!(k, KeyInput { vk: 0x00A3, scan: 0x1D, key_up: true, extended: true, scancode: true });
}
