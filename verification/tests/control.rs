use netshare::capture::{
    mouse_packet, on_mouse, should_suppress, CaptureEvent, HookDecision, HotkeyAction,
    ModifierState, MouseMessage,
};
use netshare::client::{
    at_return_edge, check_hello_response, client_action, pairing_code_arg, ClientAction,
    ClientGuiState, ConnectionStatus, HandshakeError,
};
use netshare::edge::{
    at_right_edge, cursor_edge, layout_from_monitors, EdgePeer, EdgeSwitcher, EdgeTrigger,
    RightEdgeDwell, Side, DWELL_MS,
};
use netshare::input::{ButtonAction, MouseButton, MouseClick, MouseScroll};
use netshare::layout::ClientEdge;
use netshare::protocol::{ActiveClientChange, ControlPacket, HelloResponse};

fn hotkey(d: &HookDecision) -> Option<HotkeyAction> {
    match d {
        HookDecision::Capture(CaptureEvent::Hotkey(h)) => Some(*h),
        _ => None,
    }
}

#[test]
fn ctrl_shift_alt_digit_switches() {
    let mut m = ModifierState::new();
    m.on_key(0xA2, true, 0, 0, false);
    m.on_key(0xA0, true, 0, 0, false);
    m.on_key(0xA4, true, 0, 0, false);
    let d = m.on_key(0x33, true, 0, 0, false);
    assert_eq!(hotkey(&d), Some(HotkeyAction::SwitchToSlot(3)));
    let d = m.on_key(0x30, true, 0, 0, true);
    assert_eq!(hotkey(&d), Some(HotkeyAction::SwitchToSlot(0)));
    m.on_key(0xA4, false, 0, 0, false);
    assert!(!m.alt);
    assert!(matches!(m.on_key(0x33, true, 0, 0, false), HookDecision::PassThrough));
}

#[test]
fn scroll_lock_cycles_and_right_ctrl_returns() {
    let mut m = ModifierState::new();
    assert_eq!(hotkey(&m.on_key(0x91, true, 0, 0, false)), Some(HotkeyAction::Cycle));
    assert!(matches!(m.on_key(0xA3, true, 0, 0, false), HookDecision::PassThrough));
    let mut m = ModifierState::new();
    assert_eq!(hotkey(&m.on_key(0xA3, true, 0, 0, true)), Some(HotkeyAction::SwitchToSlot(0)));
}

#[test]
fn keys_are_forwarded_while_suppressed() {
    let mut m = ModifierState::new();
    match m.on_key(0x41, false, 0x1E, 1, true) {
        HookDecision::Capture(CaptureEvent::InputPacket(ControlPacket::KeyEvent(k))) => {
            assert_eq!(k.vk, 0x41);
            assert_eq!(k.action, ButtonAction::Release);
            assert_eq!(k.scan, 0x1E);
            assert!(k.flags.contains(1));
        }
        _ => panic!(),
    }
    assert!(matches!(m.on_key(0x41, true, 0, 0, false), HookDecision::PassThrough));
    assert!(should_suppress(Some(true)));
    assert!(!should_suppress(None));
}

#[test]
fn mouse_messages() {
    match mouse_packet(MouseMessage::XDown, 5, 6, 0x0001_0000) {
        Some(ControlPacket::MouseClick(MouseClick { button, action, x, y })) => {
            assert_eq!((button, action, x, y), (MouseButton::X1, ButtonAction::Press, 5, 6));
        }
        _ => panic!(),
    }
    match mouse_packet(MouseMessage::Wheel, 0, 0, 0xFF88_0000) {
        Some(ControlPacket::Scroll(MouseScroll { delta_x, delta_y })) => {
            assert_eq!((delta_x, delta_y), (0, -120));
        }
        _ => panic!(),
    }
    assert!(mouse_packet(MouseMessage::Other, 0, 0, 0).is_none());
    assert!(matches!(on_mouse(MouseMessage::Move, 1, 1, 0, false), HookDecision::PassThrough));
    assert!(matches!(on_mouse(MouseMessage::Move, 1, 1, 0, true), HookDecision::Capture(_)));
}

fn response(accepted: bool, reason: Option<&str>) -> ControlPacket {
    ControlPacket::HelloResponse(HelloResponse {
        protocol_version: 1,
        server_name: "srv".into(),
        assigned_slot: 2,
        accepted,
        reject_reason: reason.map(|s| s.to_string()),
        pairing_required: false,
    })
}

#[test]
fn handshake_outcomes() {
    let r = check_hello_response(response(true, None)).unwrap();
    assert_eq!(r.assigned_slot, 2);
    match check_hello_response(response(false, Some("bad code"))) {
        Err(HandshakeError::Rejected(w)) => assert_eq!(w, "bad code"),
        _ => panic!(),
    }
    assert!(matches!(check_hello_response(response(false, None)), Err(HandshakeError::Rejected(w)) if w.is_empty()));
    assert!(matches!(check_hello_response(ControlPacket::Heartbeat), Err(HandshakeError::UnexpectedPacket)));
    let mut g = ClientGuiState::new();
    assert!(matches!(g.status, ConnectionStatus::Connecting));
    g.set_connected(&r, 1920, 1080);
    assert!(matches!(g.status, ConnectionStatus::Connected));
    assert_eq!((g.server_name.as_str(), g.assigned_slot, g.screen_width), ("srv", 2, 1920));
    g.set_active(ActiveClientChange { active_slot: 2, active_name: "me".into() });
    assert_eq!((g.active_slot, g.active_name.as_str()), (2, "me"));
}

#[test]
fn client_dispatch() {
    assert!(matches!(client_action(ControlPacket::Heartbeat), ClientAction::ReplyHeartbeat));
    assert!(matches!(client_action(ControlPacket::Disconnect), ClientAction::Stop));
    assert!(matches!(client_action(response(true, None)), ClientAction::Unexpected));
    assert!(matches!(
        client_action(ControlPacket::Scroll(MouseScroll { delta_x: 1, delta_y: 2 })),
        ClientAction::InjectScroll(MouseScroll { delta_x: 1, delta_y: 2 })
    ));
    assert_eq!(pairing_code_arg(""), None);
    assert_eq!(pairing_code_arg("ABC123").as_deref(), Some("ABC123"));
}

#[test]
fn return_edge_detection() {
    assert!(at_return_edge(ClientEdge::Left, 0, 500, 1920, 1080));
    assert!(!at_return_edge(ClientEdge::Left, 1, 500, 1920, 1080));
    assert!(at_return_edge(ClientEdge::Right, 1919, 500, 1920, 1080));
    assert!(!at_return_edge(ClientEdge::Right, 1918, 500, 1920, 1080));
    assert!(at_return_edge(ClientEdge::Below, 0, 1079, 1920, 1080));
    assert!(at_return_edge(ClientEdge::Above, 0, -3, 1920, 1080));
}

#[test]
fn triggers_from_canvas() {
    let mons = [
        EdgePeer { slot: None, side: Side::Left },
        EdgePeer { slot: Some(1), side: Side::Right },
        EdgePeer { slot: None, side: Side::Top },
        EdgePeer { slot: Some(2), side: Side::Left },
        EdgePeer { slot: Some(3), side: Side::Right },
    ];
    assert_eq!(
        layout_from_monitors(&mons),
        vec![EdgeTrigger { side: Side::Left, slot: 2 }, EdgeTrigger { side: Side::Right, slot: 3 }]
    );
    assert!(layout_from_monitors(&mons[..1]).is_empty());
}

#[test]
fn cursor_edges() {
    assert_eq!(cursor_edge(2, 500, 0, 0, 1920, 1080), Some(Side::Left));
    assert_eq!(cursor_edge(1917, 500, 0, 0, 1920, 1080), Some(Side::Right));
    assert_eq!(cursor_edge(500, 1, 0, 0, 1920, 1080), Some(Side::Top));
    assert_eq!(cursor_edge(500, 1077, 0, 0, 1920, 1080), Some(Side::Bottom));
    assert_eq!(cursor_edge(500, 500, 0, 0, 1920, 1080), None);
    assert!(at_right_edge(1918, 0, 1920));
    assert!(!at_right_edge(1917, 0, 1920));
}

#[test]
fn dwell_switches_after_the_delay() {
    let t = [EdgeTrigger { side: Side::Right, slot: 4 }];
    let mut e = EdgeSwitcher::new();
    assert_eq!(e.tick(&t, Some(Side::Right), 1000), None);
    assert_eq!(e.tick(&t, Some(Side::Right), 1000 + DWELL_MS - 1), None);
    assert_eq!(e.tick(&t, Some(Side::Right), 1000 + DWELL_MS), Some(4));
    assert_eq!(e.dwell, None);
    assert_eq!(e.tick(&t, Some(Side::Left), 5000), None);
    assert_eq!(e.dwell, None);
    e.tick(&t, Some(Side::Right), 6000);
    assert_eq!(e.tick(&t, None, 6200), None);
    assert_eq!(e.tick(&t, Some(Side::Right), 6300), None);
    assert_eq!(e.tick(&[], Some(Side::Right), 9000), None);
    let mut d = RightEdgeDwell::new();
    assert_eq!(d.tick(true, 0, Some(1)), None);
    assert_eq!(d.tick(true, 150, Some(1)), Some(1));
    assert_eq!(d.tick(false, 200, Some(1)), None);
}
