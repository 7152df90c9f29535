//! Client side of the control channel: the handshake check, what each
//! received packet asks for, and the state shown by the user interface.
use vstd::prelude::*;
use crate::input::{KeyEvent, MouseClick, MouseMove, MouseScroll};
use crate::layout::{entry_point_at, lemma_entry_point_on_screen, opposite_edge, ClientEdge, Placement};
use crate::protocol::{ActiveClientChange, ControlPacket, HelloResponse};

verus! {

/// State of the control connection.
#[derive(Debug, Clone)]
pub enum ConnectionStatus {
    Connecting,
    Connected,
    /// Closed, with the reason (empty after a clean close).
    Disconnected(String),
}

/// What the client shows of its connection.
#[derive(Debug)]
pub struct ClientGuiState {
    pub status: ConnectionStatus,
    pub server_name: String,
    pub assigned_slot: u8,
    pub active_slot: u8,
    pub active_name: String,
    /// Which edge of this client's screen leads back to the server.
    pub return_edge: Option<ClientEdge>,
    pub screen_width: i32,
    pub screen_height: i32,
}

impl ClientGuiState {
    /// Connecting, with nothing known yet.
    pub fn new() -> (r: ClientGuiState)
        ensures
            r.status is Connecting,
            r.server_name@.len() == 0,
            r.assigned_slot == 0,
            r.active_slot == 0,
            r.active_name@.len() == 0,
            r.return_edge is None,
            r.screen_width == 0,
            r.screen_height == 0,
    {
        ClientGuiState {
            status: ConnectionStatus::Connecting,
            server_name: String::new(),
            assigned_slot: 0,
            active_slot: 0,
            active_name: String::new(),
            return_edge: None,
            screen_width: 0,
            screen_height: 0,
        }
    }

    /// The server accepted the handshake: record its name, the slot it gave
    /// and this screen's size.
    pub fn set_connected(&mut self, resp: &HelloResponse, screen_width: i32, screen_height: i32)
        ensures
            final(self).status is Connected,
            final(self).server_name@ == resp.server_name@,
            final(self).assigned_slot == resp.assigned_slot,
            final(self).screen_width == screen_width,
            final(self).screen_height == screen_height,
            final(self).active_slot == old(self).active_slot,
            final(self).active_name == old(self).active_name,
            final(self).return_edge == old(self).return_edge,
    {
        self.status = ConnectionStatus::Connected;
        self.server_name = resp.server_name.clone();
        self.assigned_slot = resp.assigned_slot;
        self.screen_width = screen_width;
        self.screen_height = screen_height;
    }

    /// Another slot became active.
    pub fn set_active(&mut self, change: ActiveClientChange)
        ensures
            final(self).active_slot == change.active_slot,
            final(self).active_name == change.active_name,
            final(self).status == old(self).status,
            final(self).server_name == old(self).server_name,
            final(self).assigned_slot == old(self).assigned_slot,
            final(self).return_edge == old(self).return_edge,
            final(self).screen_width == old(self).screen_width,
            final(self).screen_height == old(self).screen_height,
    {
        self.active_slot = change.active_slot;
        self.active_name = change.active_name;
    }
}

/// Why the handshake failed.
#[derive(Debug)]
pub enum HandshakeError {
    /// The server answered with something other than a hello response.
    UnexpectedPacket,
    /// The server refused, for this reason (empty when it gave none).
    Rejected(String),
}

/// Checks the server's answer to the hello: an accepting hello response is
/// handed back; a refusing one or any other packet is an error.
pub fn check_hello_response(pkt: ControlPacket) -> (r: Result<HelloResponse, HandshakeError>)
    ensures
        match pkt {
            ControlPacket::HelloResponse(x) => if x.accepted {
                r == Ok::<HelloResponse, HandshakeError>(x)
            } else {
                r matches Err(HandshakeError::Rejected(why)) && why@ == (match x.reject_reason {
                    Some(s) => s@,
                    None => Seq::<char>::empty(),
                })
            },
            _ => r matches Err(HandshakeError::UnexpectedPacket),
        },
{
    match pkt {
        ControlPacket::HelloResponse(x) => {
            if x.accepted {
                Ok(x)
            } else {
                let why = match x.reject_reason {
                    Some(s) => s,
                    None => String::new(),
                };
                Err(HandshakeError::Rejected(why))
            }
        },
        _ => Err(HandshakeError::UnexpectedPacket),
    }
}

/// What the client does with a packet received after the handshake.
#[derive(Debug)]
pub enum ClientAction {
    InjectMouseMove(MouseMove),
    InjectMouseClick(MouseClick),
    InjectKey(KeyEvent),
    InjectScroll(MouseScroll),
    /// Record the newly active slot.
    ActiveChanged(ActiveClientChange),
    /// Answer the heartbeat with a heartbeat.
    ReplyHeartbeat,
    /// The server is closing: stop cleanly.
    Stop,
    /// Anything else: log it and go on.
    Unexpected,
}

/// Dispatches one received packet.
pub fn client_action(pkt: ControlPacket) -> (r: ClientAction)
    ensures
        match pkt {
            ControlPacket::MouseMove(ev) => r == ClientAction::InjectMouseMove(ev),
            ControlPacket::MouseClick(ev) => r == ClientAction::InjectMouseClick(ev),
            ControlPacket::KeyEvent(ev) => r == ClientAction::InjectKey(ev),
            ControlPacket::Scroll(ev) => r == ClientAction::InjectScroll(ev),
            ControlPacket::ActiveClientChange(c) => r == ClientAction::ActiveChanged(c),
            ControlPacket::Heartbeat => r == ClientAction::ReplyHeartbeat,
            ControlPacket::Disconnect => r == ClientAction::Stop,
            _ => r == ClientAction::Unexpected,
        },
{
    match pkt {
        ControlPacket::MouseMove(ev) => ClientAction::InjectMouseMove(ev),
        ControlPacket::MouseClick(ev) => ClientAction::InjectMouseClick(ev),
        ControlPacket::KeyEvent(ev) => ClientAction::InjectKey(ev),
        ControlPacket::Scroll(ev) => ClientAction::InjectScroll(ev),
        ControlPacket::ActiveClientChange(c) => ClientAction::ActiveChanged(c),
        ControlPacket::Heartbeat => ClientAction::ReplyHeartbeat,
        ControlPacket::Disconnect => ClientAction::Stop,
        _ => ClientAction::Unexpected,
    }
}

/// `v - 1`, staying at `i32::MIN`.
pub open spec fn minus_one_saturating(v: i32) -> int {
    if v == i32::MIN { v as int } else { v - 1 }
}

/// The cursor at `(cx, cy)` touches the `edge` of a client screen of the
/// given size.
pub open spec fn touches_return_edge(edge: ClientEdge, cx: int, cy: int, screen_width: i32, screen_height: i32) -> bool {
    match edge {
        ClientEdge::Left => cx <= 0,
        ClientEdge::Right => cx >= minus_one_saturating(screen_width),
        ClientEdge::Above => cy <= 0,
        ClientEdge::Below => cy >= minus_one_saturating(screen_height),
    }
}

/// Whether the cursor at `(cx, cy)` touches the edge of this client's screen
/// that leads back to the server.
pub fn at_return_edge(edge: ClientEdge, cx: i32, cy: i32, screen_width: i32, screen_height: i32) -> (r: bool)
    ensures
        r == touches_return_edge(edge, cx as int, cy as int, screen_width, screen_height),
{
    let right = if screen_width == i32::MIN { screen_width } else { screen_width - 1 };
    let bottom = if screen_height == i32::MIN { screen_height } else { screen_height - 1 };
    match edge {
        ClientEdge::Left => cx <= 0,
        ClientEdge::Right => cx >= right,
        ClientEdge::Above => cy <= 0,
        ClientEdge::Below => cy >= bottom,
    }
}

/// A cursor that crosses onto a client screen lands on the edge that leads
/// back: the entry point of a placement touches the client screen's return
/// edge, the side opposite the server edge it was placed on.
pub proof fn lemma_entry_touches_return_edge(p: Placement, along: int)
    ensures
        ({
            let e = entry_point_at(p, along);
            touches_return_edge(opposite_edge(p.edge), e.0, e.1, p.client_width, p.client_height)
        }),
{
    lemma_entry_point_on_screen(p, along);
}

/// The pairing code to send: none when the user left the field empty.
pub fn pairing_code_arg(code: &str) -> (r: Option<String>)
    ensures
        code@.len() == 0 ==> r is None,
        code@.len() > 0 ==> (r matches Some(s) && s@ == code@),
{
    if code.is_empty() {
        None
    } else {
        Some(code.to_owned())
    }
}

} // verus!
