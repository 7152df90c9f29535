//! Control-channel packet types and the fixed 8-byte wire header.
use vstd::prelude::*;
use crate::input::{KeyEvent, MouseClick, MouseMove, MouseScroll};
use crate::audio::AudioConfig;

verus! {

pub const PKT_HELLO: u8 = 0x01;
pub const PKT_HELLO_RESPONSE: u8 = 0xF1;
pub const PKT_MOUSE_MOVE: u8 = 0x02;
pub const PKT_MOUSE_CLICK: u8 = 0x03;
pub const PKT_KEY_EVENT: u8 = 0x04;
pub const PKT_SCROLL: u8 = 0x05;
pub const PKT_AUDIO_CONFIG: u8 = 0x10;
pub const PKT_HEARTBEAT: u8 = 0x11;
pub const PKT_ACTIVE_CLIENT_CHANGE: u8 = 0x12;
pub const PKT_DISCONNECT: u8 = 0xFF;

pub const FLAG_COMPRESSED: u8 = 0x01;
pub const FLAG_BROADCAST: u8 = 0x02;

pub const PROTOCOL_VERSION: u16 = 1;

/// Size in bytes of [`PacketHeader`] on the wire.
pub const HEADER_SIZE: usize = 8;

/// Fixed 8-byte header that precedes every packet on the wire.
///
/// Layout: `[0]` pkt_type, `[1..2]` seq (LE), `[3]` flags, `[4..7]` length (LE).
#[derive(Debug, Clone, Copy, PartialEq, Eq)]
pub struct PacketHeader {
    pub pkt_type: u8,
    pub seq: u16,
    pub flags: u8,
    pub length: u32,
}

/// The little-endian bytes of a 16-bit value.
pub open spec fn le16_bytes(v: u16) -> Seq<u8> {
    seq![(v % 256) as u8, (v / 256) as u8]
}

/// The little-endian bytes of a 32-bit value.
pub open spec fn le32_bytes(v: u32) -> Seq<u8> {
    seq![
        (v % 256) as u8,
        ((v / 256) % 256) as u8,
        ((v / 65536) % 256) as u8,
        (v / 16777216) as u8,
    ]
}

/// The value of two little-endian bytes.
pub open spec fn le16_value(b0: u8, b1: u8) -> int {
    b0 + 256 * b1
}

/// The value of four little-endian bytes.
pub open spec fn le32_value(b0: u8, b1: u8, b2: u8, b3: u8) -> int {
    b0 + 256 * b1 + 65536 * b2 + 16777216 * b3
}

/// The wire form of a header.
pub open spec fn header_bytes(h: PacketHeader) -> Seq<u8> {
    seq![h.pkt_type] + le16_bytes(h.seq) + seq![h.flags] + le32_bytes(h.length)
}

/// The header that the first eight bytes of `b` encode.
pub open spec fn header_of(b: Seq<u8>) -> PacketHeader
    recommends
        b.len() >= 8,
{
    PacketHeader {
        pkt_type: b[0],
        seq: le16_value(b[1], b[2]) as u16,
        flags: b[3],
        length: le32_value(b[4], b[5], b[6], b[7]) as u32,
    }
}

proof fn lemma_le32_roundtrip(v: u32)
    ensures
        le32_value(
            le32_bytes(v)[0],
            le32_bytes(v)[1],
            le32_bytes(v)[2],
            le32_bytes(v)[3],
        ) == v,
{
    let a = v % 256;
    let b = (v / 256) % 256;
    let c = (v / 65536) % 256;
    let d = v / 16777216;
    assert(v == a + 256 * b + 65536 * c + 16777216 * d) by (nonlinear_arith)
        requires
            a == v % 256,
            b == (v / 256) % 256,
            c == (v / 65536) % 256,
            d == v / 16777216,
            v < 0x1_0000_0000,
    {
        assert(v == (v / 256) * 256 + v % 256);
        assert(v / 256 == ((v / 256) / 256) * 256 + (v / 256) % 256);
        assert((v / 256) / 256 == v / 65536);
        assert(v / 65536 == ((v / 65536) / 256) * 256 + (v / 65536) % 256);
        assert((v / 65536) / 256 == v / 16777216);
    }
}

proof fn lemma_le32_value_bytes(b0: u8, b1: u8, b2: u8, b3: u8)
    ensures
        le32_bytes(le32_value(b0, b1, b2, b3) as u32) == seq![b0, b1, b2, b3],
{
    let v = le32_value(b0, b1, b2, b3);
    assert(0 <= v < 0x1_0000_0000);
    assert(v % 256 == b0 && (v / 256) % 256 == b1 && (v / 65536) % 256 == b2
        && v / 16777216 == b3) by (nonlinear_arith)
        requires
            v == b0 + 256 * b1 + 65536 * b2 + 16777216 * b3,
            0 <= b0 < 256,
            0 <= b1 < 256,
            0 <= b2 < 256,
            0 <= b3 < 256,
    {
    }
    assert(le32_bytes(v as u32) =~= seq![b0, b1, b2, b3]);
}

impl PacketHeader {
    /// The wire form of this header.
    pub fn to_bytes(self) -> (r: [u8; 8])
        ensures
            r@ == header_bytes(self),
    {
        let seq = self.seq;
        let len = self.length;
        let r = [
            self.pkt_type,
            (seq % 256) as u8,
            (seq / 256) as u8,
            self.flags,
            (len % 256) as u8,
            ((len / 256) % 256) as u8,
            ((len / 65536) % 256) as u8,
            (len / 16777216) as u8,
        ];
        assert(r@ =~= header_bytes(self));
        r
    }

    /// The header that eight wire bytes encode.
    pub fn from_bytes(b: &[u8; 8]) -> (r: PacketHeader)
        ensures
            r == header_of(b@),
    {
        let seq: u16 = b[1] as u16 + (b[2] as u16) * 256;
        let length: u32 = b[4] as u32 + (b[5] as u32) * 256 + (b[6] as u32) * 65536
            + (b[7] as u32) * 16777216;
        PacketHeader { pkt_type: b[0], seq, flags: b[3], length }
    }
}

/// Decoding the wire form of any header gives that header back.
pub proof fn lemma_header_roundtrip(h: PacketHeader)
    ensures
        header_bytes(h).len() == 8,
        header_of(header_bytes(h)) == h,
{
    lemma_le32_roundtrip(h.length);
    let s = header_bytes(h);
    assert(s[4] == le32_bytes(h.length)[0]);
    assert(s[5] == le32_bytes(h.length)[1]);
    assert(s[6] == le32_bytes(h.length)[2]);
    assert(s[7] == le32_bytes(h.length)[3]);
}

/// Encoding the header that any eight bytes decode to gives those bytes back.
pub proof fn lemma_bytes_roundtrip(b: Seq<u8>)
    requires
        b.len() == 8,
    ensures
        header_bytes(header_of(b)) == b,
{
    lemma_le32_value_bytes(b[4], b[5], b[6], b[7]);
    let h = header_of(b);
    assert(header_bytes(h) =~= b);
}

// ── Packet payloads ─────────────────────────────────────────────────────────

/// Client → server handshake.
#[derive(Debug, Clone)]
pub struct Hello {
    pub protocol_version: u16,
    pub client_name: String,
    /// Pairing code entered by the user, when the server asks for one.
    pub pairing_code: Option<String>,
}

/// Server → client handshake answer.
#[derive(Debug, Clone)]
pub struct HelloResponse {
    pub protocol_version: u16,
    pub server_name: String,
    /// Slot assigned to this client for hotkey switching (1-9).
    pub assigned_slot: u8,
    pub accepted: bool,
    pub reject_reason: Option<String>,
    pub pairing_required: bool,
}

/// Notification of which slot now receives input (0 = the server itself).
#[derive(Debug, Clone)]
pub struct ActiveClientChange {
    pub active_slot: u8,
    pub active_name: String,
}

/// All payloads that travel over the control channel.
#[derive(Debug, Clone)]
pub enum ControlPacket {
    Hello(Hello),
    HelloResponse(HelloResponse),
    MouseMove(MouseMove),
    MouseClick(MouseClick),
    KeyEvent(KeyEvent),
    Scroll(MouseScroll),
    AudioConfig(AudioConfig),
    Heartbeat,
    ActiveClientChange(ActiveClientChange),
    Disconnect,
}

} // verus!
