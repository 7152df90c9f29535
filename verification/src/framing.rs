//! Framing of the control, file and clipboard channels: every message is an
//! 8-byte [`PacketHeader`] followed by `header.length` payload bytes.
use vstd::prelude::*;
use crate::file_transfer::{clipboard_packet_type, file_packet_type, ClipboardPacket, FilePacket};
use crate::protocol::{
    header_bytes, header_of, lemma_header_roundtrip, ControlPacket, Hello, PacketHeader, PKT_ACTIVE_CLIENT_CHANGE,
    PKT_AUDIO_CONFIG, PKT_DISCONNECT, PKT_HEARTBEAT, PKT_HELLO, PKT_HELLO_RESPONSE, PKT_KEY_EVENT,
    PKT_MOUSE_CLICK, PKT_MOUSE_MOVE, PKT_SCROLL, PROTOCOL_VERSION,
};

verus! {

/// Largest payload accepted on the file and clipboard channels (4 MiB).
pub const MAX_PAYLOAD: u32 = 4 * 1024 * 1024;

/// Largest payload accepted on the control channel (64 KiB): control packets
/// are tiny, and the cap keeps a peer from claiming a huge length.
pub const MAX_CONTROL_PAYLOAD: u32 = 64 * 1024;

/// Why a frame could not be read.
#[derive(Debug, Clone, Copy, PartialEq, Eq)]
pub enum FrameError {
    /// The input ended before the header or the payload was complete.
    Truncated,
    /// The header announces more payload than the channel accepts.
    PayloadTooLarge { length: u32, max: u32 },
}

/// The sequence numbers stamped on outgoing headers: 0, 1, ..., 65535, 0, ...
#[derive(Debug)]
pub struct SeqCounter {
    next: u16,
}

impl SeqCounter {
    /// The number the next header will carry.
    pub closed spec fn current(&self) -> u16 {
        self.next
    }

    pub fn new() -> (r: SeqCounter)
        ensures
            r.current() == 0,
    {
        SeqCounter { next: 0 }
    }

    /// Hands out the current number and moves on, wrapping after 65535.
    pub fn next_seq(&mut self) -> (r: u16)
        ensures
            r == old(self).current(),
            final(self).current() == (old(self).current() + 1) % 65536,
    {
        let r = self.next;
        self.next = self.next.wrapping_add(1);
        r
    }
}

/// A frame on the wire: the header followed by the payload.
pub open spec fn frame_of(h: PacketHeader, payload: Seq<u8>) -> Seq<u8> {
    header_bytes(h) + payload
}

/// What reading one frame with payload limit `max` from `buf` gives.
pub open spec fn decoded_frame(buf: Seq<u8>, max: u32) -> Result<(PacketHeader, Seq<u8>), FrameError> {
    if buf.len() < 8 {
        Err(FrameError::Truncated)
    } else {
        let h = header_of(buf);
        if h.length > max {
            Err(FrameError::PayloadTooLarge { length: h.length, max })
        } else if buf.len() < 8 + h.length {
            Err(FrameError::Truncated)
        } else {
            Ok((h, buf.subrange(8, 8 + h.length)))
        }
    }
}

/// The packet-type byte of each control packet.
pub open spec fn packet_type_spec(pkt: ControlPacket) -> u8 {
    match pkt {
        ControlPacket::Hello(_) => PKT_HELLO,
        ControlPacket::HelloResponse(_) => PKT_HELLO_RESPONSE,
        ControlPacket::MouseMove(_) => PKT_MOUSE_MOVE,
        ControlPacket::MouseClick(_) => PKT_MOUSE_CLICK,
        ControlPacket::KeyEvent(_) => PKT_KEY_EVENT,
        ControlPacket::Scroll(_) => PKT_SCROLL,
        ControlPacket::AudioConfig(_) => PKT_AUDIO_CONFIG,
        ControlPacket::Heartbeat => PKT_HEARTBEAT,
        ControlPacket::ActiveClientChange(_) => PKT_ACTIVE_CLIENT_CHANGE,
        ControlPacket::Disconnect => PKT_DISCONNECT,
    }
}

/// The packet-type byte that goes in the header of `pkt`.
pub fn packet_type_of(pkt: &ControlPacket) -> (r: u8)
    ensures
        r == packet_type_spec(*pkt),
{
    match pkt {
        ControlPacket::Hello(_) => PKT_HELLO,
        ControlPacket::HelloResponse(_) => PKT_HELLO_RESPONSE,
        ControlPacket::MouseMove(_) => PKT_MOUSE_MOVE,
        ControlPacket::MouseClick(_) => PKT_MOUSE_CLICK,
        ControlPacket::KeyEvent(_) => PKT_KEY_EVENT,
        ControlPacket::Scroll(_) => PKT_SCROLL,
        ControlPacket::AudioConfig(_) => PKT_AUDIO_CONFIG,
        ControlPacket::Heartbeat => PKT_HEARTBEAT,
        ControlPacket::ActiveClientChange(_) => PKT_ACTIVE_CLIENT_CHANGE,
        ControlPacket::Disconnect => PKT_DISCONNECT,
    }
}

/// The header and payload bytes of one frame, in one buffer.
pub fn frame_bytes(header: PacketHeader, payload: &[u8]) -> (r: Vec<u8>)
    ensures
        r@ == frame_of(header, payload@),
{
    let hb = header.to_bytes();
    let mut out: Vec<u8> = Vec::new();
    let mut i: usize = 0;
    while i < 8
        invariant
            0 <= i <= 8,
            hb@ == header_bytes(header),
            out@ == hb@.subrange(0, i as int),
        decreases 8 - i,
    {
        out.push(hb[i]);
        i = i + 1;
    }
    let mut j: usize = 0;
    while j < payload.len()
        invariant
            0 <= j <= payload@.len(),
            out@ == header_bytes(header) + payload@.subrange(0, j as int),
        decreases payload@.len() - j,
    {
        out.push(payload[j]);
        j = j + 1;
        assert(payload@.subrange(0, j as int) =~= payload@.subrange(0, j - 1) + seq![
            payload@[j - 1],
        ]);
    }
    assert(payload@.subrange(0, payload@.len() as int) =~= payload@);
    out
}

/// Frames `payload` as a message of type `pkt_type`, stamping the header with
/// the next sequence number of `counter` and the given flag byte. The
/// header's length field is the payload's length truncated to 32 bits.
pub fn encode_frame(counter: &mut SeqCounter, pkt_type: u8, flags: u8, payload: &[u8]) -> (r: Vec<u8>)
    ensures
        r@ == frame_of(
            PacketHeader {
                pkt_type,
                seq: old(counter).current(),
                flags,
                length: payload@.len() as u32,
            },
            payload@,
        ),
        final(counter).current() == (old(counter).current() + 1) % 65536,
{
    let seq = counter.next_seq();
    let header = PacketHeader { pkt_type, seq, flags, length: payload.len() as u32 };
    frame_bytes(header, payload)
}

/// Frames the encoded form of a control packet, with the packet's own type byte.
pub fn encode_packet_frame(
    counter: &mut SeqCounter,
    pkt: &ControlPacket,
    flags: u8,
    payload: &[u8],
) -> (r: Vec<u8>)
    ensures
        r@ == frame_of(
            PacketHeader {
                pkt_type: packet_type_spec(*pkt),
                seq: old(counter).current(),
                flags,
                length: payload@.len() as u32,
            },
            payload@,
        ),
        final(counter).current() == (old(counter).current() + 1) % 65536,
{
    let t = packet_type_of(pkt);
    encode_frame(counter, t, flags, payload)
}

/// Reads a header and checks the length it announces against `max`.
pub fn parse_header(bytes: &[u8; 8], max: u32) -> (r: Result<PacketHeader, FrameError>)
    ensures
        header_of(bytes@).length <= max ==> r == Ok::<PacketHeader, FrameError>(header_of(bytes@)),
        header_of(bytes@).length > max ==> r == Err::<PacketHeader, FrameError>(
            FrameError::PayloadTooLarge { length: header_of(bytes@).length, max },
        ),
{
    let h = PacketHeader::from_bytes(bytes);
    if h.length > max {
        Err(FrameError::PayloadTooLarge { length: h.length, max })
    } else {
        Ok(h)
    }
}

/// Reads one frame from the front of `buf`, refusing payloads over `max`.
pub fn decode_frame(buf: &[u8], max: u32) -> (r: Result<(PacketHeader, Vec<u8>), FrameError>)
    ensures
        match (r, decoded_frame(buf@, max)) {
            (Ok((h, p)), Ok((h2, p2))) => h == h2 && p@ == p2,
            (Err(e), Err(e2)) => e == e2,
            _ => false,
        },
{
    if buf.len() < 8 {
        return Err(FrameError::Truncated);
    }
    let hb: [u8; 8] = [buf[0], buf[1], buf[2], buf[3], buf[4], buf[5], buf[6], buf[7]];
    assert(hb@ =~= buf@.subrange(0, 8));
    let h = PacketHeader::from_bytes(&hb);
    if h.length > max {
        return Err(FrameError::PayloadTooLarge { length: h.length, max });
    }
    let len = h.length as usize;
    if buf.len() - 8 < len {
        return Err(FrameError::Truncated);
    }
    let mut payload: Vec<u8> = Vec::new();
    let mut i: usize = 0;
    while i < len
        invariant
            0 <= i <= len,
            8 + len <= buf@.len(),
            buf@.len() <= usize::MAX,
            payload@ == buf@.subrange(8, 8 + i),
        decreases len - i,
    {
        payload.push(buf[8 + i]);
        i = i + 1;
        assert(payload@ =~= buf@.subrange(8, 8 + i));
    }
    Ok((h, payload))
}

/// Reading back a frame gives its header and payload, whatever follows it in
/// the buffer, as long as the payload is within the limit.
pub proof fn lemma_frame_roundtrip(h: PacketHeader, payload: Seq<u8>, rest: Seq<u8>, max: u32)
    requires
        h.length == payload.len(),
        h.length <= max,
    ensures
        decoded_frame(frame_of(h, payload) + rest, max) == Ok::<(PacketHeader, Seq<u8>), FrameError>(
            (h, payload),
        ),
{
    lemma_header_roundtrip(h);
    let buf = frame_of(h, payload) + rest;
    assert(buf.subrange(0, 8) =~= header_bytes(h));
    assert(header_of(buf) == header_of(header_bytes(h)));
    assert(buf.subrange(8, 8 + h.length) =~= payload);
}

/// A frame whose header announces more than `max` bytes is refused as too
/// large, whatever the payload.
pub proof fn lemma_oversized_frame_refused(h: PacketHeader, payload: Seq<u8>, max: u32)
    requires
        h.length > max,
    ensures
        decoded_frame(frame_of(h, payload), max) == Err::<(PacketHeader, Seq<u8>), FrameError>(
            FrameError::PayloadTooLarge { length: h.length, max },
        ),
{
    lemma_header_roundtrip(h);
    let buf = frame_of(h, payload);
    assert(header_of(buf) == header_of(header_bytes(h)));
}

/// Two control packets are of the same kind: the same variant, whatever
/// they carry.
pub open spec fn same_control_kind(a: ControlPacket, b: ControlPacket) -> bool {
    &&& (a is Hello) == (b is Hello)
    &&& (a is HelloResponse) == (b is HelloResponse)
    &&& (a is MouseMove) == (b is MouseMove)
    &&& (a is MouseClick) == (b is MouseClick)
    &&& (a is KeyEvent) == (b is KeyEvent)
    &&& (a is Scroll) == (b is Scroll)
    &&& (a is AudioConfig) == (b is AudioConfig)
    &&& (a is Heartbeat) == (b is Heartbeat)
    &&& (a is ActiveClientChange) == (b is ActiveClientChange)
    &&& (a is Disconnect) == (b is Disconnect)
}

/// The header's type byte tells control packets apart: two packets that
/// frame with the same type byte are of the same kind, so a click is never
/// framed as a move, nor a key as a scroll.
pub proof fn lemma_packet_type_tells_kinds_apart(a: ControlPacket, b: ControlPacket)
    requires
        packet_type_spec(a) == packet_type_spec(b),
    ensures
        same_control_kind(a, b),
{
}

/// Two file packets that frame with the same type byte are of the same kind,
/// and likewise two clipboard packets.
pub proof fn lemma_transfer_types_tell_kinds_apart(a: FilePacket, b: FilePacket, c: ClipboardPacket, d: ClipboardPacket)
    ensures
        file_packet_type(a) == file_packet_type(b) ==> {
            &&& (a is Request) == (b is Request)
            &&& (a is Response) == (b is Response)
            &&& (a is Chunk) == (b is Chunk)
            &&& (a is ChunkAck) == (b is ChunkAck)
            &&& (a is Complete) == (b is Complete)
            &&& (a is Cancel) == (b is Cancel)
            &&& (a is Resume) == (b is Resume)
        },
        clipboard_packet_type(c) == clipboard_packet_type(d) ==> (c is Text) == (d is Text),
{
}

/// No control packet shares its type byte with a file or clipboard packet,
/// so each channel's messages are told apart from the others' by the header
/// alone.
pub proof fn lemma_packet_types_distinct_across_channels(c: ControlPacket, f: FilePacket, k: ClipboardPacket)
    ensures
        packet_type_spec(c) != file_packet_type(f),
        packet_type_spec(c) != clipboard_packet_type(k),
        file_packet_type(f) != clipboard_packet_type(k),
{
}

/// The hello packet a client sends first: the current protocol version, its
/// name and the pairing code the user typed, if any.
pub fn make_hello(client_name: &str, pairing_code: Option<String>) -> (r: ControlPacket)
    ensures
        r matches ControlPacket::Hello(h) && h.protocol_version == PROTOCOL_VERSION
            && h.client_name@ == client_name@ && h.pairing_code == pairing_code,
{
    ControlPacket::Hello(
        Hello { protocol_version: PROTOCOL_VERSION, client_name: client_name.to_owned(), pairing_code },
    )
}

} // verus!
