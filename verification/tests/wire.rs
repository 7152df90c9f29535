use netshare::framing::{
    decode_frame, encode_frame, encode_packet_frame, frame_bytes, make_hello, packet_type_of,
    parse_header, FrameError, SeqCounter, MAX_CONTROL_PAYLOAD, MAX_PAYLOAD,
};
use netshare::protocol::{
    ControlPacket, PacketHeader, HEADER_SIZE, PKT_DISCONNECT, PKT_HEARTBEAT, PKT_HELLO,
    PKT_MOUSE_MOVE, PROTOCOL_VERSION,
};
use netshare::input::MouseMove;

#[test]
fn header_layout_is_little_endian() {
    let h = PacketHeader { pkt_type: 0x02, seq: 0x1234, flags: 0x01, length: 0xAABBCCDD };
    assert_eq!(h.to_bytes(), [0x02, 0x34, 0x12, 0x01, 0xDD, 0xCC, 0xBB, 0xAA]);
    assert_eq!(HEADER_SIZE, 8);
}

#[test]
fn header_roundtrip_from_header() {
    for h in [
        PacketHeader { pkt_type: 0, seq: 0, flags: 0, length: 0 },
        PacketHeader { pkt_type: 0xFF, seq: u16::MAX, flags: 0xFF, length: u32::MAX },
        PacketHeader { pkt_type: 0x11, seq: 256, flags: 2, length: 65536 },
    ] {
        assert_eq!(PacketHeader::from_bytes(&h.to_bytes()), h);
    }
}

#[test]
fn header_roundtrip_from_bytes() {
    let b = [9u8, 8, 7, 6, 5, 4, 3, 2];
    assert_eq!(PacketHeader::from_bytes(&b).to_bytes(), b);
    let h = PacketHeader::from_bytes(&b);
    assert_eq!(h.seq, 0x0708);
    assert_eq!(h.length, 0x02030405);
}

#[test]
fn sequence_numbers_count_up_and_wrap() {
    let mut c = SeqCounter::new();
    assert_eq!(c.next_seq(), 0);
    assert_eq!(c.next_seq(), 1);
    for _ in 0..65533 {
        c.next_seq();
    }
    assert_eq!(c.next_seq(), 65535);
    assert_eq!(c.next_seq(), 0);
}

#[test]
fn frame_roundtrip_with_trailing_bytes() {
    let mut c = SeqCounter::new();
    let payload = vec![1u8, 2, 3, 4, 5];
    let mut f = encode_frame(&mut c, 0x21, 0, &payload);
    assert_eq!(f.len(), 13);
    f.extend_from_slice(&[0xEE, 0xEE]);
    let (h, p) = decode_frame(&f, MAX_PAYLOAD).unwrap();
    assert_eq!(h, PacketHeader { pkt_type: 0x21, seq: 0, flags: 0, length: 5 });
    assert_eq!(p, payload);
}

#[test]
fn empty_payload_frame() {
    let h = PacketHeader { pkt_type: PKT_HEARTBEAT, seq: 7, flags: 0, length: 0 };
    let f = frame_bytes(h, &[]);
    assert_eq!(f.len(), 8);
    let (h2, p) = decode_frame(&f, MAX_CONTROL_PAYLOAD).unwrap();
    assert_eq!(h2, h);
    assert!(p.is_empty());
}

#[test]
fn oversized_control_frame_is_refused() {
    let h = PacketHeader { pkt_type: 0x02, seq: 0, flags: 0, length: MAX_CONTROL_PAYLOAD + 1 };
    let f = h.to_bytes();
    assert_eq!(
        decode_frame(&f, MAX_CONTROL_PAYLOAD),
        Err(FrameError::PayloadTooLarge { length: 65537, max: 65536 })
    );
    assert_eq!(
        parse_header(&f, MAX_CONTROL_PAYLOAD),
        Err(FrameError::PayloadTooLarge { length: 65537, max: 65536 })
    );
    let ok = PacketHeader { pkt_type: 0x02, seq: 0, flags: 0, length: MAX_CONTROL_PAYLOAD };
    assert_eq!(parse_header(&ok.to_bytes(), MAX_CONTROL_PAYLOAD), Ok(ok));
}

#[test]
fn file_channel_limit_is_four_mebibytes() {
    assert_eq!(MAX_PAYLOAD, 4 * 1024 * 1024);
    let h = PacketHeader { pkt_type: 0x23, seq: 0, flags: 0, length: MAX_PAYLOAD + 1 };
    assert!(matches!(
        decode_frame(&h.to_bytes(), MAX_PAYLOAD),
        Err(FrameError::PayloadTooLarge { .. })
    ));
}

#[test]
fn truncated_frames() {
    assert_eq!(decode_frame(&[1, 2, 3], MAX_PAYLOAD), Err(FrameError::Truncated));
    let h = PacketHeader { pkt_type: 1, seq: 0, flags: 0, length: 4 };
    let mut f = h.to_bytes().to_vec();
    f.extend_from_slice(&[1, 2, 3]);
    assert_eq!(decode_frame(&f, MAX_PAYLOAD), Err(FrameError::Truncated));
}

#[test]
fn packet_types_of_control_packets() {
    assert_eq!(packet_type_of(&ControlPacket::Heartbeat), PKT_HEARTBEAT);
    assert_eq!(packet_type_of(&ControlPacket::Disconnect), PKT_DISCONNECT);
    assert_eq!(
        packet_type_of(&ControlPacket::MouseMove(MouseMove { dx: 1, dy: 2 })),
        PKT_MOUSE_MOVE
    );
    let hello = make_hello("pc", None);
    assert_eq!(packet_type_of(&hello), PKT_HELLO);
}

#[test]
fn packet_frame_uses_the_packet_type() {
    let mut c = SeqCounter::new();
    c.next_seq();
    let f = encode_packet_frame(&mut c, &ControlPacket::Disconnect, 0x02, &[9]);
    assert_eq!(f, vec![0xFF, 1, 0, 0x02, 1, 0, 0, 0, 9]);
}

#[test]
fn hello_carries_version_name_and_code() {
    match make_hello("desk", Some("1A2B3C".to_string())) {
        ControlPacket::Hello(h) => {
            assert_eq!(h.protocol_version, PROTOCOL_VERSION);
            assert_eq!(h.client_name, "desk");
            assert_eq!(h.pairing_code.as_deref(), Some("1A2B3C"));
        }
        _ => panic!("not a hello"),
    }
}
