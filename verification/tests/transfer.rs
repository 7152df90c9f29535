use netshare::file_transfer::{
    resume_chunk_for, sanitize_path, total_chunks_for, ClipboardImage, ClipboardPacket,
    ClipboardText, FileCancel, FileChunkAck, FileComplete, FilePacket, FileResponse,
    CHUNK_SIZE, PKT_CLIP_IMAGE, PKT_CLIP_TEXT, PKT_FILE_CANCEL, PKT_FILE_CHUNK_ACK,
    PKT_FILE_COMPLETE, PKT_FILE_REQUEST,
};
use netshare::transfer::{
    accept_response, chunk_is_intact, consent_response, digest_matches, file_request, invalid_path_response,
    make_chunk, start_chunk_from_response, AckOutcome, ChunkReceiver, ChunkSender, FileDigest,
    ReceiveStep, SendError, TransferIds,
};

#[test]
fn sanitize_keeps_relative_names() {
    assert_eq!(sanitize_path("docs/report.pdf").as_deref(), Some("docs/report.pdf"));
    assert_eq!(sanitize_path("a//b/./c/").as_deref(), Some("a/b/c"));
    assert_eq!(sanitize_path("...").as_deref(), Some("..."));
    assert_eq!(sanitize_path("ünï/cödé").as_deref(), Some("ünï/cödé"));
}

#[test]
fn sanitize_rejects_absolute_and_empty() {
    assert_eq!(sanitize_path("/etc/passwd"), None);
    assert_eq!(sanitize_path(""), None);
    assert_eq!(sanitize_path("./../."), None);
    assert_eq!(sanitize_path("///"), None);
}

#[test]
fn sanitize_rejects_traversal() {
    assert_eq!(sanitize_path("../secret.txt"), None);
    assert_eq!(sanitize_path("../../etc/passwd"), None);
    assert_eq!(sanitize_path("./x/../y"), None);
    assert_eq!(sanitize_path("a/.."), None);
    assert_eq!(sanitize_path("a/..b/c").as_deref(), Some("a/..b/c"));
}

#[test]
fn sanitize_is_idempotent() {
    for raw in ["a/b/./c", "x//y", "..a/b.."] {
        let once = sanitize_path(raw).unwrap();
        assert_eq!(sanitize_path(&once).as_deref(), Some(once.as_str()));
        assert!(!once.starts_with('/'));
        assert!(once.split('/').all(|p| !p.is_empty() && p != "." && p != ".."));
    }
}

#[test]
fn chunk_counts() {
    assert_eq!(CHUNK_SIZE, 262144);
    assert_eq!(total_chunks_for(0), 0);
    assert_eq!(total_chunks_for(1), 1);
    assert_eq!(total_chunks_for(262144), 1);
    assert_eq!(total_chunks_for(262145), 2);
    assert_eq!(resume_chunk_for(262143), 0);
    assert_eq!(resume_chunk_for(524288 + 5), 2);
}

#[test]
fn packet_types() {
    assert_eq!(FilePacket::Complete(FileComplete { transfer_id: 1 }).pkt_type(), PKT_FILE_COMPLETE);
    assert_eq!(
        FilePacket::ChunkAck(FileChunkAck { transfer_id: 1, chunk_idx: 0 }).pkt_type(),
        PKT_FILE_CHUNK_ACK
    );
    assert_eq!(
        FilePacket::Cancel(FileCancel { transfer_id: 1, reason: String::new() }).pkt_type(),
        PKT_FILE_CANCEL
    );
    assert_eq!(ClipboardPacket::Text(ClipboardText { content: "x".into() }).pkt_type(), PKT_CLIP_TEXT);
    assert_eq!(
        ClipboardPacket::Image(ClipboardImage { width: 1, height: 1, rgba: vec![0; 4] }).pkt_type(),
        PKT_CLIP_IMAGE
    );
}

#[test]
fn chunk_checksum_is_crc32() {
    let c = make_chunk(7, 3, b"123456789".to_vec());
    assert_eq!(c.crc32, 0xCBF4_3926);
    assert!(chunk_is_intact(&c));
    let mut bad = c.clone();
    bad.data[0] ^= 1;
    assert!(!chunk_is_intact(&bad));
}

#[test]
fn request_announces_chunk_count() {
    match file_request(5, "a/b.txt", 600_000, [7; 32]) {
        FilePacket::Request(q) => {
            assert_eq!(q.transfer_id, 5);
            assert_eq!(q.relative_path, "a/b.txt");
            assert_eq!(q.total_chunks, 3);
            assert_eq!(q.sha256, [7; 32]);
        }
        _ => panic!(),
    }
    assert_eq!(file_request(5, "x", 0, [0; 32]).pkt_type(), PKT_FILE_REQUEST);
}

#[test]
fn responses_and_start_chunk() {
    assert_eq!(start_chunk_from_response(accept_response(1, 0)).unwrap(), 0);
    assert_eq!(start_chunk_from_response(accept_response(1, 4)).unwrap(), 4);
    match start_chunk_from_response(invalid_path_response(1)) {
        Err(SendError::Rejected(why)) => assert_eq!(why, "invalid path"),
        _ => panic!(),
    }
    let bare = FilePacket::Response(FileResponse {
        transfer_id: 1,
        accepted: false,
        reason: None,
        resume_from: None,
    });
    assert!(matches!(start_chunk_from_response(bare), Err(SendError::Rejected(w)) if w.is_empty()));
    assert!(matches!(
        start_chunk_from_response(FilePacket::Complete(FileComplete { transfer_id: 1 })),
        Err(SendError::UnexpectedResponse)
    ));
    match accept_response(3, 0) {
        FilePacket::Response(r) => assert!(r.accepted && r.resume_from.is_none()),
        _ => panic!(),
    }
}

#[test]
fn sender_walks_the_chunks() {
    let mut s = ChunkSender::new(9, 1, 3);
    assert_eq!(s.next_index(), Some(1));
    let p = s.chunk_packet(vec![1, 2]);
    match &p {
        FilePacket::Chunk(c) => assert_eq!((c.transfer_id, c.chunk_idx), (9, 1)),
        _ => panic!(),
    }
    let ack = FilePacket::ChunkAck(FileChunkAck { transfer_id: 9, chunk_idx: 1 });
    assert!(matches!(s.on_ack(&ack), AckOutcome::Acknowledged));
    assert_eq!(s.next_index(), Some(2));
    assert!(matches!(s.on_ack(&ack), AckOutcome::Unexpected));
    assert_eq!(s.next_index(), None);
    assert!(matches!(s.complete_packet(), FilePacket::Complete(FileComplete { transfer_id: 9 })));
}

#[test]
fn sender_stops_on_cancel() {
    let mut s = ChunkSender::new(9, 0, 3);
    let cancel = FilePacket::Cancel(FileCancel { transfer_id: 9, reason: "disk full".into() });
    match s.on_ack(&cancel) {
        AckOutcome::Cancelled(why) => assert_eq!(why, "disk full"),
        _ => panic!(),
    }
    assert_eq!(s.next_index(), Some(0));
}

#[test]
fn receiver_stores_good_chunks_and_cancels_bad_ones() {
    let mut r = ChunkReceiver::new(4, 0, FileDigest::new());
    let good = make_chunk(4, 0, vec![1, 2, 3]);
    match r.on_packet(FilePacket::Chunk(good.clone())) {
        ReceiveStep::Store { data, ack } => {
            assert_eq!(data, vec![1, 2, 3]);
            assert!(matches!(ack, FilePacket::ChunkAck(FileChunkAck { transfer_id: 4, chunk_idx: 0 })));
        }
        _ => panic!(),
    }
    let mut bad = make_chunk(4, 12, vec![1, 2, 3]);
    bad.crc32 ^= 1;
    match r.on_packet(FilePacket::Chunk(bad)) {
        ReceiveStep::Corrupt { cancel: FilePacket::Cancel(c) } => {
            assert_eq!(c.transfer_id, 4);
            assert_eq!(c.reason, "CRC32 mismatch chunk 12");
        }
        _ => panic!(),
    }
    let other = make_chunk(5, 0, vec![1]);
    assert!(matches!(r.on_packet(FilePacket::Chunk(other)), ReceiveStep::Ignored));
    assert!(matches!(
        r.on_packet(FilePacket::Complete(FileComplete { transfer_id: 5 })),
        ReceiveStep::Ignored
    ));
    assert!(matches!(
        r.on_packet(FilePacket::Complete(FileComplete { transfer_id: 4 })),
        ReceiveStep::Complete
    ));
    match r.on_packet(FilePacket::Cancel(FileCancel { transfer_id: 4, reason: "stop".into() })) {
        ReceiveStep::Aborted { reason } => assert_eq!(reason, "stop"),
        _ => panic!(),
    }
}

#[test]
fn digests() {
    assert!(digest_matches(&[3; 32], &[3; 32]));
    let mut other = [3; 32];
    other[31] = 4;
    assert!(!digest_matches(&[3; 32], &other));
}

#[test]
fn transfer_ids() {
    let mut s = TransferIds::for_server();
    assert_eq!(s.next_transfer_id(), 1);
    assert_eq!(s.next_transfer_id(), 2);
    let mut c = TransferIds::for_client();
    assert_eq!(c.next_transfer_id(), 1000);
}

#[test]
fn sent_chunk_is_stored_and_acknowledged() {
    let mut sender = ChunkSender::new(9, 0, 2);
    let mut receiver = ChunkReceiver::new(9, 0, FileDigest::new());
    let pkt = sender.chunk_packet(vec![10, 20, 30]);
    match receiver.on_packet(pkt) {
        ReceiveStep::Store { data, ack } => {
            assert_eq!(data, vec![10, 20, 30]);
            assert!(matches!(sender.on_ack(&ack), AckOutcome::Acknowledged));
        }
        other => panic!("unexpected {other:?}"),
    }
    assert_eq!(sender.next_index(), Some(1));
}

const SHA256_ABC: [u8; 32] = [
    0xba, 0x78, 0x16, 0xbf, 0x8f, 0x01, 0xcf, 0xea, 0x41, 0x41, 0x40, 0xde, 0x5d, 0xae, 0x22, 0x23,
    0xb0, 0x03, 0x61, 0xa3, 0x96, 0x17, 0x7a, 0x9c, 0xb4, 0x10, 0xff, 0x61, 0xf2, 0x00, 0x15, 0xad,
];

#[test]
fn file_digest_is_sha256_of_everything_fed() {
    let mut d = FileDigest::new();
    d.update(b"a");
    d.update(b"bc");
    assert_eq!(d.finish(), SHA256_ABC);
}

#[test]
fn receiver_checks_the_whole_file_digest() {
    let mut kept = FileDigest::new();
    kept.update(b"ab");
    let mut r = ChunkReceiver::new(2, 1, kept);
    let c = make_chunk(2, 1, b"c".to_vec());
    assert!(matches!(r.on_packet(FilePacket::Chunk(c)), ReceiveStep::Store { .. }));
    // A chunk of another transfer is not kept.
    let other = make_chunk(3, 0, b"zzz".to_vec());
    assert!(matches!(r.on_packet(FilePacket::Chunk(other)), ReceiveStep::Ignored));
    assert!(r.finish(&SHA256_ABC));

    let mut bad = ChunkReceiver::new(2, 0, FileDigest::new());
    let c = make_chunk(2, 0, b"abd".to_vec());
    assert!(matches!(bad.on_packet(FilePacket::Chunk(c)), ReceiveStep::Store { .. }));
    assert!(!bad.finish(&SHA256_ABC));
}

#[test]
fn consent_decides_acceptance() {
    match consent_response(5, true, 3) {
        FilePacket::Response(r) => {
            assert!(r.accepted && r.reason.is_none());
            assert_eq!((r.transfer_id, r.resume_from), (5, Some(3)));
        }
        _ => panic!(),
    }
    match consent_response(5, false, 3) {
        FilePacket::Response(r) => {
            assert!(!r.accepted);
            assert_eq!((r.reason.as_deref(), r.resume_from), (Some("declined"), None));
        }
        _ => panic!(),
    }
}
