use netshare::tls::{cert_pairing_code, SERVER_NAME};
use netshare::gui::{
    log_error, log_info, ping_level, ping_text, port_from_bind_addr, AppLogs, DisplayInfo,
    FoundServer, FoundServers, PingLevel, Settings, StatusColor, MAX_LOG_ENTRIES,
};
use netshare::discovery::{peer_name, Peer, PeerTable, SERVICE_TYPE};
use netshare::ipc::{registry_status, switch_command, STATUS_COMMAND};
use netshare::active_client::{ActiveClientState, IpAddress, PeerAddr};
use netshare::playout::PlayoutBuffer;
use netshare::audio::AudioConfig;

#[test]
fn pairing_code_is_first_three_digest_bytes() {
    assert_eq!(cert_pairing_code(b""), "E3B0C4");
    assert_eq!(cert_pairing_code(b"abc"), "BA7816");
    assert_eq!(SERVER_NAME, "netshare.local");
}

#[test]
fn display_and_ping_labels() {
    let d = DisplayInfo { width: 1920, height: 1080, hz: 60 };
    assert_eq!(d.formatted(), "1920 × 1080");
    assert_eq!(ping_text(0), "--- ms");
    assert_eq!(ping_text(42), "42 ms");
    assert_eq!(ping_level(0), PingLevel::Unknown);
    assert_eq!(ping_level(19), PingLevel::Good);
    assert_eq!(ping_level(20), PingLevel::Fair);
    assert_eq!(ping_level(60), PingLevel::Poor);
}

#[test]
fn bind_address_ports() {
    assert_eq!(port_from_bind_addr("0.0.0.0:9000"), 9000);
    assert_eq!(port_from_bind_addr("127.0.0.1:8080"), 8080);
    assert_eq!(port_from_bind_addr("[::1]:+65535"), 65535);
    assert_eq!(port_from_bind_addr("host:65536"), 9000);
    assert_eq!(port_from_bind_addr("host:"), 9000);
    assert_eq!(port_from_bind_addr("host:12a"), 9000);
    assert_eq!(port_from_bind_addr("4321"), 4321);
    assert_eq!(port_from_bind_addr("a:1:2"), 2);
}

#[test]
fn settings_and_colours() {
    let s = Settings::default();
    assert!(!s.share_audio && s.share_input && s.dark_mode);
    assert_eq!(s.audio_device, 0);
    assert_eq!(StatusColor::Green.rgb(true), (74, 179, 120));
    assert_eq!(StatusColor::Muted.rgb(false), (170, 178, 200));
    let a = AudioConfig::default();
    assert_eq!((a.sample_rate, a.channels, a.bitrate_kbps, a.frame_ms), (48_000, 2, 128, 10));
}

#[test]
fn logs_keep_the_last_thousand() {
    let mut l = AppLogs::new();
    for i in 0..(MAX_LOG_ENTRIES + 5) {
        l.add_entry("12:00:00".into(), "INFO", &format!("m{i}"));
    }
    assert_eq!(l.entries.len(), MAX_LOG_ENTRIES);
    assert_eq!(l.entries[0].message, "m5");
    log_error(&mut l, "boom");
    let last = l.entries.last().unwrap();
    assert_eq!((last.level.as_str(), last.message.as_str()), ("ERROR", "boom"));
    assert_eq!(last.time.len(), 8);
    log_info(&mut l, "ok");
    assert_eq!(l.entries.last().unwrap().level, "INFO");
    assert_eq!(l.entries.len(), MAX_LOG_ENTRIES);
}

fn found(name: &str) -> FoundServer {
    FoundServer { name: name.into(), addr: "10.0.0.1".into(), port: 9000 }
}

#[test]
fn found_servers_dedupe_and_remove() {
    let mut f = FoundServers::new();
    f.on_resolved(found("a"));
    f.on_resolved(found("b"));
    f.on_resolved(found("a"));
    assert_eq!(f.servers().len(), 2);
    f.on_removed("a");
    let names: Vec<&str> = f.servers().iter().map(|s| s.name.as_str()).collect();
    assert_eq!(names, vec!["b"]);
}

#[test]
fn peer_names_lose_the_service_suffix() {
    assert_eq!(SERVICE_TYPE, "_localshare._tcp.local.");
    assert_eq!(peer_name("DESKTOP-ABC._localshare._tcp.local.", SERVICE_TYPE), "DESKTOP-ABC");
    assert_eq!(peer_name("pc..", SERVICE_TYPE), "pc");
    assert_eq!(peer_name("plain", SERVICE_TYPE), "plain");
}

fn peer(name: &str, last: u8) -> Peer {
    Peer { name: name.into(), addr: [10, 0, 0, last], port: 9000, os: "linux".into(), version: "1".into() }
}

#[test]
fn peer_table_keeps_one_per_name() {
    let mut t = PeerTable::new();
    t.insert(peer("a", 1));
    t.insert(peer("b", 2));
    t.insert(peer("a", 3));
    assert_eq!(t.peers().len(), 2);
    assert_eq!(t.peers()[0].addr, [10, 0, 0, 3]);
    t.remove("a");
    t.remove("zz");
    assert_eq!(t.peers().len(), 1);
    assert_eq!(t.peers()[0].name, "b");
}

#[test]
fn ipc_lines() {
    assert_eq!(switch_command(3), "{\"cmd\":\"switch\",\"slot\":3}\n");
    assert_eq!(STATUS_COMMAND, "{\"cmd\":\"status\"}\n");
    let mut s = ActiveClientState::new();
    s.register("a".into(), PeerAddr { ip: IpAddress::V4([1, 2, 3, 4]), port: 1 });
    let r = registry_status(&s, true);
    assert_eq!(r.active_slot, 1);
    assert!(r.share_input);
    assert_eq!(r.clients.len(), 1);
    assert!(r.clients[0].active);
}

#[test]
fn playout_prebuffers_and_caps() {
    let mut b: PlayoutBuffer<u32> = PlayoutBuffer::new(2);
    b.push(1);
    assert_eq!(b.pop(), None);
    b.push(2);
    assert_eq!(b.pop(), Some(1));
    assert_eq!(b.pop(), None);
    for i in 3..20 {
        b.push(i);
    }
    assert_eq!(b.buffered_frames(), 8);
    assert_eq!(b.pop(), Some(12));
    b.reset();
    assert_eq!(b.buffered_frames(), 0);
}

#[test]
fn playout_with_zero_target_keeps_one() {
    let mut b: PlayoutBuffer<u8> = PlayoutBuffer::new(0);
    assert_eq!(b.pop(), None);
    b.push(1);
    b.push(2);
    assert_eq!(b.buffered_frames(), 1);
    assert_eq!(b.pop(), Some(2));
}
