use std::hash::{Hash, Hasher};
use netshare::active_client::ClientSnapshot;
use netshare::audio_devices::{cable_output, first_device_named, loopback_source, LoopbackSource, Platform};
use netshare::autostart::{registry_command, service_path, systemd_unit};
use netshare::firewall::{add_rule_args, client_firewall_rules, delete_rule_args};
use netshare::clipboard::{fingerprint, local_clipboard_packet, ClipboardWatch};
use netshare::file_transfer::{ClipboardImage, ClipboardPacket, ClipboardText, CLIP_IMAGE_MAX_BYTES};
use netshare::discovery::{DialTracker, Peer, PeerTable};
use netshare::gui::{
    auto_connect_due, auto_connect_target, device_change, output_device_view, repaint_interval_ms, return_hint, host_flags, hosts_unchanged, monitor_plan, monitor_rows, FoundServer,
};
use netshare::client::at_return_edge;
use netshare::layout::{ClientEdge, LayoutConfig, Placement};
use netshare::text::contains_str;

fn entry(c: &LayoutConfig, slot: u8, x: i32, y: i32) -> Option<(i32, i32)> {
    let (p, offset, span, size) = c.entry_scale(slot, x, y)?;
    Some(LayoutConfig::entry_at(p, (offset as f64 / span as f64 * size as f64) as i64))
}


fn server(name: &str) -> FoundServer {
    FoundServer { name: name.to_string(), addr: "10.0.0.2".to_string(), port: 9000 }
}

fn snap(slot: u8, name: &str, active: bool) -> ClientSnapshot {
    ClientSnapshot { slot, name: name.to_string(), is_active: active }
}

fn peer(name: &str) -> Peer {
    Peer { name: name.to_string(), addr: [10, 0, 0, 9], port: 9000, os: "linux".into(), version: "1".into() }
}

#[test]
fn substring_search() {
    assert!(contains_str("office-pc._netshare._tcp.local.", "office-pc"));
    assert!(contains_str("abc", ""));
    assert!(contains_str("abc", "abc"));
    assert!(!contains_str("abc", "abcd"));
    assert!(!contains_str("abc", "ac"));
    assert!(contains_str("çaféx", "éx"));
}

#[test]
fn auto_connect_waits_five_seconds() {
    assert!(auto_connect_due(true, false, 106, 100));
    assert!(!auto_connect_due(true, false, 105, 100));
    assert!(!auto_connect_due(false, false, 200, 100));
    assert!(!auto_connect_due(true, true, 200, 100));
}

#[test]
fn auto_connect_skips_self_and_own_clients() {
    let servers = vec![server("laptop._netshare"), server("Office-PC._netshare"), server("desk._netshare")];
    let ours = vec!["office-pc".to_string()];
    // "laptop" is this machine; "Office-PC" is already our client, whatever the case.
    assert_eq!(auto_connect_target(&servers, "laptop", &ours), Some(2));
    assert_eq!(auto_connect_target(&servers, "nobody", &[]), Some(0));
    assert_eq!(auto_connect_target(&servers[..2], "laptop", &ours), None);
    // A client name that contains the server's name also counts.
    let ours2 = vec!["DESK._NETSHARE.extra".to_string()];
    assert_eq!(auto_connect_target(&servers[2..], "laptop", &ours2), None);
}

#[test]
fn dropping_a_client_unplaces_the_one_on_that_edge() {
    let mut c = LayoutConfig::new();
    c.placements.insert(1, Placement { edge: ClientEdge::Right, client_width: 1280, client_height: 720 });
    c.placements.insert(2, Placement { edge: ClientEdge::Left, client_width: 800, client_height: 600 });
    c.place_client(2, ClientEdge::Right);
    assert_eq!(c.placements.len(), 1);
    assert_eq!(
        c.placements.get(&2),
        Some(&Placement { edge: ClientEdge::Right, client_width: 800, client_height: 600 })
    );
    c.place_client(7, ClientEdge::Below);
    assert_eq!(
        c.placements.get(&7),
        Some(&Placement { edge: ClientEdge::Below, client_width: 1920, client_height: 1080 })
    );
    assert_eq!(c.placements.len(), 2);
    c.place_client(7, ClientEdge::Below);
    assert_eq!(c.placements.len(), 2);
}

#[test]
fn monitor_rows_list_clients_then_unconnected_peers() {
    let s = vec![snap(1, "alpha", false), snap(2, "beta", true)];
    let p = vec![peer("beta"), peer("gamma"), peer("alpha"), peer("delta")];
    let rows = monitor_rows(&s, &p);
    assert_eq!(rows.len(), 4);
    assert_eq!((rows[0].slot, rows[0].host.as_str(), rows[0].connected, rows[0].active), (Some(1), "alpha", true, false));
    assert_eq!((rows[1].slot, rows[1].host.as_str(), rows[1].active), (Some(2), "beta", true));
    assert_eq!((rows[2].slot, rows[2].host.as_str(), rows[2].connected, rows[2].peer), (None, "gamma", false, Some(1)));
    assert_eq!((rows[3].host.as_str(), rows[3].peer), ("delta", Some(3)));
    let shown = vec!["alpha".to_string(), "beta".to_string(), "gamma".to_string(), "delta".to_string()];
    assert!(hosts_unchanged(&shown, &rows));
    assert!(!hosts_unchanged(&shown[..3], &rows));
    let other = vec!["alpha".to_string(), "beta".to_string(), "delta".to_string(), "gamma".to_string()];
    assert!(!hosts_unchanged(&other, &rows));
    assert_eq!(host_flags(&s, &"beta".to_string()), (true, true));
    assert_eq!(host_flags(&s, &"alpha".to_string()), (true, false));
    assert_eq!(host_flags(&s, &"gamma".to_string()), (false, false));
    assert!(monitor_rows(&[], &[]).is_empty());
}

#[test]
fn peer_table_skips_this_machine() {
    let mut t = PeerTable::new();
    assert!(!t.on_resolved(peer("me"), "me"));
    assert!(t.peers().is_empty());
    assert!(t.on_resolved(peer("other"), "me"));
    assert!(t.on_resolved(peer("other"), "me"));
    assert_eq!(t.peers().len(), 1);
}

#[test]
fn dial_tracker_dials_each_name_once() {
    let mut t = DialTracker::new();
    let first = vec![peer("a"), peer("b"), peer("a")];
    assert_eq!(t.take_new(&first), vec![0, 1]);
    let second = vec![peer("b"), peer("c")];
    assert_eq!(t.take_new(&second), vec![1]);
    assert!(t.take_new(&second).is_empty());
}

fn image(len: usize, fill: u8) -> ClipboardImage {
    ClipboardImage { width: 1, height: len / 4, rgba: vec![fill; len] }
}

#[test]
fn clipboard_prefers_text_and_caps_images() {
    match local_clipboard_packet(Some("hi".to_string()), Some(image(8, 1))) {
        Some(ClipboardPacket::Text(t)) => assert_eq!(t.content, "hi"),
        other => panic!("unexpected {other:?}"),
    }
    match local_clipboard_packet(None, Some(image(8, 1))) {
        Some(ClipboardPacket::Image(i)) => assert_eq!(i.rgba.len(), 8),
        other => panic!("unexpected {other:?}"),
    }
    assert!(local_clipboard_packet(None, Some(image(CLIP_IMAGE_MAX_BYTES + 4, 0))).is_none());
    assert!(local_clipboard_packet(None, None).is_none());
}

#[test]
fn clipboard_sends_only_changes() {
    let mut w = ClipboardWatch::new();
    let text = |s: &str| ClipboardPacket::Text(ClipboardText { content: s.to_string() });
    assert!(w.changed(&text("a")));
    assert!(!w.changed(&text("a")));
    assert!(w.changed(&text("b")));
    let img = ClipboardPacket::Image(image(8, 7));
    assert!(w.changed(&img));
    assert!(!w.changed(&img));
    assert!(!w.changed(&text("b")));
    assert!(w.changed(&ClipboardPacket::Image(image(8, 9))));
}

#[test]
fn firewall_rule_arguments() {
    let rules = client_firewall_rules();
    assert_eq!(rules.len(), 2);
    assert_eq!((rules[0].name.as_str(), rules[0].protocol.as_str(), rules[0].ports.as_str()), ("NetShare-Client-UDP", "UDP", "9002"));
    assert_eq!(
        delete_rule_args(&rules[1].name),
        vec!["advfirewall", "firewall", "delete", "rule", "name=NetShare-Client-TCP"]
    );
    assert_eq!(
        add_rule_args(&rules[1]),
        vec![
            "advfirewall", "firewall", "add", "rule", "name=NetShare-Client-TCP", "dir=in",
            "action=allow", "protocol=TCP", "localport=9003,9004"
        ]
    );
}

#[test]
fn autostart_texts() {
    assert_eq!(
        systemd_unit("/usr/bin/localshare"),
        "[Unit]\nDescription=LocalShare Daemon\nAfter=network.target\n\n[Service]\nType=simple\nExecStart=/usr/bin/localshare\nRestart=on-failure\nRestartSec=3\n\n[Install]\nWantedBy=default.target\n"
    );
    assert_eq!(service_path("/home/u"), "/home/u/.config/systemd/user/localshare.service");
    assert_eq!(registry_command("C:\\ls.exe"), "\"C:\\ls.exe\"");
}

fn names(v: &[Option<&str>]) -> Vec<Option<String>> {
    v.iter().map(|n| n.map(|s| s.to_string())).collect()
}

#[test]
fn audio_device_choice() {
    let inputs = names(&[Some("Microphone"), None, Some("CABLE Output (VB-Audio)"), Some("Monitor of Speakers")]);
    assert_eq!(first_device_named(&inputs, "cable"), Some(2));
    assert_eq!(loopback_source(&inputs, Platform::Linux), LoopbackSource::Input(2));
    let no_cable = names(&[Some("Microphone"), Some("Monitor of Speakers")]);
    assert_eq!(loopback_source(&no_cable, Platform::Linux), LoopbackSource::Input(1));
    assert_eq!(loopback_source(&no_cable, Platform::Windows), LoopbackSource::DefaultOutput);
    assert_eq!(loopback_source(&no_cable, Platform::Other), LoopbackSource::Unavailable);
    assert_eq!(loopback_source(&names(&[Some("Microphone")]), Platform::Linux), LoopbackSource::Unavailable);
    assert_eq!(cable_output(&names(&[Some("Speakers"), Some("CABLE Input")])), Some(1));
    assert_eq!(cable_output(&names(&[None])), None);
}

#[test]
fn entering_a_client_lands_on_its_return_edge() {
    use_layout_entry(ClientEdge::Right, 1280, 720);
    use_layout_entry(ClientEdge::Left, 1280, 720);
    use_layout_entry(ClientEdge::Above, 1920, 1080);
    use_layout_entry(ClientEdge::Below, 800, 600);
}

fn use_layout_entry(edge: ClientEdge, w: i32, h: i32) {
    let mut c = LayoutConfig::new();
    c.server_width = 1920;
    c.server_height = 1080;
    c.placements.insert(3, Placement { edge, client_width: w, client_height: h });
    let (x, y) = entry(&c, 3, 1000, 500).unwrap();
    assert!(at_return_edge(LayoutConfig::return_edge(edge), x, y, w, h));
}

#[test]
fn monitor_plan_marks_the_server_active_on_slot_zero() {
    let s = vec![snap(1, "alpha", true)];
    let p = monitor_plan(&s, &[peer("beta")], 0);
    assert!(p.primary_active);
    assert_eq!(p.rows.len(), 2);
    assert!(!monitor_plan(&s, &[], 1).primary_active);
}

#[test]
fn image_fingerprint_is_std_hash_of_the_pixels() {
    for rgba in [vec![], vec![1u8, 2, 3, 4], vec![9u8; 100]] {
        let mut h = std::collections::hash_map::DefaultHasher::new();
        rgba.hash(&mut h);
        assert_eq!(fingerprint(&rgba), h.finish());
    }
}

#[test]
fn small_view_decisions() {
    assert_eq!(repaint_interval_ms(true, true), 16);
    assert_eq!(repaint_interval_ms(false, true), 200);
    assert_eq!(repaint_interval_ms(false, false), 1000);
    assert_eq!(return_hint(Some(ClientEdge::Left)), "← Move cursor left to return to primary");
    assert_eq!(return_hint(Some(ClientEdge::Below)), "Move cursor down to return to primary ↓");
    assert_eq!(return_hint(None), "Waiting for cursor handoff from primary...");
}

#[test]
fn output_device_choice() {
    let v = output_device_view(vec![], "Speakers".into(), String::new());
    assert_eq!((v.devices.clone(), v.selected.as_str(), v.index), (vec!["Speakers".to_string()], "Speakers", 0));
    let v = output_device_view(vec!["A".into(), "B".into()], "A".into(), "B".into());
    assert_eq!((v.selected.as_str(), v.index), ("B", 1));
    assert_eq!(device_change(&v, 1), None);
    assert_eq!(device_change(&v, 0).as_deref(), Some("A"));
    let v = output_device_view(vec!["A".into()], String::new(), "Z".into());
    assert_eq!((v.selected.as_str(), v.index), ("Z", 0));
    let v = output_device_view(vec![], String::new(), String::new());
    assert!(v.devices.is_empty() && v.index == 0);
}
