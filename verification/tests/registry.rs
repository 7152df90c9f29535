use netshare::active_client::{ActiveClientState, IpAddress, PeerAddr, CLIENT_AUDIO_PORT};

fn peer(last: u8) -> PeerAddr {
    PeerAddr { ip: IpAddress::V4([192, 168, 1, last]), port: 50000 }
}

fn slots(s: &ActiveClientState) -> Vec<(u8, String, bool)> {
    s.snapshot().into_iter().map(|c| (c.slot, c.name, c.is_active)).collect()
}

#[test]
fn first_client_becomes_active() {
    let mut s = ActiveClientState::new();
    assert_eq!(s.active_slot(), 0);
    assert_eq!(s.register("a".into(), peer(2)), 1);
    assert_eq!(s.active_slot(), 1);
    assert_eq!(s.register("b".into(), peer(3)), 2);
    assert_eq!(s.active_slot(), 1);
    assert_eq!(slots(&s), vec![(1, "a".into(), true), (2, "b".into(), false)]);
}

#[test]
fn slots_wrap_after_nine() {
    let mut s = ActiveClientState::default();
    let got: Vec<u8> = (0..10).map(|i| s.register(format!("c{i}"), peer(i))).collect();
    assert_eq!(got, vec![1, 2, 3, 4, 5, 6, 7, 8, 9, 1]);
}

#[test]
fn switch_to_connected_and_unknown_slot() {
    let mut s = ActiveClientState::new();
    s.register("a".into(), peer(2));
    s.register("b".into(), peer(3));
    let c = s.switch_to(2).unwrap();
    assert_eq!(c.active_slot, 2);
    assert_eq!(c.active_name, "b");
    assert_eq!(s.active_slot(), 2);
    assert!(s.switch_to(7).is_none());
    assert_eq!(s.active_slot(), 2);
    assert!(s.switch_to(0).is_none());
}

#[test]
fn cycle_wraps_around() {
    let mut s = ActiveClientState::new();
    assert!(s.cycle().is_none());
    s.register("a".into(), peer(2));
    s.register("b".into(), peer(3));
    s.register("c".into(), peer(4));
    assert_eq!(s.cycle().unwrap().active_slot, 2);
    assert_eq!(s.cycle().unwrap().active_slot, 3);
    let c = s.cycle().unwrap();
    assert_eq!((c.active_slot, c.active_name.as_str()), (1, "a"));
}

#[test]
fn deregister_active_falls_back_to_first() {
    let mut s = ActiveClientState::new();
    s.register("a".into(), peer(2));
    s.register("b".into(), peer(3));
    s.switch_to(2);
    s.deregister(2);
    assert_eq!(s.active_slot(), 1);
    s.deregister(1);
    assert_eq!(s.active_slot(), 0);
    assert!(s.snapshot().is_empty());
}

#[test]
fn deregister_removes_every_holder_of_the_slot() {
    let mut s = ActiveClientState::new();
    for i in 0..10 {
        s.register(format!("c{i}"), peer(i));
    }
    s.deregister(1);
    let left = slots(&s);
    assert_eq!(left.len(), 8);
    assert!(left.iter().all(|(slot, _, _)| *slot != 1));
    assert_eq!(s.active_slot(), 2);
    assert!(s.switch_to(1).is_none());
}

#[test]
fn deregister_inactive_keeps_active() {
    let mut s = ActiveClientState::new();
    s.register("a".into(), peer(2));
    s.register("b".into(), peer(3));
    s.deregister(2);
    assert_eq!(s.active_slot(), 1);
}

#[test]
fn deregister_by_name() {
    let mut s = ActiveClientState::new();
    s.register("a".into(), peer(2));
    s.register("b".into(), peer(3));
    s.deregister_by_name("zzz");
    assert_eq!(slots(&s).len(), 2);
    s.deregister_by_name("a");
    assert_eq!(slots(&s), vec![(2, "b".into(), true)]);
}

#[test]
fn audio_goes_to_active_client_port() {
    let mut s = ActiveClientState::new();
    assert!(s.active_client_audio_addr().is_none());
    s.register("a".into(), peer(2));
    s.register("b".into(), peer(3));
    s.switch_to(2);
    assert_eq!(
        s.active_client_audio_addr(),
        Some(PeerAddr { ip: IpAddress::V4([192, 168, 1, 3]), port: CLIENT_AUDIO_PORT })
    );
    assert_eq!(CLIENT_AUDIO_PORT, 9002);
}
