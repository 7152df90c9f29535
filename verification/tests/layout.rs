use netshare::layout::{ClientEdge, LayoutConfig, MonitorInfo, Placement};

fn entry(c: &LayoutConfig, slot: u8, x: i32, y: i32) -> Option<(i32, i32)> {
    let (p, offset, span, size) = c.entry_scale(slot, x, y)?;
    Some(LayoutConfig::entry_at(p, (offset as f64 / span as f64 * size as f64) as i64))
}


fn mon(x: i32, y: i32, w: i32, h: i32, p: bool) -> MonitorInfo {
    MonitorInfo { x, y, width: w, height: h, is_primary: p }
}

#[test]
fn bounds_without_monitors_use_screen_size() {
    let mut c = LayoutConfig::new();
    assert_eq!(c.server_bounds(), (0, 0, 0, 0));
    c.server_width = 1920;
    c.server_height = 1080;
    assert_eq!(c.server_bounds(), (0, 0, 1920, 1080));
}

#[test]
fn bounds_cover_all_monitors() {
    let mut c = LayoutConfig::new();
    c.server_monitors = vec![mon(0, 0, 1920, 1080, true), mon(-1280, 200, 1280, 1024, false)];
    assert_eq!(c.server_bounds(), (-1280, 0, 1920, 1224));
}

#[test]
fn entry_on_the_right_scales_height() {
    let mut c = LayoutConfig::new();
    c.server_width = 1920;
    c.server_height = 1080;
    c.placements.insert(1, Placement { edge: ClientEdge::Right, client_width: 1280, client_height: 720 });
    assert_eq!(entry(&c, 1, 1919, 540), Some((0, 360)));
    assert_eq!(entry(&c, 1, 1919, 1079), Some((0, 719)));
    assert_eq!(entry(&c, 1, 1919, -50), Some((0, 0)));
    assert_eq!(entry(&c, 1, 1919, 5000), Some((0, 719)));
    assert_eq!(entry(&c, 2, 0, 0), None);
}

#[test]
fn entry_on_each_edge() {
    let mut c = LayoutConfig::new();
    c.server_width = 1000;
    c.server_height = 500;
    c.placements.insert(1, Placement { edge: ClientEdge::Left, client_width: 800, client_height: 600 });
    c.placements.insert(2, Placement { edge: ClientEdge::Below, client_width: 800, client_height: 600 });
    c.placements.insert(3, Placement { edge: ClientEdge::Above, client_width: 800, client_height: 600 });
    assert_eq!(entry(&c, 1, 0, 250), Some((799, 300)));
    assert_eq!(entry(&c, 2, 500, 499), Some((400, 0)));
    assert_eq!(entry(&c, 3, 250, 0), Some((200, 599)));
}

#[test]
fn degenerate_client_size_counts_as_one_pixel() {
    let mut c = LayoutConfig::new();
    c.server_width = 100;
    c.server_height = 100;
    c.placements.insert(1, Placement { edge: ClientEdge::Left, client_width: 0, client_height: -5 });
    assert_eq!(entry(&c, 1, 0, 99), Some((0, 0)));
}

#[test]
fn return_edges() {
    for e in [ClientEdge::Left, ClientEdge::Right, ClientEdge::Above, ClientEdge::Below] {
        let r = LayoutConfig::return_edge(e);
        assert_ne!(r, e);
        assert_eq!(LayoutConfig::return_edge(r), e);
    }
    assert_eq!(LayoutConfig::return_edge(ClientEdge::Right), ClientEdge::Left);
    assert_eq!(LayoutConfig::return_edge(ClientEdge::Below), ClientEdge::Above);
}

#[test]
fn entry_scaling_rounds_as_floating_point_does() {
    let mut c = LayoutConfig::new();
    c.server_width = 100;
    c.server_height = 49;
    c.placements.insert(1, Placement { edge: ClientEdge::Right, client_width: 100, client_height: 49 });
    assert_eq!(c.entry_scale(1, 99, 1).map(|s| (s.1, s.2, s.3)), Some((1, 49, 49)));
    assert_eq!(entry(&c, 1, 99, 1), Some((0, 0)));
    let p = Placement { edge: ClientEdge::Left, client_width: 10, client_height: 5 };
    assert_eq!(LayoutConfig::entry_at(p, 1), (9, 1));
    assert_eq!(LayoutConfig::entry_at(p, -7), (9, 0));
    assert_eq!(LayoutConfig::entry_at(p, 99), (9, 4));
}
