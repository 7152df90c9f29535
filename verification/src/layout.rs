//! Desktop layout: where each client screen sits around the server's, and
//! where the cursor lands on a client screen when it leaves the server's.
use vstd::prelude::*;
use std::collections::HashMap;

verus! {

/// Which edge of the server screen leads to a client screen.
#[derive(Debug, Clone, Copy, PartialEq, Eq, Structural)]
pub enum ClientEdge {
    Left,
    Right,
    Above,
    Below,
}

/// How a client screen is placed relative to the server screen.
#[derive(Debug, Clone, Copy, PartialEq, Eq)]
pub struct Placement {
    pub edge: ClientEdge,
    /// Client screen width in pixels.
    pub client_width: i32,
    /// Client screen height in pixels.
    pub client_height: i32,
}

/// One physical monitor of the server, in virtual-screen coordinates.
#[derive(Debug, Clone, Copy, PartialEq, Eq)]
pub struct MonitorInfo {
    pub x: i32,
    pub y: i32,
    pub width: i32,
    pub height: i32,
    pub is_primary: bool,
}

/// The full desktop layout, kept on the server.
#[derive(Debug)]
pub struct LayoutConfig {
    pub server_width: i32,
    pub server_height: i32,
    /// All physical monitors of the server.
    pub server_monitors: Vec<MonitorInfo>,
    /// slot → placement
    pub placements: HashMap<u8, Placement>,
}

pub open spec fn min_int(a: int, b: int) -> int {
    if a <= b { a } else { b }
}

pub open spec fn max_int(a: int, b: int) -> int {
    if a >= b { a } else { b }
}

/// Smallest left edge of the monitors.
pub open spec fn min_left(s: Seq<MonitorInfo>) -> int
    decreases s.len(),
{
    if s.len() <= 1 {
        if s.len() == 1 { s[0].x as int } else { 0 }
    } else {
        min_int(min_left(s.drop_last()), s.last().x as int)
    }
}

/// Smallest top edge of the monitors.
pub open spec fn min_top(s: Seq<MonitorInfo>) -> int
    decreases s.len(),
{
    if s.len() <= 1 {
        if s.len() == 1 { s[0].y as int } else { 0 }
    } else {
        min_int(min_top(s.drop_last()), s.last().y as int)
    }
}

/// Largest right edge (`x + width`) of the monitors.
pub open spec fn max_right(s: Seq<MonitorInfo>) -> int
    decreases s.len(),
{
    if s.len() <= 1 {
        if s.len() == 1 { s[0].x + s[0].width } else { 0 }
    } else {
        max_int(max_right(s.drop_last()), s.last().x + s.last().width)
    }
}

/// Largest bottom edge (`y + height`) of the monitors.
pub open spec fn max_bottom(s: Seq<MonitorInfo>) -> int
    decreases s.len(),
{
    if s.len() <= 1 {
        if s.len() == 1 { s[0].y + s[0].height } else { 0 }
    } else {
        max_int(max_bottom(s.drop_last()), s.last().y + s.last().height)
    }
}

/// Every monitor's right and bottom edges fit in 32 bits.
pub open spec fn monitors_in_range(s: Seq<MonitorInfo>) -> bool {
    forall|i: int|
        0 <= i < s.len() ==> i32::MIN <= #[trigger] s[i].x + s[i].width <= i32::MAX && i32::MIN
            <= s[i].y + s[i].height <= i32::MAX
}

/// The bounding box `(min_x, min_y, max_x, max_y)` of the server monitors;
/// `(0, 0, width, height)` of the server screen, as they are, when none is
/// known.
pub open spec fn bounds_of(c: LayoutConfig) -> (int, int, int, int) {
    let s = c.server_monitors@;
    if s.len() == 0 {
        (0, 0, c.server_width as int, c.server_height as int)
    } else {
        (min_left(s), min_top(s), max_right(s), max_bottom(s))
    }
}

/// `v` kept within `lo..=hi`.
pub open spec fn clamp_int(v: int, lo: int, hi: int) -> int {
    if v < lo {
        lo
    } else if v > hi {
        hi
    } else {
        v
    }
}

/// What scales the entry into a client screen placed by `p`, when the cursor
/// leaves the server screen (bounding box `b`) at `(cx, cy)`: the cursor's
/// offset along the shared edge from the box's start, the box's extent along
/// that edge and the client screen's, each extent counted as at least 1.
pub open spec fn entry_axis(p: Placement, b: (int, int, int, int), cx: int, cy: int) -> (int, int, int) {
    let bw = max_int(b.2 - b.0, 1);
    let bh = max_int(b.3 - b.1, 1);
    let cw = max_int(p.client_width as int, 1);
    let ch = max_int(p.client_height as int, 1);
    match p.edge {
        ClientEdge::Right | ClientEdge::Left => (cy - b.1, bh, ch),
        ClientEdge::Below | ClientEdge::Above => (cx - b.0, bw, cw),
    }
}

/// Where the cursor enters a client screen placed by `p`, given `along`, its
/// scaled position along the shared edge as a whole number: on the edge
/// facing the server, with `along` kept on the screen.
pub open spec fn entry_point_at(p: Placement, along: int) -> (int, int) {
    let cw = max_int(p.client_width as int, 1);
    let ch = max_int(p.client_height as int, 1);
    match p.edge {
        ClientEdge::Right => (0, clamp_int(along, 0, ch - 1)),
        ClientEdge::Left => (cw - 1, clamp_int(along, 0, ch - 1)),
        ClientEdge::Below => (clamp_int(along, 0, cw - 1), 0),
        ClientEdge::Above => (clamp_int(along, 0, cw - 1), ch - 1),
    }
}

/// The edge of the client screen that leads back to the server, for a client
/// entered from the server's `edge` side.
pub open spec fn opposite_edge(edge: ClientEdge) -> ClientEdge {
    match edge {
        ClientEdge::Right => ClientEdge::Left,
        ClientEdge::Left => ClientEdge::Right,
        ClientEdge::Below => ClientEdge::Above,
        ClientEdge::Above => ClientEdge::Below,
    }
}

/// No two placed clients share an edge of the server screen.
pub open spec fn edges_distinct(m: Map<u8, Placement>) -> bool {
    forall|a: u8, b: u8|
        m.contains_key(a) && m.contains_key(b) && a != b ==> #[trigger] m[a].edge != #[trigger] m[b].edge
}

/// The placements after the client in `slot` was dropped on `edge`: it keeps
/// its screen size (1920×1080 when it had no placement yet), and every other
/// client on that edge loses its placement.
pub open spec fn placed(m: Map<u8, Placement>, slot: u8, edge: ClientEdge) -> Map<u8, Placement> {
    let (w, h) = if m.contains_key(slot) {
        (m[slot].client_width, m[slot].client_height)
    } else {
        (1920i32, 1080i32)
    };
    Map::new(|k: u8| m.contains_key(k) && k != slot && m[k].edge != edge, |k: u8| m[k]).insert(
        slot,
        Placement { edge, client_width: w, client_height: h },
    )
}

impl LayoutConfig {
    /// The layout with no monitor and no placement.
    pub fn new() -> (r: LayoutConfig)
        ensures
            r.server_width == 0,
            r.server_height == 0,
            r.server_monitors@.len() == 0,
            r.placements@ == Map::<u8, Placement>::empty(),
    {
        LayoutConfig {
            server_width: 0,
            server_height: 0,
            server_monitors: Vec::new(),
            placements: HashMap::new(),
        }
    }

    /// The bounding box `(min_x, min_y, max_x, max_y)` of all server monitors,
    /// or `(0, 0, server_width, server_height)` when no monitor is known.
    pub fn server_bounds(&self) -> (r: (i32, i32, i32, i32))
        requires
            monitors_in_range(self.server_monitors@),
        ensures
            (r.0 as int, r.1 as int, r.2 as int, r.3 as int) == bounds_of(*self),
    {
        let n = self.server_monitors.len();
        if n == 0 {
            return (0, 0, self.server_width, self.server_height);
        }
        let m0 = self.server_monitors[0];
        let mut min_x = m0.x;
        let mut min_y = m0.y;
        let mut max_x = m0.x + m0.width;
        let mut max_y = m0.y + m0.height;
        let mut i: usize = 1;
        proof {
            let s = self.server_monitors@;
            assert(s.subrange(0, 1).len() == 1);
            assert(s.subrange(0, 1)[0] == s[0]);
        }
        while i < n
            invariant
                n == self.server_monitors@.len(),
                1 <= i <= n,
                monitors_in_range(self.server_monitors@),
                min_x == min_left(self.server_monitors@.subrange(0, i as int)),
                min_y == min_top(self.server_monitors@.subrange(0, i as int)),
                max_x == max_right(self.server_monitors@.subrange(0, i as int)),
                max_y == max_bottom(self.server_monitors@.subrange(0, i as int)),
            decreases n - i,
        {
            let m = self.server_monitors[i];
            let ghost s = self.server_monitors@;
            proof {
                assert(s.subrange(0, i + 1).drop_last() =~= s.subrange(0, i as int));
                assert(s.subrange(0, i + 1).last() == m);
                assert(s[i as int] == m);
            }
            if m.x < min_x {
                min_x = m.x;
            }
            if m.y < min_y {
                min_y = m.y;
            }
            let r = m.x + m.width;
            if r > max_x {
                max_x = r;
            }
            let b = m.y + m.height;
            if b > max_y {
                max_y = b;
            }
            i = i + 1;
        }
        proof {
            assert(self.server_monitors@.subrange(0, n as int) =~= self.server_monitors@);
        }
        (min_x, min_y, max_x, max_y)
    }

    /// What scales the entry into the client screen in `slot` when the cursor
    /// leaves the server screen at `(cursor_x, cursor_y)`: the slot's
    /// placement, the cursor's offset along the shared edge from the
    /// bounding box's start, the box's extent along that edge and the client
    /// screen's (each at least 1). `None` when the slot has no placement.
    ///
    /// The entry point is `entry_at` of `offset / span * size` computed in
    /// floating point and cut to a whole number, which is left to the caller.
    pub fn entry_scale(&self, slot: u8, cursor_x: i32, cursor_y: i32) -> (r: Option<(Placement, i64, i64, i64)>)
        requires
            monitors_in_range(self.server_monitors@),
        ensures
            !self.placements@.contains_key(slot) ==> r is None,
            self.placements@.contains_key(slot) ==> (r matches Some(s) && s.0 == self.placements@[slot]
                && (s.1 as int, s.2 as int, s.3 as int) == entry_axis(
                self.placements@[slot],
                bounds_of(*self),
                cursor_x as int,
                cursor_y as int,
            )),
    {
        let p = match self.placements.get(&slot) {
            Some(p) => *p,
            None => return None,
        };
        let (min_x, min_y, max_x, max_y) = self.server_bounds();
        let bw0: i64 = max_x as i64 - min_x as i64;
        let bw: i64 = if bw0 >= 1 { bw0 } else { 1 };
        let bh0: i64 = max_y as i64 - min_y as i64;
        let bh: i64 = if bh0 >= 1 { bh0 } else { 1 };
        let cw: i64 = if p.client_width >= 1 { p.client_width as i64 } else { 1 };
        let ch: i64 = if p.client_height >= 1 { p.client_height as i64 } else { 1 };
        let dx: i64 = cursor_x as i64 - min_x as i64;
        let dy: i64 = cursor_y as i64 - min_y as i64;
        match p.edge {
            ClientEdge::Right | ClientEdge::Left => Some((p, dy, bh, ch)),
            ClientEdge::Below | ClientEdge::Above => Some((p, dx, bw, cw)),
        }
    }

    /// Where the cursor enters a client screen placed by `p`, given its
    /// scaled position `along` the shared edge: on the edge facing the
    /// server, with `along` kept on the screen.
    pub fn entry_at(p: Placement, along: i64) -> (r: (i32, i32))
        ensures
            (r.0 as int, r.1 as int) == entry_point_at(p, along as int),
    {
        let cw: i64 = if p.client_width >= 1 { p.client_width as i64 } else { 1 };
        let ch: i64 = if p.client_height >= 1 { p.client_height as i64 } else { 1 };
        let size = match p.edge {
            ClientEdge::Right | ClientEdge::Left => ch,
            ClientEdge::Below | ClientEdge::Above => cw,
        };
        let kept: i64 = if along < 0 {
            0
        } else if along > size - 1 {
            size - 1
        } else {
            along
        };
        match p.edge {
            ClientEdge::Right => (0i32, kept as i32),
            ClientEdge::Left => ((cw - 1) as i32, kept as i32),
            ClientEdge::Below => (kept as i32, 0i32),
            ClientEdge::Above => (kept as i32, (ch - 1) as i32),
        }
    }

    /// Put the client in `slot` on the server's `edge`, keeping its screen
    /// size; a client already on that edge is unplaced.
    pub fn place_client(&mut self, slot: u8, edge: ClientEdge)
        ensures
            final(self).placements@ == placed(old(self).placements@, slot, edge),
            final(self).server_width == old(self).server_width,
            final(self).server_height == old(self).server_height,
            final(self).server_monitors@ == old(self).server_monitors@,
    {
        let ghost m = self.placements@;
        let (w, h) = match self.placements.get(&slot) {
            Some(p) => (p.client_width, p.client_height),
            None => (1920i32, 1080i32),
        };
        let mut k: u16 = 0;
        while k < 256
            invariant
                k <= 256,
                m == old(self).placements@,
                self.server_width == old(self).server_width,
                self.server_height == old(self).server_height,
                self.server_monitors@ == old(self).server_monitors@,
                self.placements@ == Map::new(
                    |j: u8| m.contains_key(j) && (j >= k || j == slot || m[j].edge != edge),
                    |j: u8| m[j],
                ),
            decreases 256 - k,
        {
            let key = k as u8;
            let drop = if key != slot {
                match self.placements.get(&key) {
                    Some(p) => p.edge == edge,
                    None => false,
                }
            } else {
                false
            };
            if drop {
                self.placements.remove(&key);
            }
            proof {
                assert(key == k);
            }
            k = k + 1;
            proof {
                assert(self.placements@ =~= Map::new(
                    |j: u8| m.contains_key(j) && (j >= k || j == slot || m[j].edge != edge),
                    |j: u8| m[j],
                ));
            }
        }
        self.placements.insert(slot, Placement { edge, client_width: w, client_height: h });
        proof {
            assert(self.placements@ =~= placed(m, slot, edge));
        }
    }

    /// The edge of the client screen that leads back to the server, for a
    /// client entered from the server's `edge` side.
    pub fn return_edge(edge: ClientEdge) -> (r: ClientEdge)
        ensures
            r == opposite_edge(edge),
    {
        match edge {
            ClientEdge::Right => ClientEdge::Left,
            ClientEdge::Left => ClientEdge::Right,
            ClientEdge::Below => ClientEdge::Above,
            ClientEdge::Above => ClientEdge::Below,
        }
    }
}

/// The entry point always lies on the client screen: within its width and
/// height (each counted as at least one pixel), on the edge facing the server,
/// whatever the scaled position along that edge.
pub proof fn lemma_entry_point_on_screen(p: Placement, along: int)
    ensures
        ({
            let e = entry_point_at(p, along);
            let cw = max_int(p.client_width as int, 1);
            let ch = max_int(p.client_height as int, 1);
            &&& 0 <= e.0 < cw
            &&& 0 <= e.1 < ch
            &&& p.edge == ClientEdge::Right ==> e.0 == 0
            &&& p.edge == ClientEdge::Left ==> e.0 == cw - 1
            &&& p.edge == ClientEdge::Below ==> e.1 == 0
            &&& p.edge == ClientEdge::Above ==> e.1 == ch - 1
        }),
{
}

/// Every server monitor lies within the bounding box.
pub proof fn lemma_bounds_contain_monitors(s: Seq<MonitorInfo>)
    ensures
        forall|i: int|
            0 <= i < s.len() ==> min_left(s) <= #[trigger] s[i].x && min_top(s) <= s[i].y && s[i].x
                + s[i].width <= max_right(s) && s[i].y + s[i].height <= max_bottom(s),
    decreases s.len(),
{
    if s.len() > 1 {
        let t = s.drop_last();
        lemma_bounds_contain_monitors(t);
        assert forall|i: int| 0 <= i < s.len() implies min_left(s) <= #[trigger] s[i].x && min_top(s)
            <= s[i].y && s[i].x + s[i].width <= max_right(s) && s[i].y + s[i].height <= max_bottom(
            s,
        ) by {
            if i < s.len() - 1 {
                assert(s[i] == t[i]);
            }
        }
    }
}

/// `s2` is `s` with every monitor moved by `(dx, dy)`, sizes kept.
pub open spec fn shifted_monitors(s: Seq<MonitorInfo>, s2: Seq<MonitorInfo>, dx: int, dy: int) -> bool {
    &&& s2.len() == s.len()
    &&& forall|i: int|
        0 <= i < s.len() ==> (#[trigger] s2[i]).x == s[i].x + dx && s2[i].y == s[i].y + dy && s2[i].width
            == s[i].width && s2[i].height == s[i].height
}

proof fn lemma_bounds_follow_shift(s: Seq<MonitorInfo>, s2: Seq<MonitorInfo>, dx: int, dy: int)
    requires
        shifted_monitors(s, s2, dx, dy),
        s.len() > 0,
    ensures
        min_left(s2) == min_left(s) + dx,
        min_top(s2) == min_top(s) + dy,
        max_right(s2) == max_right(s) + dx,
        max_bottom(s2) == max_bottom(s) + dy,
    decreases s.len(),
{
    if s.len() > 1 {
        let t = s.drop_last();
        let t2 = s2.drop_last();
        assert forall|i: int| 0 <= i < t.len() implies (#[trigger] t2[i]).x == t[i].x + dx && t2[i].y == t[i].y
            + dy && t2[i].width == t[i].width && t2[i].height == t[i].height by {
            assert(t2[i] == s2[i]);
            assert(t[i] == s[i]);
        }
        lemma_bounds_follow_shift(t, t2, dx, dy);
        assert(s2.last() == s2[s.len() - 1]);
    } else {
        assert(s2[0].x == s[0].x + dx);
    }
}

/// Moving every server monitor and the cursor by the same amount leaves the
/// entry into a client screen as it was: the offset along the shared edge is
/// counted from the start of the monitors' bounding box, not from the origin.
pub proof fn lemma_entry_scale_shift_invariant(
    c: LayoutConfig,
    c2: LayoutConfig,
    p: Placement,
    dx: int,
    dy: int,
    cx: int,
    cy: int,
)
    requires
        c.server_monitors@.len() > 0,
        shifted_monitors(c.server_monitors@, c2.server_monitors@, dx, dy),
    ensures
        entry_axis(p, bounds_of(c2), cx + dx, cy + dy) == entry_axis(p, bounds_of(c), cx, cy),
{
    lemma_bounds_follow_shift(c.server_monitors@, c2.server_monitors@, dx, dy);
}

/// The offset along the shared edge is zero with the cursor at the start of
/// the bounding box (its left edge for a client above or below, its top edge
/// for one to the left or right), and follows the cursor pixel for pixel
/// along that edge; moving across the edge does not change the entry. The
/// extent is that of the box, so its last pixel along the edge is the last
/// offset.
pub proof fn lemma_entry_offset_follows_cursor(p: Placement, b: (int, int, int, int), cx: int, cy: int, d: int)
    ensures
        entry_axis(p, b, b.0, b.1).0 == 0,
        (p.edge is Above || p.edge is Below) ==> entry_axis(p, b, cx + d, cy).0 == entry_axis(p, b, cx, cy).0 + d
            && entry_axis(p, b, cx, cy + d) == entry_axis(p, b, cx, cy),
        (p.edge is Left || p.edge is Right) ==> entry_axis(p, b, cx, cy + d).0 == entry_axis(p, b, cx, cy).0 + d
            && entry_axis(p, b, cx + d, cy) == entry_axis(p, b, cx, cy),
        entry_axis(p, b, cx, cy).1 >= 1,
        entry_axis(p, b, cx, cy).2 >= 1,
        (p.edge is Above || p.edge is Below) && b.0 < b.2 ==> entry_axis(p, b, b.2 - 1, cy).0 == entry_axis(
            p,
            b,
            b.2 - 1,
            cy,
        ).1 - 1,
        (p.edge is Left || p.edge is Right) && b.1 < b.3 ==> entry_axis(p, b, cx, b.3 - 1).0 == entry_axis(
            p,
            b,
            cx,
            b.3 - 1,
        ).1 - 1,
{
}

/// With the cursor on any server monitor, the offset along the shared edge
/// lies within the bounding box's extent along it: from 0 up to, not
/// including, the extent.
pub proof fn lemma_entry_offset_within_span(c: LayoutConfig, p: Placement, i: int, cx: int, cy: int)
    requires
        0 <= i < c.server_monitors@.len(),
        c.server_monitors@[i].x <= cx < c.server_monitors@[i].x + c.server_monitors@[i].width,
        c.server_monitors@[i].y <= cy < c.server_monitors@[i].y + c.server_monitors@[i].height,
    ensures
        0 <= entry_axis(p, bounds_of(c), cx, cy).0 < entry_axis(p, bounds_of(c), cx, cy).1,
{
    lemma_bounds_contain_monitors(c.server_monitors@);
    assert(min_left(c.server_monitors@) <= c.server_monitors@[i].x);
}

/// Going back through the return edge of the return edge leads out the way
/// one came in, and no edge is its own return edge.
pub proof fn lemma_return_edge_involution(edge: ClientEdge)
    ensures
        opposite_edge(opposite_edge(edge)) == edge,
        opposite_edge(edge) != edge,
{
}

/// Dropping a client on an edge leaves it there, and keeps the layout to at
/// most one client per edge of the server screen.
pub proof fn lemma_place_keeps_edges_distinct(m: Map<u8, Placement>, slot: u8, edge: ClientEdge)
    requires
        edges_distinct(m),
    ensures
        placed(m, slot, edge).contains_key(slot),
        placed(m, slot, edge)[slot].edge == edge,
        edges_distinct(placed(m, slot, edge)),
{
    let r = placed(m, slot, edge);
    assert forall|a: u8, b: u8| r.contains_key(a) && r.contains_key(b) && a != b implies #[trigger] r[a].edge
        != #[trigger] r[b].edge by {
        if a != slot && b != slot {
            assert(m.contains_key(a) && m.contains_key(b));
            assert(m[a].edge != m[b].edge);
        }
    }
}

} // verus!
