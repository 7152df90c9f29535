//! Screen-edge switching: which edge of the server screen leads to which
//! client, and the dwell logic that switches input once the cursor has rested
//! at such an edge long enough.
use vstd::prelude::*;

verus! {

/// How long the cursor must rest at an edge before input switches (GUI).
pub const DWELL_MS: u64 = 120;

/// How long the cursor must rest at the right edge before the daemon switches.
pub const DAEMON_DWELL_MS: u64 = 150;

/// Pixels from the border that still count as "at the edge".
pub const EDGE_PX: i32 = 2;

/// A side of the server screen.
#[derive(Debug, Clone, Copy, PartialEq, Eq, Structural)]
pub enum Side {
    Left,
    Right,
    Top,
    Bottom,
}

/// Input switches to `slot` when the cursor dwells at `side`.
#[derive(Debug, Clone, Copy, PartialEq, Eq)]
pub struct EdgeTrigger {
    pub side: Side,
    pub slot: u8,
}

/// A monitor of the arrangement canvas: the side of the primary monitor it
/// lies on, and its client slot when it is connected.
#[derive(Debug, Clone, Copy, PartialEq, Eq)]
pub struct EdgePeer {
    pub slot: Option<u8>,
    pub side: Side,
}

/// The triggers without the one for `side`.
pub open spec fn without_side(ts: Seq<EdgeTrigger>, side: Side) -> Seq<EdgeTrigger>
    decreases ts.len(),
{
    if ts.len() == 0 {
        ts
    } else {
        let r = without_side(ts.drop_last(), side);
        if ts.last().side == side {
            r
        } else {
            r.push(ts.last())
        }
    }
}

/// The triggers of a canvas whose first monitor is the primary: each
/// connected peer after it, in order, replacing any earlier trigger on the
/// same side.
pub open spec fn triggers_of(mons: Seq<EdgePeer>) -> Seq<EdgeTrigger>
    decreases mons.len(),
{
    if mons.len() <= 1 {
        Seq::<EdgeTrigger>::empty()
    } else {
        let r = triggers_of(mons.drop_last());
        match mons.last().slot {
            None => r,
            Some(slot) => without_side(r, mons.last().side).push(
                EdgeTrigger { side: mons.last().side, slot },
            ),
        }
    }
}

/// No two triggers share a side.
pub open spec fn sides_distinct(ts: Seq<EdgeTrigger>) -> bool {
    forall|i: int, j: int| 0 <= i < j < ts.len() ==> ts[i].side != ts[j].side
}

proof fn lemma_without_side(ts: Seq<EdgeTrigger>, side: Side)
    ensures
        forall|i: int| 0 <= i < without_side(ts, side).len() ==> #[trigger] without_side(ts, side)[i].side != side,
        forall|i: int|
            0 <= i < without_side(ts, side).len() ==> ts.contains(#[trigger] without_side(ts, side)[i]),
        sides_distinct(ts) ==> sides_distinct(without_side(ts, side)),
    decreases ts.len(),
{
    if ts.len() > 0 {
        let t = ts.drop_last();
        lemma_without_side(t, side);
        let r = without_side(t, side);
        assert forall|i: int| 0 <= i < without_side(ts, side).len() implies ts.contains(
            #[trigger] without_side(ts, side)[i],
        ) by {
            if i < r.len() {
                assert(without_side(ts, side)[i] == r[i]);
                assert(t.contains(r[i]));
                let k = choose|k: int| 0 <= k < t.len() && t[k] == r[i];
                assert(ts[k] == t[k]);
            } else {
                assert(ts[ts.len() - 1] == ts.last());
            }
        }
        if sides_distinct(ts) {
            assert(sides_distinct(t));
            if ts.last().side != side {
                assert forall|i: int, j: int|
                    0 <= i < j < without_side(ts, side).len() implies without_side(ts, side)[i].side
                    != without_side(ts, side)[j].side by {
                    if j == r.len() {
                        assert(t.contains(r[i]));
                        let k = choose|k: int| 0 <= k < t.len() && t[k] == r[i];
                        assert(ts[k] == t[k]);
                        assert(ts[ts.len() - 1] == ts.last());
                    } else {
                        assert(without_side(ts, side)[i] == r[i]);
                        assert(without_side(ts, side)[j] == r[j]);
                    }
                }
            }
        }
    }
}

/// Whatever the canvas, no two triggers share a side.
pub proof fn lemma_trigger_sides_distinct(mons: Seq<EdgePeer>)
    ensures
        sides_distinct(triggers_of(mons)),
    decreases mons.len(),
{
    if mons.len() > 1 {
        lemma_trigger_sides_distinct(mons.drop_last());
        let r = triggers_of(mons.drop_last());
        if let Some(slot) = mons.last().slot {
            let side = mons.last().side;
            lemma_without_side(r, side);
            let w = without_side(r, side);
            assert forall|i: int, j: int| 0 <= i < j < w.push(EdgeTrigger { side, slot }).len() implies w.push(
                EdgeTrigger { side, slot },
            )[i].side != w.push(EdgeTrigger { side, slot })[j].side by {
                if j < w.len() {
                } else {
                    assert(w[i].side != side);
                }
            }
        }
    }
}

proof fn lemma_without_side_keeps(ts: Seq<EdgeTrigger>, side: Side, t: EdgeTrigger)
    requires
        ts.contains(t),
        t.side != side,
    ensures
        without_side(ts, side).contains(t),
    decreases ts.len(),
{
    let u = ts.drop_last();
    let r = without_side(u, side);
    if ts.last() == t {
        assert(without_side(ts, side) == r.push(t));
        assert(r.push(t)[r.len() as int] == t);
    } else {
        let k = choose|k: int| 0 <= k < ts.len() && ts[k] == t;
        assert(k < ts.len() - 1);
        assert(u[k] == t);
        lemma_without_side_keeps(u, side, t);
        let m = choose|m: int| 0 <= m < r.len() && r[m] == t;
        if ts.last().side != side {
            assert(r.push(ts.last())[m] == t);
        }
    }
}

/// The peer at `i` of the canvas leads its side to `slot`: it comes after
/// the primary, is connected as `slot`, and no later peer on the same side is
/// connected.
pub open spec fn peer_leads(mons: Seq<EdgePeer>, i: int, side: Side, slot: u8) -> bool {
    &&& 1 <= i < mons.len()
    &&& mons[i].slot == Some(slot)
    &&& mons[i].side == side
    &&& forall|j: int| i < j < mons.len() && (#[trigger] mons[j]).side == side ==> mons[j].slot is None
}

/// Dwelling at `side` switches to `slot` exactly when some connected peer
/// after the primary lies on that side as `slot` and no later connected peer
/// takes the side over: every connected peer counts, the first one after the
/// primary included, and the last one on a side wins.
pub proof fn lemma_triggers_exact(mons: Seq<EdgePeer>, side: Side, slot: u8)
    ensures
        triggers_of(mons).contains(EdgeTrigger { side, slot }) <==> exists|i: int| #[trigger]
            peer_leads(mons, i, side, slot),
    decreases mons.len(),
{
    let tr = EdgeTrigger { side, slot };
    if mons.len() <= 1 {
        assert(triggers_of(mons) =~= Seq::<EdgeTrigger>::empty());
        assert forall|i: int| !#[trigger] peer_leads(mons, i, side, slot) by {}
    } else {
        let n = mons.len() as int;
        let t = mons.drop_last();
        let last = mons[n - 1];
        assert(mons.last() == last);
        lemma_triggers_exact(t, side, slot);
        let r = triggers_of(t);
        match last.slot {
            None => {
                assert(triggers_of(mons) == r);
                if r.contains(tr) {
                    let i = choose|i: int| #[trigger] peer_leads(t, i, side, slot);
                    assert forall|j: int| i < j < mons.len() && (#[trigger] mons[j]).side == side implies mons[j].slot is None by {
                        if j < n - 1 {
                            assert(t[j] == mons[j]);
                        }
                    }
                    assert(mons[i] == t[i]);
                    assert(peer_leads(mons, i, side, slot));
                }
                if exists|i: int| #[trigger] peer_leads(mons, i, side, slot) {
                    let i = choose|i: int| #[trigger] peer_leads(mons, i, side, slot);
                    assert(i != n - 1);
                    assert forall|j: int| i < j < t.len() && (#[trigger] t[j]).side == side implies t[j].slot is None by {
                        assert(t[j] == mons[j]);
                    }
                    assert(t[i] == mons[i]);
                    assert(peer_leads(t, i, side, slot));
                }
            },
            Some(s0) => {
                let d0 = last.side;
                let nt = EdgeTrigger { side: d0, slot: s0 };
                let w = without_side(r, d0);
                assert(triggers_of(mons) == w.push(nt));
                lemma_without_side(r, d0);
                assert(w.push(nt)[w.len() as int] == nt);
                if side == d0 {
                    if w.push(nt).contains(tr) {
                        let k = choose|k: int| 0 <= k < w.push(nt).len() && w.push(nt)[k] == tr;
                        if k < w.len() {
                            assert(w[k] == w.push(nt)[k]);
                            assert(w[k].side != d0);
                        }
                        assert(slot == s0);
                        assert(mons[n - 1].slot == Some(slot));
                        assert(peer_leads(mons, n - 1, side, slot));
                    }
                    if exists|i: int| #[trigger] peer_leads(mons, i, side, slot) {
                        let i = choose|i: int| #[trigger] peer_leads(mons, i, side, slot);
                        if i < n - 1 {
                            assert(mons[n - 1].side == side);
                        }
                        assert(slot == s0);
                    }
                } else {
                    if w.push(nt).contains(tr) {
                        let k = choose|k: int| 0 <= k < w.push(nt).len() && w.push(nt)[k] == tr;
                        assert(k < w.len());
                        assert(w[k] == tr);
                        assert(r.contains(tr));
                        let i = choose|i: int| #[trigger] peer_leads(t, i, side, slot);
                        assert forall|j: int| i < j < mons.len() && (#[trigger] mons[j]).side == side implies mons[j].slot is None by {
                            if j < n - 1 {
                                assert(t[j] == mons[j]);
                            }
                        }
                        assert(mons[i] == t[i]);
                        assert(peer_leads(mons, i, side, slot));
                    }
                    if exists|i: int| #[trigger] peer_leads(mons, i, side, slot) {
                        let i = choose|i: int| #[trigger] peer_leads(mons, i, side, slot);
                        assert(i != n - 1);
                        assert forall|j: int| i < j < t.len() && (#[trigger] t[j]).side == side implies t[j].slot is None by {
                            assert(t[j] == mons[j]);
                        }
                        assert(t[i] == mons[i]);
                        assert(peer_leads(t, i, side, slot));
                        lemma_without_side_keeps(r, d0, tr);
                        let m = choose|m: int| 0 <= m < w.len() && w[m] == tr;
                        assert(w.push(nt)[m] == tr);
                    }
                }
            },
        }
    }
}

/// A canvas of the primary and one connected peer switches at that peer's
/// side to its slot, and nowhere else.
pub proof fn lemma_single_peer_trigger(primary: EdgePeer, side: Side, slot: u8)
    ensures
        triggers_of(seq![primary, EdgePeer { slot: Some(slot), side }]) == seq![EdgeTrigger { side, slot }],
{
    let m = seq![primary, EdgePeer { slot: Some(slot), side }];
    assert(m.drop_last() =~= seq![primary]);
    assert(triggers_of(m.drop_last()) =~= Seq::<EdgeTrigger>::empty());
    assert(without_side(Seq::<EdgeTrigger>::empty(), side) =~= Seq::<EdgeTrigger>::empty());
    assert(Seq::<EdgeTrigger>::empty().push(EdgeTrigger { side, slot }) =~= seq![EdgeTrigger { side, slot }]);
}

fn drop_side(ts: Vec<EdgeTrigger>, side: Side) -> (r: Vec<EdgeTrigger>)
    ensures
        r@ == without_side(ts@, side),
{
    let mut out: Vec<EdgeTrigger> = Vec::new();
    let mut i: usize = 0;
    while i < ts.len()
        invariant
            0 <= i <= ts@.len(),
            out@ == without_side(ts@.subrange(0, i as int), side),
        decreases ts@.len() - i,
    {
        proof {
            assert(ts@.subrange(0, i + 1).drop_last() =~= ts@.subrange(0, i as int));
        }
        let t = ts[i];
        if t.side != side {
            out.push(t);
        }
        i = i + 1;
    }
    proof {
        assert(ts@.subrange(0, ts@.len() as int) =~= ts@);
    }
    out
}

/// The edge triggers of a canvas layout (primary monitor first): for each
/// connected peer, the side of the primary it lies on leads to its slot; a
/// later peer on the same side replaces an earlier one.
pub fn layout_from_monitors(monitors: &[EdgePeer]) -> (r: Vec<EdgeTrigger>)
    ensures
        r@ == triggers_of(monitors@),
{
    let mut out: Vec<EdgeTrigger> = Vec::new();
    if monitors.len() < 2 {
        return out;
    }
    let mut i: usize = 1;
    proof {
        assert(triggers_of(monitors@.subrange(0, 1)) == Seq::<EdgeTrigger>::empty());
    }
    while i < monitors.len()
        invariant
            1 <= i <= monitors@.len(),
            out@ == triggers_of(monitors@.subrange(0, i as int)),
        decreases monitors@.len() - i,
    {
        let m = monitors[i];
        proof {
            assert(monitors@.subrange(0, i + 1).drop_last() =~= monitors@.subrange(0, i as int));
            assert(monitors@.subrange(0, i + 1).last() == m);
        }
        match m.slot {
            None => {},
            Some(slot) => {
                out = drop_side(out, m.side);
                out.push(EdgeTrigger { side: m.side, slot });
            },
        }
        i = i + 1;
    }
    proof {
        assert(monitors@.subrange(0, monitors@.len() as int) =~= monitors@);
    }
    out
}

/// The edge of the virtual screen `(vx, vy, vw, vh)` that the cursor at
/// `(px, py)` touches, checked left, right, top, bottom in that order.
pub open spec fn edge_at(px: int, py: int, vx: int, vy: int, vw: int, vh: int) -> Option<Side> {
    if px <= vx + EDGE_PX {
        Some(Side::Left)
    } else if px >= vx + vw - 1 - EDGE_PX {
        Some(Side::Right)
    } else if py <= vy + EDGE_PX {
        Some(Side::Top)
    } else if py >= vy + vh - 1 - EDGE_PX {
        Some(Side::Bottom)
    } else {
        None
    }
}

/// The edge of the virtual screen the cursor is at, if any.
pub fn cursor_edge(px: i32, py: i32, vx: i32, vy: i32, vw: i32, vh: i32) -> (r: Option<Side>)
    ensures
        r == edge_at(px as int, py as int, vx as int, vy as int, vw as int, vh as int),
{
    let e = EDGE_PX as i64;
    if (px as i64) <= vx as i64 + e {
        Some(Side::Left)
    } else if (px as i64) >= vx as i64 + vw as i64 - 1 - e {
        Some(Side::Right)
    } else if (py as i64) <= vy as i64 + e {
        Some(Side::Top)
    } else if (py as i64) >= vy as i64 + vh as i64 - 1 - e {
        Some(Side::Bottom)
    } else {
        None
    }
}

/// The first trigger on `side`, if any.
pub open spec fn trigger_on(ts: Seq<EdgeTrigger>, side: Side) -> Option<EdgeTrigger>
    decreases ts.len(),
{
    if ts.len() == 0 {
        None
    } else if ts[0].side == side {
        Some(ts[0])
    } else {
        trigger_on(ts.drop_first(), side)
    }
}

fn find_trigger(ts: &[EdgeTrigger], side: Side) -> (r: Option<EdgeTrigger>)
    ensures
        r == trigger_on(ts@, side),
{
    let mut i: usize = 0;
    proof {
        assert(ts@.subrange(0, ts@.len() as int) =~= ts@);
    }
    while i < ts.len()
        invariant
            0 <= i <= ts@.len(),
            trigger_on(ts@, side) == trigger_on(ts@.subrange(i as int, ts@.len() as int), side),
        decreases ts@.len() - i,
    {
        proof {
            let rest = ts@.subrange(i as int, ts@.len() as int);
            assert(rest.drop_first() =~= ts@.subrange(i + 1, ts@.len() as int));
            assert(rest[0] == ts@[i as int]);
        }
        if ts[i].side == side {
            return Some(ts[i]);
        }
        i = i + 1;
    }
    None
}

/// The dwell timer of GUI edge switching: the side the cursor rests at and
/// since when (milliseconds of a monotonic clock).
#[derive(Debug, Clone, Copy, PartialEq, Eq)]
pub struct EdgeSwitcher {
    pub dwell: Option<(Side, u64)>,
}

/// One poll of edge switching: the new dwell timer and the slot to switch
/// to, if any.
pub open spec fn edge_tick(
    dwell: Option<(Side, u64)>,
    triggers: Seq<EdgeTrigger>,
    cur: Option<Side>,
    now: u64,
) -> (Option<(Side, u64)>, Option<u8>) {
    if triggers.len() == 0 {
        (None, None)
    } else {
        match cur {
            None => (None, None),
            Some(side) => match trigger_on(triggers, side) {
                None => (None, None),
                Some(t) => match dwell {
                    Some((held_side, since)) => if held_side != side {
                        (Some((side, now)), None)
                    } else if now >= since && now - since >= DWELL_MS {
                        (None, Some(t.slot))
                    } else {
                        (Some((held_side, since)), None)
                    },
                    None => (Some((side, now)), None),
                },
            },
        }
    }
}

impl EdgeSwitcher {
    /// Not dwelling anywhere.
    pub fn new() -> (r: EdgeSwitcher)
        ensures
            r.dwell is None,
    {
        EdgeSwitcher { dwell: None }
    }

    /// Takes one poll: the current triggers, the edge the cursor is at (if
    /// any) and the time. Returns the slot to switch to once the cursor has
    /// rested on a side with a trigger for at least `DWELL_MS`; leaving the
    /// edge or moving to another side restarts the timer.
    pub fn tick(&mut self, triggers: &[EdgeTrigger], cur: Option<Side>, now_ms: u64) -> (r: Option<u8>)
        ensures
            (final(self).dwell, r) == edge_tick(old(self).dwell, triggers@, cur, now_ms),
    {
        if triggers.len() == 0 {
            self.dwell = None;
            return None;
        }
        let side = match cur {
            None => {
                self.dwell = None;
                return None;
            },
            Some(s) => s,
        };
        let trig = match find_trigger(triggers, side) {
            None => {
                self.dwell = None;
                return None;
            },
            Some(t) => t,
        };
        match self.dwell {
            None => {
                self.dwell = Some((side, now_ms));
                None
            },
            Some((held_side, since)) => {
                if held_side != side {
                    self.dwell = Some((side, now_ms));
                    None
                } else if now_ms >= since && now_ms - since >= DWELL_MS {
                    self.dwell = None;
                    Some(trig.slot)
                } else {
                    None
                }
            },
        }
    }
}

/// Whether the cursor at `px` touches the right edge of a virtual screen
/// starting at `sx` and `sw` pixels wide.
pub fn at_right_edge(px: i32, sx: i32, sw: i32) -> (r: bool)
    ensures
        r == (px >= sx + sw - EDGE_PX),
{
    (px as i64) >= sx as i64 + sw as i64 - EDGE_PX as i64
}

/// The daemon's dwell timer: since when the cursor rests at the right edge.
#[derive(Debug, Clone, Copy, PartialEq, Eq)]
pub struct RightEdgeDwell {
    pub since: Option<u64>,
}

impl RightEdgeDwell {
    pub fn new() -> (r: RightEdgeDwell)
        ensures
            r.since is None,
    {
        RightEdgeDwell { since: None }
    }

    /// Takes one poll. Once the cursor has rested at the right edge for
    /// `DAEMON_DWELL_MS`, the timer restarts and the first connected
    /// client's slot (if any) is returned; leaving the edge resets the timer.
    pub fn tick(&mut self, at_edge: bool, now_ms: u64, first_slot: Option<u8>) -> (r: Option<u8>)
        ensures
            !at_edge ==> final(self).since is None && r is None,
            at_edge ==> {
                let since = match old(self).since {
                    Some(s) => s,
                    None => now_ms,
                };
                if now_ms >= since && now_ms - since >= DAEMON_DWELL_MS {
                    final(self).since is None && r == first_slot
                } else {
                    final(self).since == Some(since) && r is None
                }
            },
    {
        if !at_edge {
            self.since = None;
            return None;
        }
        let since = match self.since {
            Some(s) => s,
            None => now_ms,
        };
        if now_ms >= since && now_ms - since >= DAEMON_DWELL_MS {
            self.since = None;
            first_slot
        } else {
            self.since = Some(since);
            None
        }
    }
}

} // verus!
