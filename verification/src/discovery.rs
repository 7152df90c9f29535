//! Peer discovery bookkeeping: the names of announced instances and the
//! table of peers seen on the network.
use vstd::prelude::*;
use crate::text::chars_of;

verus! {

/// Service type under which instances announce themselves.
pub const SERVICE_TYPE: &'static str = "_localshare._tcp.local.";

/// A peer found on the network.
#[derive(Debug, Clone)]
pub struct Peer {
    /// Machine name, e.g. `DESKTOP-ABC`.
    pub name: String,
    /// IPv4 address.
    pub addr: [u8; 4],
    /// TCP control port.
    pub port: u16,
    /// Operating system announced by the peer.
    pub os: String,
    /// Application version announced by the peer.
    pub version: String,
}

/// A change of the peer table.
#[derive(Debug, Clone)]
pub enum PeerEvent {
    Added(Peer),
    Removed(String),
}

/// Whether `s` ends with `suf`.
pub open spec fn ends_with(s: Seq<char>, suf: Seq<char>) -> bool {
    suf.len() <= s.len() && s.subrange(s.len() - suf.len(), s.len() as int) == suf
}

/// `s` with every trailing repetition of `suf` removed.
pub open spec fn strip_all(s: Seq<char>, suf: Seq<char>) -> Seq<char>
    decreases s.len(),
{
    if suf.len() > 0 && ends_with(s, suf) {
        strip_all(s.subrange(0, s.len() - suf.len()), suf)
    } else {
        s
    }
}

/// The peer name in a full service name: the `.<service type>` suffix (every
/// repetition of it) and then every trailing `.` removed.
pub open spec fn peer_name_of(fullname: Seq<char>, service: Seq<char>) -> Seq<char> {
    strip_all(strip_all(fullname, seq!['.'] + service), seq!['.'])
}

fn ends_with_at(s: &str, end: usize, suf: &Vec<char>) -> (r: bool)
    requires
        end <= s@.len(),
    ensures
        r == ends_with(s@.subrange(0, end as int), suf@),
{
    let m = suf.len();
    if m > end {
        return false;
    }
    let base = end - m;
    let mut k: usize = 0;
    while k < m
        invariant
            0 <= k <= m,
            m == suf@.len(),
            base + m == end,
            end <= s@.len(),
            forall|j: int| 0 <= j < k ==> s@[base + j] == suf@[j],
        decreases m - k,
    {
        if s.get_char(base + k) != suf[k] {
            proof {
                let t = s@.subrange(0, end as int);
                assert(t.subrange(t.len() - m, t.len() as int)[k as int] == s@[base + k]);
            }
            return false;
        }
        k = k + 1;
    }
    proof {
        let t = s@.subrange(0, end as int);
        assert(t.subrange(t.len() - m, t.len() as int) =~= suf@);
    }
    true
}

/// The peer name in a full service name of the given service type.
pub fn peer_name(fullname: &str, service_type: &str) -> (r: String)
    ensures
        r@ == peer_name_of(fullname@, service_type@),
{
    let mut suf: Vec<char> = chars_of(service_type);
    suf.insert(0, '.');
    assert(suf@ =~= seq!['.'] + service_type@);
    let n = fullname.unicode_len();
    let mut end: usize = n;
    proof {
        assert(fullname@.subrange(0, n as int) =~= fullname@);
    }
    while ends_with_at(fullname, end, &suf)
        invariant
            end <= n,
            n == fullname@.len(),
            suf@.len() > 0,
            suf@ == seq!['.'] + service_type@,
            strip_all(fullname@, suf@) == strip_all(fullname@.subrange(0, end as int), suf@),
        decreases end,
    {
        let m = suf.len();
        proof {
            assert(fullname@.subrange(0, end as int).subrange(0, end - m) =~= fullname@.subrange(
                0,
                end - m,
            ));
        }
        end = end - m;
    }
    let dot: Vec<char> = vec!['.'];
    let ghost mid = fullname@.subrange(0, end as int);
    proof {
        assert(mid.subrange(0, end as int) =~= mid);
    }
    let mut stop: usize = end;
    while ends_with_at(fullname, stop, &dot)
        invariant
            stop <= end,
            end <= n,
            n == fullname@.len(),
            dot@ == seq!['.'],
            mid == fullname@.subrange(0, end as int),
            strip_all(mid, dot@) == strip_all(fullname@.subrange(0, stop as int), dot@),
        decreases stop,
    {
        proof {
            assert(fullname@.subrange(0, stop as int).subrange(0, stop - 1) =~= fullname@.subrange(
                0,
                stop - 1,
            ));
        }
        stop = stop - 1;
    }
    fullname.substring_char(0, stop).to_owned()
}

/// The text of each name.
pub open spec fn name_views(s: Seq<String>) -> Seq<Seq<char>> {
    s.map_values(|x: String| x@)
}

/// Going through the first `n` peers of `peers` with the names in `dialed`
/// already dialled: the names dialled afterwards, and the indices of the
/// peers to dial now (those whose name was not dialled yet, each name once).
pub open spec fn dial_plan(dialed: Seq<Seq<char>>, peers: Seq<Peer>, n: int) -> (Seq<Seq<char>>, Seq<usize>)
    decreases n,
{
    if n <= 0 {
        (dialed, Seq::empty())
    } else {
        let (d, r) = dial_plan(dialed, peers, n - 1);
        if d.contains(peers[n - 1].name@) {
            (d, r)
        } else {
            (d.push(peers[n - 1].name@), r.push((n - 1) as usize))
        }
    }
}

/// The peers this machine has already dialled, by name.
#[derive(Debug)]
pub struct DialTracker {
    dialed: Vec<String>,
}

impl DialTracker {
    /// The names dialled so far, in order.
    pub closed spec fn names(&self) -> Seq<Seq<char>> {
        name_views(self.dialed@)
    }

    pub fn new() -> (r: DialTracker)
        ensures
            r.names() == Seq::<Seq<char>>::empty(),
    {
        let r = DialTracker { dialed: Vec::new() };
        assert(name_views(r.dialed@) =~= Seq::<Seq<char>>::empty());
        r
    }

    fn has(&self, name: &String) -> (r: bool)
        ensures
            r == self.names().contains(name@),
    {
        let mut i: usize = 0;
        while i < self.dialed.len()
            invariant
                0 <= i <= self.dialed@.len(),
                forall|k: int| 0 <= k < i ==> #[trigger] self.dialed@[k]@ != name@,
            decreases self.dialed@.len() - i,
        {
            if self.dialed[i] == *name {
                proof {
                    assert(self.names()[i as int] == name@);
                }
                return true;
            }
            i = i + 1;
        }
        proof {
            if self.names().contains(name@) {
                let k = choose|k: int| 0 <= k < self.names().len() && self.names()[k] == name@;
                assert(self.dialed@[k]@ == name@);
            }
        }
        false
    }

    /// The indices of the peers in `peers` to dial now: each whose name was
    /// never dialled, in order, every name once. They count as dialled from
    /// now on.
    pub fn take_new(&mut self, peers: &[Peer]) -> (r: Vec<usize>)
        ensures
            (final(self).names(), r@) == dial_plan(old(self).names(), peers@, peers@.len() as int),
    {
        let ghost start = self.names();
        let mut out: Vec<usize> = Vec::new();
        let mut i: usize = 0;
        while i < peers.len()
            invariant
                0 <= i <= peers@.len(),
                start == old(self).names(),
                (self.names(), out@) == dial_plan(start, peers@, i as int),
            decreases peers@.len() - i,
        {
            let name = peers[i].name.clone();
            if !self.has(&name) {
                let ghost before = self.dialed@;
                self.dialed.push(name);
                proof {
                    assert(name_views(self.dialed@) =~= name_views(before).push(peers@[i as int].name@));
                }
                out.push(i);
            }
            i = i + 1;
        }
        out
    }
}

/// Whether a table holds a peer of that name.
pub open spec fn peer_index(ps: Seq<Peer>, name: Seq<char>) -> int
    decreases ps.len(),
{
    if ps.len() == 0 {
        -1
    } else if ps.last().name@ == name {
        ps.len() - 1
    } else {
        peer_index(ps.drop_last(), name)
    }
}

proof fn lemma_peer_index(ps: Seq<Peer>, name: Seq<char>)
    ensures
        -1 <= peer_index(ps, name) < ps.len(),
        peer_index(ps, name) >= 0 ==> ps[peer_index(ps, name)].name@ == name,
        peer_index(ps, name) == -1 ==> forall|k: int| 0 <= k < ps.len() ==> ps[k].name@ != name,
    decreases ps.len(),
{
    if ps.len() > 0 && ps.last().name@ != name {
        lemma_peer_index(ps.drop_last(), name);
        if peer_index(ps, name) == -1 {
            assert forall|k: int| 0 <= k < ps.len() implies ps[k].name@ != name by {
                if k < ps.len() - 1 {
                    assert(ps[k] == ps.drop_last()[k]);
                }
            }
        }
    }
}

/// No two peers share a name.
pub open spec fn peer_names_unique(ps: Seq<Peer>) -> bool {
    forall|i: int, j: int| 0 <= i < j < ps.len() ==> #[trigger] ps[i].name@ != #[trigger] ps[j].name@
}

/// The peers seen on the network, at most one per name.
#[derive(Debug)]
pub struct PeerTable {
    peers: Vec<Peer>,
}

impl PeerTable {
    pub closed spec fn list(&self) -> Seq<Peer> {
        self.peers@
    }

    pub fn new() -> (r: PeerTable)
        ensures
            r.list().len() == 0,
    {
        PeerTable { peers: Vec::new() }
    }

    fn find(&self, name: &String) -> (r: Option<usize>)
        ensures
            match r {
                Some(i) => i < self.list().len() && self.list()[i as int].name@ == name@,
                None => peer_index(self.list(), name@) == -1,
            },
    {
        proof {
            lemma_peer_index(self.peers@, name@);
        }
        let mut i: usize = 0;
        while i < self.peers.len()
            invariant
                0 <= i <= self.peers@.len(),
                forall|k: int| 0 <= k < i ==> self.peers@[k].name@ != name@,
            decreases self.peers@.len() - i,
        {
            if self.peers[i].name == *name {
                return Some(i);
            }
            i = i + 1;
        }
        None
    }

    /// Records a peer, replacing the one of the same name if any.
    pub fn insert(&mut self, peer: Peer)
        ensures
            peer_names_unique(old(self).list()) ==> peer_names_unique(final(self).list()),
            (exists|i: int| 0 <= i < old(self).list().len() && old(self).list()[i].name@ == peer.name@)
                ==> exists|i: int|
                0 <= i < old(self).list().len() && old(self).list()[i].name@ == peer.name@ && final(self).list() == old(self).list().update(i, peer),
            (forall|i: int| 0 <= i < old(self).list().len() ==> old(self).list()[i].name@ != peer.name@)
                ==> final(self).list() == old(self).list().push(peer),
    {
        match self.find(&peer.name) {
            Some(i) => {
                self.peers.set(i, peer);
            },
            None => {
                proof {
                    lemma_peer_index(self.peers@, peer.name@);
                }
                self.peers.push(peer);
            },
        }
    }

    /// Forgets the peer of that name, if any.
    pub fn remove(&mut self, name: &str)
        ensures
            peer_names_unique(old(self).list()) ==> peer_names_unique(final(self).list()),
            (forall|i: int| 0 <= i < old(self).list().len() ==> old(self).list()[i].name@ != name@)
                ==> final(self).list() == old(self).list(),
            (exists|i: int| 0 <= i < old(self).list().len() && old(self).list()[i].name@ == name@)
                ==> exists|i: int|
                0 <= i < old(self).list().len() && old(self).list()[i].name@ == name@ && final(self).list() == old(self).list().remove(i),
    {
        let key = name.to_owned();
        match self.find(&key) {
            Some(i) => {
                let _gone = self.peers.remove(i);
            },
            None => {
                proof {
                    lemma_peer_index(self.peers@, name@);
                }
            },
        }
    }

    /// A peer was resolved on the network: it is recorded unless it is this
    /// machine (named `my_name`). Returns whether it was recorded.
    pub fn on_resolved(&mut self, peer: Peer, my_name: &str) -> (r: bool)
        ensures
            r == (peer.name@ != my_name@),
            !r ==> final(self).list() == old(self).list(),
            r && (exists|i: int| 0 <= i < old(self).list().len() && old(self).list()[i].name@ == peer.name@)
                ==> exists|i: int|
                0 <= i < old(self).list().len() && old(self).list()[i].name@ == peer.name@ && final(self).list() == old(self).list().update(i, peer),
            r && (forall|i: int| 0 <= i < old(self).list().len() ==> old(self).list()[i].name@ != peer.name@)
                ==> final(self).list() == old(self).list().push(peer),
            peer_names_unique(old(self).list()) ==> peer_names_unique(final(self).list()),
    {
        let me = my_name.to_owned();
        if peer.name == me {
            return false;
        }
        self.insert(peer);
        true
    }

    /// The peers, in the order first seen.
    pub fn peers(&self) -> (r: &Vec<Peer>)
        ensures
            r@ == self.list(),
    {
        &self.peers
    }
}

} // verus!
