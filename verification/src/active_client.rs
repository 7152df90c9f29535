//! The server's registry of connected clients and of which one receives input.
use vstd::prelude::*;
use crate::protocol::ActiveClientChange;

verus! {

/// Port on which a client listens for the server's microphone audio.
pub const CLIENT_AUDIO_PORT: u16 = 9002;

/// An IP address as plain bytes.
#[derive(Debug, Clone, Copy, PartialEq, Eq)]
pub enum IpAddress {
    V4([u8; 4]),
    V6([u8; 16]),
}

/// An IP address with a port.
#[derive(Debug, Clone, Copy, PartialEq, Eq)]
pub struct PeerAddr {
    pub ip: IpAddress,
    pub port: u16,
}

/// One connected client.
#[derive(Debug)]
pub struct ClientInfo {
    pub slot: u8,
    pub name: String,
    /// TCP peer address; its IP is also the one used for UDP audio.
    pub peer: PeerAddr,
}

/// Public view of a connected client.
#[derive(Debug)]
pub struct ClientSnapshot {
    pub slot: u8,
    pub name: String,
    pub is_active: bool,
}

/// Index of the first client at or after `i` that holds `slot`, or -1.
pub open spec fn first_slot_from(s: Seq<ClientInfo>, slot: u8, i: int) -> int
    decreases s.len() - i,
{
    if i < 0 || i >= s.len() {
        -1
    } else if s[i].slot == slot {
        i
    } else {
        first_slot_from(s, slot, i + 1)
    }
}

/// Index of the first client that holds `slot`, or -1 when none does.
pub open spec fn first_slot(s: Seq<ClientInfo>, slot: u8) -> int {
    first_slot_from(s, slot, 0)
}

/// Index of the first client at or after `i` named `name`, or -1.
pub open spec fn first_name_from(s: Seq<ClientInfo>, name: Seq<char>, i: int) -> int
    decreases s.len() - i,
{
    if i < 0 || i >= s.len() {
        -1
    } else if s[i].name@ == name {
        i
    } else {
        first_name_from(s, name, i + 1)
    }
}

/// Index of the first client named `name`, or -1 when none is.
pub open spec fn first_name(s: Seq<ClientInfo>, name: Seq<char>) -> int {
    first_name_from(s, name, 0)
}

/// The clients whose slot is not `slot`, in their order.
pub open spec fn without_slot(s: Seq<ClientInfo>, slot: u8) -> Seq<ClientInfo>
    decreases s.len(),
{
    if s.len() == 0 {
        s
    } else {
        let rest = without_slot(s.drop_last(), slot);
        if s.last().slot == slot {
            rest
        } else {
            rest.push(s.last())
        }
    }
}

/// The slot that becomes active when the active client leaves: the first
/// remaining client's, or 0 (the server itself) when none remains.
pub open spec fn fallback_slot(s: Seq<ClientInfo>) -> u8 {
    if s.len() > 0 {
        s[0].slot
    } else {
        0
    }
}

proof fn lemma_first_slot_from_range(s: Seq<ClientInfo>, slot: u8, i: int)
    requires
        0 <= i,
    ensures
        first_slot_from(s, slot, i) == -1 || (i <= first_slot_from(s, slot, i) < s.len()
            && s[first_slot_from(s, slot, i)].slot == slot),
        first_slot_from(s, slot, i) == -1 ==> forall|j: int| i <= j < s.len() ==> s[j].slot != slot,
        forall|j: int| i <= j < first_slot_from(s, slot, i) ==> s[j].slot != slot,
    decreases s.len() - i,
{
    if i < s.len() && s[i].slot != slot {
        lemma_first_slot_from_range(s, slot, i + 1);
    }
}

proof fn lemma_first_name_from_range(s: Seq<ClientInfo>, name: Seq<char>, i: int)
    requires
        0 <= i,
    ensures
        first_name_from(s, name, i) == -1 || (i <= first_name_from(s, name, i) < s.len()
            && s[first_name_from(s, name, i)].name@ == name),
        first_name_from(s, name, i) == -1 ==> forall|j: int| i <= j < s.len() ==> s[j].name@ != name,
    decreases s.len() - i,
{
    if i < s.len() && s[i].name@ != name {
        lemma_first_name_from_range(s, name, i + 1);
    }
}

/// A client holding `slot` is found exactly when one exists.
pub proof fn lemma_first_slot(s: Seq<ClientInfo>, slot: u8)
    ensures
        first_slot(s, slot) == -1 <==> (forall|j: int| 0 <= j < s.len() ==> s[j].slot != slot),
        first_slot(s, slot) != -1 ==> 0 <= first_slot(s, slot) < s.len() && s[first_slot(
            s,
            slot,
        )].slot == slot,
{
    lemma_first_slot_from_range(s, slot, 0);
}

proof fn lemma_without_slot(s: Seq<ClientInfo>, slot: u8)
    ensures
        forall|j: int| 0 <= j < without_slot(s, slot).len() ==> without_slot(s, slot)[j].slot != slot,
        forall|j: int|
            0 <= j < s.len() && s[j].slot != slot ==> without_slot(s, slot).contains(s[j]),
        forall|j: int|
            0 <= j < without_slot(s, slot).len() ==> s.contains(#[trigger] without_slot(s, slot)[j]),
        without_slot(s, slot).len() <= s.len(),
    decreases s.len(),
{
    if s.len() > 0 {
        let t = s.drop_last();
        lemma_without_slot(t, slot);
        let rest = without_slot(t, slot);
        assert forall|j: int| 0 <= j < s.len() && s[j].slot != slot implies without_slot(
            s,
            slot,
        ).contains(s[j]) by {
            if j < s.len() - 1 {
                assert(t[j] == s[j]);
                assert(rest.contains(t[j]));
                let k = choose|k: int| 0 <= k < rest.len() && rest[k] == t[j];
                if s.last().slot != slot {
                    assert(rest.push(s.last())[k] == s[j]);
                }
            } else {
                assert(without_slot(s, slot) == rest.push(s.last()));
                assert(rest.push(s.last())[rest.len() as int] == s[j]);
            }
        }
        assert forall|j: int| 0 <= j < without_slot(s, slot).len() implies s.contains(
            #[trigger] without_slot(s, slot)[j],
        ) by {
            if j < rest.len() {
                assert(without_slot(s, slot)[j] == rest[j]);
                assert(t.contains(rest[j]));
                let k = choose|k: int| 0 <= k < t.len() && t[k] == rest[j];
                assert(s[k] == t[k]);
            } else {
                assert(without_slot(s, slot)[j] == s.last());
                assert(s[s.len() - 1] == s.last());
            }
        }
    }
}

/// A client that has just registered can be given the input: switching to
/// the slot it got finds it.
pub proof fn lemma_registered_is_switchable(s: Seq<ClientInfo>, c: ClientInfo)
    ensures
        first_slot(s.push(c), c.slot) != -1,
{
    let t = s.push(c);
    lemma_first_slot(t, c.slot);
    assert(t[s.len() as int].slot == c.slot);
}

/// Once a slot is deregistered no client holds it, so switching to it is
/// refused.
pub proof fn lemma_deregistered_is_gone(s: Seq<ClientInfo>, slot: u8)
    ensures
        first_slot(without_slot(s, slot), slot) == -1,
{
    lemma_without_slot(s, slot);
    lemma_first_slot(without_slot(s, slot), slot);
}

/// The registry of connected clients.
///
/// Slots are handed out round-robin over 1..=9; slot 0 stands for the server
/// itself.
#[derive(Debug)]
pub struct ActiveClientState {
    active_slot: u8,
    clients: Vec<ClientInfo>,
    next_slot: u8,
}

impl ActiveClientState {
    /// The slot that currently receives input (0: the server itself).
    pub closed spec fn active(&self) -> u8 {
        self.active_slot
    }

    /// The connected clients, in the order they registered.
    pub closed spec fn clients(&self) -> Seq<ClientInfo> {
        self.clients@
    }

    /// The slot the next client to register will get.
    pub closed spec fn next(&self) -> u8 {
        self.next_slot
    }

    /// Every slot is in 1..=9, the next slot too, and the active slot is 0
    /// exactly when no client is connected and otherwise some client's slot.
    pub open spec fn wf(&self) -> bool {
        &&& 1 <= self.next() <= 9
        &&& forall|i: int| 0 <= i < self.clients().len() ==> 1 <= #[trigger] self.clients()[i].slot <= 9
        &&& (self.active() == 0 <==> self.clients().len() == 0)
        &&& self.active() != 0 ==> first_slot(self.clients(), self.active()) != -1
    }

    /// An empty registry: nobody connected, the server active, slot 1 next.
    pub fn new() -> (r: ActiveClientState)
        ensures
            r.wf(),
            r.active() == 0,
            r.clients().len() == 0,
            r.next() == 1,
    {
        ActiveClientState { active_slot: 0, clients: Vec::new(), next_slot: 1 }
    }

    fn position_of_slot(&self, slot: u8) -> (r: Option<usize>)
        ensures
            match r {
                Some(i) => i as int == first_slot(self.clients(), slot) && i < self.clients().len(),
                None => first_slot(self.clients(), slot) == -1,
            },
    {
        let mut i: usize = 0;
        while i < self.clients.len()
            invariant
                0 <= i <= self.clients@.len(),
                first_slot_from(self.clients@, slot, 0) == first_slot_from(self.clients@, slot, i as int),
            decreases self.clients@.len() - i,
        {
            if self.clients[i].slot == slot {
                return Some(i);
            }
            i = i + 1;
        }
        None
    }

    fn position_of_name(&self, name: &str) -> (r: Option<usize>)
        ensures
            match r {
                Some(i) => i as int == first_name(self.clients(), name@) && i < self.clients().len(),
                None => first_name(self.clients(), name@) == -1,
            },
    {
        let target = name.to_owned();
        let mut i: usize = 0;
        while i < self.clients.len()
            invariant
                0 <= i <= self.clients@.len(),
                target@ == name@,
                first_name_from(self.clients@, name@, 0) == first_name_from(
                    self.clients@,
                    name@,
                    i as int,
                ),
            decreases self.clients@.len() - i,
        {
            if self.clients[i].name == target {
                return Some(i);
            }
            i = i + 1;
        }
        None
    }

    /// Registers a new client and returns the slot it gets. The first client
    /// to connect becomes active.
    pub fn register(&mut self, name: String, peer: PeerAddr) -> (r: u8)
        requires
            old(self).wf(),
        ensures
            final(self).wf(),
            r == old(self).next(),
            1 <= r <= 9,
            final(self).next() == r % 9 + 1,
            final(self).clients() == old(self).clients().push(ClientInfo { slot: r, name, peer }),
            final(self).active() == (if old(self).active() == 0 { r } else { old(self).active() }),
    {
        let slot = self.next_slot;
        self.next_slot = slot % 9 + 1;
        let ghost old_clients = self.clients@;
        self.clients.push(ClientInfo { slot, name, peer });
        proof {
            let s = self.clients@;
            lemma_first_slot(s, slot);
            if old(self).active_slot != 0 {
                lemma_first_slot(old_clients, old(self).active_slot);
                let k = first_slot(old_clients, old(self).active_slot);
                assert(s[k] == old_clients[k]);
                lemma_first_slot(s, old(self).active_slot);
            } else {
                assert(s[s.len() - 1].slot == slot);
            }
        }
        if self.active_slot == 0 {
            self.active_slot = slot;
        }
        slot
    }

    /// Removes every client holding `slot`. When the active client goes, the
    /// first remaining client becomes active, or the server when none remains.
    pub fn deregister(&mut self, slot: u8)
        requires
            old(self).wf(),
        ensures
            final(self).wf(),
            final(self).clients() == without_slot(old(self).clients(), slot),
            final(self).next() == old(self).next(),
            final(self).active() == (if old(self).active() == slot {
                fallback_slot(final(self).clients())
            } else {
                old(self).active()
            }),
    {
        let ghost old_clients = self.clients@;
        let mut kept: Vec<ClientInfo> = Vec::new();
        let mut rest: Vec<ClientInfo> = Vec::new();
        std::mem::swap(&mut rest, &mut self.clients);
        let n = rest.len();
        let mut i: usize = 0;
        while i < n
            invariant
                n == rest@.len(),
                rest@ == old_clients,
                0 <= i <= n,
                kept@ == without_slot(rest@.subrange(0, i as int), slot),
            decreases n - i,
        {
            let c_slot = rest[i].slot;
            assert(rest@.subrange(0, i + 1).drop_last() =~= rest@.subrange(0, i as int));
            if c_slot != slot {
                let c = ClientInfo {
                    slot: rest[i].slot,
                    name: rest[i].name.clone(),
                    peer: rest[i].peer,
                };
                proof {
                    assert(c == rest@[i as int]);
                }
                kept.push(c);
            }
            i = i + 1;
        }
        assert(rest@.subrange(0, n as int) =~= old_clients);
        self.clients = kept;
        proof {
            lemma_without_slot(old_clients, slot);
            let s = self.clients@;
            if old(self).active_slot != slot && old(self).active_slot != 0 {
                lemma_first_slot(old_clients, old(self).active_slot);
                let k = first_slot(old_clients, old(self).active_slot);
                assert(s.contains(old_clients[k]));
                let m = choose|m: int| 0 <= m < s.len() && s[m] == old_clients[k];
                lemma_first_slot(s, old(self).active_slot);
            }
            assert forall|j: int| 0 <= j < s.len() implies 1 <= #[trigger] s[j].slot <= 9 by {
                assert(old_clients.contains(s[j]));
            }
            if s.len() > 0 {
                lemma_first_slot(s, s[0].slot);
            }
        }
        if self.active_slot == slot {
            self.active_slot = if self.clients.len() > 0 {
                self.clients[0].slot
            } else {
                0
            };
        }
    }

    /// Gives input to the client holding `slot`. Returns the change to
    /// announce, or `None` (and changes nothing) when no client holds it.
    pub fn switch_to(&mut self, slot: u8) -> (r: Option<ActiveClientChange>)
        requires
            old(self).wf(),
        ensures
            final(self).wf(),
            final(self).clients() == old(self).clients(),
            final(self).next() == old(self).next(),
            first_slot(old(self).clients(), slot) == -1 ==> r is None && final(self).active() == old(
                self,
            ).active(),
            first_slot(old(self).clients(), slot) != -1 ==> (r matches Some(c) && c.active_slot == slot
                && c.active_name@ == old(self).clients()[first_slot(old(self).clients(), slot)].name@
                && final(self).active() == slot),
    {
        match self.position_of_slot(slot) {
            None => None,
            Some(i) => {
                let name = self.clients[i].name.clone();
                proof {
                    lemma_first_slot(self.clients@, slot);
                }
                self.active_slot = slot;
                Some(ActiveClientChange { active_slot: slot, active_name: name })
            },
        }
    }

    /// Gives input to the client after the active one, wrapping around; the
    /// first client when the active slot is not held by anyone. `None` when no
    /// client is connected.
    pub fn cycle(&mut self) -> (r: Option<ActiveClientChange>)
        requires
            old(self).wf(),
        ensures
            final(self).wf(),
            final(self).clients() == old(self).clients(),
            final(self).next() == old(self).next(),
            old(self).clients().len() == 0 ==> r is None && final(self).active() == old(self).active(),
            old(self).clients().len() > 0 ==> {
                let s = old(self).clients();
                let p = first_slot(s, old(self).active());
                let k = if p == -1 { 0 } else { (p + 1) % (s.len() as int) };
                r matches Some(c) && c.active_slot == s[k].slot && c.active_name@ == s[k].name@
                    && final(self).active() == s[k].slot
            },
    {
        if self.clients.len() == 0 {
            return None;
        }
        let pos = self.position_of_slot(self.active_slot);
        let next = match pos {
            Some(i) => (i + 1) % self.clients.len(),
            None => 0,
        };
        let slot = self.clients[next].slot;
        let name = self.clients[next].name.clone();
        proof {
            lemma_first_slot(self.clients@, slot);
        }
        self.active_slot = slot;
        Some(ActiveClientChange { active_slot: slot, active_name: name })
    }

    /// The slot that currently receives input.
    pub fn active_slot(&self) -> (r: u8)
        ensures
            r == self.active(),
    {
        self.active_slot
    }

    /// Every connected client in order, with whether it is the active one.
    pub fn snapshot(&self) -> (r: Vec<ClientSnapshot>)
        ensures
            r@.len() == self.clients().len(),
            forall|i: int|
                0 <= i < r@.len() ==> #[trigger] r@[i].slot == self.clients()[i].slot && r@[i].name@
                    == self.clients()[i].name@ && r@[i].is_active == (self.clients()[i].slot
                    == self.active()),
    {
        let mut out: Vec<ClientSnapshot> = Vec::new();
        let mut i: usize = 0;
        while i < self.clients.len()
            invariant
                0 <= i <= self.clients@.len(),
                out@.len() == i,
                forall|j: int|
                    0 <= j < i ==> #[trigger] out@[j].slot == self.clients@[j].slot && out@[j].name@
                        == self.clients@[j].name@ && out@[j].is_active == (self.clients@[j].slot
                        == self.active_slot),
            decreases self.clients@.len() - i,
        {
            let c = &self.clients[i];
            out.push(
                ClientSnapshot {
                    slot: c.slot,
                    name: c.name.clone(),
                    is_active: c.slot == self.active_slot,
                },
            );
            i = i + 1;
        }
        out
    }

    /// Removes the first client named `name`, if any; when it was the active
    /// one, the first remaining client becomes active, or the server.
    pub fn deregister_by_name(&mut self, name: &str)
        requires
            old(self).wf(),
        ensures
            final(self).wf(),
            final(self).next() == old(self).next(),
            first_name(old(self).clients(), name@) == -1 ==> final(self).clients() == old(
                self,
            ).clients() && final(self).active() == old(self).active(),
            first_name(old(self).clients(), name@) != -1 ==> {
                let p = first_name(old(self).clients(), name@);
                let gone = old(self).clients()[p].slot;
                &&& final(self).clients() == old(self).clients().remove(p)
                &&& final(self).active() == (if old(self).active() == gone {
                    fallback_slot(final(self).clients())
                } else {
                    old(self).active()
                })
            },
    {
        match self.position_of_name(name) {
            None => {},
            Some(pos) => {
                proof {
                    lemma_first_name_from_range(self.clients@, name@, 0);
                }
                let ghost old_clients = self.clients@;
                let slot = self.clients[pos].slot;
                let _removed = self.clients.remove(pos);
                proof {
                    let s = self.clients@;
                    assert(s == old_clients.remove(pos as int));
                    assert forall|j: int| 0 <= j < s.len() implies 1 <= #[trigger] s[j].slot <= 9 by {
                        if j < pos {
                            assert(s[j] == old_clients[j]);
                        } else {
                            assert(s[j] == old_clients[j + 1]);
                        }
                    }
                    if old(self).active_slot != slot && old(self).active_slot != 0 {
                        lemma_first_slot(old_clients, old(self).active_slot);
                        let k = first_slot(old_clients, old(self).active_slot);
                        if k < pos {
                            assert(s[k] == old_clients[k]);
                        } else {
                            assert(k != pos);
                            assert(s[k - 1] == old_clients[k]);
                        }
                        lemma_first_slot(s, old(self).active_slot);
                    }
                    if s.len() > 0 {
                        lemma_first_slot(s, s[0].slot);
                    }
                }
                if self.active_slot == slot {
                    self.active_slot = if self.clients.len() > 0 {
                        self.clients[0].slot
                    } else {
                        0
                    };
                }
            },
        }
    }

    /// Where to send microphone audio: the active client's IP with the client
    /// audio port, or `None` when the active slot is held by no client.
    pub fn active_client_audio_addr(&self) -> (r: Option<PeerAddr>)
        ensures
            first_slot(self.clients(), self.active()) == -1 ==> r is None,
            first_slot(self.clients(), self.active()) != -1 ==> 0 <= first_slot(self.clients(), self.active()) < self.clients().len() && r == Some(
                PeerAddr {
                    ip: self.clients()[first_slot(self.clients(), self.active())].peer.ip,
                    port: CLIENT_AUDIO_PORT,
                },
            ),
    {
        match self.position_of_slot(self.active_slot) {
            None => None,
            Some(i) => Some(PeerAddr { ip: self.clients[i].peer.ip, port: CLIENT_AUDIO_PORT }),
        }
    }
}

impl Default for ActiveClientState {
    fn default() -> (r: ActiveClientState)
        ensures
            r.wf(),
            r.active() == 0,
            r.clients().len() == 0,
            r.next() == 1,
    {
        ActiveClientState::new()
    }
}

} // verus!
