//! State and small decisions behind the user interface: settings, the log
//! panel, the list of discovered servers and the choice of one to connect
//! to, the screens of the monitor view, display and latency labels, and the
//! port of a bind address.
use vstd::prelude::*;
use chrono::TimeZone;
use crate::active_client::ClientSnapshot;
use crate::discovery::Peer;
use crate::layout::ClientEdge;
use crate::text::{
    contains_str, decimal, decimal_string, has_infix, lowercase_of, push_char, push_decimal,
    to_lowercase,
};

verus! {

/// The page the window shows.
#[derive(Debug, Clone, Copy, PartialEq, Eq)]
pub enum Page {
    Monitor,
    Setting,
}

/// User settings.
#[derive(Debug, Clone, Copy, PartialEq, Eq)]
pub struct Settings {
    pub share_audio: bool,
    pub audio_device: usize,
    pub share_input: bool,
    pub dark_mode: bool,
}

impl Default for Settings {
    /// Audio not shared, first device, input shared, dark theme.
    fn default() -> (r: Settings)
        ensures
            !r.share_audio,
            r.audio_device == 0,
            r.share_input,
            r.dark_mode,
    {
        Settings { share_audio: false, audio_device: 0, share_input: true, dark_mode: true }
    }
}

/// Resolution and refresh rate of a display.
#[derive(Debug, Clone, Copy, PartialEq, Eq)]
pub struct DisplayInfo {
    pub width: u32,
    pub height: u32,
    pub hz: u32,
}

impl DisplayInfo {
    /// `"<width> × <height>"`.
    pub fn formatted(&self) -> (r: String)
        ensures
            r@ == decimal(self.width as nat) + " × "@ + decimal(self.height as nat),
    {
        let mut s = decimal_string(self.width as u64);
        s.append(" × ");
        push_decimal(&mut s, self.height as u64);
        s
    }
}

/// Status dot colours, with the same meaning in both themes.
#[derive(Debug, Clone, Copy, PartialEq, Eq)]
pub enum StatusColor {
    Green,
    Amber,
    Red,
    Muted,
}

/// The RGB of a status colour in the dark or light theme.
pub open spec fn status_rgb(c: StatusColor, is_dark: bool) -> (u8, u8, u8) {
    match c {
        StatusColor::Green => if is_dark { (74, 179, 120) } else { (34, 160, 90) },
        StatusColor::Amber => if is_dark { (210, 155, 64) } else { (190, 135, 30) },
        StatusColor::Red => if is_dark { (210, 80, 80) } else { (195, 55, 55) },
        StatusColor::Muted => if is_dark { (66, 72, 90) } else { (170, 178, 200) },
    }
}

impl StatusColor {
    /// The RGB of this colour in the dark or light theme.
    pub fn rgb(self, is_dark: bool) -> (r: (u8, u8, u8))
        ensures
            r == status_rgb(self, is_dark),
    {
        match self {
            StatusColor::Green => if is_dark { (74, 179, 120) } else { (34, 160, 90) },
            StatusColor::Amber => if is_dark { (210, 155, 64) } else { (190, 135, 30) },
            StatusColor::Red => if is_dark { (210, 80, 80) } else { (195, 55, 55) },
            StatusColor::Muted => if is_dark { (66, 72, 90) } else { (170, 178, 200) },
        }
    }
}

/// What the client tray icon reported since the last poll.
#[derive(Debug, Clone, Copy, PartialEq, Eq)]
pub struct TrayPoll {
    pub quit: bool,
    pub toggle_window: bool,
}

// ── Log panel ──────────────────────────────────────────────────────────────

/// Most entries the log panel keeps.
pub const MAX_LOG_ENTRIES: usize = 1000;

/// One line of the log panel.
#[derive(Debug, Clone)]
pub struct LogEntry {
    pub time: String,
    pub level: String,
    pub message: String,
}

/// The log panel's entries, oldest first.
#[derive(Debug)]
pub struct AppLogs {
    pub entries: Vec<LogEntry>,
}

/// chrono's `NaiveTime`, a time of day; nothing inside it is visible here.
#[verifier::external_type_specification]
#[verifier::external_body]
pub struct ExNaiveTime(chrono::NaiveTime);

/// The text is a time of day `HH:MM:SS`: two digits, a colon, two digits, a
/// colon, two digits.
pub open spec fn is_hms(s: Seq<char>) -> bool {
    &&& s.len() == 8
    &&& s[2] == ':'
    &&& s[5] == ':'
    &&& forall|i: int| 0 <= i < 8 && i != 2 && i != 5 ==> '0' <= #[trigger] s[i] <= '9'
}

/// std's `SystemTime`, a reading of the system clock; nothing inside it is
/// visible here.
#[verifier::external_type_specification]
#[verifier::external_body]
pub struct ExSystemTime(std::time::SystemTime);

/// std's `SystemTime::now`: the system clock is read, so nothing is stated
/// of the result.
#[verifier::external_body]
fn system_now() -> std::time::SystemTime {
    std::time::SystemTime::now()
}

/// std's `SystemTime::duration_since(UNIX_EPOCH)`: whole seconds and
/// nanoseconds since 1970-01-01 UTC, or `None` when the clock reads earlier.
/// The nanoseconds are below one second, as `Duration::subsec_nanos` says;
/// what the clock reads is left unstated.
#[verifier::external_body]
fn since_unix_epoch(t: &std::time::SystemTime) -> (r: Option<(u64, u32)>)
    ensures
        r matches Some(d) ==> d.1 < 1_000_000_000,
{
    match t.duration_since(std::time::UNIX_EPOCH) {
        Ok(d) => Some((d.as_secs(), d.subsec_nanos())),
        Err(_) => None,
    }
}

/// Seconds from 1970 to the end of year 9999: chrono converts every instant
/// in between to local time without failing.
pub const LAST_LOGGED_SECOND: u64 = 253_402_300_799;

/// chrono's `Local.timestamp_opt`: the local time of day of the instant
/// `secs` seconds and `nanos` nanoseconds after 1970-01-01 UTC, or `None`
/// when the instant has no single local time. The time zone is read from
/// the machine, so nothing is stated of the result.
#[verifier::external_body]
fn local_time_at(secs: i64, nanos: u32) -> Option<chrono::NaiveTime>
    requires
        0 <= secs <= LAST_LOGGED_SECOND,
        nanos < 1_000_000_000,
{
    chrono::Local.timestamp_opt(secs, nanos).single().map(|dt| dt.time())
}

/// `chrono::NaiveTime::format` with `%H:%M:%S`: hours, minutes and seconds,
/// each as two zero-padded digits, separated by colons. Which digits they
/// are is left unstated.
#[verifier::external_body]
fn hms_text(t: &chrono::NaiveTime) -> (r: String)
    ensures
        is_hms(r@),
{
    t.format("%H:%M:%S").to_string()
}

/// The local time of day as `HH:MM:SS`. A clock set before 1970 reads as
/// 1970-01-01 00:00:00 UTC, and one past year 9999 or an instant without a
/// single local time gives `00:00:00`.
fn local_time_text() -> (r: String)
    ensures
        is_hms(r@),
{
    let now = system_now();
    let (secs, nanos) = match since_unix_epoch(&now) {
        Some(d) => d,
        None => (0u64, 0u32),
    };
    let time = if secs <= LAST_LOGGED_SECOND {
        local_time_at(secs as i64, nanos)
    } else {
        None
    };
    match time {
        Some(t) => hms_text(&t),
        None => {
            let s = "00:00:00".to_owned();
            proof {
                reveal_strlit("00:00:00");
            }
            s
        },
    }
}

/// The entries after appending `e`: the oldest goes once there are more
/// than `MAX_LOG_ENTRIES`.
pub open spec fn logs_after_add(entries: Seq<LogEntry>, e: LogEntry) -> Seq<LogEntry> {
    let pushed = entries.push(e);
    if pushed.len() > MAX_LOG_ENTRIES {
        pushed.drop_first()
    } else {
        pushed
    }
}

impl AppLogs {
    pub fn new() -> (r: AppLogs)
        ensures
            r.entries@.len() == 0,
    {
        AppLogs { entries: Vec::new() }
    }

    /// Appends an entry stamped `time`, dropping the oldest once more than
    /// `MAX_LOG_ENTRIES` are kept.
    pub fn add_entry(&mut self, time: String, level: &str, message: &str)
        ensures
            final(self).entries@.len() >= 1,
            final(self).entries@ == logs_after_add(
                old(self).entries@,
                final(self).entries@.last(),
            ),
            final(self).entries@.last().time == time,
            final(self).entries@.last().level@ == level@,
            final(self).entries@.last().message@ == message@,
            old(self).entries@.len() <= MAX_LOG_ENTRIES ==> final(self).entries@.len() <= MAX_LOG_ENTRIES,
    {
        let e = LogEntry { time, level: level.to_owned(), message: message.to_owned() };
        let ghost eg = e;
        self.entries.push(e);
        if self.entries.len() > MAX_LOG_ENTRIES {
            let _oldest = self.entries.remove(0);
            assert(self.entries@ =~= old(self).entries@.push(eg).drop_first());
        }
        assert(self.entries@.last() == eg);
    }

    /// Appends an entry stamped with the current local time.
    pub fn add(&mut self, level: &str, message: &str)
        ensures
            final(self).entries@.len() >= 1,
            final(self).entries@ == logs_after_add(old(self).entries@, final(self).entries@.last()),
            is_hms(final(self).entries@.last().time@),
            final(self).entries@.last().level@ == level@,
            final(self).entries@.last().message@ == message@,
            old(self).entries@.len() <= MAX_LOG_ENTRIES ==> final(self).entries@.len() <= MAX_LOG_ENTRIES,
    {
        let time = local_time_text();
        self.add_entry(time, level, message);
    }
}

/// Logs an informational line.
pub fn log_info(logs: &mut AppLogs, msg: &str)
    ensures
        final(logs).entries@.len() >= 1,
        final(logs).entries@ == logs_after_add(old(logs).entries@, final(logs).entries@.last()),
        final(logs).entries@.last().level@ == "INFO"@,
        final(logs).entries@.last().message@ == msg@,
{
    logs.add("INFO", msg);
}

/// Logs an error line.
pub fn log_error(logs: &mut AppLogs, msg: &str)
    ensures
        final(logs).entries@.len() >= 1,
        final(logs).entries@ == logs_after_add(old(logs).entries@, final(logs).entries@.last()),
        final(logs).entries@.last().level@ == "ERROR"@,
        final(logs).entries@.last().message@ == msg@,
{
    logs.add("ERROR", msg);
}

// ── Discovered servers ─────────────────────────────────────────────────────

/// A server found on the network.
#[derive(Debug, Clone)]
pub struct FoundServer {
    pub name: String,
    pub addr: String,
    pub port: u16,
}

/// No two servers share a name.
pub open spec fn names_unique(s: Seq<FoundServer>) -> bool {
    forall|i: int, j: int| 0 <= i < j < s.len() ==> s[i].name@ != s[j].name@
}

/// Whether a server of that name is listed.
pub open spec fn has_name(s: Seq<FoundServer>, name: Seq<char>) -> bool {
    exists|i: int| 0 <= i < s.len() && s[i].name@ == name
}

/// The servers not named `name`, in order.
pub open spec fn without_name(s: Seq<FoundServer>, name: Seq<char>) -> Seq<FoundServer>
    decreases s.len(),
{
    if s.len() == 0 {
        s
    } else {
        let rest = without_name(s.drop_last(), name);
        if s.last().name@ == name {
            rest
        } else {
            rest.push(s.last())
        }
    }
}

proof fn lemma_without_name_unique(s: Seq<FoundServer>, name: Seq<char>)
    requires
        names_unique(s),
    ensures
        names_unique(without_name(s, name)),
        forall|j: int| 0 <= j < without_name(s, name).len() ==> #[trigger] without_name(s, name)[j].name@ != name,
        forall|j: int| 0 <= j < without_name(s, name).len() ==> s.contains(#[trigger] without_name(s, name)[j]),
    decreases s.len(),
{
    if s.len() > 0 {
        let t = s.drop_last();
        assert(names_unique(t));
        lemma_without_name_unique(t, name);
        let rest = without_name(t, name);
        assert forall|j: int| 0 <= j < rest.len() implies s.contains(#[trigger] rest[j]) by {
            assert(t.contains(rest[j]));
            let k = choose|k: int| 0 <= k < t.len() && t[k] == rest[j];
            assert(s[k] == t[k]);
        }
        if s.last().name@ != name {
            let r = rest.push(s.last());
            assert forall|i: int, j: int| 0 <= i < j < r.len() implies r[i].name@ != r[j].name@ by {
                if j == r.len() - 1 {
                    assert(s.contains(rest[i]));
                    let k = choose|k: int| 0 <= k < t.len() && t[k] == rest[i];
                    assert(s[k] == rest[i]);
                    assert(s[s.len() - 1] == s.last());
                }
            }
            assert forall|j: int| 0 <= j < r.len() implies s.contains(#[trigger] r[j]) by {
                if j == r.len() - 1 {
                    assert(s[s.len() - 1] == r[j]);
                } else {
                    assert(r[j] == rest[j]);
                }
            }
        }
    }
}

/// The servers found so far, in discovery order, one per name.
#[derive(Debug)]
pub struct FoundServers {
    servers: Vec<FoundServer>,
}

impl FoundServers {
    pub closed spec fn list(&self) -> Seq<FoundServer> {
        self.servers@
    }

    pub fn new() -> (r: FoundServers)
        ensures
            r.list().len() == 0,
    {
        FoundServers { servers: Vec::new() }
    }

    /// The servers, in discovery order.
    pub fn servers(&self) -> (r: &Vec<FoundServer>)
        ensures
            r@ == self.list(),
    {
        &self.servers
    }

    fn contains_name(&self, name: &String) -> (r: bool)
        ensures
            r == has_name(self.list(), name@),
    {
        let mut i: usize = 0;
        while i < self.servers.len()
            invariant
                0 <= i <= self.servers@.len(),
                forall|k: int| 0 <= k < i ==> self.servers@[k].name@ != name@,
            decreases self.servers@.len() - i,
        {
            if self.servers[i].name == *name {
                return true;
            }
            i = i + 1;
        }
        false
    }

    /// A server was resolved: list it unless one of that name already is.
    pub fn on_resolved(&mut self, entry: FoundServer)
        requires
            names_unique(old(self).list()),
        ensures
            names_unique(final(self).list()),
            has_name(old(self).list(), entry.name@) ==> final(self).list() == old(self).list(),
            !has_name(old(self).list(), entry.name@) ==> final(self).list() == old(self).list().push(entry),
    {
        if !self.contains_name(&entry.name) {
            self.servers.push(entry);
        }
    }

    /// A server went away: unlist every server of that name.
    pub fn on_removed(&mut self, fullname: &str)
        requires
            names_unique(old(self).list()),
        ensures
            names_unique(final(self).list()),
            final(self).list() == without_name(old(self).list(), fullname@),
    {
        let target = fullname.to_owned();
        let mut kept: Vec<FoundServer> = Vec::new();
        let mut rest: Vec<FoundServer> = Vec::new();
        std::mem::swap(&mut rest, &mut self.servers);
        let ghost old_list = rest@;
        let mut i: usize = 0;
        while i < rest.len()
            invariant
                0 <= i <= rest@.len(),
                rest@ == old_list,
                old_list == old(self).list(),
                target@ == fullname@,
                kept@ == without_name(old_list.subrange(0, i as int), fullname@),
            decreases rest@.len() - i,
        {
            proof {
                assert(old_list.subrange(0, i + 1).drop_last() =~= old_list.subrange(0, i as int));
            }
            if !(rest[i].name == target) {
                let s = FoundServer {
                    name: rest[i].name.clone(),
                    addr: rest[i].addr.clone(),
                    port: rest[i].port,
                };
                proof {
                    assert(s == old_list[i as int]);
                }
                kept.push(s);
            }
            i = i + 1;
        }
        proof {
            assert(old_list.subrange(0, old_list.len() as int) =~= old_list);
            lemma_without_name_unique(old_list, fullname@);
        }
        self.servers = kept;
    }
}

// ── Auto-connect ───────────────────────────────────────────────────────────

/// Seconds that must pass between two auto-connect attempts.
pub const AUTO_CONNECT_INTERVAL_SECS: u64 = 5;

/// Auto-connect is tried when it is enabled, no client connection is up and
/// more than five seconds passed since the last attempt.
pub fn auto_connect_due(enabled: bool, has_client: bool, now_secs: u64, last_attempt_secs: u64) -> (r: bool)
    requires
        enabled && !has_client ==> last_attempt_secs <= now_secs,
    ensures
        r == (enabled && !has_client && now_secs - last_attempt_secs > AUTO_CONNECT_INTERVAL_SECS),
{
    enabled && !has_client && now_secs - last_attempt_secs > AUTO_CONNECT_INTERVAL_SECS
}

/// Two machine names denote the same machine: ignoring case, one contains
/// the other.
pub open spec fn names_overlap(a: Seq<char>, b: Seq<char>) -> bool {
    has_infix(lowercase_of(a), lowercase_of(b)) || has_infix(lowercase_of(b), lowercase_of(a))
}

/// A discovered server worth connecting to: its name does not contain this
/// machine's host name, and it is none of the clients already connected to
/// our own server.
pub open spec fn connect_candidate(s: FoundServer, local_host: Seq<char>, ours: Seq<String>) -> bool {
    &&& !has_infix(s.name@, local_host)
    &&& forall|j: int| 0 <= j < ours.len() ==> !names_overlap(s.name@, #[trigger] ours[j]@)
}

fn names_overlap_exec(a: &str, b: &str) -> (r: bool)
    ensures
        r == names_overlap(a@, b@),
{
    let la = to_lowercase(a);
    let lb = to_lowercase(b);
    contains_str(la.as_str(), lb.as_str()) || contains_str(lb.as_str(), la.as_str())
}

fn is_connect_candidate(s: &FoundServer, local_host: &str, ours: &[String]) -> (r: bool)
    ensures
        r == connect_candidate(*s, local_host@, ours@),
{
    if contains_str(s.name.as_str(), local_host) {
        return false;
    }
    let mut j: usize = 0;
    while j < ours.len()
        invariant
            0 <= j <= ours@.len(),
            forall|k: int| 0 <= k < j ==> !names_overlap(s.name@, #[trigger] ours@[k]@),
        decreases ours@.len() - j,
    {
        if names_overlap_exec(s.name.as_str(), ours[j].as_str()) {
            return false;
        }
        j = j + 1;
    }
    true
}

/// The first discovered server to auto-connect to, by its index in
/// `servers`, or `None` when every one is this machine or already our client.
pub fn auto_connect_target(servers: &[FoundServer], local_host: &str, our_clients: &[String]) -> (r: Option<usize>)
    ensures
        match r {
            Some(i) => {
                &&& i < servers@.len()
                &&& connect_candidate(servers@[i as int], local_host@, our_clients@)
                &&& forall|k: int| 0 <= k < i ==> !connect_candidate(#[trigger] servers@[k], local_host@, our_clients@)
            },
            None => forall|k: int|
                0 <= k < servers@.len() ==> !connect_candidate(#[trigger] servers@[k], local_host@, our_clients@),
        },
{
    let mut i: usize = 0;
    while i < servers.len()
        invariant
            0 <= i <= servers@.len(),
            forall|k: int| 0 <= k < i ==> !connect_candidate(#[trigger] servers@[k], local_host@, our_clients@),
        decreases servers@.len() - i,
    {
        if is_connect_candidate(&servers[i], local_host, our_clients) {
            return Some(i);
        }
        i = i + 1;
    }
    None
}

// ── Monitor view ───────────────────────────────────────────────────────────

/// A screen shown beside the server's own in the monitor view.
#[derive(Debug, Clone)]
pub struct MonitorRow {
    /// The client's slot; `None` for a machine seen on the network that has
    /// no control connection yet.
    pub slot: Option<u8>,
    pub host: String,
    pub connected: bool,
    pub active: bool,
    /// For a machine with no connection yet: its index among the discovered
    /// peers.
    pub peer: Option<usize>,
}

/// Some connected client has this name.
pub open spec fn snapshot_has_name(snap: Seq<ClientSnapshot>, name: Seq<char>) -> bool {
    exists|i: int| 0 <= i < snap.len() && #[trigger] snap[i].name@ == name
}

/// Some connected client has this name and receives the input.
pub open spec fn snapshot_active_name(snap: Seq<ClientSnapshot>, name: Seq<char>) -> bool {
    exists|i: int| 0 <= i < snap.len() && #[trigger] snap[i].name@ == name && snap[i].is_active
}

/// Indices, in order, of the first `n` discovered peers that no connected
/// client shares a name with.
pub open spec fn offline_indices(snap: Seq<ClientSnapshot>, peers: Seq<Peer>, n: int) -> Seq<int>
    decreases n,
{
    if n <= 0 {
        Seq::empty()
    } else {
        let prev = offline_indices(snap, peers, n - 1);
        if snapshot_has_name(snap, peers[n - 1].name@) {
            prev
        } else {
            prev.push(n - 1)
        }
    }
}

/// Row `k` shows the connected client `snap[k]`.
pub open spec fn is_client_row(row: MonitorRow, c: ClientSnapshot) -> bool {
    &&& row.slot == Some(c.slot)
    &&& row.host@ == c.name@
    &&& row.connected
    &&& row.active == c.is_active
    &&& row.peer is None
}

/// The row shows discovered peer `idx`, which has no connection yet.
pub open spec fn is_peer_row(row: MonitorRow, peers: Seq<Peer>, idx: int) -> bool {
    &&& row.slot is None
    &&& row.host@ == peers[idx].name@
    &&& !row.connected
    &&& !row.active
    &&& row.peer == Some(idx as usize)
}

/// The rows beside the server's screen: every connected client in snapshot
/// order, then every discovered peer that no connected client shares a name
/// with, in discovery order.
pub open spec fn rows_shown(snap: Seq<ClientSnapshot>, peers: Seq<Peer>, rows: Seq<MonitorRow>) -> bool {
    let off = offline_indices(snap, peers, peers.len() as int);
    &&& rows.len() == snap.len() + off.len()
    &&& forall|k: int| 0 <= k < snap.len() ==> is_client_row(#[trigger] rows[k], snap[k])
    &&& forall|j: int| 0 <= j < off.len() ==> is_peer_row(#[trigger] rows[snap.len() + j], peers, off[j])
}

fn snapshot_flags(snap: &[ClientSnapshot], name: &String) -> (r: (bool, bool))
    ensures
        r.0 == snapshot_has_name(snap@, name@),
        r.1 == snapshot_active_name(snap@, name@),
{
    let mut found = false;
    let mut active = false;
    let mut i: usize = 0;
    while i < snap.len()
        invariant
            0 <= i <= snap@.len(),
            found == (exists|k: int| 0 <= k < i && #[trigger] snap@[k].name@ == name@),
            active == (exists|k: int| 0 <= k < i && #[trigger] snap@[k].name@ == name@ && snap@[k].is_active),
        decreases snap@.len() - i,
    {
        if snap[i].name == *name {
            found = true;
            if snap[i].is_active {
                active = true;
            }
        }
        i = i + 1;
    }
    (found, active)
}

/// The screens beside the server's: first every connected client in
/// snapshot order, then every discovered peer that no connected client
/// shares a name with, in discovery order.
pub fn monitor_rows(snap: &[ClientSnapshot], peers: &[Peer]) -> (r: Vec<MonitorRow>)
    ensures
        rows_shown(snap@, peers@, r@),
{
    let mut rows: Vec<MonitorRow> = Vec::new();
    let mut i: usize = 0;
    while i < snap.len()
        invariant
            0 <= i <= snap@.len(),
            rows@.len() == i,
            forall|k: int| 0 <= k < i ==> is_client_row(#[trigger] rows@[k], snap@[k]),
        decreases snap@.len() - i,
    {
        let c = &snap[i];
        rows.push(MonitorRow { slot: Some(c.slot), host: c.name.clone(), connected: true, active: c.is_active, peer: None });
        i = i + 1;
    }
    let ns = snap.len();
    let mut p: usize = 0;
    while p < peers.len()
        invariant
            0 <= p <= peers@.len(),
            ns == snap@.len(),
            rows@.len() == ns + offline_indices(snap@, peers@, p as int).len(),
            forall|k: int| 0 <= k < ns ==> is_client_row(#[trigger] rows@[k], snap@[k]),
            forall|j: int| 0 <= j < offline_indices(snap@, peers@, p as int).len()
                ==> is_peer_row(#[trigger] rows@[ns + j], peers@, offline_indices(snap@, peers@, p as int)[j]),
        decreases peers@.len() - p,
    {
        let (seen, _) = snapshot_flags(snap, &peers[p].name);
        let ghost before = rows@;
        if !seen {
            rows.push(MonitorRow { slot: None, host: peers[p].name.clone(), connected: false, active: false, peer: Some(p) });
        }
        proof {
            let prev = offline_indices(snap@, peers@, p as int);
            let next = offline_indices(snap@, peers@, p + 1);
            if seen {
                assert(next == prev);
            } else {
                assert(next == prev.push(p as int));
                assert forall|j: int| 0 <= j < next.len() implies is_peer_row(#[trigger] rows@[ns + j], peers@, next[j]) by {
                    if j < prev.len() {
                        assert(rows@[ns + j] == before[ns + j]);
                    }
                }
            }
        }
        p = p + 1;
    }
    rows
}

/// The monitor view: whether the server's own screen receives the input,
/// and the screens beside it.
#[derive(Debug)]
pub struct MonitorPlan {
    pub primary_active: bool,
    pub rows: Vec<MonitorRow>,
}

/// The monitor view for the connected clients `snap`, the discovered
/// `peers` and the active slot: the server's own screen is shown active
/// exactly when slot 0 (the server) is active.
pub fn monitor_plan(snap: &[ClientSnapshot], peers: &[Peer], active_slot: u8) -> (r: MonitorPlan)
    ensures
        r.primary_active == (active_slot == 0),
        rows_shown(snap@, peers@, r.rows@),
{
    MonitorPlan { primary_active: active_slot == 0, rows: monitor_rows(snap, peers) }
}

/// Whether the view keeps its screens: the hosts shown beside the server's
/// are exactly those of `rows`, in order.
pub fn hosts_unchanged(shown: &[String], rows: &[MonitorRow]) -> (r: bool)
    ensures
        r == (shown@.len() == rows@.len() && forall|k: int| 0 <= k < shown@.len() ==> #[trigger] shown@[k]@ == rows@[k].host@),
{
    if shown.len() != rows.len() {
        return false;
    }
    let mut k: usize = 0;
    while k < shown.len()
        invariant
            0 <= k <= shown@.len(),
            shown@.len() == rows@.len(),
            forall|j: int| 0 <= j < k ==> #[trigger] shown@[j]@ == rows@[j].host@,
        decreases shown@.len() - k,
    {
        if !(shown[k] == rows[k].host) {
            return false;
        }
        k = k + 1;
    }
    true
}

/// The flags of a screen kept in place: `(connected, active)` for the
/// machine named `host`, from the connected clients.
pub fn host_flags(snap: &[ClientSnapshot], host: &String) -> (r: (bool, bool))
    ensures
        r.0 == snapshot_has_name(snap@, host@),
        r.1 == snapshot_active_name(snap@, host@),
{
    snapshot_flags(snap, host)
}

// ── Repaint rate, return hint, output device ───────────────────────────────

/// How often the window repaints: every 16 ms while a screen is dragged,
/// every 200 ms while connected to a server, every second otherwise.
pub fn repaint_interval_ms(dragging: bool, connected: bool) -> (r: u64)
    ensures
        r == (if dragging {
            16u64
        } else if connected {
            200u64
        } else {
            1000u64
        }),
{
    if dragging {
        16
    } else if connected {
        200
    } else {
        1000
    }
}

/// The hint shown on a client screen acting as the server's extension: the
/// way back to the primary screen, or that the cursor has not come over yet.
pub fn return_hint(edge: Option<ClientEdge>) -> (r: String)
    ensures
        r@ == match edge {
            Some(ClientEdge::Left) => "← Move cursor left to return to primary"@,
            Some(ClientEdge::Right) => "Move cursor right to return to primary →"@,
            Some(ClientEdge::Above) => "↑ Move cursor up to return to primary"@,
            Some(ClientEdge::Below) => "Move cursor down to return to primary ↓"@,
            None => "Waiting for cursor handoff from primary..."@,
        },
{
    match edge {
        Some(ClientEdge::Left) => "← Move cursor left to return to primary".to_owned(),
        Some(ClientEdge::Right) => "Move cursor right to return to primary →".to_owned(),
        Some(ClientEdge::Above) => "↑ Move cursor up to return to primary".to_owned(),
        Some(ClientEdge::Below) => "Move cursor down to return to primary ↓".to_owned(),
        None => "Waiting for cursor handoff from primary...".to_owned(),
    }
}

/// The output-device choice shown in the settings: the devices listed, the
/// selected device's name and its index in the list.
#[derive(Debug)]
pub struct OutputDeviceView {
    pub devices: Vec<String>,
    pub selected: String,
    pub index: usize,
}

fn position_named(list: &Vec<String>, name: &String) -> (r: Option<usize>)
    ensures
        match r {
            Some(i) => i < list@.len() && list@[i as int]@ == name@ && forall|j: int|
                0 <= j < i ==> #[trigger] list@[j]@ != name@,
            None => forall|k: int| 0 <= k < list@.len() ==> #[trigger] list@[k]@ != name@,
        },
{
    let mut i: usize = 0;
    while i < list.len()
        invariant
            0 <= i <= list@.len(),
            forall|j: int| 0 <= j < i ==> #[trigger] list@[j]@ != name@,
        decreases list@.len() - i,
    {
        if list[i] == *name {
            return Some(i);
        }
        i = i + 1;
    }
    None
}

/// The output-device choice from the devices the server lists, the device it
/// currently uses and the name selected so far. When the list is empty the
/// current device is listed; when nothing was selected the current device is;
/// the index is that of the first device of the selected name, or 0.
pub fn output_device_view(devices: Vec<String>, current: String, selected: String) -> (r: OutputDeviceView)
    ensures
        devices@.len() == 0 && current@.len() > 0 ==> r.devices@.len() == 1 && r.devices@[0]@ == current@,
        !(devices@.len() == 0 && current@.len() > 0) ==> r.devices@ == devices@,
        r.selected@ == (if selected@.len() == 0 && current@.len() > 0 {
            current@
        } else {
            selected@
        }),
        (exists|k: int| 0 <= k < r.devices@.len() && #[trigger] r.devices@[k]@ == r.selected@) ==> (r.index
            < r.devices@.len() && r.devices@[r.index as int]@ == r.selected@ && forall|j: int|
            0 <= j < r.index ==> #[trigger] r.devices@[j]@ != r.selected@),
        !(exists|k: int| 0 <= k < r.devices@.len() && #[trigger] r.devices@[k]@ == r.selected@) ==> r.index
            == 0,
{
    let mut list = devices;
    if list.len() == 0 && current.unicode_len() > 0 {
        list.push(current.clone());
    }
    let sel = if selected.unicode_len() == 0 && current.unicode_len() > 0 {
        current
    } else {
        selected
    };
    let pos = position_named(&list, &sel);
    let index = match pos {
        Some(i) => i,
        None => 0,
    };
    let r = OutputDeviceView { devices: list, selected: sel, index };
    proof {
        if pos is Some {
            assert(r.devices@[r.index as int]@ == r.selected@);
            assert(exists|k: int| 0 <= k < r.devices@.len() && #[trigger] r.devices@[k]@ == r.selected@);
        }
    }
    r
}

/// The device to switch to when the user picks entry `picked` of the list:
/// its name when it is not the one selected, `None` otherwise.
pub fn device_change(view: &OutputDeviceView, picked: usize) -> (r: Option<String>)
    requires
        picked != view.index ==> picked < view.devices@.len(),
    ensures
        picked == view.index ==> r is None,
        picked != view.index ==> (r matches Some(name) && name@ == view.devices@[picked as int]@),
{
    if picked == view.index {
        None
    } else {
        Some(view.devices[picked].clone())
    }
}

// ── Latency label ──────────────────────────────────────────────────────────

/// How good a measured round trip is.
#[derive(Debug, Clone, Copy, PartialEq, Eq)]
pub enum PingLevel {
    /// Nothing measured yet.
    Unknown,
    /// Under 20 ms.
    Good,
    /// Under 60 ms.
    Fair,
    /// 60 ms or more.
    Poor,
}

/// The level of a round trip of `ping_ms` (0: not measured).
pub fn ping_level(ping_ms: u16) -> (r: PingLevel)
    ensures
        r == (if ping_ms == 0 {
            PingLevel::Unknown
        } else if ping_ms < 20 {
            PingLevel::Good
        } else if ping_ms < 60 {
            PingLevel::Fair
        } else {
            PingLevel::Poor
        }),
{
    if ping_ms == 0 {
        PingLevel::Unknown
    } else if ping_ms < 20 {
        PingLevel::Good
    } else if ping_ms < 60 {
        PingLevel::Fair
    } else {
        PingLevel::Poor
    }
}

/// The latency label: `"--- ms"` when nothing was measured, else `"<n> ms"`.
pub fn ping_text(ping_ms: u16) -> (r: String)
    ensures
        ping_ms == 0 ==> r@ == "--- ms"@,
        ping_ms != 0 ==> r@ == decimal(ping_ms as nat) + " ms"@,
{
    if ping_ms == 0 {
        "--- ms".to_owned()
    } else {
        let mut s = decimal_string(ping_ms as u64);
        s.append(" ms");
        s
    }
}

// ── Bind address port ──────────────────────────────────────────────────────

/// Port used when a bind address names none that parses.
pub const DEFAULT_PORT: u16 = 9000;

pub open spec fn is_digit(c: char) -> bool {
    '0' <= c <= '9'
}

/// The value of a string of decimal digits.
pub open spec fn digits_value(d: Seq<char>) -> int
    decreases d.len(),
{
    if d.len() == 0 {
        0
    } else {
        digits_value(d.drop_last()) * 10 + (d.last() as int - '0' as int)
    }
}

/// The digits of an unsigned number: `s` without one leading `+`.
pub open spec fn unsigned_digits(s: Seq<char>) -> Seq<char> {
    if s.len() > 0 && s[0] == '+' {
        s.drop_first()
    } else {
        s
    }
}

/// The value of at least one decimal digit and nothing else, when it fits.
pub open spec fn parse_digits(d: Seq<char>) -> Option<u16> {
    if d.len() > 0 && (forall|i: int| 0 <= i < d.len() ==> is_digit(#[trigger] d[i])) && digits_value(d)
        <= u16::MAX {
        Some(digits_value(d) as u16)
    } else {
        None
    }
}

/// What parsing `s` as a `u16` gives: an optional `+`, then at least one
/// decimal digit and nothing else, with a value that fits.
pub open spec fn parse_u16(s: Seq<char>) -> Option<u16> {
    parse_digits(unsigned_digits(s))
}

/// Index of the last `:` in `s`, or -1.
pub open spec fn last_colon(s: Seq<char>) -> int
    decreases s.len(),
{
    if s.len() == 0 {
        -1
    } else if s.last() == ':' {
        s.len() - 1
    } else {
        last_colon(s.drop_last())
    }
}

/// The port of a bind address: what follows its last `:` (the whole text
/// when there is none), parsed as a `u16`; `DEFAULT_PORT` when that fails.
pub open spec fn bind_port(addr: Seq<char>) -> u16 {
    let tail = addr.subrange(last_colon(addr) + 1, addr.len() as int);
    match parse_u16(tail) {
        Some(p) => p,
        None => DEFAULT_PORT,
    }
}

proof fn lemma_last_colon(s: Seq<char>)
    ensures
        -1 <= last_colon(s) < s.len(),
        last_colon(s) >= 0 ==> s[last_colon(s)] == ':',
        forall|k: int| last_colon(s) < k < s.len() ==> s[k] != ':',
    decreases s.len(),
{
    if s.len() > 0 && s.last() != ':' {
        let t = s.drop_last();
        lemma_last_colon(t);
        assert forall|k: int| last_colon(s) < k < s.len() implies s[k] != ':' by {
            if k < s.len() - 1 {
                assert(s[k] == t[k]);
            }
        }
    }
}

proof fn lemma_digits_value_nonneg(d: Seq<char>)
    requires
        forall|i: int| 0 <= i < d.len() ==> is_digit(#[trigger] d[i]),
    ensures
        digits_value(d) >= 0,
    decreases d.len(),
{
    if d.len() > 0 {
        lemma_digits_value_nonneg(d.drop_last());
    }
}

proof fn lemma_digits_value_mono(d: Seq<char>, j: int)
    requires
        0 <= j <= d.len(),
        forall|i: int| 0 <= i < d.len() ==> is_digit(#[trigger] d[i]),
    ensures
        digits_value(d.subrange(0, j)) <= digits_value(d),
    decreases d.len() - j,
{
    if j < d.len() {
        lemma_digits_value_mono(d, j + 1);
        let p = d.subrange(0, j + 1);
        assert(p.drop_last() =~= d.subrange(0, j));
        assert(forall|i: int| 0 <= i < p.drop_last().len() ==> is_digit(#[trigger] p.drop_last()[i]));
        lemma_digits_value_nonneg(p.drop_last());
    } else {
        assert(d.subrange(0, j) =~= d);
    }
}

/// Parses the text after the last `:` of a bind address as a port, falling
/// back to `DEFAULT_PORT`.
pub fn port_from_bind_addr(addr: &str) -> (r: u16)
    ensures
        r == bind_port(addr@),
{
    let n = addr.unicode_len();
    proof {
        lemma_last_colon(addr@);
    }
    let mut start: usize = n;
    while start > 0 && addr.get_char(start - 1) != ':'
        invariant
            0 <= start <= n,
            n == addr@.len(),
            forall|k: int| start <= k < n ==> addr@[k] != ':',
        decreases start,
    {
        start = start - 1;
    }
    proof {
        let lc = last_colon(addr@);
        if lc + 1 > start {
            assert(addr@[lc] == ':');
        }
        if lc + 1 < start {
            assert(addr@[start - 1] == ':');
        }
        assert(start as int == lc + 1);
    }
    let ghost tail = addr@.subrange(start as int, n as int);
    let mut i: usize = start;
    if i < n && addr.get_char(i) == '+' {
        i = i + 1;
    }
    let ghost d = addr@.subrange(i as int, n as int);
    proof {
        if start < n && addr@[start as int] == '+' {
            assert(d =~= tail.drop_first());
        } else {
            assert(d =~= tail);
        }
        assert(unsigned_digits(tail) == d);
    }
    if i == n {
        return DEFAULT_PORT;
    }
    let first = i;
    let mut value: u32 = 0;
    proof {
        assert(addr@.subrange(first as int, first as int) =~= Seq::<char>::empty());
    }
    while i < n
        invariant
            first <= i <= n,
            n == addr@.len(),
            d == addr@.subrange(first as int, n as int),
            start as int == last_colon(addr@) + 1,
            unsigned_digits(addr@.subrange(start as int, n as int)) == d,
            forall|k: int| first <= k < i ==> is_digit(#[trigger] addr@[k]),
            value as int == digits_value(addr@.subrange(first as int, i as int)),
            value <= u16::MAX,
        decreases n - i,
    {
        let c = addr.get_char(i);
        if !('0' <= c && c <= '9') {
            proof {
                assert(d[i - first] == c);
                assert(!is_digit(d[i - first]));
            }
            return DEFAULT_PORT;
        }
        let dv = (c as u32) - ('0' as u32);
        let next = value * 10 + dv;
        let ghost p = addr@.subrange(first as int, i + 1);
        proof {
            assert(p.drop_last() =~= addr@.subrange(first as int, i as int));
            assert(p.last() == c);
            assert(next as int == digits_value(p));
        }
        if next > 65535 {
            proof {
                if forall|k: int| 0 <= k < d.len() ==> is_digit(#[trigger] d[k]) {
                    assert(p =~= d.subrange(0, i + 1 - first));
                    lemma_digits_value_mono(d, i + 1 - first);
                }
            }
            return DEFAULT_PORT;
        }
        value = next;
        i = i + 1;
    }
    proof {
        assert(addr@.subrange(first as int, n as int) =~= d);
        assert forall|k: int| 0 <= k < d.len() implies is_digit(#[trigger] d[k]) by {
            assert(d[k] == addr@[first + k]);
        }
    }
    value as u16
}

} // verus!
