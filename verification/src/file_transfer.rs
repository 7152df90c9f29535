//! File-transfer and clipboard packet types, chunk arithmetic and the
//! sanitisation of paths received from the network.
use vstd::prelude::*;
use crate::text::push_char;

verus! {

pub const PKT_FILE_REQUEST: u8 = 0x21;
pub const PKT_FILE_RESPONSE: u8 = 0x22;
pub const PKT_FILE_CHUNK: u8 = 0x23;
pub const PKT_FILE_CHUNK_ACK: u8 = 0x24;
pub const PKT_FILE_COMPLETE: u8 = 0x25;
pub const PKT_FILE_CANCEL: u8 = 0x26;
pub const PKT_CLIP_TEXT: u8 = 0x27;
pub const PKT_CLIP_IMAGE: u8 = 0x28;
pub const PKT_FILE_RESUME: u8 = 0x29;

/// 256 KiB per chunk.
pub const CHUNK_SIZE: usize = 256 * 1024;

/// Clipboard images larger than this are not synchronised.
pub const CLIP_IMAGE_MAX_BYTES: usize = 10 * 1024 * 1024;

/// Sender → receiver: "I want to send you this file."
#[derive(Debug, Clone)]
pub struct FileRequest {
    pub transfer_id: u32,
    /// Relative path, sanitised by the receiver before use.
    pub relative_path: String,
    pub total_size: u64,
    pub total_chunks: u32,
    /// SHA-256 of the whole file.
    pub sha256: [u8; 32],
}

/// Receiver → sender: accept, reject, or resume.
#[derive(Debug, Clone)]
pub struct FileResponse {
    pub transfer_id: u32,
    pub accepted: bool,
    pub reason: Option<String>,
    /// `Some(n)`: the receiver already has chunks `0..n`.
    pub resume_from: Option<u32>,
}

/// Sender → receiver: one chunk of file data.
#[derive(Debug, Clone)]
pub struct FileChunk {
    pub transfer_id: u32,
    pub chunk_idx: u32,
    pub crc32: u32,
    pub data: Vec<u8>,
}

/// Receiver → sender: chunk received and verified.
#[derive(Debug, Clone, Copy, PartialEq, Eq)]
pub struct FileChunkAck {
    pub transfer_id: u32,
    pub chunk_idx: u32,
}

/// Sender → receiver: all chunks have been sent.
#[derive(Debug, Clone, Copy, PartialEq, Eq)]
pub struct FileComplete {
    pub transfer_id: u32,
}

/// Either side: abort this transfer.
#[derive(Debug, Clone)]
pub struct FileCancel {
    pub transfer_id: u32,
    pub reason: String,
}

/// Receiver → sender: resume from a given chunk after a reconnect.
#[derive(Debug, Clone, Copy, PartialEq, Eq)]
pub struct FileResumeRequest {
    pub transfer_id: u32,
    pub resume_from_chunk: u32,
}

#[derive(Debug, Clone)]
pub enum FilePacket {
    Request(FileRequest),
    Response(FileResponse),
    Chunk(FileChunk),
    ChunkAck(FileChunkAck),
    Complete(FileComplete),
    Cancel(FileCancel),
    Resume(FileResumeRequest),
}

/// The packet-type byte of each file packet.
pub open spec fn file_packet_type(p: FilePacket) -> u8 {
    match p {
        FilePacket::Request(_) => PKT_FILE_REQUEST,
        FilePacket::Response(_) => PKT_FILE_RESPONSE,
        FilePacket::Chunk(_) => PKT_FILE_CHUNK,
        FilePacket::ChunkAck(_) => PKT_FILE_CHUNK_ACK,
        FilePacket::Complete(_) => PKT_FILE_COMPLETE,
        FilePacket::Cancel(_) => PKT_FILE_CANCEL,
        FilePacket::Resume(_) => PKT_FILE_RESUME,
    }
}

impl FilePacket {
    /// The packet-type byte that goes in this packet's header.
    pub fn pkt_type(&self) -> (r: u8)
        ensures
            r == file_packet_type(*self),
    {
        match self {
            FilePacket::Request(_) => PKT_FILE_REQUEST,
            FilePacket::Response(_) => PKT_FILE_RESPONSE,
            FilePacket::Chunk(_) => PKT_FILE_CHUNK,
            FilePacket::ChunkAck(_) => PKT_FILE_CHUNK_ACK,
            FilePacket::Complete(_) => PKT_FILE_COMPLETE,
            FilePacket::Cancel(_) => PKT_FILE_CANCEL,
            FilePacket::Resume(_) => PKT_FILE_RESUME,
        }
    }
}

#[derive(Debug, Clone)]
pub struct ClipboardText {
    pub content: String,
}

#[derive(Debug, Clone)]
pub struct ClipboardImage {
    pub width: usize,
    pub height: usize,
    /// Raw RGBA bytes.
    pub rgba: Vec<u8>,
}

#[derive(Debug, Clone)]
pub enum ClipboardPacket {
    Text(ClipboardText),
    Image(ClipboardImage),
}

/// The packet-type byte of each clipboard packet.
pub open spec fn clipboard_packet_type(p: ClipboardPacket) -> u8 {
    match p {
        ClipboardPacket::Text(_) => PKT_CLIP_TEXT,
        ClipboardPacket::Image(_) => PKT_CLIP_IMAGE,
    }
}

impl ClipboardPacket {
    /// The packet-type byte that goes in this packet's header.
    pub fn pkt_type(&self) -> (r: u8)
        ensures
            r == clipboard_packet_type(*self),
    {
        match self {
            ClipboardPacket::Text(_) => PKT_CLIP_TEXT,
            ClipboardPacket::Image(_) => PKT_CLIP_IMAGE,
        }
    }
}

// ── Chunk arithmetic ────────────────────────────────────────────────────────

/// The chunks of a file cover it, and the last one is not empty: `n` chunks
/// for `size` bytes means `(n - 1) * CHUNK_SIZE < size <= n * CHUNK_SIZE`
/// (for a non-empty file, when the count fits in 32 bits).
pub proof fn lemma_chunks_cover_file(size: u64)
    requires
        size + CHUNK_SIZE - 1 <= u64::MAX,
        (size + CHUNK_SIZE - 1) / (CHUNK_SIZE as int) <= u32::MAX,
    ensures
        ({
            let n = ((size + CHUNK_SIZE - 1) / (CHUNK_SIZE as int)) as u32 as int;
            &&& size <= n * CHUNK_SIZE
            &&& size > 0 ==> (n - 1) * CHUNK_SIZE < size
            &&& size == 0 ==> n == 0
        }),
{
    let c: int = CHUNK_SIZE as int;
    let t: int = size + c - 1;
    let q: int = t / c;
    assert(c == 262144);
    assert(q * c <= t < q * c + c) by (nonlinear_arith)
        requires
            c > 0,
            q == t / c,
            t >= 0,
    ;
    assert(q as u32 as int == q);
}

/// Resuming starts at the first byte the receiver lacks: the resume chunk
/// `k` for `part_len` bytes on disk satisfies
/// `k * CHUNK_SIZE <= part_len < (k + 1) * CHUNK_SIZE` (when `k` fits in 32
/// bits), so only whole chunks are kept and none is skipped.
pub proof fn lemma_resume_point(part_len: u64)
    requires
        part_len / (CHUNK_SIZE as u64) <= u32::MAX,
    ensures
        ({
            let k = (part_len / (CHUNK_SIZE as u64)) as u32 as int;
            &&& k * CHUNK_SIZE <= part_len
            &&& part_len < (k + 1) * CHUNK_SIZE
        }),
{
    let c: int = CHUNK_SIZE as int;
    let q: int = part_len as int / c;
    assert(c == 262144);
    assert(q * c <= part_len < q * c + c) by (nonlinear_arith)
        requires
            c > 0,
            q == part_len as int / c,
            part_len >= 0,
    ;
    assert((part_len / (CHUNK_SIZE as u64)) as u32 as int == q);
}

/// How many chunks a file of `size` bytes takes, truncated to 32 bits.
pub fn total_chunks_for(size: u64) -> (r: u32)
    requires
        size + CHUNK_SIZE - 1 <= u64::MAX,
    ensures
        r == ((size + CHUNK_SIZE - 1) / (CHUNK_SIZE as int)) as u32,
{
    let c: u64 = CHUNK_SIZE as u64;
    assert(c == 262144);
    ((size + (c - 1)) / c) as u32
}

/// The chunk to resume from when `part_len` bytes of the file are already on
/// disk: the number of whole chunks they hold, truncated to 32 bits.
pub fn resume_chunk_for(part_len: u64) -> (r: u32)
    ensures
        r == (part_len / (CHUNK_SIZE as u64)) as u32,
{
    (part_len / (CHUNK_SIZE as u64)) as u32
}

// ── Path sanitisation ───────────────────────────────────────────────────────

/// The `/`-separated pieces of `s` (one more than the number of slashes).
pub open spec fn split_slash(s: Seq<char>) -> Seq<Seq<char>>
    decreases s.len(),
{
    if s.len() == 0 {
        seq![Seq::<char>::empty()]
    } else {
        let r = split_slash(s.drop_last());
        if s.last() == '/' {
            r.push(Seq::<char>::empty())
        } else {
            r.update(r.len() - 1, r.last().push(s.last()))
        }
    }
}

/// A piece that names a file or directory: not empty, `.` or `..`.
pub open spec fn is_normal_piece(p: Seq<char>) -> bool {
    p.len() > 0 && p != seq!['.'] && p != seq!['.', '.']
}

/// The normal pieces of `ps`, in order.
pub open spec fn normal_pieces(ps: Seq<Seq<char>>) -> Seq<Seq<char>>
    decreases ps.len(),
{
    if ps.len() == 0 {
        ps
    } else {
        let r = normal_pieces(ps.drop_last());
        if is_normal_piece(ps.last()) {
            r.push(ps.last())
        } else {
            r
        }
    }
}

/// The pieces joined with `/`.
pub open spec fn join_slash(ps: Seq<Seq<char>>) -> Seq<char>
    decreases ps.len(),
{
    if ps.len() == 0 {
        Seq::<char>::empty()
    } else if ps.len() == 1 {
        ps[0]
    } else {
        join_slash(ps.drop_last()).push('/') + ps.last()
    }
}

/// The piece `..`, which climbs out of a folder.
pub open spec fn parent_piece() -> Seq<char> {
    seq!['.', '.']
}

/// What `sanitize_path` makes of `raw`: nothing for an absolute path, for a
/// path with a `..` piece (a traversal) or for one without any file or
/// directory name; otherwise its names joined with `/`, every empty and `.`
/// piece dropped.
pub open spec fn sanitized(raw: Seq<char>) -> Option<Seq<char>> {
    if raw.len() > 0 && raw[0] == '/' {
        None
    } else if split_slash(raw).contains(parent_piece()) {
        None
    } else {
        let ps = normal_pieces(split_slash(raw));
        if ps.len() == 0 {
            None
        } else {
            Some(join_slash(ps))
        }
    }
}

proof fn lemma_split_nonempty(s: Seq<char>)
    ensures
        split_slash(s).len() >= 1,
    decreases s.len(),
{
    if s.len() > 0 {
        lemma_split_nonempty(s.drop_last());
    }
}

proof fn lemma_join_push(ps: Seq<Seq<char>>, p: Seq<char>)
    ensures
        join_slash(ps.push(p)) == (if ps.len() == 0 { p } else { join_slash(ps).push('/') + p }),
{
    assert(ps.push(p).drop_last() =~= ps);
}

proof fn lemma_split_no_slash(s: Seq<char>)
    ensures
        forall|i: int, k: int|
            0 <= i < split_slash(s).len() && 0 <= k < split_slash(s)[i].len() ==> #[trigger] split_slash(
                s,
            )[i][k] != '/',
    decreases s.len(),
{
    if s.len() > 0 {
        let t = s.drop_last();
        lemma_split_no_slash(t);
        lemma_split_nonempty(t);
        let r = split_slash(t);
        if s.last() != '/' {
            let u = r.update(r.len() - 1, r.last().push(s.last()));
            assert forall|i: int, k: int| 0 <= i < u.len() && 0 <= k < u[i].len() implies #[trigger] u[i][k] != '/' by {
                if i == r.len() - 1 {
                    if k < r.last().len() {
                        assert(u[i][k] == r[i][k]);
                    }
                } else {
                    assert(u[i] == r[i]);
                }
            }
        } else {
            let u = r.push(Seq::<char>::empty());
            assert forall|i: int, k: int| 0 <= i < u.len() && 0 <= k < u[i].len() implies #[trigger] u[i][k] != '/' by {
                assert(u[i] == r[i]);
            }
        }
    }
}

proof fn lemma_normal_pieces(ps: Seq<Seq<char>>)
    ensures
        forall|i: int| 0 <= i < normal_pieces(ps).len() ==> is_normal_piece(#[trigger] normal_pieces(ps)[i]),
        forall|i: int| 0 <= i < normal_pieces(ps).len() ==> ps.contains(#[trigger] normal_pieces(ps)[i]),
        (forall|i: int| 0 <= i < ps.len() ==> is_normal_piece(#[trigger] ps[i])) ==> normal_pieces(ps) == ps,
    decreases ps.len(),
{
    if ps.len() > 0 {
        let t = ps.drop_last();
        lemma_normal_pieces(t);
        let r = normal_pieces(t);
        assert forall|i: int| 0 <= i < normal_pieces(ps).len() implies ps.contains(#[trigger] normal_pieces(ps)[i]) by {
            if i < r.len() {
                assert(normal_pieces(ps)[i] == r[i]);
                let k = choose|k: int| 0 <= k < t.len() && t[k] == r[i];
                assert(ps[k] == t[k]);
            } else {
                assert(ps[ps.len() - 1] == ps.last());
            }
        }
        if forall|i: int| 0 <= i < ps.len() ==> is_normal_piece(#[trigger] ps[i]) {
            assert forall|i: int| 0 <= i < t.len() implies is_normal_piece(#[trigger] t[i]) by {
                assert(t[i] == ps[i]);
            }
            assert(is_normal_piece(ps[ps.len() - 1]));
            assert(ps.drop_last().push(ps.last()) =~= ps);
        }
    }
}

/// Appending characters other than `/` only lengthens the last piece.
proof fn lemma_split_append(a: Seq<char>, p: Seq<char>)
    requires
        forall|k: int| 0 <= k < p.len() ==> p[k] != '/',
    ensures
        split_slash(a + p) == split_slash(a).update(
            split_slash(a).len() - 1,
            split_slash(a).last() + p,
        ),
    decreases p.len(),
{
    lemma_split_nonempty(a);
    if p.len() == 0 {
        assert(a + p =~= a);
        assert(split_slash(a).last() + p =~= split_slash(a).last());
        assert(split_slash(a).update(split_slash(a).len() - 1, split_slash(a).last())
            =~= split_slash(a));
    } else {
        let q = p.drop_last();
        lemma_split_append(a, q);
        assert((a + p).drop_last() =~= a + q);
        assert((a + p).last() == p.last());
        let r = split_slash(a);
        let rq = r.update(r.len() - 1, r.last() + q);
        assert(rq.last() == r.last() + q);
        assert((r.last() + q).push(p.last()) =~= r.last() + p);
        assert(rq.update(rq.len() - 1, rq.last().push(p.last())) =~= r.update(
            r.len() - 1,
            r.last() + p,
        ));
    }
}

/// Joining pieces that hold no `/` and splitting again gives them back.
proof fn lemma_split_join(ps: Seq<Seq<char>>)
    requires
        ps.len() >= 1,
        forall|i: int, k: int| 0 <= i < ps.len() && 0 <= k < ps[i].len() ==> #[trigger] ps[i][k] != '/',
    ensures
        split_slash(join_slash(ps)) == ps,
    decreases ps.len(),
{
    if ps.len() == 1 {
        assert(forall|k: int| 0 <= k < ps[0].len() ==> ps[0][k] != '/');
        lemma_split_append(Seq::<char>::empty(), ps[0]);
        assert(Seq::<char>::empty() + ps[0] =~= ps[0]);
        assert(split_slash(Seq::<char>::empty()) =~= seq![Seq::<char>::empty()]);
        assert(Seq::<char>::empty() + ps[0] =~= ps[0]);
        assert(seq![Seq::<char>::empty()].update(0, Seq::<char>::empty() + ps[0]) =~= ps);
    } else {
        let t = ps.drop_last();
        lemma_split_join(t);
        let a = join_slash(t).push('/');
        assert(a.drop_last() =~= join_slash(t));
        assert(split_slash(a) == split_slash(join_slash(t)).push(Seq::<char>::empty()));
        let p = ps.last();
        assert forall|k: int| 0 <= k < p.len() implies p[k] != '/' by {
            assert(p[k] == ps[ps.len() - 1][k]);
        }
        lemma_split_append(a, p);
        let r = t.push(Seq::<char>::empty());
        assert(Seq::<char>::empty() + p =~= p);
        assert(r.update(r.len() - 1, r.last() + p) =~= ps);
    }
}

proof fn lemma_join_first(ps: Seq<Seq<char>>)
    requires
        ps.len() >= 1,
        ps[0].len() > 0,
    ensures
        join_slash(ps).len() > 0,
        join_slash(ps)[0] == ps[0][0],
    decreases ps.len(),
{
    if ps.len() > 1 {
        let t = ps.drop_last();
        assert(t[0] == ps[0]);
        lemma_join_first(t);
    }
}

/// A sanitised path is clean: it is relative, each of its `/`-separated
/// pieces names a file or directory (none is empty, `.` or `..`), and
/// sanitising it again changes nothing. A path with a `..` piece is refused.
pub proof fn lemma_sanitized_is_clean(raw: Seq<char>)
    ensures
        split_slash(raw).contains(parent_piece()) ==> sanitized(raw) is None,
        sanitized(raw) matches Some(p) ==> {
            &&& p.len() > 0
            &&& p[0] != '/'
            &&& forall|i: int| 0 <= i < split_slash(p).len() ==> is_normal_piece(#[trigger] split_slash(p)[i])
            &&& sanitized(p) == Some(p)
        },
{
    if let Some(p) = sanitized(raw) {
        let ps = normal_pieces(split_slash(raw));
        lemma_normal_pieces(split_slash(raw));
        lemma_split_no_slash(raw);
        assert forall|i: int, k: int| 0 <= i < ps.len() && 0 <= k < ps[i].len() implies #[trigger] ps[i][k]
            != '/' by {
            let j = choose|j: int| 0 <= j < split_slash(raw).len() && split_slash(raw)[j] == ps[i];
            assert(split_slash(raw)[j][k] != '/');
        }
        lemma_split_join(ps);
        assert(is_normal_piece(ps[0]));
        lemma_join_first(ps);
        assert(ps[0][0] != '/');
        lemma_normal_pieces(ps);
        let q = split_slash(p);
        if q.contains(parent_piece()) {
            let k = choose|k: int| 0 <= k < q.len() && q[k] == parent_piece();
            assert(is_normal_piece(q[k]));
            assert(false);
        }
    }
}

proof fn lemma_push_contains(s: Seq<Seq<char>>, a: Seq<char>, x: Seq<char>)
    ensures
        s.push(a).contains(x) <==> (s.contains(x) || a == x),
{
    if s.contains(x) {
        let k = choose|k: int| 0 <= k < s.len() && s[k] == x;
        assert(s.push(a)[k] == x);
    }
    if a == x {
        assert(s.push(a)[s.len() as int] == x);
    }
    if s.push(a).contains(x) {
        let k = choose|k: int| 0 <= k < s.push(a).len() && s.push(a)[k] == x;
        if k < s.len() {
            assert(s[k] == x);
        }
    }
}

/// Makes a path received from the network safe to use under the receive
/// folder: `None` when it is absolute, climbs with a `..` piece or names
/// nothing, otherwise the path with every `.` and empty piece removed.
pub fn sanitize_path(raw: &str) -> (r: Option<String>)
    ensures
        match r {
            Some(p) => sanitized(raw@) == Some(p@),
            None => sanitized(raw@) is None,
        },
{
    let n = raw.unicode_len();
    if n > 0 && raw.get_char(0) == '/' {
        return None;
    }
    let mut out = String::new();
    let mut count: usize = 0;
    let mut cur = String::new();
    let mut cur_len: usize = 0;
    let mut cur_dots = true;
    let mut climbs = false;
    let mut i: usize = 0;
    proof {
        assert(raw@.subrange(0, 0) =~= Seq::<char>::empty());
        assert(split_slash(raw@.subrange(0, 0)).drop_last() =~= Seq::<Seq<char>>::empty());
    }
    while i < n
        invariant
            n == raw@.len(),
            0 <= i <= n,
            split_slash(raw@.subrange(0, i as int)).len() >= 1,
            cur@ == split_slash(raw@.subrange(0, i as int)).last(),
            cur_len == cur@.len(),
            cur_dots == (forall|k: int| 0 <= k < cur@.len() ==> cur@[k] == '.'),
            out@ == join_slash(normal_pieces(split_slash(raw@.subrange(0, i as int)).drop_last())),
            count == normal_pieces(split_slash(raw@.subrange(0, i as int)).drop_last()).len(),
            count + cur_len <= i,
            climbs == split_slash(raw@.subrange(0, i as int)).drop_last().contains(parent_piece()),
        decreases n - i,
    {
        let c = raw.get_char(i);
        let ghost pre = raw@.subrange(0, i as int);
        let ghost segs = split_slash(pre);
        proof {
            assert(raw@.subrange(0, i + 1).drop_last() =~= pre);
            assert(raw@.subrange(0, i + 1).last() == c);
            lemma_split_nonempty(pre);
        }
        if c == '/' {
            let normal = cur_len > 0 && !(cur_dots && cur_len <= 2);
            proof {
                let np = split_slash(raw@.subrange(0, i + 1));
                assert(np == segs.push(Seq::<char>::empty()));
                assert(np.drop_last() =~= segs);
                assert(segs.drop_last().push(segs.last()) =~= segs);
                if cur_len == 1 && cur_dots {
                    assert(cur@ =~= seq!['.']);
                }
                if cur_len == 2 && cur_dots {
                    assert(cur@ =~= seq!['.', '.']);
                }
                if cur_len == 1 && !cur_dots {
                    assert(cur@ != seq!['.']);
                }
                assert(normal == is_normal_piece(segs.last()));
                lemma_join_push(normal_pieces(segs.drop_last()), cur@);
                lemma_push_contains(segs.drop_last(), segs.last(), parent_piece());
                if cur_len == 2 && cur_dots {
                    assert(cur@ == parent_piece());
                } else {
                    if cur@ == parent_piece() {
                        assert(cur@[0] == '.' && cur@[1] == '.');
                    }
                }
            }
            if cur_len == 2 && cur_dots {
                climbs = true;
            }
            if normal {
                if count > 0 {
                    push_char(&mut out, '/');
                }
                out.append(cur.as_str());
                count = count + 1;
            }
            cur = String::new();
            cur_len = 0;
            cur_dots = true;
        } else {
            proof {
                let np = split_slash(raw@.subrange(0, i + 1));
                assert(np == segs.update(segs.len() - 1, segs.last().push(c)));
                assert(np.drop_last() =~= segs.drop_last());
            }
            let ghost old_cur = cur@;
            push_char(&mut cur, c);
            cur_len = cur_len + 1;
            cur_dots = cur_dots && c == '.';
            proof {
                assert(cur@ == old_cur.push(c));
                if cur_dots {
                    assert forall|k: int| 0 <= k < cur@.len() implies cur@[k] == '.' by {
                        if k < old_cur.len() {
                            assert(cur@[k] == old_cur[k]);
                        }
                    }
                } else {
                    if c == '.' {
                        let k = choose|k: int| 0 <= k < old_cur.len() && old_cur[k] != '.';
                        assert(cur@[k] == old_cur[k]);
                    } else {
                        assert(cur@[cur@.len() - 1] == c);
                    }
                }
            }
        }
        i = i + 1;
    }
    proof {
        let segs = split_slash(raw@.subrange(0, n as int));
        assert(raw@.subrange(0, n as int) =~= raw@);
        assert(segs.drop_last().push(segs.last()) =~= segs);
        if cur_len == 1 && cur_dots {
            assert(cur@ =~= seq!['.']);
        }
        if cur_len == 2 && cur_dots {
            assert(cur@ =~= seq!['.', '.']);
        } else {
            if cur@ == parent_piece() {
                assert(cur@[0] == '.' && cur@[1] == '.');
            }
        }
        lemma_join_push(normal_pieces(segs.drop_last()), cur@);
        lemma_push_contains(segs.drop_last(), segs.last(), parent_piece());
    }
    if climbs || (cur_len == 2 && cur_dots) {
        return None;
    }
    let normal = cur_len > 0 && !(cur_dots && cur_len <= 2);
    if normal {
        if count > 0 {
            push_char(&mut out, '/');
        }
        out.append(cur.as_str());
        count = count + 1;
    }
    if count == 0 {
        None
    } else {
        Some(out)
    }
}

} // verus!
