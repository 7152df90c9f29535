//! The decisions of the chunked file-transfer protocol, for both ends.
//!
//! Sender: request → wait for the response → for each chunk, send it and
//! wait for its acknowledgement → complete. Receiver: check the path → answer
//! (possibly resuming) → verify and store each chunk → finish on complete.
use vstd::prelude::*;
use crate::file_transfer::{
    FileCancel, FileChunk, FileChunkAck, FileComplete, FilePacket, FileRequest, FileResponse,
    CHUNK_SIZE,
};
use crate::text::{decimal, push_decimal};
use crate::tls::sha256_of;

verus! {

/// CRC-32 (IEEE) of the bytes, as the `crc32fast` crate computes it.
pub uninterp spec fn crc32_of(data: Seq<u8>) -> u32;

/// `crc32fast::hash`: the CRC-32 checksum of `data`. Its value is taken as
/// named by `crc32_of`; nothing else is assumed of it.
#[verifier::external_body]
fn crc32(data: &[u8]) -> (r: u32)
    ensures
        r == crc32_of(data@),
{
    crc32fast::hash(data)
}

/// A SHA-256 computation in progress: sha2's `Sha256`, held whole. Only the
/// bytes fed to it so far are visible, as `digest_input`.
#[verifier::external_body]
pub struct FileDigest {
    h: sha2::Sha256,
}

/// The bytes fed so far to a SHA-256 computation.
pub uninterp spec fn digest_input(d: FileDigest) -> Seq<u8>;

/// sha2's `Sha256::new`: a computation that has been fed nothing.
#[verifier::external_body]
fn digest_new() -> (d: FileDigest)
    ensures
        digest_input(d) == Seq::<u8>::empty(),
{
    FileDigest { h: <sha2::Sha256 as sha2::Digest>::new() }
}

/// sha2's `Sha256::update`: `data` is fed after what came before.
#[verifier::external_body]
fn digest_update(d: &mut FileDigest, data: &[u8])
    ensures
        digest_input(*final(d)) == digest_input(*old(d)) + data@,
{
    sha2::Digest::update(&mut d.h, data)
}

/// sha2's `Sha256::finalize`: the SHA-256 digest of everything fed, the
/// same as `Sha256::digest` of those bytes in one piece.
#[verifier::external_body]
fn digest_finish(d: FileDigest) -> (r: [u8; 32])
    ensures
        r@ == sha256_of(digest_input(d)),
{
    sha2::Digest::finalize(d.h).into()
}

impl FileDigest {
    /// The digest of nothing yet.
    pub fn new() -> (r: FileDigest)
        ensures
            digest_input(r) == Seq::<u8>::empty(),
    {
        digest_new()
    }

    /// Feeds `data` after what came before.
    pub fn update(&mut self, data: &[u8])
        ensures
            digest_input(*final(self)) == digest_input(*old(self)) + data@,
    {
        digest_update(self, data)
    }

    /// The SHA-256 digest of everything fed.
    pub fn finish(self) -> (r: [u8; 32])
        ensures
            r@ == sha256_of(digest_input(self)),
    {
        digest_finish(self)
    }
}

/// Whether a chunk's data matches the checksum it carries.
pub fn chunk_is_intact(chunk: &FileChunk) -> (r: bool)
    ensures
        r == (crc32_of(chunk.data@) == chunk.crc32),
{
    crc32(chunk.data.as_slice()) == chunk.crc32
}

/// A chunk carrying `data` and its checksum.
pub fn make_chunk(transfer_id: u32, chunk_idx: u32, data: Vec<u8>) -> (r: FileChunk)
    ensures
        r.transfer_id == transfer_id,
        r.chunk_idx == chunk_idx,
        r.data@ == data@,
        r.crc32 == crc32_of(data@),
{
    let crc = crc32(data.as_slice());
    FileChunk { transfer_id, chunk_idx, crc32: crc, data }
}

/// Transfer ids handed out by one side: consecutive, wrapping after
/// `u32::MAX`. The server starts at 1, the client at 1000 so that the two
/// ranges differ.
#[derive(Debug)]
pub struct TransferIds {
    next: u32,
}

impl TransferIds {
    /// The id the next transfer gets.
    pub closed spec fn current(&self) -> u32 {
        self.next
    }

    /// The server's ids: 1, 2, ...
    pub fn for_server() -> (r: TransferIds)
        ensures
            r.current() == 1,
    {
        TransferIds { next: 1 }
    }

    /// The client's ids: 1000, 1001, ...
    pub fn for_client() -> (r: TransferIds)
        ensures
            r.current() == 1000,
    {
        TransferIds { next: 1000 }
    }

    /// Hands out the current id and moves on.
    pub fn next_transfer_id(&mut self) -> (r: u32)
        ensures
            r == old(self).current(),
            final(self).current() == (old(self).current() + 1) % 0x1_0000_0000,
    {
        let r = self.next;
        self.next = self.next.wrapping_add(1);
        r
    }
}

/// The text a rejection or cancellation carries: its reason, or nothing.
pub open spec fn reason_text(reason: Option<String>) -> Seq<char> {
    match reason {
        Some(s) => s@,
        None => Seq::<char>::empty(),
    }
}

/// Why a file is not sent after its request.
#[derive(Debug)]
pub enum SendError {
    /// The receiver refused the file, for this reason.
    Rejected(String),
    /// The receiver answered the request with something other than a response.
    UnexpectedResponse,
}

/// The request announcing a file: its id, path, size, chunk count and digest.
pub fn file_request(transfer_id: u32, relative_path: &str, total_size: u64, sha256: [u8; 32]) -> (r:
    FilePacket)
    requires
        total_size + CHUNK_SIZE - 1 <= u64::MAX,
    ensures
        r matches FilePacket::Request(q) && q.transfer_id == transfer_id && q.relative_path@
            == relative_path@ && q.total_size == total_size && q.total_chunks == ((total_size
            + CHUNK_SIZE - 1) / (CHUNK_SIZE as int)) as u32 && q.sha256 == sha256,
{
    let total_chunks = crate::file_transfer::total_chunks_for(total_size);
    FilePacket::Request(
        FileRequest {
            transfer_id,
            relative_path: relative_path.to_owned(),
            total_size,
            total_chunks,
            sha256,
        },
    )
}

/// The chunk an accepting answer tells the sender to start from: its resume
/// point, or 0 when it names none; `None` for any other packet.
pub open spec fn accepted_start(resp: FilePacket) -> Option<u32> {
    match resp {
        FilePacket::Response(x) => if x.accepted {
            Some(
                match x.resume_from {
                    Some(n) => n,
                    None => 0,
                },
            )
        } else {
            None
        },
        _ => None,
    }
}

/// The chunk to start sending from, read off the receiver's answer to a
/// request: the resume point of an acceptance (0 when none), or why not.
pub fn start_chunk_from_response(resp: FilePacket) -> (r: Result<u32, SendError>)
    ensures
        accepted_start(resp) matches Some(n) ==> r == Ok::<u32, SendError>(n),
        match resp {
            FilePacket::Response(x) => if x.accepted {
                r == Ok::<u32, SendError>(
                    match x.resume_from {
                        Some(n) => n,
                        None => 0,
                    },
                )
            } else {
                r matches Err(SendError::Rejected(why)) && why@ == reason_text(x.reason)
            },
            _ => r matches Err(SendError::UnexpectedResponse),
        },
{
    match resp {
        FilePacket::Response(x) => {
            if x.accepted {
                Ok(
                    match x.resume_from {
                        Some(n) => n,
                        None => 0,
                    },
                )
            } else {
                let why = match x.reason {
                    Some(s) => s,
                    None => String::new(),
                };
                Err(SendError::Rejected(why))
            }
        },
        _ => Err(SendError::UnexpectedResponse),
    }
}

/// What the sender makes of the answer to a chunk.
#[derive(Debug)]
pub enum AckOutcome {
    /// The expected acknowledgement.
    Acknowledged,
    /// Something else that does not stop the transfer.
    Unexpected,
    /// The receiver cancelled, for this reason.
    Cancelled(String),
}

/// The sending side of one transfer: which chunk goes next.
#[derive(Debug)]
pub struct ChunkSender {
    transfer_id: u32,
    next_chunk: u32,
    total_chunks: u32,
}

impl ChunkSender {
    pub closed spec fn id(&self) -> u32 {
        self.transfer_id
    }

    /// The index of the next chunk to send.
    pub closed spec fn next(&self) -> u32 {
        self.next_chunk
    }

    pub closed spec fn total(&self) -> u32 {
        self.total_chunks
    }

    /// Starts sending at chunk `start` of `total_chunks`.
    pub fn new(transfer_id: u32, start: u32, total_chunks: u32) -> (r: ChunkSender)
        ensures
            r.id() == transfer_id,
            r.next() == start,
            r.total() == total_chunks,
    {
        ChunkSender { transfer_id, next_chunk: start, total_chunks }
    }

    /// The index of the chunk to read and send next, or `None` once all are sent.
    pub fn next_index(&self) -> (r: Option<u32>)
        ensures
            self.next() < self.total() ==> r == Some(self.next()),
            self.next() >= self.total() ==> r is None,
    {
        if self.next_chunk < self.total_chunks {
            Some(self.next_chunk)
        } else {
            None
        }
    }

    /// The packet carrying the next chunk's data.
    pub fn chunk_packet(&self, data: Vec<u8>) -> (r: FilePacket)
        ensures
            r matches FilePacket::Chunk(c) && c.transfer_id == self.id() && c.chunk_idx == self.next()
                && c.data@ == data@ && c.crc32 == crc32_of(data@),
    {
        FilePacket::Chunk(make_chunk(self.transfer_id, self.next_chunk, data))
    }

    /// Takes the receiver's answer to the chunk just sent. Anything but a
    /// cancellation moves on to the next chunk.
    pub fn on_ack(&mut self, ack: &FilePacket) -> (r: AckOutcome)
        requires
            old(self).next() < old(self).total(),
        ensures
            final(self).id() == old(self).id(),
            final(self).total() == old(self).total(),
            ack_accepted(old(self).next(), *ack) ==> r matches AckOutcome::Acknowledged,
            match *ack {
                FilePacket::ChunkAck(a) => a.chunk_idx != old(self).next() ==> r matches AckOutcome::Unexpected,
                FilePacket::Cancel(c) => r matches AckOutcome::Cancelled(why) && why@ == c.reason@,
                _ => r matches AckOutcome::Unexpected,
            },
            r matches AckOutcome::Cancelled(_) ==> final(self).next() == old(self).next(),
            !(r matches AckOutcome::Cancelled(_)) ==> final(self).next() == old(self).next() + 1,
    {
        let r = match ack {
            FilePacket::ChunkAck(a) => {
                if a.chunk_idx == self.next_chunk {
                    AckOutcome::Acknowledged
                } else {
                    AckOutcome::Unexpected
                }
            },
            FilePacket::Cancel(c) => AckOutcome::Cancelled(c.reason.clone()),
            _ => AckOutcome::Unexpected,
        };
        match r {
            AckOutcome::Cancelled(_) => {},
            _ => {
                self.next_chunk = self.next_chunk + 1;
            },
        }
        r
    }

    /// The packet that ends the transfer.
    pub fn complete_packet(&self) -> (r: FilePacket)
        ensures
            r matches FilePacket::Complete(c) && c.transfer_id == self.id(),
    {
        FilePacket::Complete(FileComplete { transfer_id: self.transfer_id })
    }
}

// ── Receiving side ──────────────────────────────────────────────────────────

/// The answer to a request whose path does not sanitise.
pub fn invalid_path_response(transfer_id: u32) -> (r: FilePacket)
    ensures
        r matches FilePacket::Response(x) && x.transfer_id == transfer_id && !x.accepted
            && (x.reason matches Some(why) && why@ == "invalid path"@) && x.resume_from is None,
{
    FilePacket::Response(
        FileResponse {
            transfer_id,
            accepted: false,
            reason: Some("invalid path".to_owned()),
            resume_from: None,
        },
    )
}

/// The acceptance of a request, asking to resume at `resume_from` when the
/// receiver already holds some chunks.
pub fn accept_response(transfer_id: u32, resume_from: u32) -> (r: FilePacket)
    ensures
        r matches FilePacket::Response(x) && x.transfer_id == transfer_id && x.accepted
            && x.reason is None && x.resume_from == (if resume_from > 0 {
            Some(resume_from)
        } else {
            None
        }),
{
    FilePacket::Response(
        FileResponse {
            transfer_id,
            accepted: true,
            reason: None,
            resume_from: if resume_from > 0 {
                Some(resume_from)
            } else {
                None
            },
        },
    )
}

/// The answer to a request whose path is safe, once the user was asked
/// before anything is written: the acceptance (resuming at `resume_from`
/// when chunks are already on disk) when the user agreed, otherwise a
/// refusal saying `declined`.
pub fn consent_response(transfer_id: u32, user_accepts: bool, resume_from: u32) -> (r: FilePacket)
    ensures
        r matches FilePacket::Response(x) && x.transfer_id == transfer_id && x.accepted == user_accepts,
        user_accepts ==> (r matches FilePacket::Response(x) && x.reason is None && x.resume_from == (
        if resume_from > 0 {
            Some(resume_from)
        } else {
            None
        })),
        !user_accepts ==> (r matches FilePacket::Response(x) && (x.reason matches Some(why) && why@
            == "declined"@) && x.resume_from is None),
{
    if user_accepts {
        accept_response(transfer_id, resume_from)
    } else {
        FilePacket::Response(
            FileResponse {
                transfer_id,
                accepted: false,
                reason: Some("declined".to_owned()),
                resume_from: None,
            },
        )
    }
}

/// The reason sent when chunk `idx` fails its checksum.
pub open spec fn crc_mismatch_reason(idx: u32) -> Seq<char> {
    "CRC32 mismatch chunk "@ + decimal(idx as nat)
}

/// How the receiver of a transfer takes a chunk.
pub enum ChunkVerdict {
    /// It belongs to another transfer.
    Foreign,
    /// Its data matches its checksum.
    Intact,
    /// Its data does not match its checksum.
    Corrupt,
}

/// The verdict of the receiver of transfer `id` on chunk `c`.
pub open spec fn chunk_verdict(id: u32, c: FileChunk) -> ChunkVerdict {
    if c.transfer_id != id {
        ChunkVerdict::Foreign
    } else if crc32_of(c.data@) == c.crc32 {
        ChunkVerdict::Intact
    } else {
        ChunkVerdict::Corrupt
    }
}

/// The sender, about to move past chunk `next`, takes `ack` as its
/// acknowledgement.
pub open spec fn ack_accepted(next: u32, ack: FilePacket) -> bool {
    ack matches FilePacket::ChunkAck(a) && a.chunk_idx == next
}

/// What the receiver does with one packet of a transfer.
#[derive(Debug)]
pub enum ReceiveStep {
    /// Write the data to the file and send the acknowledgement.
    Store { data: Vec<u8>, ack: FilePacket },
    /// The chunk is corrupt: send the cancellation and fail.
    Corrupt { cancel: FilePacket },
    /// All chunks have arrived: check the digest and keep the file.
    Complete,
    /// The sender cancelled, for this reason.
    Aborted { reason: String },
    /// A packet of no concern here: log it and go on.
    Ignored,
}

/// The receiving side of one transfer: the chunks stored so far, and the
/// digest of the file's bytes kept on disk.
pub struct ChunkReceiver {
    transfer_id: u32,
    received: u32,
    digest: FileDigest,
}

impl ChunkReceiver {
    pub closed spec fn id(&self) -> u32 {
        self.transfer_id
    }

    /// How many chunks are on disk (wrapping after `u32::MAX`).
    pub closed spec fn received(&self) -> u32 {
        self.received
    }

    /// The bytes of the file kept so far: those already on disk when the
    /// transfer started, then the data of every stored chunk.
    pub closed spec fn kept(&self) -> Seq<u8> {
        digest_input(self.digest)
    }

    /// Starts receiving, with chunks `0..resume_from` already on disk and
    /// `kept` fed their bytes.
    pub fn new(transfer_id: u32, resume_from: u32, kept: FileDigest) -> (r: ChunkReceiver)
        ensures
            r.id() == transfer_id,
            r.received() == resume_from,
            r.kept() == digest_input(kept),
    {
        ChunkReceiver { transfer_id, received: resume_from, digest: kept }
    }

    /// Ends the transfer: whether the SHA-256 digest of the kept bytes is the
    /// one the request announced.
    pub fn finish(self, expected: &[u8; 32]) -> (r: bool)
        ensures
            r == (sha256_of(self.kept()) == expected@),
    {
        let computed = digest_finish(self.digest);
        digest_matches(&computed, expected)
    }

    /// Decides what to do with a packet read during the transfer.
    pub fn on_packet(&mut self, pkt: FilePacket) -> (r: ReceiveStep)
        ensures
            final(self).id() == old(self).id(),
            r matches ReceiveStep::Store { data, .. } ==> final(self).kept() == old(self).kept() + data@,
            !(r is Store) ==> final(self).kept() == old(self).kept(),
            match pkt {
                FilePacket::Chunk(c) => if chunk_verdict(old(self).id(), c) == ChunkVerdict::Foreign {
                    r matches ReceiveStep::Ignored && final(self).received() == old(self).received()
                } else if chunk_verdict(old(self).id(), c) == ChunkVerdict::Intact {
                    &&& r matches ReceiveStep::Store { data, ack }
                    &&& data@ == c.data@
                    &&& ack matches FilePacket::ChunkAck(a)
                    &&& a.transfer_id == old(self).id()
                    &&& a.chunk_idx == c.chunk_idx
                    &&& final(self).received() == (old(self).received() + 1) % 0x1_0000_0000
                } else {
                    &&& r matches ReceiveStep::Corrupt { cancel }
                    &&& cancel matches FilePacket::Cancel(x)
                    &&& x.transfer_id == old(self).id()
                    &&& x.reason@ == crc_mismatch_reason(c.chunk_idx)
                    &&& final(self).received() == old(self).received()
                },
                FilePacket::Complete(c) => final(self).received() == old(self).received() && if c.transfer_id
                    == old(self).id() {
                    r matches ReceiveStep::Complete
                } else {
                    r matches ReceiveStep::Ignored
                },
                FilePacket::Cancel(c) => final(self).received() == old(self).received() && (
                r matches ReceiveStep::Aborted { reason } && reason@ == c.reason@),
                _ => final(self).received() == old(self).received() && r matches ReceiveStep::Ignored,
            },
    {
        match pkt {
            FilePacket::Chunk(c) => {
                if c.transfer_id != self.transfer_id {
                    ReceiveStep::Ignored
                } else if chunk_is_intact(&c) {
                    self.received = self.received.wrapping_add(1);
                    digest_update(&mut self.digest, c.data.as_slice());
                    let ack = FilePacket::ChunkAck(
                        FileChunkAck { transfer_id: self.transfer_id, chunk_idx: c.chunk_idx },
                    );
                    ReceiveStep::Store { data: c.data, ack }
                } else {
                    let mut reason = "CRC32 mismatch chunk ".to_owned();
                    push_decimal(&mut reason, c.chunk_idx as u64);
                    ReceiveStep::Corrupt {
                        cancel: FilePacket::Cancel(
                            FileCancel { transfer_id: self.transfer_id, reason },
                        ),
                    }
                }
            },
            FilePacket::Complete(c) => {
                if c.transfer_id == self.transfer_id {
                    ReceiveStep::Complete
                } else {
                    ReceiveStep::Ignored
                }
            },
            FilePacket::Cancel(c) => ReceiveStep::Aborted { reason: c.reason },
            _ => ReceiveStep::Ignored,
        }
    }
}

/// Whether the digest computed over the received file is the announced one.
pub fn digest_matches(computed: &[u8; 32], expected: &[u8; 32]) -> (r: bool)
    ensures
        r == (computed@ == expected@),
{
    let mut i: usize = 0;
    while i < 32
        invariant
            0 <= i <= 32,
            computed@.len() == 32,
            expected@.len() == 32,
            forall|k: int| 0 <= k < i ==> computed@[k] == expected@[k],
        decreases 32 - i,
    {
        if computed[i] != expected[i] {
            return false;
        }
        i = i + 1;
    }
    assert(computed@ =~= expected@);
    true
}

/// A chunk the sender made for its transfer reaches the receiver of that
/// transfer intact: the receiver stores it, and the acknowledgement it sends
/// back for the chunk's index is the one the sender waits for.
pub proof fn lemma_sent_chunk_accepted(id: u32, next: u32, data: Seq<u8>, c: FileChunk)
    requires
        c.transfer_id == id,
        c.chunk_idx == next,
        c.data@ == data,
        c.crc32 == crc32_of(data),
    ensures
        chunk_verdict(id, c) == ChunkVerdict::Intact,
        ack_accepted(next, FilePacket::ChunkAck(FileChunkAck { transfer_id: id, chunk_idx: c.chunk_idx })),
{
}

/// The receiver and the sender agree on where a transfer resumes: an
/// acceptance made with `resume_from` chunks already on disk makes the
/// sender start at chunk `resume_from`.
pub proof fn lemma_resume_agreement(transfer_id: u32, resume_from: u32, resp: FilePacket)
    requires
        resp matches FilePacket::Response(x) && x.transfer_id == transfer_id && x.accepted
            && x.reason is None && x.resume_from == (if resume_from > 0 {
            Some(resume_from)
        } else {
            None
        }),
    ensures
        accepted_start(resp) == Some(resume_from),
{
}

} // verus!
