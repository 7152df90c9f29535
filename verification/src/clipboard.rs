//! Clipboard sharing decisions: what of the local clipboard to offer, and
//! whether it changed since it was last sent.
use vstd::prelude::*;
use std::collections::hash_map::DefaultHasher;
use std::hash::Hasher;
use vstd::std_specs::hash::DefaultHasherAdditionalSpecFns;
use crate::file_transfer::{ClipboardImage, ClipboardPacket, ClipboardText, CLIP_IMAGE_MAX_BYTES};

verus! {

/// The little-endian bytes of `v`, `count` of them.
pub open spec fn le_bytes(v: nat, count: nat) -> Seq<u8>
    decreases count,
{
    if count == 0 {
        Seq::empty()
    } else {
        seq![(v % 256) as u8] + le_bytes(v / 256, (count - 1) as nat)
    }
}

/// The prefix std's `Hash` writes before the bytes of a slice: the slice's
/// length as a `usize`, in a little-endian machine's byte order.
pub open spec fn length_prefix(len: nat) -> Seq<u8> {
    le_bytes(len, (usize::BITS / 8) as nat)
}

/// The fingerprint of an image's pixels, as std's `Hash` of the byte vector
/// gives it with a `DefaultHasher`: the length prefix, then the bytes.
pub open spec fn image_fingerprint(rgba: Seq<u8>) -> u64 {
    DefaultHasher::spec_finish(seq![length_prefix(rgba.len()), rgba])
}

fn length_prefix_bytes(n: usize) -> (r: Vec<u8>)
    ensures
        r@ == length_prefix(n as nat),
{
    let width: u32 = usize::BITS / 8;
    let mut out: Vec<u8> = Vec::new();
    let mut v: usize = n;
    let mut k: u32 = 0;
    proof {
        assert(out@ + le_bytes(v as nat, (width - k) as nat) =~= le_bytes(n as nat, width as nat));
    }
    while k < width
        invariant
            k <= width,
            width == usize::BITS / 8,
            out@ + le_bytes(v as nat, (width - k) as nat) == le_bytes(n as nat, width as nat),
        decreases width - k,
    {
        let ghost before = out@;
        let ghost c = (width - k) as nat;
        let b = (v % 256) as u8;
        out.push(b);
        proof {
            assert(le_bytes(v as nat, c) == seq![b] + le_bytes((v / 256) as nat, (c - 1) as nat));
            assert(out@ + le_bytes((v / 256) as nat, (c - 1) as nat) =~= before + le_bytes(v as nat, c));
        }
        v = v / 256;
        k = k + 1;
    }
    proof {
        assert(out@ + le_bytes(v as nat, 0) =~= out@);
    }
    out
}

/// The fingerprint of an image's pixels (see `image_fingerprint`).
pub fn fingerprint(rgba: &[u8]) -> (r: u64)
    ensures
        r == image_fingerprint(rgba@),
{
    let prefix = length_prefix_bytes(rgba.len());
    let mut h = DefaultHasher::new();
    h.write(prefix.as_slice());
    h.write(rgba);
    assert(h@ =~= seq![length_prefix(rgba@.len()), rgba@]);
    h.finish()
}

/// What the local clipboard offers: its text when it holds text, otherwise
/// its image when one of at most `CLIP_IMAGE_MAX_BYTES` bytes is there.
pub fn local_clipboard_packet(text: Option<String>, image: Option<ClipboardImage>) -> (r: Option<ClipboardPacket>)
    ensures
        text matches Some(t) ==> (r matches Some(ClipboardPacket::Text(x)) && x.content == t),
        text is None ==> match image {
            Some(img) => if img.rgba@.len() <= CLIP_IMAGE_MAX_BYTES {
                r matches Some(ClipboardPacket::Image(x)) && x == img
            } else {
                r is None
            },
            None => r is None,
        },
{
    match text {
        Some(t) => Some(ClipboardPacket::Text(ClipboardText { content: t })),
        None => match image {
            Some(img) => {
                if img.rgba.len() <= CLIP_IMAGE_MAX_BYTES {
                    Some(ClipboardPacket::Image(img))
                } else {
                    None
                }
            },
            None => None,
        },
    }
}

/// The last text and image fingerprint sent from this clipboard.
#[derive(Debug)]
pub struct ClipboardWatch {
    last_text: Option<String>,
    last_image: u64,
}

impl ClipboardWatch {
    /// The text sent last, if any.
    pub closed spec fn last_text(&self) -> Option<Seq<char>> {
        match self.last_text {
            Some(t) => Some(t@),
            None => None,
        }
    }

    /// The fingerprint of the image sent last (0 before any).
    pub closed spec fn last_image(&self) -> u64 {
        self.last_image
    }

    pub fn new() -> (r: ClipboardWatch)
        ensures
            r.last_text() is None,
            r.last_image() == 0,
    {
        ClipboardWatch { last_text: None, last_image: 0 }
    }

    /// Whether `pkt`, read from the local clipboard, differs from the last
    /// one of its kind; it is remembered either way.
    pub fn changed(&mut self, pkt: &ClipboardPacket) -> (r: bool)
        ensures
            match *pkt {
                ClipboardPacket::Text(t) => {
                    &&& r == (old(self).last_text() != Some(t.content@))
                    &&& final(self).last_text() == Some(t.content@)
                    &&& final(self).last_image() == old(self).last_image()
                },
                ClipboardPacket::Image(img) => {
                    &&& r == (image_fingerprint(img.rgba@) != old(self).last_image())
                    &&& final(self).last_image() == image_fingerprint(img.rgba@)
                    &&& final(self).last_text() == old(self).last_text()
                },
            },
    {
        match pkt {
            ClipboardPacket::Text(t) => {
                let c = match &self.last_text {
                    Some(prev) => !(*prev == t.content),
                    None => true,
                };
                if c {
                    self.last_text = Some(t.content.clone());
                }
                c
            },
            ClipboardPacket::Image(img) => {
                let hash = fingerprint(img.rgba.as_slice());
                let c = hash != self.last_image;
                if c {
                    self.last_image = hash;
                }
                c
            },
        }
    }
}

} // verus!
