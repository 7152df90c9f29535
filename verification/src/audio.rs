use vstd::prelude::*;

verus! {

/// Sample rate of every audio stream.
pub const SAMPLE_RATE: u32 = 48_000;

/// Channels of every audio stream (stereo).
pub const CHANNELS: u16 = 2;

/// Interleaved samples in one 10 ms frame: 480 per channel.
pub const FRAME_INTERLEAVED: usize = 480 * 2;

/// Audio stream configuration exchanged on the control channel.
#[derive(Debug, Clone, Copy, PartialEq, Eq)]
pub struct AudioConfig {
    pub sample_rate: u32,
    pub channels: u8,
    pub bitrate_kbps: u16,
    pub frame_ms: u8,
}

impl Default for AudioConfig {
    /// 48 kHz stereo Opus at 128 kbps in 10 ms frames.
    fn default() -> (r: AudioConfig)
        ensures
            r.sample_rate == 48_000,
            r.channels == 2,
            r.bitrate_kbps == 128,
            r.frame_ms == 10,
    {
        AudioConfig { sample_rate: 48_000, channels: 2, bitrate_kbps: 128, frame_ms: 10 }
    }
}

/// An encoded Opus frame sent over UDP.
#[derive(Debug, Clone)]
pub struct AudioFrame {
    pub seq: u32,
    pub timestamp_us: u64,
    pub data: Vec<u8>,
}

} // verus!
