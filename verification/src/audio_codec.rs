//! Audio framing parameters: 48 kHz interleaved stereo, cut into 10 ms frames.
use vstd::prelude::*;

verus! {

/// Samples per second and per channel.
pub const SAMPLE_RATE: u32 = 48000;

/// Interleaved channels (stereo).
pub const CHANNELS: usize = 2;

/// Duration of one encoded frame.
pub const FRAME_DURATION_MS: u32 = 10;

/// Interleaved samples in one frame: 10 ms of 48 kHz stereo.
pub const FRAME_SAMPLES: usize = 960;

/// One frame holds exactly `FRAME_DURATION_MS` of audio for every channel.
pub proof fn lemma_frame_is_ten_ms()
    ensures
        FRAME_SAMPLES == SAMPLE_RATE * FRAME_DURATION_MS / 1000 * CHANNELS,
        FRAME_SAMPLES % CHANNELS == 0,
{
}

} // verus!
