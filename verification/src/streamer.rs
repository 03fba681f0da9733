//! The decisions of the audio streamer, taken once per timer tick and once
//! per encoded frame. The surrounding task owns the capture ring, the
//! encoder and the socket, performs what a [`TickPlan`] asks, and hands the
//! encoded frames to [`AudioStreamer::packetize`].
use vstd::prelude::*;
use crate::audio_codec::{CHANNELS, FRAME_DURATION_MS, FRAME_SAMPLES};
use crate::protocol::{
    decode_datagram, encode_datagram, write_datagram, Codec, MediaKind, PacketHeader, ProtocolError,
    FLAG_DISCONTINUITY,
};

verus! {

/// Stream id of the audio stream.
pub const AUDIO_STREAM_ID: u32 = 1;

/// Port on which the phone listens for audio.
pub const CLIENT_AUDIO_PORT: u16 = 5000;

/// A client whose discovery ping has been missing for longer than this many
/// milliseconds (3 s) is dropped.
pub const HEARTBEAT_TIMEOUT_MS: u64 = 3000;

/// Period of the streamer's timer.
pub const TICK_INTERVAL_MS: u64 = 2;

/// At most this many frames are encoded and sent per tick.
pub const MAX_FRAMES_PER_TICK: usize = 4;

/// At most this many captured samples (30 ms) may wait for the encoder.
pub const MAX_BACKLOG_SAMPLES: usize = 2880;

pub open spec fn spec_backlog_drop_count(backlog: usize) -> usize {
    if backlog <= MAX_BACKLOG_SAMPLES {
        0
    } else {
        ((backlog - MAX_BACKLOG_SAMPLES) / (CHANNELS as int) * (CHANNELS as int)) as usize
    }
}

/// How many of the oldest captured samples to discard so that no more than
/// 30 ms of audio waits, rounded down to whole stereo pairs.
pub fn backlog_drop_count(backlog: usize) -> (n: usize)
    ensures
        n == spec_backlog_drop_count(backlog),
        n % 2 == 0,
        backlog <= 2880 ==> n == 0,
        backlog > 2880 ==> 2880 <= backlog - n <= 2881,
{
    proof {
        lemma_backlog_bounded(backlog);
    }
    if backlog > MAX_BACKLOG_SAMPLES {
        (backlog - MAX_BACKLOG_SAMPLES) / CHANNELS * CHANNELS
    } else {
        0
    }
}

/// Whether a client last heard from `elapsed_ms` milliseconds ago is gone.
pub fn heartbeat_expired(elapsed_ms: u64) -> (expired: bool)
    ensures
        expired == (elapsed_ms > HEARTBEAT_TIMEOUT_MS),
{
    elapsed_ms > HEARTBEAT_TIMEOUT_MS
}

pub open spec fn spec_frame_timestamp_us(sequence: u32) -> u64 {
    (sequence * FRAME_DURATION_MS * 1000) as u64
}

/// Capture time of frame number `sequence`, in microseconds from the start
/// of the stream.
pub fn frame_timestamp_us(sequence: u32) -> (t: u64)
    ensures
        t == spec_frame_timestamp_us(sequence),
        t == sequence * 10000,
{
    assert(FRAME_DURATION_MS * 1000 == 10000);
    (sequence as u64) * 10000
}

pub open spec fn next_sequence(sequence: u32) -> u32 {
    if sequence == u32::MAX {
        0
    } else {
        (sequence + 1) as u32
    }
}

/// The header of audio frame `sequence`, flagged when the stream restarts.
pub open spec fn audio_header(sequence: u32, discontinuity: bool) -> PacketHeader {
    PacketHeader {
        media_kind: MediaKind::Audio,
        codec: Codec::Opus,
        flags: if discontinuity {
            FLAG_DISCONTINUITY
        } else {
            0
        },
        stream_id: AUDIO_STREAM_ID,
        sequence,
        timestamp_us: spec_frame_timestamp_us(sequence),
        fragment_index: 0,
        fragment_count: 1,
    }
}

/// What the streaming task does on one tick, in this order: purge the
/// client and stop; or reset the encoder, clear the partial frame, discard
/// samples (all of them, or the oldest `drop_samples`), then encode and send
/// up to `MAX_FRAMES_PER_TICK` frames.
#[derive(Clone, Copy, Debug, PartialEq, Eq, Structural)]
pub struct TickPlan {
    pub purge_client: bool,
    pub reset_encoder: bool,
    pub clear_frame: bool,
    pub drain_all: bool,
    pub drop_samples: usize,
    pub send_frames: bool,
}

/// The streamer's own state: whether it is serving a client, the sequence
/// number of the next frame, and whether that frame starts a new run.
#[derive(Clone, Copy, Debug, PartialEq, Eq, Structural)]
pub struct AudioStreamer {
    pub connected: bool,
    pub sequence: u32,
    pub discontinuity: bool,
}

/// The state and plan that one tick produces.
pub open spec fn spec_tick(s: AudioStreamer, client: Option<u64>, backlog: usize) -> (
    AudioStreamer,
    TickPlan,
) {
    match client {
        None => (
            AudioStreamer { connected: false, ..s },
            TickPlan {
                purge_client: false,
                reset_encoder: s.connected,
                clear_frame: s.connected,
                drain_all: true,
                drop_samples: 0,
                send_frames: false,
            },
        ),
        Some(elapsed) => {
            let joined = !s.connected;
            let s1 = if joined {
                AudioStreamer { connected: true, sequence: 0, discontinuity: true }
            } else {
                s
            };
            if elapsed > HEARTBEAT_TIMEOUT_MS {
                (
                    s1,
                    TickPlan {
                        purge_client: true,
                        reset_encoder: joined,
                        clear_frame: joined,
                        drain_all: false,
                        drop_samples: 0,
                        send_frames: false,
                    },
                )
            } else {
                let overflow = backlog > MAX_BACKLOG_SAMPLES;
                (
                    AudioStreamer { discontinuity: s1.discontinuity || overflow, ..s1 },
                    TickPlan {
                        purge_client: false,
                        reset_encoder: joined || overflow,
                        clear_frame: joined || overflow,
                        drain_all: false,
                        drop_samples: spec_backlog_drop_count(backlog),
                        send_frames: true,
                    },
                )
            }
        },
    }
}

impl AudioStreamer {
    /// A streamer that serves nobody yet.
    pub fn new() -> (s: Self)
        ensures
            s == (AudioStreamer { connected: false, sequence: 0, discontinuity: false }),
    {
        AudioStreamer { connected: false, sequence: 0, discontinuity: false }
    }

    /// Decides one tick. `client` is `None` when no phone is registered, else
    /// the milliseconds since its last discovery ping; `backlog` is the number of
    /// captured samples waiting.
    pub fn on_tick(&mut self, client: Option<u64>, backlog: usize) -> (plan: TickPlan)
        ensures
            (*final(self), plan) == spec_tick(*old(self), client, backlog),
            plan.purge_client == (client matches Some(e) && e > HEARTBEAT_TIMEOUT_MS),
            plan.send_frames == (client matches Some(e) && e <= HEARTBEAT_TIMEOUT_MS),
            plan.drain_all == (client is None),
            plan.reset_encoder == plan.clear_frame,
            !(client matches Some(e) && e <= HEARTBEAT_TIMEOUT_MS) ==> plan.drop_samples == 0,
            (client matches Some(e) && e <= HEARTBEAT_TIMEOUT_MS) ==> plan.drop_samples
                == backlog_drop(backlog),
            final(self).connected == (client is Some),
            client is None ==> plan.reset_encoder == old(self).connected && final(self).sequence
                == old(self).sequence && final(self).discontinuity == old(self).discontinuity,
            (client is Some && !old(self).connected) ==> plan.reset_encoder
                && final(self).sequence == 0 && final(self).discontinuity,
            (client is Some && old(self).connected) ==> final(self).sequence
                == old(self).sequence,
            (client matches Some(e) && e <= HEARTBEAT_TIMEOUT_MS && backlog > 2880)
                ==> plan.reset_encoder && final(self).discontinuity,
            (client matches Some(e) && old(self).connected && (e > HEARTBEAT_TIMEOUT_MS
                || backlog <= 2880)) ==> !plan.reset_encoder && final(self).discontinuity
                == old(self).discontinuity,
    {
        proof {
            lemma_tick_decisions(*old(self), client, backlog);
        }
        match client {
            None => {
                let was_connected = self.connected;
                self.connected = false;
                TickPlan {
                    purge_client: false,
                    reset_encoder: was_connected,
                    clear_frame: was_connected,
                    drain_all: true,
                    drop_samples: 0,
                    send_frames: false,
                }
            },
            Some(elapsed) => {
                let joined = !self.connected;
                if joined {
                    self.connected = true;
                    self.sequence = 0;
                    self.discontinuity = true;
                }
                if heartbeat_expired(elapsed) {
                    return TickPlan {
                        purge_client: true,
                        reset_encoder: joined,
                        clear_frame: joined,
                        drain_all: false,
                        drop_samples: 0,
                        send_frames: false,
                    };
                }
                let overflow = backlog > MAX_BACKLOG_SAMPLES;
                if overflow {
                    self.discontinuity = true;
                }
                TickPlan {
                    purge_client: false,
                    reset_encoder: joined || overflow,
                    clear_frame: joined || overflow,
                    drain_all: false,
                    drop_samples: backlog_drop_count(backlog),
                    send_frames: true,
                }
            },
        }
    }

    /// Wraps one encoded frame in its datagram, written into `out`. The
    /// restart flag is spent whatever the outcome; the sequence number
    /// advances, wrapping, only when the datagram was written.
    pub fn packetize(&mut self, payload: &[u8], out: &mut Vec<u8>) -> (r: Result<
        (),
        ProtocolError,
    >)
        ensures
            final(self).connected == old(self).connected,
            final(self).discontinuity == false,
            match encode_datagram(
                audio_header(old(self).sequence, old(self).discontinuity),
                payload@,
            ) {
                Ok(bytes) => r is Ok && final(out)@ == bytes && final(self).sequence
                    == next_sequence(old(self).sequence),
                Err(e) => r == Err::<(), ProtocolError>(e) && final(out)@ == old(out)@
                    && final(self).sequence == old(self).sequence,
            },
            r is Ok <==> payload@.len() <= 1168,
            r is Ok ==> final(self).sequence == old(self).sequence.wrapping_add(1),
            r is Ok ==> final(out)@.len() == 32 + payload@.len() && final(out)@.subrange(8, 12)
                == seq![0u8, 0u8, 0u8, 1u8] && decode_datagram(final(out)@) == Ok::<
                (PacketHeader, Seq<u8>),
                ProtocolError,
            >(
                (
                    PacketHeader {
                        media_kind: MediaKind::Audio,
                        codec: Codec::Opus,
                        flags: if old(self).discontinuity {
                            4u8
                        } else {
                            0u8
                        },
                        stream_id: 1,
                        sequence: old(self).sequence,
                        timestamp_us: (old(self).sequence * 10000) as u64,
                        fragment_index: 0,
                        fragment_count: 1,
                    },
                    payload@,
                ),
            ),
    {
        proof {
            lemma_audio_datagram(old(self).sequence, old(self).discontinuity, payload@);
        }
        let header = PacketHeader {
            media_kind: MediaKind::Audio,
            codec: Codec::Opus,
            flags: if self.discontinuity {
                FLAG_DISCONTINUITY
            } else {
                0
            },
            stream_id: AUDIO_STREAM_ID,
            sequence: self.sequence,
            timestamp_us: frame_timestamp_us(self.sequence),
            fragment_index: 0,
            fragment_count: 1,
        };
        self.discontinuity = false;
        let r = write_datagram(header, payload, out);
        if r.is_ok() {
            self.sequence = self.sequence.wrapping_add(1);
        }
        r
    }

    /// Records that the encoder failed: the next frame starts a new run.
    pub fn encode_failed(&mut self)
        ensures
            *final(self) == (AudioStreamer { discontinuity: true, ..*old(self) }),
    {
        self.discontinuity = true;
    }
}

/// The samples a tick drops: the excess over 30 ms, rounded down to whole
/// stereo pairs.
pub open spec fn backlog_drop(backlog: usize) -> int {
    if backlog <= 2880 {
        0
    } else {
        (backlog - 2880) - (backlog - 2880) % 2
    }
}

/// What a tick decides, stated by its inputs: the client is purged exactly
/// when it has been silent longer than the timeout, whatever the backlog;
/// frames are sent exactly when a client was heard within it; audio is
/// drained exactly when there is no client; only the excess over 30 ms is
/// dropped; the stream restarts (sequence 0, flagged, encoder reset) when a
/// client appears, and is flagged with the encoder reset when old audio is
/// dropped; otherwise sequence and flag are kept.
pub proof fn lemma_tick_decisions(s: AudioStreamer, client: Option<u64>, backlog: usize)
    ensures
        ({
            let (s1, plan) = spec_tick(s, client, backlog);
            &&& plan.purge_client == (client matches Some(e) && e > HEARTBEAT_TIMEOUT_MS)
            &&& plan.send_frames == (client matches Some(e) && e <= HEARTBEAT_TIMEOUT_MS)
            &&& plan.drain_all == (client is None)
            &&& plan.reset_encoder == plan.clear_frame
            &&& (!(client matches Some(e) && e <= HEARTBEAT_TIMEOUT_MS) ==> plan.drop_samples
                == 0)
            &&& ((client matches Some(e) && e <= HEARTBEAT_TIMEOUT_MS) ==> plan.drop_samples
                == backlog_drop(backlog))
            &&& s1.connected == (client is Some)
            &&& (client is None ==> plan.reset_encoder == s.connected && s1.sequence == s.sequence
                && s1.discontinuity == s.discontinuity)
            &&& ((client is Some && !s.connected) ==> plan.reset_encoder && s1.sequence == 0
                && s1.discontinuity)
            &&& ((client is Some && s.connected) ==> s1.sequence == s.sequence)
            &&& ((client matches Some(e) && e <= HEARTBEAT_TIMEOUT_MS && backlog > 2880)
                ==> plan.reset_encoder && s1.discontinuity)
            &&& ((client matches Some(e) && s.connected && (e > HEARTBEAT_TIMEOUT_MS || backlog
                <= 2880)) ==> !plan.reset_encoder && s1.discontinuity == s.discontinuity)
        }),
{
    assert(HEARTBEAT_TIMEOUT_MS == 3000);
    assert(MAX_BACKLOG_SAMPLES == 2880);
    if backlog > 2880 {
        let d = (backlog - 2880) as int;
        assert(d / 2 * 2 == d - d % 2) by (nonlinear_arith);
    }
}

/// Every datagram that the streamer writes for a frame of at most 1168
/// bytes is accepted, and reads back as audio stream 1, Opus, one fragment,
/// with the frame's sequence number, a timestamp of that number times
/// 10 ms, the restart flag exactly when asked, and the payload unchanged.
pub proof fn lemma_audio_datagram(sequence: u32, discontinuity: bool, payload: Seq<u8>)
    ensures
        encode_datagram(audio_header(sequence, discontinuity), payload) is Ok <==> payload.len()
            <= 1168,
        next_sequence(sequence) == sequence.wrapping_add(1),
        payload.len() <= 1168 ==> ({
            let d = encode_datagram(audio_header(sequence, discontinuity), payload)->Ok_0;
            &&& d.len() == 32 + payload.len()
            &&& d.subrange(8, 12) == seq![0u8, 0u8, 0u8, 1u8]
            &&& decode_datagram(d) == Ok::<(PacketHeader, Seq<u8>), ProtocolError>(
                (
                    PacketHeader {
                        media_kind: MediaKind::Audio,
                        codec: Codec::Opus,
                        flags: if discontinuity {
                            4u8
                        } else {
                            0u8
                        },
                        stream_id: 1,
                        sequence,
                        timestamp_us: (sequence * 10000) as u64,
                        fragment_index: 0,
                        fragment_count: 1,
                    },
                    payload,
                ),
            )
        }),
{
    let h = audio_header(sequence, discontinuity);
    if payload.len() <= 1168 {
        crate::protocol::lemma_read_after_write(h, payload);
        crate::protocol::lemma_written_datagram_fits(h, payload);
        let d = encode_datagram(h, payload)->Ok_0;
        assert(d.subrange(8, 12) =~= crate::protocol::be32(1u32));
        let one: u32 = 1;
        assert((one >> 24u32) as u8 == 0 && (one >> 16u32) as u8 == 0 && (one >> 8u32) as u8 == 0
            && one as u8 == 1) by (bit_vector)
            requires
                one == 1,
        ;
        assert(crate::protocol::be32(1u32) =~= seq![0u8, 0u8, 0u8, 1u8]);
    }
}

// ---------------------------------------------------------------------------
// Cutting the captured samples into frames
// ---------------------------------------------------------------------------

/// Counts for the frame being filled from the capture queue: how many
/// samples it holds, and how many frames this tick has completed.
#[derive(Clone, Copy, Debug, PartialEq, Eq, Structural)]
pub struct FrameAssembler {
    pub fill: usize,
    pub frames_this_tick: usize,
}

/// The fill never exceeds one frame, a tick completes at most
/// `MAX_FRAMES_PER_TICK` frames, and no complete frame waits once the tick
/// has done them all.
pub open spec fn assembler_wf(a: FrameAssembler) -> bool {
    &&& a.fill <= FRAME_SAMPLES
    &&& a.frames_this_tick <= MAX_FRAMES_PER_TICK
    &&& (a.frames_this_tick == MAX_FRAMES_PER_TICK ==> a.fill < FRAME_SAMPLES)
}

pub open spec fn min_nat(a: nat, b: nat) -> nat {
    if a <= b {
        a
    } else {
        b
    }
}

/// How many samples to take for the current frame from a queue of `queued`.
pub open spec fn spec_take(a: FrameAssembler, queued: nat) -> nat {
    if a.frames_this_tick >= MAX_FRAMES_PER_TICK {
        0
    } else {
        min_nat(
            if a.fill < FRAME_SAMPLES {
                (FRAME_SAMPLES - a.fill) as nat
            } else {
                0
            },
            queued,
        )
    }
}

impl FrameAssembler {
    /// An empty frame, no frame done.
    pub fn new() -> (a: Self)
        ensures
            a == (FrameAssembler { fill: 0, frames_this_tick: 0 }),
            assembler_wf(a),
    {
        FrameAssembler { fill: 0, frames_this_tick: 0 }
    }

    /// A new tick starts: no frame done yet; a partial frame carries over.
    pub fn begin_tick(&mut self)
        ensures
            *final(self) == (FrameAssembler { frames_this_tick: 0, ..*old(self) }),
            assembler_wf(*old(self)) ==> assembler_wf(*final(self)),
    {
        self.frames_this_tick = 0;
    }

    /// The partial frame is thrown away.
    pub fn clear(&mut self)
        ensures
            *final(self) == (FrameAssembler { fill: 0, ..*old(self) }),
            assembler_wf(*old(self)) ==> assembler_wf(*final(self)),
    {
        self.fill = 0;
    }

    /// With `queued` samples waiting, returns how many to take for the
    /// current frame: what it lacks, or all that wait if fewer; none once the
    /// tick has done its frames. The taken samples are counted in.
    pub fn next_frame(&mut self, queued: usize) -> (take: usize)
        ensures
            take == spec_take(*old(self), queued as nat),
            take <= queued,
            old(self).frames_this_tick >= MAX_FRAMES_PER_TICK ==> take == 0,
            (old(self).frames_this_tick < MAX_FRAMES_PER_TICK && old(self).fill <= 960) ==> old(
                self,
            ).fill + take <= 960 && (take == queued || old(self).fill + take == 960),
            *final(self) == (FrameAssembler { fill: (old(self).fill + take) as usize, ..*old(self) }),
            assembler_wf(*old(self)) ==> assembler_wf(*final(self)),
    {
        if self.frames_this_tick >= MAX_FRAMES_PER_TICK {
            return 0;
        }
        let missing = if self.fill < FRAME_SAMPLES {
            FRAME_SAMPLES - self.fill
        } else {
            0
        };
        let take = if missing <= queued {
            missing
        } else {
            queued
        };
        self.fill = self.fill + take;
        take
    }

    /// Whether the current frame is complete and may be encoded.
    pub fn frame_ready(&self) -> (ready: bool)
        ensures
            ready == (self.fill == FRAME_SAMPLES),
    {
        self.fill == FRAME_SAMPLES
    }

    /// The complete frame went to the encoder: a new frame starts and the
    /// tick counts one more frame. Does nothing unless a frame was complete.
    pub fn frame_encoded(&mut self)
        ensures
            old(self).fill == FRAME_SAMPLES && old(self).frames_this_tick < MAX_FRAMES_PER_TICK
                ==> *final(self) == (FrameAssembler {
                fill: 0,
                frames_this_tick: (old(self).frames_this_tick + 1) as usize,
            }),
            !(old(self).fill == FRAME_SAMPLES && old(self).frames_this_tick < MAX_FRAMES_PER_TICK)
                ==> *final(self) == *old(self),
            assembler_wf(*old(self)) ==> assembler_wf(*final(self)),
    {
        if self.fill == FRAME_SAMPLES && self.frames_this_tick < MAX_FRAMES_PER_TICK {
            self.fill = 0;
            self.frames_this_tick = self.frames_this_tick + 1;
        }
    }
}

// ---------------------------------------------------------------------------
// Laws of the streamer
// ---------------------------------------------------------------------------

/// Old audio is dropped so that no more than 30 ms wait: after the drop the
/// backlog lies between 30 ms and 30 ms plus one sample, whole stereo pairs
/// are dropped, and nothing is dropped while the backlog is within bounds.
pub proof fn lemma_backlog_bounded(backlog: usize)
    ensures
        spec_backlog_drop_count(backlog) % CHANNELS == 0,
        spec_backlog_drop_count(backlog) <= backlog,
        backlog <= MAX_BACKLOG_SAMPLES ==> spec_backlog_drop_count(backlog) == 0,
        backlog > MAX_BACKLOG_SAMPLES ==> MAX_BACKLOG_SAMPLES <= backlog
            - spec_backlog_drop_count(backlog) < MAX_BACKLOG_SAMPLES + CHANNELS,
        MAX_BACKLOG_SAMPLES == 3 * FRAME_SAMPLES,
{
}

/// A client that joins is served from sequence 0, and the first datagram it
/// gets is flagged as a discontinuity and stamped at time 0.
pub proof fn lemma_join_restarts_stream(s: AudioStreamer, elapsed: u64, backlog: usize)
    requires
        !s.connected,
        elapsed <= HEARTBEAT_TIMEOUT_MS,
    ensures
        ({
            let (s1, plan) = spec_tick(s, Some(elapsed), backlog);
            &&& s1.connected
            &&& plan.send_frames
            &&& plan.reset_encoder
            &&& plan.clear_frame
            &&& audio_header(s1.sequence, s1.discontinuity).sequence == 0
            &&& audio_header(s1.sequence, s1.discontinuity).timestamp_us == 0
            &&& audio_header(s1.sequence, s1.discontinuity).flags == FLAG_DISCONTINUITY
        }),
{
}

/// When old audio had to be dropped, the encoder restarts and the next
/// datagram is flagged as a discontinuity.
pub proof fn lemma_overflow_flags_discontinuity(s: AudioStreamer, elapsed: u64, backlog: usize)
    requires
        elapsed <= HEARTBEAT_TIMEOUT_MS,
        backlog > MAX_BACKLOG_SAMPLES,
    ensures
        ({
            let (s1, plan) = spec_tick(s, Some(elapsed), backlog);
            &&& plan.reset_encoder
            &&& plan.clear_frame
            &&& plan.drop_samples == spec_backlog_drop_count(backlog)
            &&& audio_header(s1.sequence, s1.discontinuity).flags == FLAG_DISCONTINUITY
        }),
{
}

/// A client silent for more than the heartbeat timeout is purged and gets
/// nothing more.
pub proof fn lemma_silent_client_purged(s: AudioStreamer, elapsed: u64, backlog: usize)
    requires
        elapsed > HEARTBEAT_TIMEOUT_MS,
    ensures
        spec_tick(s, Some(elapsed), backlog).1.purge_client,
        !spec_tick(s, Some(elapsed), backlog).1.send_frames,
        spec_tick(s, Some(elapsed), backlog).1.drop_samples == 0,
{
}

/// Without a client, all captured audio is discarded, nothing is sent, and
/// the streamer forgets the previous client so that the next one starts a
/// fresh stream.
pub proof fn lemma_no_client_drains(s: AudioStreamer, backlog: usize)
    ensures
        spec_tick(s, None, backlog).1.drain_all,
        !spec_tick(s, None, backlog).1.send_frames,
        !spec_tick(s, None, backlog).1.purge_client,
        !spec_tick(s, None, backlog).0.connected,
        spec_tick(s, None, backlog).1.reset_encoder == s.connected,
{
}

/// Two frames sent one after the other carry consecutive sequence numbers,
/// wrapping after `u32::MAX`; only the first may be flagged, and away from
/// the wrap their timestamps are 10 ms apart. Both decode back to the
/// stream's headers.
pub proof fn lemma_consecutive_frames(
    sequence: u32,
    discontinuity: bool,
    first: Seq<u8>,
    second: Seq<u8>,
)
    requires
        first.len() <= crate::protocol::MAX_PAYLOAD_LEN,
        second.len() <= crate::protocol::MAX_PAYLOAD_LEN,
    ensures
        ({
            let h1 = audio_header(sequence, discontinuity);
            let h2 = audio_header(next_sequence(sequence), false);
            &&& encode_datagram(h1, first) is Ok
            &&& encode_datagram(h2, second) is Ok
            &&& crate::protocol::decode_datagram(encode_datagram(h1, first)->Ok_0) == Ok::<
                (PacketHeader, Seq<u8>),
                ProtocolError,
            >((h1, first))
            &&& crate::protocol::decode_datagram(encode_datagram(h2, second)->Ok_0) == Ok::<
                (PacketHeader, Seq<u8>),
                ProtocolError,
            >((h2, second))
            &&& h2.flags == 0
            &&& (sequence < u32::MAX ==> h2.sequence == h1.sequence + 1 && h2.timestamp_us
                == h1.timestamp_us + 10000)
            &&& (sequence == u32::MAX ==> h2.sequence == 0 && h2.timestamp_us == 0)
        }),
{
    let h1 = audio_header(sequence, discontinuity);
    let h2 = audio_header(next_sequence(sequence), false);
    crate::protocol::lemma_read_after_write(h1, first);
    crate::protocol::lemma_read_after_write(h2, second);
}

// ---------------------------------------------------------------------------
// Laws over a whole run of the streamer
// ---------------------------------------------------------------------------

/// One thing that happens to the streamer: a timer tick (with the client's
/// silence and the backlog, as `on_tick` takes them), an encoded frame handed
/// to `packetize`, or a failure of the encoder reported by `encode_failed`.
pub enum StreamEvent {
    Tick { client: Option<u64>, backlog: usize },
    Frame { payload: Seq<u8> },
    EncodeFailure,
}

/// The streamer after one event, as `on_tick`, `packetize` and
/// `encode_failed` leave it.
pub open spec fn step(s: AudioStreamer, e: StreamEvent) -> AudioStreamer {
    match e {
        StreamEvent::Tick { client, backlog } => spec_tick(s, client, backlog).0,
        StreamEvent::Frame { payload } => if encode_datagram(
            audio_header(s.sequence, s.discontinuity),
            payload,
        ) is Ok {
            AudioStreamer { sequence: next_sequence(s.sequence), discontinuity: false, ..s }
        } else {
            AudioStreamer { discontinuity: false, ..s }
        },
        StreamEvent::EncodeFailure => AudioStreamer { discontinuity: true, ..s },
    }
}

/// The header of the datagram that an event sends, if it sends one.
pub open spec fn sent_header(s: AudioStreamer, e: StreamEvent) -> Option<PacketHeader> {
    match e {
        StreamEvent::Frame { payload } => if encode_datagram(
            audio_header(s.sequence, s.discontinuity),
            payload,
        ) is Ok {
            Some(audio_header(s.sequence, s.discontinuity))
        } else {
            None
        },
        _ => None,
    }
}

/// The streamer after a whole run of events.
pub open spec fn state_after(s0: AudioStreamer, events: Seq<StreamEvent>) -> AudioStreamer
    decreases events.len(),
{
    if events.len() == 0 {
        s0
    } else {
        step(state_after(s0, events.drop_last()), events.last())
    }
}

/// The streamer just before event `k` of the run.
pub open spec fn state_at(s0: AudioStreamer, events: Seq<StreamEvent>, k: int) -> AudioStreamer {
    state_after(s0, events.take(k))
}

/// The header of the datagram that event `k` of the run sends, if any.
pub open spec fn sent_at(s0: AudioStreamer, events: Seq<StreamEvent>, k: int) -> Option<
    PacketHeader,
> {
    sent_header(state_at(s0, events, k), events[k])
}

/// Whether an event restarts the stream from the state `s`: a client that
/// (re)appears, a tick that drops old audio, or a failed encoding.
pub open spec fn restarts(s: AudioStreamer, e: StreamEvent) -> bool {
    match e {
        StreamEvent::Tick { client, backlog } => match client {
            Some(elapsed) => !s.connected || (elapsed <= HEARTBEAT_TIMEOUT_MS && backlog
                > MAX_BACKLOG_SAMPLES),
            None => false,
        },
        StreamEvent::Frame { .. } => false,
        StreamEvent::EncodeFailure => true,
    }
}

/// No frame is handed over among events `from` to `to`, `to` excluded.
pub open spec fn no_frame_between(events: Seq<StreamEvent>, from: int, to: int) -> bool {
    forall|m: int| from <= m < to ==> !(#[trigger] events[m] is Frame)
}

/// Before event `k`, a restart happened and no frame has been handed over
/// since; the start of the run counts as a restart when the streamer began
/// flagged.
pub open spec fn restart_pending(s0: AudioStreamer, events: Seq<StreamEvent>, k: int) -> bool {
    ||| (s0.discontinuity && no_frame_between(events, 0, k))
    ||| exists|j: int|
        0 <= j < k && #[trigger] restarts(state_at(s0, events, j), events[j]) && no_frame_between(
            events,
            j + 1,
            k,
        )
}

proof fn lemma_state_at_next(s0: AudioStreamer, events: Seq<StreamEvent>, k: int)
    requires
        0 <= k < events.len(),
    ensures
        state_at(s0, events, k + 1) == step(state_at(s0, events, k), events[k]),
{
    assert(events.take(k + 1).drop_last() =~= events.take(k));
    assert(events.take(k + 1).last() == events[k]);
}

proof fn lemma_flag_tracks_restarts(s0: AudioStreamer, events: Seq<StreamEvent>, k: int)
    requires
        0 <= k <= events.len(),
    ensures
        state_at(s0, events, k).discontinuity == restart_pending(s0, events, k),
    decreases k,
{
    if k == 0 {
        assert(events.take(0) =~= Seq::<StreamEvent>::empty());
        assert(no_frame_between(events, 0, 0));
    } else {
        let p = k - 1;
        lemma_flag_tracks_restarts(s0, events, p);
        lemma_state_at_next(s0, events, p);
        let s = state_at(s0, events, p);
        let e = events[p];
        if e is Frame {
            assert(!state_at(s0, events, k).discontinuity);
            assert(!restart_pending(s0, events, k)) by {
                assert(!no_frame_between(events, 0, k));
                assert forall|j: int|
                    0 <= j < k && #[trigger] restarts(state_at(s0, events, j), events[j])
                    implies !no_frame_between(events, j + 1, k) by {
                    if j == p {
                    } else {
                        assert(events[p] is Frame);
                    }
                }
            }
        } else if restarts(s, e) {
            assert(state_at(s0, events, k).discontinuity);
            assert(no_frame_between(events, p + 1, k));
            assert(restarts(state_at(s0, events, p), events[p]));
        } else {
            assert(state_at(s0, events, k).discontinuity == s.discontinuity);
            if restart_pending(s0, events, p) {
                if s0.discontinuity && no_frame_between(events, 0, p) {
                    assert(no_frame_between(events, 0, k));
                } else {
                    let j = choose|j: int|
                        0 <= j < p && #[trigger] restarts(state_at(s0, events, j), events[j])
                            && no_frame_between(events, j + 1, p);
                    assert(no_frame_between(events, j + 1, k));
                }
            } else {
                assert(!restart_pending(s0, events, k)) by {
                    if s0.discontinuity && no_frame_between(events, 0, k) {
                        assert(no_frame_between(events, 0, p));
                    }
                    assert forall|j: int|
                        0 <= j < k && #[trigger] restarts(state_at(s0, events, j), events[j])
                        implies !no_frame_between(events, j + 1, k) by {
                        if j < p && no_frame_between(events, j + 1, k) {
                            assert(no_frame_between(events, j + 1, p));
                        }
                    }
                }
            }
        }
    }
}

/// Every datagram of a run is flagged as a discontinuity exactly when it is
/// the first frame since the stream restarted: since a client (re)appeared,
/// since old audio was dropped, or since the encoder failed (or since the
/// start, for a streamer that began flagged). Its timestamp is its sequence
/// number times 10 ms.
pub proof fn lemma_flag_marks_first_frame_after_restart(
    s0: AudioStreamer,
    events: Seq<StreamEvent>,
    k: int,
)
    requires
        0 <= k < events.len(),
        sent_at(s0, events, k) is Some,
    ensures
        (sent_at(s0, events, k)->Some_0.flags == FLAG_DISCONTINUITY) == restart_pending(
            s0,
            events,
            k,
        ),
        sent_at(s0, events, k)->Some_0.flags == FLAG_DISCONTINUITY || sent_at(
            s0,
            events,
            k,
        )->Some_0.flags == 0,
        sent_at(s0, events, k)->Some_0.timestamp_us == sent_at(
            s0,
            events,
            k,
        )->Some_0.sequence * 10000,
{
    lemma_flag_tracks_restarts(s0, events, k);
}

/// Every tick of the run names a client, so the client stayed registered.
pub open spec fn client_kept_between(events: Seq<StreamEvent>, from: int, to: int) -> bool {
    forall|m: int|
        from <= m < to ==> (#[trigger] events[m] matches StreamEvent::Tick { client, .. }
            ==> client is Some)
}

proof fn lemma_sequence_between(
    s0: AudioStreamer,
    events: Seq<StreamEvent>,
    j: int,
    m: int,
)
    requires
        0 <= j < m <= events.len(),
        state_at(s0, events, j).connected,
        sent_at(s0, events, j) is Some,
        client_kept_between(events, j + 1, m),
        forall|i: int| j < i < m ==> #[trigger] sent_at(s0, events, i) is None,
    ensures
        state_at(s0, events, m).connected,
        state_at(s0, events, m).sequence == next_sequence(state_at(s0, events, j).sequence),
    decreases m - j,
{
    if m == j + 1 {
        lemma_state_at_next(s0, events, j);
    } else {
        lemma_sequence_between(s0, events, j, m - 1);
        lemma_state_at_next(s0, events, m - 1);
        assert(sent_at(s0, events, m - 1) is None);
        assert(events[m - 1] matches StreamEvent::Tick { client, .. } ==> client is Some);
    }
}

/// Two datagrams sent one after the other while the client stayed
/// registered carry consecutive sequence numbers, `u32::MAX` being followed
/// by 0, and each is stamped with its sequence number times 10 ms.
pub proof fn lemma_consecutive_datagrams(
    s0: AudioStreamer,
    events: Seq<StreamEvent>,
    j: int,
    k: int,
)
    requires
        0 <= j < k < events.len(),
        state_at(s0, events, j).connected,
        sent_at(s0, events, j) is Some,
        sent_at(s0, events, k) is Some,
        forall|i: int| j < i < k ==> #[trigger] sent_at(s0, events, i) is None,
        client_kept_between(events, j + 1, k),
    ensures
        sent_at(s0, events, k)->Some_0.sequence == next_sequence(
            sent_at(s0, events, j)->Some_0.sequence,
        ),
        sent_at(s0, events, k)->Some_0.sequence == sent_at(
            s0,
            events,
            j,
        )->Some_0.sequence.wrapping_add(1),
        sent_at(s0, events, k)->Some_0.timestamp_us == sent_at(
            s0,
            events,
            k,
        )->Some_0.sequence * 10000,
{
    lemma_sequence_between(s0, events, j, k);
}

// ---------------------------------------------------------------------------
// Laws of one tick's frames
// ---------------------------------------------------------------------------

/// What the frame loop of one tick does with a queue of `queued` samples
/// that receives nothing meanwhile, the encoder succeeding: take for each
/// frame what it lacks or what is left, encode every complete frame, stop
/// at the first incomplete one or after the tick's frames. Gives the frames
/// encoded, the samples taken and the fill left for the next tick.
pub open spec fn tick_frames(a: FrameAssembler, queued: nat) -> (nat, nat, nat)
    decreases MAX_FRAMES_PER_TICK - a.frames_this_tick,
{
    if a.frames_this_tick >= MAX_FRAMES_PER_TICK || a.fill > FRAME_SAMPLES {
        (0, 0, a.fill as nat)
    } else {
        let take = spec_take(a, queued);
        if a.fill + take < FRAME_SAMPLES {
            (0, take, (a.fill + take) as nat)
        } else {
            let rest = tick_frames(
                FrameAssembler { fill: 0, frames_this_tick: (a.frames_this_tick + 1) as usize },
                (queued - take) as nat,
            );
            (rest.0 + 1, take + rest.1, rest.2)
        }
    }
}

/// One tick encodes as many whole frames as the partial frame and the queue
/// hold, but at most `MAX_FRAMES_PER_TICK`; it never takes more than the
/// queue holds nor more than those frames need; what it takes becomes whole
/// frames plus the partial frame left; and when it stops short of the limit
/// the queue is empty and the frame left is partial.
pub proof fn lemma_tick_frames(a: FrameAssembler, queued: nat)
    requires
        assembler_wf(a),
    ensures
        ({
            let (frames, taken, left) = tick_frames(a, queued);
            let limit = (MAX_FRAMES_PER_TICK - a.frames_this_tick) as nat;
            &&& frames <= limit
            &&& frames == min_nat(limit, (a.fill as nat + queued) / (FRAME_SAMPLES as nat))
            &&& taken <= queued
            &&& a.fill + taken == frames * FRAME_SAMPLES + left
            &&& taken <= limit * FRAME_SAMPLES
            &&& left < FRAME_SAMPLES
            &&& (frames < limit ==> taken == queued)
            &&& (frames == limit ==> left == 0 || limit == 0)
        }),
    decreases MAX_FRAMES_PER_TICK - a.frames_this_tick,
{
    let limit = (MAX_FRAMES_PER_TICK - a.frames_this_tick) as nat;
    if a.frames_this_tick >= MAX_FRAMES_PER_TICK {
        assert(limit == 0);
    } else {
        let take = spec_take(a, queued);
        if a.fill + take < FRAME_SAMPLES {
            assert((a.fill as nat + queued) / (FRAME_SAMPLES as nat) == 0) by (nonlinear_arith)
                requires
                    a.fill + queued < FRAME_SAMPLES,
                    FRAME_SAMPLES == 960,
            ;
        } else {
            let b = FrameAssembler { fill: 0, frames_this_tick: (a.frames_this_tick + 1) as usize };
            lemma_tick_frames(b, (queued - take) as nat);
            let q2 = (queued - take) as nat;
            assert(take == FRAME_SAMPLES - a.fill);
            assert((a.fill as nat + queued) / (FRAME_SAMPLES as nat) == q2 / (FRAME_SAMPLES as nat) + 1) by (nonlinear_arith)
                requires
                    a.fill + queued == q2 + 960,
            ;
        }
    }
}

} // verus!
