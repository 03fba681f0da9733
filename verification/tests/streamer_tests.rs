use rtabc::audio_codec::{CHANNELS, FRAME_SAMPLES};
use rtabc::protocol::{read_datagram, Codec, MediaKind, FLAG_DISCONTINUITY, MAX_PAYLOAD_LEN, ProtocolError};
use rtabc::streamer::{
    backlog_drop_count, frame_timestamp_us, heartbeat_expired, AudioStreamer, FrameAssembler,
    TickPlan, HEARTBEAT_TIMEOUT_MS, MAX_BACKLOG_SAMPLES, MAX_FRAMES_PER_TICK,
};

#[test]
fn backlog_drop_formula() {
    assert_eq!(MAX_BACKLOG_SAMPLES, FRAME_SAMPLES * 3);
    assert_eq!(backlog_drop_count(0), 0);
    assert_eq!(backlog_drop_count(2880), 0);
    assert_eq!(backlog_drop_count(2881), 0);
    assert_eq!(backlog_drop_count(2882), 2);
    assert_eq!(backlog_drop_count(2883), 2);
    assert_eq!(backlog_drop_count(96000), 93120);
    assert_eq!(backlog_drop_count(96000) % CHANNELS, 0);
}

#[test]
fn heartbeat_timeout_is_three_seconds() {
    assert_eq!(HEARTBEAT_TIMEOUT_MS, 3000);
    assert!(!heartbeat_expired(0));
    assert!(!heartbeat_expired(3000));
    assert!(heartbeat_expired(3001));
    assert!(heartbeat_expired(300_000));
}

#[test]
fn timestamps_are_ten_ms_apart() {
    assert_eq!(frame_timestamp_us(0), 0);
    assert_eq!(frame_timestamp_us(1), 10_000);
    assert_eq!(frame_timestamp_us(u32::MAX), u32::MAX as u64 * 10_000);
}

#[test]
fn client_join_restarts_stream() {
    let mut s = AudioStreamer { connected: false, sequence: 77, discontinuity: false };
    let plan = s.on_tick(Some(1), 10);
    assert_eq!(
        plan,
        TickPlan {
            purge_client: false,
            reset_encoder: true,
            clear_frame: true,
            drain_all: false,
            drop_samples: 0,
            send_frames: true,
        }
    );
    assert_eq!(s, AudioStreamer { connected: true, sequence: 0, discontinuity: true });
    let mut out = Vec::new();
    s.packetize(&[1, 2, 3], &mut out).unwrap();
    let (h, p) = read_datagram(&out).unwrap();
    assert_eq!(h.sequence, 0);
    assert_eq!(h.flags, FLAG_DISCONTINUITY);
    assert_eq!(h.media_kind, MediaKind::Audio);
    assert_eq!(h.codec, Codec::Opus);
    assert_eq!(h.stream_id, 1);
    assert_eq!(h.fragment_count, 1);
    assert_eq!(p, vec![1, 2, 3]);
    out.clear();
    s.packetize(&[4], &mut out).unwrap();
    let (h, _) = read_datagram(&out).unwrap();
    assert_eq!(h.sequence, 1);
    assert_eq!(h.flags, 0);
    assert_eq!(h.timestamp_us, 10_000);
}

#[test]
fn steady_tick_keeps_state() {
    let mut s = AudioStreamer { connected: true, sequence: 5, discontinuity: false };
    let plan = s.on_tick(Some(3000), 100);
    assert!(plan.send_frames && !plan.reset_encoder && !plan.clear_frame);
    assert_eq!(plan.drop_samples, 0);
    assert_eq!(s, AudioStreamer { connected: true, sequence: 5, discontinuity: false });
}

#[test]
fn overflow_drops_and_flags() {
    let mut s = AudioStreamer { connected: true, sequence: 9, discontinuity: false };
    let plan = s.on_tick(Some(0), 5000);
    assert!(plan.reset_encoder && plan.clear_frame && plan.send_frames);
    assert_eq!(plan.drop_samples, 2120);
    assert!(s.discontinuity);
    assert_eq!(s.sequence, 9);
}

#[test]
fn silent_client_is_purged() {
    let mut s = AudioStreamer { connected: true, sequence: 3, discontinuity: false };
    let plan = s.on_tick(Some(3001), 99999);
    assert!(plan.purge_client && !plan.send_frames && !plan.drain_all);
    assert_eq!(plan.drop_samples, 0);
    assert!(s.connected);
    let plan = s.on_tick(None, 10);
    assert!(plan.drain_all && plan.reset_encoder && plan.clear_frame && !plan.send_frames);
    assert!(!s.connected);
    let plan = s.on_tick(None, 10);
    assert!(plan.drain_all && !plan.reset_encoder);
}

#[test]
fn sequence_wraps() {
    let mut s = AudioStreamer { connected: true, sequence: u32::MAX, discontinuity: false };
    let mut out = Vec::new();
    s.packetize(&[0], &mut out).unwrap();
    assert_eq!(s.sequence, 0);
}

#[test]
fn oversized_frame_keeps_sequence_but_spends_flag() {
    let mut s = AudioStreamer { connected: true, sequence: 4, discontinuity: true };
    let mut out = vec![5u8];
    let big = vec![0u8; MAX_PAYLOAD_LEN + 1];
    assert_eq!(s.packetize(&big, &mut out), Err(ProtocolError::PayloadTooLarge));
    assert_eq!(s, AudioStreamer { connected: true, sequence: 4, discontinuity: false });
    assert_eq!(out, vec![5u8]);
}

#[test]
fn encode_failure_flags_next_frame() {
    let mut s = AudioStreamer::new();
    s.on_tick(Some(0), 0);
    let mut out = Vec::new();
    s.packetize(&[1], &mut out).unwrap();
    s.encode_failed();
    s.packetize(&[1], &mut out).unwrap();
    let (h, _) = read_datagram(&out).unwrap();
    assert_eq!(h.flags, FLAG_DISCONTINUITY);
    assert_eq!(h.sequence, 1);
}

#[test]
fn run_flags_only_first_frame_after_each_restart() {
    let mut s = AudioStreamer::new();
    let mut out = Vec::new();
    let mut sent = Vec::new();
    let mut send = |s: &mut AudioStreamer, out: &mut Vec<u8>, sent: &mut Vec<(u32, u8, u64)>| {
        s.packetize(&[0u8; 8], out).unwrap();
        let (h, _) = read_datagram(out).unwrap();
        sent.push((h.sequence, h.flags, h.timestamp_us));
    };
    s.on_tick(Some(0), 0);
    send(&mut s, &mut out, &mut sent);
    send(&mut s, &mut out, &mut sent);
    s.on_tick(Some(1), 10_000);
    send(&mut s, &mut out, &mut sent);
    s.on_tick(Some(2), 10);
    send(&mut s, &mut out, &mut sent);
    s.encode_failed();
    send(&mut s, &mut out, &mut sent);
    send(&mut s, &mut out, &mut sent);
    assert_eq!(
        sent,
        vec![
            (0, FLAG_DISCONTINUITY, 0),
            (1, 0, 10_000),
            (2, FLAG_DISCONTINUITY, 20_000),
            (3, 0, 30_000),
            (4, FLAG_DISCONTINUITY, 40_000),
            (5, 0, 50_000),
        ]
    );
}

/// Runs one tick's frame loop over a queue of `queued` samples that gets
/// nothing new meanwhile; returns (frames encoded, samples left queued).
fn run_tick(a: &mut FrameAssembler, mut queued: usize) -> (usize, usize) {
    let mut encoded = 0;
    a.begin_tick();
    loop {
        let take = a.next_frame(queued);
        queued -= take;
        if !a.frame_ready() {
            break;
        }
        a.frame_encoded();
        encoded += 1;
    }
    (encoded, queued)
}

#[test]
fn two_queued_frames_are_sent_and_queue_emptied() {
    let mut a = FrameAssembler::new();
    assert_eq!(run_tick(&mut a, 2 * FRAME_SAMPLES), (2, 0));
    assert_eq!(a.fill, 0);
}

#[test]
fn partial_frame_carries_to_next_tick() {
    let mut a = FrameAssembler::new();
    assert_eq!(run_tick(&mut a, 1500), (1, 0));
    assert_eq!(a.fill, 540);
    assert_eq!(run_tick(&mut a, 420), (1, 0));
    assert_eq!(a.fill, 0);
}

#[test]
fn at_most_four_frames_per_tick() {
    let mut a = FrameAssembler::new();
    assert_eq!(MAX_FRAMES_PER_TICK, 4);
    assert_eq!(run_tick(&mut a, 10 * FRAME_SAMPLES + 7), (4, 6 * FRAME_SAMPLES + 7));
    assert_eq!(a.fill, 0);
    assert_eq!(a.frames_this_tick, 4);
    assert_eq!(a.clone().next_frame(100), 0);
}

#[test]
fn cleared_frame_starts_over() {
    let mut a = FrameAssembler::new();
    assert_eq!(a.next_frame(100), 100);
    a.clear();
    assert_eq!(a.fill, 0);
    assert!(!a.frame_ready());
    assert_eq!(a.next_frame(5000), FRAME_SAMPLES);
    assert!(a.frame_ready());
}
