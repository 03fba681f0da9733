//! The version 1 datagram envelope: a fixed 32-byte big-endian header
//! followed by the payload.
//!
//! | offset | size | field          |
//! |-------:|-----:|----------------|
//! | 0      | 4    | magic `LAL1`   |
//! | 4      | 1    | version (1)    |
//! | 5      | 1    | media kind     |
//! | 6      | 1    | codec          |
//! | 7      | 1    | flags          |
//! | 8      | 4    | stream id      |
//! | 12     | 4    | sequence       |
//! | 16     | 8    | timestamp (us) |
//! | 24     | 2    | payload length |
//! | 26     | 2    | fragment index |
//! | 28     | 2    | fragment count |
//! | 30     | 2    | reserved (0)   |
use vstd::prelude::*;

verus! {

/// Length of the fixed header.
pub const HEADER_LEN: usize = 32;

/// Largest datagram, header included.
pub const MAX_DATAGRAM_LEN: usize = 1200;

/// Largest payload that fits in one datagram.
pub const MAX_PAYLOAD_LEN: usize = 1168;

/// The only protocol version this library speaks.
pub const VERSION: u8 = 1;

/// Flag bit: first fragment of a key frame.
pub const FLAG_KEYFRAME: u8 = 1;

/// Flag bit: the payload carries codec configuration.
pub const FLAG_CONFIG: u8 = 2;

/// Flag bit: the stream restarts here; receivers reset decoder and ordering.
pub const FLAG_DISCONTINUITY: u8 = 4;

/// Flag bit: last datagram of the stream.
pub const FLAG_END: u8 = 8;

/// What a datagram carries.
#[derive(Clone, Copy, Debug, PartialEq, Eq, Structural)]
pub enum MediaKind {
    Audio,
    Video,
    Control,
    Heartbeat,
}

/// How the payload is encoded.
#[derive(Clone, Copy, Debug, PartialEq, Eq, Structural)]
pub enum Codec {
    Unspecified,
    PcmS16Le,
    Opus,
    Hevc,
    Json,
}

/// The header fields that a sender chooses; the payload length is taken
/// from the payload itself.
#[derive(Clone, Copy, Debug, PartialEq, Eq, Structural)]
pub struct PacketHeader {
    pub media_kind: MediaKind,
    pub codec: Codec,
    pub flags: u8,
    pub stream_id: u32,
    pub sequence: u32,
    pub timestamp_us: u64,
    pub fragment_index: u16,
    pub fragment_count: u16,
}

/// Why a datagram could not be written or read.
#[derive(Clone, Copy, Debug, PartialEq, Eq, Structural)]
pub enum ProtocolError {
    /// The payload is longer than `MAX_PAYLOAD_LEN`.
    PayloadTooLarge,
    /// `fragment_count` is zero or `fragment_index` is not below it.
    InvalidFragment,
    /// The datagram is shorter than the header.
    Truncated,
    /// The datagram is longer than `MAX_DATAGRAM_LEN`.
    DatagramTooLarge,
    /// The first four bytes are not `LAL1`.
    BadMagic,
    /// The version byte is not 1.
    UnsupportedVersion,
    /// The media-kind byte names no known kind.
    UnknownMediaKind,
    /// The codec byte names no known codec.
    UnknownCodec,
    /// The declared payload length differs from the bytes received.
    LengthMismatch,
}

/// The four magic bytes, ASCII `LAL1`.
pub open spec fn magic() -> Seq<u8> {
    seq![0x4cu8, 0x41u8, 0x4cu8, 0x31u8]
}

pub open spec fn media_kind_code(k: MediaKind) -> u8 {
    match k {
        MediaKind::Audio => 1,
        MediaKind::Video => 2,
        MediaKind::Control => 3,
        MediaKind::Heartbeat => 4,
    }
}

pub open spec fn media_kind_from_code(c: u8) -> Option<MediaKind> {
    if c == 1 {
        Some(MediaKind::Audio)
    } else if c == 2 {
        Some(MediaKind::Video)
    } else if c == 3 {
        Some(MediaKind::Control)
    } else if c == 4 {
        Some(MediaKind::Heartbeat)
    } else {
        None
    }
}

pub open spec fn codec_code(c: Codec) -> u8 {
    match c {
        Codec::Unspecified => 0,
        Codec::PcmS16Le => 1,
        Codec::Opus => 2,
        Codec::Hevc => 3,
        Codec::Json => 4,
    }
}

pub open spec fn codec_from_code(c: u8) -> Option<Codec> {
    if c == 0 {
        Some(Codec::Unspecified)
    } else if c == 1 {
        Some(Codec::PcmS16Le)
    } else if c == 2 {
        Some(Codec::Opus)
    } else if c == 3 {
        Some(Codec::Hevc)
    } else if c == 4 {
        Some(Codec::Json)
    } else {
        None
    }
}

impl MediaKind {
    /// The byte that stands for this kind in the header.
    pub fn code(&self) -> (c: u8)
        ensures
            c == media_kind_code(*self),
    {
        match self {
            MediaKind::Audio => 1,
            MediaKind::Video => 2,
            MediaKind::Control => 3,
            MediaKind::Heartbeat => 4,
        }
    }

    /// The kind that a header byte stands for, if any.
    pub fn from_code(c: u8) -> (k: Option<MediaKind>)
        ensures
            k == media_kind_from_code(c),
    {
        if c == 1 {
            Some(MediaKind::Audio)
        } else if c == 2 {
            Some(MediaKind::Video)
        } else if c == 3 {
            Some(MediaKind::Control)
        } else if c == 4 {
            Some(MediaKind::Heartbeat)
        } else {
            None
        }
    }
}

impl Codec {
    /// The byte that stands for this codec in the header.
    pub fn code(&self) -> (c: u8)
        ensures
            c == codec_code(*self),
    {
        match self {
            Codec::Unspecified => 0,
            Codec::PcmS16Le => 1,
            Codec::Opus => 2,
            Codec::Hevc => 3,
            Codec::Json => 4,
        }
    }

    /// The codec that a header byte stands for, if any.
    pub fn from_code(c: u8) -> (k: Option<Codec>)
        ensures
            k == codec_from_code(c),
    {
        if c == 0 {
            Some(Codec::Unspecified)
        } else if c == 1 {
            Some(Codec::PcmS16Le)
        } else if c == 2 {
            Some(Codec::Opus)
        } else if c == 3 {
            Some(Codec::Hevc)
        } else if c == 4 {
            Some(Codec::Json)
        } else {
            None
        }
    }
}

// ---------------------------------------------------------------------------
// Big-endian integers
// ---------------------------------------------------------------------------

pub open spec fn be16(v: u16) -> Seq<u8> {
    seq![(v >> 8u16) as u8, v as u8]
}

pub open spec fn be32(v: u32) -> Seq<u8> {
    seq![(v >> 24u32) as u8, (v >> 16u32) as u8, (v >> 8u32) as u8, v as u8]
}

pub open spec fn be64(v: u64) -> Seq<u8> {
    seq![
        (v >> 56u64) as u8,
        (v >> 48u64) as u8,
        (v >> 40u64) as u8,
        (v >> 32u64) as u8,
        (v >> 24u64) as u8,
        (v >> 16u64) as u8,
        (v >> 8u64) as u8,
        v as u8,
    ]
}

pub open spec fn u16_from_be(b0: u8, b1: u8) -> u16 {
    ((b0 as u16) << 8u16) | (b1 as u16)
}

pub open spec fn u32_from_be(b0: u8, b1: u8, b2: u8, b3: u8) -> u32 {
    ((b0 as u32) << 24u32) | ((b1 as u32) << 16u32) | ((b2 as u32) << 8u32) | (b3 as u32)
}

pub open spec fn u64_from_be(
    b0: u8,
    b1: u8,
    b2: u8,
    b3: u8,
    b4: u8,
    b5: u8,
    b6: u8,
    b7: u8,
) -> u64 {
    ((b0 as u64) << 56u64) | ((b1 as u64) << 48u64) | ((b2 as u64) << 40u64) | ((b3 as u64)
        << 32u64) | ((b4 as u64) << 24u64) | ((b5 as u64) << 16u64) | ((b6 as u64) << 8u64) | (
    b7 as u64)
}

proof fn lemma_u16_bytes(v: u16)
    ensures
        u16_from_be((v >> 8u16) as u8, v as u8) == v,
{
    assert(((((v >> 8u16) as u8) as u16) << 8u16) | (((v as u8) as u16)) == v) by (bit_vector);
}

proof fn lemma_u16_value(b0: u8, b1: u8)
    ensures
        (u16_from_be(b0, b1) >> 8u16) as u8 == b0,
        u16_from_be(b0, b1) as u8 == b1,
{
    assert(((((b0 as u16) << 8u16) | (b1 as u16)) >> 8u16) as u8 == b0) by (bit_vector);
    assert((((b0 as u16) << 8u16) | (b1 as u16)) as u8 == b1) by (bit_vector);
}

proof fn lemma_u32_bytes(v: u32)
    ensures
        u32_from_be((v >> 24u32) as u8, (v >> 16u32) as u8, (v >> 8u32) as u8, v as u8) == v,
{
    assert(((((v >> 24u32) as u8) as u32) << 24u32) | ((((v >> 16u32) as u8) as u32) << 16u32)
        | ((((v >> 8u32) as u8) as u32) << 8u32) | (((v as u8) as u32)) == v) by (bit_vector);
}

proof fn lemma_u32_value(b0: u8, b1: u8, b2: u8, b3: u8)
    ensures
        (u32_from_be(b0, b1, b2, b3) >> 24u32) as u8 == b0,
        (u32_from_be(b0, b1, b2, b3) >> 16u32) as u8 == b1,
        (u32_from_be(b0, b1, b2, b3) >> 8u32) as u8 == b2,
        u32_from_be(b0, b1, b2, b3) as u8 == b3,
{
    let v = u32_from_be(b0, b1, b2, b3);
    assert(v == ((b0 as u32) << 24u32) | ((b1 as u32) << 16u32) | ((b2 as u32) << 8u32) | (
    b3 as u32));
    assert(v == ((b0 as u32) << 24u32) | ((b1 as u32) << 16u32) | ((b2 as u32) << 8u32) | (
    b3 as u32) ==> (v >> 24u32) as u8 == b0 && (v >> 16u32) as u8 == b1 && (v >> 8u32) as u8
        == b2 && v as u8 == b3) by (bit_vector);
}

proof fn lemma_u64_bytes(v: u64)
    ensures
        u64_from_be(
            (v >> 56u64) as u8,
            (v >> 48u64) as u8,
            (v >> 40u64) as u8,
            (v >> 32u64) as u8,
            (v >> 24u64) as u8,
            (v >> 16u64) as u8,
            (v >> 8u64) as u8,
            v as u8,
        ) == v,
{
    assert(((((v >> 56u64) as u8) as u64) << 56u64) | ((((v >> 48u64) as u8) as u64) << 48u64)
        | ((((v >> 40u64) as u8) as u64) << 40u64) | ((((v >> 32u64) as u8) as u64) << 32u64)
        | ((((v >> 24u64) as u8) as u64) << 24u64) | ((((v >> 16u64) as u8) as u64) << 16u64)
        | ((((v >> 8u64) as u8) as u64) << 8u64) | (((v as u8) as u64)) == v) by (bit_vector);
}

proof fn lemma_u64_value(b0: u8, b1: u8, b2: u8, b3: u8, b4: u8, b5: u8, b6: u8, b7: u8)
    ensures
        ({
            let v = u64_from_be(b0, b1, b2, b3, b4, b5, b6, b7);
            &&& (v >> 56u64) as u8 == b0
            &&& (v >> 48u64) as u8 == b1
            &&& (v >> 40u64) as u8 == b2
            &&& (v >> 32u64) as u8 == b3
            &&& (v >> 24u64) as u8 == b4
            &&& (v >> 16u64) as u8 == b5
            &&& (v >> 8u64) as u8 == b6
            &&& v as u8 == b7
        }),
{
    let v = u64_from_be(b0, b1, b2, b3, b4, b5, b6, b7);
    assert(v == ((b0 as u64) << 56u64) | ((b1 as u64) << 48u64) | ((b2 as u64) << 40u64) | ((
    b3 as u64) << 32u64) | ((b4 as u64) << 24u64) | ((b5 as u64) << 16u64) | ((b6 as u64)
        << 8u64) | (b7 as u64));
    assert(v == ((b0 as u64) << 56u64) | ((b1 as u64) << 48u64) | ((b2 as u64) << 40u64) | ((
    b3 as u64) << 32u64) | ((b4 as u64) << 24u64) | ((b5 as u64) << 16u64) | ((b6 as u64)
        << 8u64) | (b7 as u64) ==> (v >> 56u64) as u8 == b0 && (v >> 48u64) as u8 == b1 && (v
        >> 40u64) as u8 == b2 && (v >> 32u64) as u8 == b3 && (v >> 24u64) as u8 == b4 && (v
        >> 16u64) as u8 == b5 && (v >> 8u64) as u8 == b6 && v as u8 == b7) by (bit_vector);
}

// ---------------------------------------------------------------------------
// The header as bytes
// ---------------------------------------------------------------------------

/// A header that may be sent: at least one fragment, and the index below the count.
pub open spec fn fragment_ok(h: PacketHeader) -> bool {
    h.fragment_count != 0 && h.fragment_index < h.fragment_count
}

/// The 32 header bytes for `h` with a payload of `payload_len` bytes.
pub open spec fn encode_header(h: PacketHeader, payload_len: u16) -> Seq<u8> {
    magic() + seq![VERSION, media_kind_code(h.media_kind), codec_code(h.codec), h.flags] + be32(
        h.stream_id,
    ) + be32(h.sequence) + be64(h.timestamp_us) + be16(payload_len) + be16(h.fragment_index)
        + be16(h.fragment_count) + seq![0u8, 0u8]
}

/// What writing `h` with `payload` gives: the whole datagram, or the error.
pub open spec fn encode_datagram(h: PacketHeader, payload: Seq<u8>) -> Result<
    Seq<u8>,
    ProtocolError,
> {
    if payload.len() > MAX_PAYLOAD_LEN {
        Err(ProtocolError::PayloadTooLarge)
    } else if !fragment_ok(h) {
        Err(ProtocolError::InvalidFragment)
    } else {
        Ok(encode_header(h, payload.len() as u16) + payload)
    }
}

/// What reading `d` gives: the header and the payload, or the first rule
/// that `d` breaks, checked in this order: size, magic, version, media
/// kind, codec, fragment numbering, declared length.
pub open spec fn decode_datagram(d: Seq<u8>) -> Result<(PacketHeader, Seq<u8>), ProtocolError> {
    if d.len() < HEADER_LEN {
        Err(ProtocolError::Truncated)
    } else if d.len() > MAX_DATAGRAM_LEN {
        Err(ProtocolError::DatagramTooLarge)
    } else if d.subrange(0, 4) != magic() {
        Err(ProtocolError::BadMagic)
    } else if d[4] != VERSION {
        Err(ProtocolError::UnsupportedVersion)
    } else if media_kind_from_code(d[5]) is None {
        Err(ProtocolError::UnknownMediaKind)
    } else if codec_from_code(d[6]) is None {
        Err(ProtocolError::UnknownCodec)
    } else {
        let fragment_index = u16_from_be(d[26], d[27]);
        let fragment_count = u16_from_be(d[28], d[29]);
        if fragment_count == 0 || fragment_index >= fragment_count {
            Err(ProtocolError::InvalidFragment)
        } else if u16_from_be(d[24], d[25]) != d.len() - HEADER_LEN {
            Err(ProtocolError::LengthMismatch)
        } else {
            Ok(
                (
                    PacketHeader {
                        media_kind: media_kind_from_code(d[5]).unwrap(),
                        codec: codec_from_code(d[6]).unwrap(),
                        flags: d[7],
                        stream_id: u32_from_be(d[8], d[9], d[10], d[11]),
                        sequence: u32_from_be(d[12], d[13], d[14], d[15]),
                        timestamp_us: u64_from_be(
                            d[16],
                            d[17],
                            d[18],
                            d[19],
                            d[20],
                            d[21],
                            d[22],
                            d[23],
                        ),
                        fragment_index,
                        fragment_count,
                    },
                    d.subrange(HEADER_LEN as int, d.len() as int),
                ),
            )
        }
    }
}

fn push_u16(out: &mut Vec<u8>, v: u16)
    ensures
        final(out)@ == old(out)@ + be16(v),
{
    out.push((v >> 8u16) as u8);
    out.push(v as u8);
    assert(final(out)@ =~= old(out)@ + be16(v));
}

fn push_u32(out: &mut Vec<u8>, v: u32)
    ensures
        final(out)@ == old(out)@ + be32(v),
{
    out.push((v >> 24u32) as u8);
    out.push((v >> 16u32) as u8);
    out.push((v >> 8u32) as u8);
    out.push(v as u8);
    assert(final(out)@ =~= old(out)@ + be32(v));
}

fn push_u64(out: &mut Vec<u8>, v: u64)
    ensures
        final(out)@ == old(out)@ + be64(v),
{
    out.push((v >> 56u64) as u8);
    out.push((v >> 48u64) as u8);
    out.push((v >> 40u64) as u8);
    out.push((v >> 32u64) as u8);
    out.push((v >> 24u64) as u8);
    out.push((v >> 16u64) as u8);
    out.push((v >> 8u64) as u8);
    out.push(v as u8);
    assert(final(out)@ =~= old(out)@ + be64(v));
}

/// Writes the datagram for `header` and `payload` into `out`, replacing what
/// `out` held. On an error `out` is left as it was.
pub fn write_datagram(header: PacketHeader, payload: &[u8], out: &mut Vec<u8>) -> (r: Result<
    (),
    ProtocolError,
>)
    ensures
        match encode_datagram(header, payload@) {
            Ok(bytes) => r is Ok && final(out)@ == bytes,
            Err(e) => r == Err::<(), ProtocolError>(e) && final(out)@ == old(out)@,
        },
        r is Ok <==> (payload@.len() <= 1168 && header.fragment_count != 0
            && header.fragment_index < header.fragment_count),
        payload@.len() > 1168 ==> r == Err::<(), ProtocolError>(ProtocolError::PayloadTooLarge),
        r is Ok ==> final(out)@.len() == 32 + payload@.len() && final(out)@.subrange(
            32,
            32 + payload@.len() as int,
        ) == payload@ && decode_datagram(final(out)@) == Ok::<
            (PacketHeader, Seq<u8>),
            ProtocolError,
        >((header, payload@)),
{
    proof {
        lemma_write_succeeds_when_valid(header, payload@);
    }
    if payload.len() > MAX_PAYLOAD_LEN {
        return Err(ProtocolError::PayloadTooLarge);
    }
    if header.fragment_count == 0 || header.fragment_index >= header.fragment_count {
        return Err(ProtocolError::InvalidFragment);
    }
    let payload_len = payload.len() as u16;
    out.clear();
    out.push(0x4cu8);
    out.push(0x41u8);
    out.push(0x4cu8);
    out.push(0x31u8);
    out.push(VERSION);
    out.push(header.media_kind.code());
    out.push(header.codec.code());
    out.push(header.flags);
    push_u32(out, header.stream_id);
    push_u32(out, header.sequence);
    push_u64(out, header.timestamp_us);
    push_u16(out, payload_len);
    push_u16(out, header.fragment_index);
    push_u16(out, header.fragment_count);
    out.push(0u8);
    out.push(0u8);
    assert(out@ =~= encode_header(header, payload_len));
    let ghost head = out@;
    let mut i: usize = 0;
    while i < payload.len()
        invariant
            i <= payload@.len(),
            out@ =~= head + payload@.subrange(0, i as int),
        decreases payload@.len() - i,
    {
        out.push(payload[i]);
        i = i + 1;
    }
    assert(payload@.subrange(0, payload@.len() as int) =~= payload@);
    Ok(())
}

/// Reads a received datagram: its header and a copy of its payload, or the
/// first rule of the format that it breaks.
pub fn read_datagram(d: &[u8]) -> (r: Result<(PacketHeader, Vec<u8>), ProtocolError>)
    ensures
        match r {
            Ok((h, p)) => decode_datagram(d@) == Ok::<(PacketHeader, Seq<u8>), ProtocolError>(
                (h, p@),
            ),
            Err(e) => decode_datagram(d@) == Err::<(PacketHeader, Seq<u8>), ProtocolError>(e),
        },
{
    if d.len() < HEADER_LEN {
        return Err(ProtocolError::Truncated);
    }
    if d.len() > MAX_DATAGRAM_LEN {
        return Err(ProtocolError::DatagramTooLarge);
    }
    if d[0] != 0x4cu8 || d[1] != 0x41u8 || d[2] != 0x4cu8 || d[3] != 0x31u8 {
        assert(d@.subrange(0, 4) != magic()) by {
            if d@.subrange(0, 4) == magic() {
                assert(d@.subrange(0, 4)[0] == d@[0]);
                assert(d@.subrange(0, 4)[1] == d@[1]);
                assert(d@.subrange(0, 4)[2] == d@[2]);
                assert(d@.subrange(0, 4)[3] == d@[3]);
            }
        }
        return Err(ProtocolError::BadMagic);
    }
    assert(d@.subrange(0, 4) =~= magic());
    if d[4] != VERSION {
        return Err(ProtocolError::UnsupportedVersion);
    }
    let media_kind = match MediaKind::from_code(d[5]) {
        Some(k) => k,
        None => {
            return Err(ProtocolError::UnknownMediaKind);
        },
    };
    let codec = match Codec::from_code(d[6]) {
        Some(c) => c,
        None => {
            return Err(ProtocolError::UnknownCodec);
        },
    };
    let fragment_index = ((d[26] as u16) << 8u16) | (d[27] as u16);
    let fragment_count = ((d[28] as u16) << 8u16) | (d[29] as u16);
    if fragment_count == 0 || fragment_index >= fragment_count {
        return Err(ProtocolError::InvalidFragment);
    }
    let declared = ((d[24] as u16) << 8u16) | (d[25] as u16);
    if declared as usize != d.len() - HEADER_LEN {
        return Err(ProtocolError::LengthMismatch);
    }
    let header = PacketHeader {
        media_kind,
        codec,
        flags: d[7],
        stream_id: ((d[8] as u32) << 24u32) | ((d[9] as u32) << 16u32) | ((d[10] as u32) << 8u32)
            | (d[11] as u32),
        sequence: ((d[12] as u32) << 24u32) | ((d[13] as u32) << 16u32) | ((d[14] as u32)
            << 8u32) | (d[15] as u32),
        timestamp_us: ((d[16] as u64) << 56u64) | ((d[17] as u64) << 48u64) | ((d[18] as u64)
            << 40u64) | ((d[19] as u64) << 32u64) | ((d[20] as u64) << 24u64) | ((d[21] as u64)
            << 16u64) | ((d[22] as u64) << 8u64) | (d[23] as u64),
        fragment_index,
        fragment_count,
    };
    let mut payload: Vec<u8> = Vec::new();
    let mut i: usize = HEADER_LEN;
    while i < d.len()
        invariant
            HEADER_LEN <= i <= d@.len(),
            payload@ =~= d@.subrange(HEADER_LEN as int, i as int),
        decreases d@.len() - i,
    {
        payload.push(d[i]);
        i = i + 1;
    }
    Ok((header, payload))
}

// ---------------------------------------------------------------------------
// Laws of the format
// ---------------------------------------------------------------------------

/// Every encoded header is exactly `HEADER_LEN` bytes long, starts with the
/// magic and the version, and ends with two zero bytes.
pub proof fn lemma_header_shape(h: PacketHeader, payload_len: u16)
    ensures
        encode_header(h, payload_len).len() == HEADER_LEN,
        encode_header(h, payload_len).subrange(0, 4) == magic(),
        encode_header(h, payload_len)[4] == VERSION,
        encode_header(h, payload_len)[30] == 0,
        encode_header(h, payload_len)[31] == 0,
{
    assert(encode_header(h, payload_len).subrange(0, 4) =~= magic());
}

/// A datagram that could be written is never longer than `MAX_DATAGRAM_LEN`.
pub proof fn lemma_written_datagram_fits(h: PacketHeader, payload: Seq<u8>)
    requires
        encode_datagram(h, payload) is Ok,
    ensures
        encode_datagram(h, payload)->Ok_0.len() <= MAX_DATAGRAM_LEN,
        encode_datagram(h, payload)->Ok_0.len() == HEADER_LEN + payload.len(),
{
    lemma_header_shape(h, payload.len() as u16);
}

/// Reading what was written gives back the same header and payload.
pub proof fn lemma_read_after_write(h: PacketHeader, payload: Seq<u8>)
    requires
        encode_datagram(h, payload) is Ok,
    ensures
        decode_datagram(encode_datagram(h, payload)->Ok_0) == Ok::<
            (PacketHeader, Seq<u8>),
            ProtocolError,
        >((h, payload)),
{
    let len = payload.len() as u16;
    let d = encode_header(h, len) + payload;
    assert(encode_datagram(h, payload)->Ok_0 == d);
    lemma_header_shape(h, len);
    assert(d.subrange(0, 4) =~= magic());
    lemma_u32_bytes(h.stream_id);
    lemma_u32_bytes(h.sequence);
    lemma_u64_bytes(h.timestamp_us);
    lemma_u16_bytes(len);
    lemma_u16_bytes(h.fragment_index);
    lemma_u16_bytes(h.fragment_count);
    assert(media_kind_from_code(media_kind_code(h.media_kind)) == Some(h.media_kind));
    assert(codec_from_code(codec_code(h.codec)) == Some(h.codec));
    assert(d.subrange(HEADER_LEN as int, d.len() as int) =~= payload);
}

/// A datagram that reads successfully and whose reserved bytes are zero is
/// exactly what writing its header and payload produces.
pub proof fn lemma_write_after_read(d: Seq<u8>)
    requires
        decode_datagram(d) is Ok,
        d[30] == 0,
        d[31] == 0,
    ensures
        ({
            let (h, p) = decode_datagram(d)->Ok_0;
            encode_datagram(h, p) == Ok::<Seq<u8>, ProtocolError>(d)
        }),
{
    let (h, p) = decode_datagram(d)->Ok_0;
    assert(d.subrange(0, 4) == magic());
    assert(d[0] == d.subrange(0, 4)[0]);
    assert(d[1] == d.subrange(0, 4)[1]);
    assert(d[2] == d.subrange(0, 4)[2]);
    assert(d[3] == d.subrange(0, 4)[3]);
    lemma_u32_value(d[8], d[9], d[10], d[11]);
    lemma_u32_value(d[12], d[13], d[14], d[15]);
    lemma_u64_value(d[16], d[17], d[18], d[19], d[20], d[21], d[22], d[23]);
    lemma_u16_value(d[24], d[25]);
    lemma_u16_value(d[26], d[27]);
    lemma_u16_value(d[28], d[29]);
    assert(media_kind_code(media_kind_from_code(d[5]).unwrap()) == d[5]);
    assert(codec_code(codec_from_code(d[6]).unwrap()) == d[6]);
    let len = p.len() as u16;
    assert(len == u16_from_be(d[24], d[25]));
    assert(encode_header(h, len) + p =~= d);
}

/// Writing succeeds exactly for a payload of at most 1168 bytes and a
/// fragment index below a nonzero fragment count, whatever the other fields;
/// the datagram is the 32-byte header followed by the payload, and reading
/// it gives back the same header and payload.
pub proof fn lemma_write_succeeds_when_valid(h: PacketHeader, payload: Seq<u8>)
    ensures
        encode_datagram(h, payload) is Ok <==> (payload.len() <= 1168 && h.fragment_count != 0
            && h.fragment_index < h.fragment_count),
        payload.len() > 1168 ==> encode_datagram(h, payload) == Err::<Seq<u8>, ProtocolError>(
            ProtocolError::PayloadTooLarge,
        ),
        (payload.len() <= 1168 && h.fragment_count != 0 && h.fragment_index < h.fragment_count)
            ==> ({
            let d = encode_datagram(h, payload)->Ok_0;
            &&& d.len() == 32 + payload.len()
            &&& d.subrange(32, d.len() as int) == payload
            &&& decode_datagram(d) == Ok::<(PacketHeader, Seq<u8>), ProtocolError>((h, payload))
        }),
{
    if payload.len() <= 1168 && h.fragment_count != 0 && h.fragment_index < h.fragment_count {
        lemma_read_after_write(h, payload);
        lemma_written_datagram_fits(h, payload);
        let d = encode_datagram(h, payload)->Ok_0;
        lemma_header_shape(h, payload.len() as u16);
        assert(d.subrange(32, d.len() as int) =~= payload);
    }
}

/// Reading rejects a fragment numbering exactly when the count is zero or
/// the index is not below it: any other well-formed datagram is accepted.
pub proof fn lemma_read_fragment_rule(d: Seq<u8>)
    requires
        32 <= d.len() <= 1200,
        d.subrange(0, 4) == magic(),
        d[4] == 1,
        1 <= d[5] <= 4,
        d[6] <= 4,
        u16_from_be(d[24], d[25]) == d.len() - 32,
    ensures
        (decode_datagram(d) == Err::<(PacketHeader, Seq<u8>), ProtocolError>(
            ProtocolError::InvalidFragment,
        )) <==> (u16_from_be(d[28], d[29]) == 0 || u16_from_be(d[26], d[27]) >= u16_from_be(
            d[28],
            d[29],
        )),
        decode_datagram(d) is Ok <==> (u16_from_be(d[28], d[29]) != 0 && u16_from_be(d[26], d[27])
            < u16_from_be(d[28], d[29])),
{
}

} // verus!
