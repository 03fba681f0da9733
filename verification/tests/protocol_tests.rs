use rtabc::protocol::{
    read_datagram, write_datagram, Codec, MediaKind, PacketHeader, ProtocolError,
    FLAG_DISCONTINUITY, HEADER_LEN, MAX_DATAGRAM_LEN, MAX_PAYLOAD_LEN,
};

fn sample_header() -> PacketHeader {
    PacketHeader {
        media_kind: MediaKind::Audio,
        codec: Codec::Opus,
        flags: FLAG_DISCONTINUITY,
        stream_id: 1,
        sequence: 0x0102_0304,
        timestamp_us: 0x0506_0708_090a_0b0c,
        fragment_index: 0,
        fragment_count: 1,
    }
}

fn sample_bytes() -> Vec<u8> {
    vec![
        0x4c, 0x41, 0x4c, 0x31, 0x01, 0x01, 0x02, 0x04, 0x00, 0x00, 0x00, 0x01, 0x01, 0x02, 0x03,
        0x04, 0x05, 0x06, 0x07, 0x08, 0x09, 0x0a, 0x0b, 0x0c, 0x00, 0x02, 0x00, 0x00, 0x00, 0x01,
        0x00, 0x00, 0xaa, 0xbb,
    ]
}

#[test]
fn header_encodes_to_known_bytes() {
    let mut out = Vec::new();
    write_datagram(sample_header(), &[0xaa, 0xbb], &mut out).unwrap();
    assert_eq!(out.len(), 34);
    assert_eq!(out, sample_bytes());
}

#[test]
fn known_bytes_decode_to_header() {
    let (h, p) = read_datagram(&sample_bytes()).unwrap();
    assert_eq!(h, sample_header());
    assert_eq!(p, vec![0xaa, 0xbb]);
}

#[test]
fn write_replaces_previous_contents() {
    let mut out = vec![9u8; 50];
    write_datagram(sample_header(), &[], &mut out).unwrap();
    assert_eq!(out.len(), HEADER_LEN);
    assert_eq!(&out[24..26], &[0, 0]);
}

#[test]
fn roundtrip_every_kind_and_codec() {
    let kinds = [MediaKind::Audio, MediaKind::Video, MediaKind::Control, MediaKind::Heartbeat];
    let codecs = [Codec::Unspecified, Codec::PcmS16Le, Codec::Opus, Codec::Hevc, Codec::Json];
    for k in kinds {
        for c in codecs {
            let h = PacketHeader {
                media_kind: k,
                codec: c,
                flags: 0x0f,
                stream_id: u32::MAX,
                sequence: u32::MAX,
                timestamp_us: u64::MAX,
                fragment_index: 6,
                fragment_count: 7,
            };
            let payload: Vec<u8> = (0..100u8).collect();
            let mut out = Vec::new();
            write_datagram(h, &payload, &mut out).unwrap();
            let (h2, p2) = read_datagram(&out).unwrap();
            assert_eq!(h2, h);
            assert_eq!(p2, payload);
        }
    }
}

#[test]
fn largest_payload_fits_one_datagram() {
    let payload = vec![7u8; MAX_PAYLOAD_LEN];
    let mut out = Vec::new();
    write_datagram(sample_header(), &payload, &mut out).unwrap();
    assert_eq!(out.len(), MAX_DATAGRAM_LEN);
    let (_, p) = read_datagram(&out).unwrap();
    assert_eq!(p.len(), MAX_PAYLOAD_LEN);
}

#[test]
fn write_rejects_oversized_payload() {
    let payload = vec![0u8; MAX_PAYLOAD_LEN + 1];
    let mut out = vec![1, 2, 3];
    assert_eq!(
        write_datagram(sample_header(), &payload, &mut out),
        Err(ProtocolError::PayloadTooLarge)
    );
    assert_eq!(out, vec![1, 2, 3]);
}

#[test]
fn write_rejects_bad_fragments() {
    let mut out = Vec::new();
    let mut h = sample_header();
    h.fragment_count = 0;
    assert_eq!(write_datagram(h, &[], &mut out), Err(ProtocolError::InvalidFragment));
    h.fragment_count = 3;
    h.fragment_index = 3;
    assert_eq!(write_datagram(h, &[], &mut out), Err(ProtocolError::InvalidFragment));
    assert!(out.is_empty());
}

#[test]
fn read_rejects_short_and_long() {
    let d = sample_bytes();
    assert_eq!(read_datagram(&d[..31]).unwrap_err(), ProtocolError::Truncated);
    let long = vec![0u8; MAX_DATAGRAM_LEN + 1];
    assert_eq!(read_datagram(&long).unwrap_err(), ProtocolError::DatagramTooLarge);
}

#[test]
fn read_rejects_bad_magic() {
    let mut d = sample_bytes();
    d[3] = b'2';
    assert_eq!(read_datagram(&d).unwrap_err(), ProtocolError::BadMagic);
}

#[test]
fn read_rejects_other_version() {
    let mut d = sample_bytes();
    d[4] = 2;
    assert_eq!(read_datagram(&d).unwrap_err(), ProtocolError::UnsupportedVersion);
}

#[test]
fn read_rejects_unknown_kind_and_codec() {
    let mut d = sample_bytes();
    d[5] = 5;
    assert_eq!(read_datagram(&d).unwrap_err(), ProtocolError::UnknownMediaKind);
    let mut d = sample_bytes();
    d[5] = 0;
    assert_eq!(read_datagram(&d).unwrap_err(), ProtocolError::UnknownMediaKind);
    let mut d = sample_bytes();
    d[6] = 5;
    assert_eq!(read_datagram(&d).unwrap_err(), ProtocolError::UnknownCodec);
}

#[test]
fn read_rejects_bad_fragment_numbers() {
    let mut d = sample_bytes();
    d[29] = 0;
    assert_eq!(read_datagram(&d).unwrap_err(), ProtocolError::InvalidFragment);
    let mut d = sample_bytes();
    d[27] = 1;
    assert_eq!(read_datagram(&d).unwrap_err(), ProtocolError::InvalidFragment);
}

#[test]
fn read_rejects_length_mismatch() {
    let mut d = sample_bytes();
    d.push(0xcc);
    assert_eq!(read_datagram(&d).unwrap_err(), ProtocolError::LengthMismatch);
    let mut d = sample_bytes();
    d[25] = 3;
    assert_eq!(read_datagram(&d).unwrap_err(), ProtocolError::LengthMismatch);
}

#[test]
fn read_ignores_reserved_bytes() {
    let mut d = sample_bytes();
    d[30] = 0xff;
    d[31] = 0xee;
    let (h, _) = read_datagram(&d).unwrap();
    assert_eq!(h, sample_header());
}

#[test]
fn codes_match_the_table() {
    assert_eq!(MediaKind::Audio.code(), 1);
    assert_eq!(MediaKind::Heartbeat.code(), 4);
    assert_eq!(Codec::Unspecified.code(), 0);
    assert_eq!(Codec::Json.code(), 4);
    assert_eq!(MediaKind::from_code(2), Some(MediaKind::Video));
    assert_eq!(Codec::from_code(3), Some(Codec::Hevc));
    assert_eq!(Codec::from_code(9), None);
}
