use rtabc::network::{handle_incoming_discovery_packet, parse_media_command, pong_bytes, AvrcpMessage, MediaCommand, DISCOVERY_PORT, AVRCP_PORT};

#[test]
fn ping_gets_pong() {
    let reply = handle_incoming_discovery_packet(b"RTABC_DISCOVERY_PING").unwrap();
    assert_eq!(reply, b"RTABC_DISCOVERY_PONG".to_vec());
    assert_eq!(pong_bytes(), b"RTABC_DISCOVERY_PONG".to_vec());
}

#[test]
fn other_packets_ignored() {
    assert!(handle_incoming_discovery_packet(b"RTABC_DISCOVERY_PONG").is_none());
    assert!(handle_incoming_discovery_packet(b"RTABC_DISCOVERY_PING ").is_none());
    assert!(handle_incoming_discovery_packet(b"").is_none());
    assert_eq!(DISCOVERY_PORT, 8888);
    assert_eq!(AVRCP_PORT, 8889);
}

#[test]
fn media_commands_parse() {
    assert!(matches!(parse_media_command(b"play_pause"), AvrcpMessage::Command(MediaCommand::PlayPause)));
    assert!(matches!(parse_media_command(b"next"), AvrcpMessage::Command(MediaCommand::NextTrack)));
    assert!(matches!(parse_media_command(b"prev"), AvrcpMessage::Command(MediaCommand::PrevTrack)));
}

#[test]
fn media_commands_are_trimmed() {
    assert!(matches!(parse_media_command(b"  next\r\n"), AvrcpMessage::Command(MediaCommand::NextTrack)));
    assert!(matches!(parse_media_command("\u{3000}prev\u{a0}".as_bytes()), AvrcpMessage::Command(MediaCommand::PrevTrack)));
}

#[test]
fn unknown_text_is_reported_trimmed() {
    match parse_media_command(b"  volume_up \n") {
        AvrcpMessage::Unknown(t) => assert_eq!(t, "volume_up"),
        other => panic!("unexpected {:?}", other),
    }
    match parse_media_command(b"NEXT") {
        AvrcpMessage::Unknown(t) => assert_eq!(t, "NEXT"),
        other => panic!("unexpected {:?}", other),
    }
}

#[test]
fn non_utf8_is_dropped() {
    assert!(matches!(parse_media_command(&[0x6e, 0xff, 0x78]), AvrcpMessage::NotText));
    assert!(matches!(parse_media_command(&[0xc0, 0x80]), AvrcpMessage::NotText));
}
