//! What the discovery service and the media-command receiver decide about a
//! received datagram. The sockets, and the keystrokes that a media command
//! becomes, live in the platform layer.
use vstd::prelude::*;
use vstd::utf8::{
    decode_utf8, encode_utf8, encode_utf8_decode_utf8, is_ascii_chars, is_ascii_chars_encode_utf8,
    valid_utf8,
};

verus! {

/// UDP port on which the PC waits for discovery pings.
pub const DISCOVERY_PORT: u16 = 8888;

/// UDP port on which the PC receives media commands from the phone.
pub const AVRCP_PORT: u16 = 8889;

/// The discovery ping, ASCII `RTABC_DISCOVERY_PING`.
pub open spec fn ping_message() -> Seq<u8> {
    seq![
        82u8, 84u8, 65u8, 66u8, 67u8, 95u8, 68u8, 73u8, 83u8, 67u8,
        79u8, 86u8, 69u8, 82u8, 89u8, 95u8, 80u8, 73u8, 78u8, 71u8,
    ]
}

/// The discovery answer, ASCII `RTABC_DISCOVERY_PONG`.
pub open spec fn pong_message() -> Seq<u8> {
    seq![
        82u8, 84u8, 65u8, 66u8, 67u8, 95u8, 68u8, 73u8, 83u8, 67u8,
        79u8, 86u8, 69u8, 82u8, 89u8, 95u8, 80u8, 79u8, 78u8, 71u8,
    ]
}

/// The discovery messages are the ASCII texts `RTABC_DISCOVERY_PING` and
/// `RTABC_DISCOVERY_PONG`, and they differ.
pub proof fn lemma_discovery_messages()
    ensures
        ping_message() == encode_utf8("RTABC_DISCOVERY_PING"@),
        pong_message() == encode_utf8("RTABC_DISCOVERY_PONG"@),
        ping_message() != pong_message(),
{
    reveal_strlit("RTABC_DISCOVERY_PING");
    reveal_strlit("RTABC_DISCOVERY_PONG");
    let ping = "RTABC_DISCOVERY_PING"@;
    let pong = "RTABC_DISCOVERY_PONG"@;
    assert(is_ascii_chars(ping));
    assert(is_ascii_chars(pong));
    is_ascii_chars_encode_utf8(ping);
    is_ascii_chars_encode_utf8(pong);
    assert(ping_message() =~= encode_utf8(ping));
    assert(pong_message() =~= encode_utf8(pong));
    assert(ping_message()[17] != pong_message()[17]);
}

/// Whether two byte strings are equal.
pub fn bytes_equal(a: &[u8], b: &[u8]) -> (eq: bool)
    ensures
        eq == (a@ == b@),
{
    if a.len() != b.len() {
        return false;
    }
    let mut i: usize = 0;
    while i < a.len()
        invariant
            a@.len() == b@.len(),
            i <= a@.len(),
            forall|j: int| 0 <= j < i ==> a@[j] == b@[j],
        decreases a@.len() - i,
    {
        if a[i] != b[i] {
            return false;
        }
        i = i + 1;
    }
    assert(a@ =~= b@);
    true
}

/// The discovery answer, as bytes to send.
pub fn pong_bytes() -> (v: Vec<u8>)
    ensures
        v@ == pong_message(),
        v@ == encode_utf8("RTABC_DISCOVERY_PONG"@),
{
    proof {
        lemma_discovery_messages();
    }
    let v: Vec<u8> = vec![
        82u8, 84u8, 65u8, 66u8, 67u8, 95u8, 68u8, 73u8, 83u8, 67u8,
        79u8, 86u8, 69u8, 82u8, 89u8, 95u8, 80u8, 79u8, 78u8, 71u8,
    ];
    assert(v@ =~= pong_message());
    v
}

/// Decides what a datagram received on the discovery port asks for. A ping
/// registers its sender as the client, with the time of arrival, and is
/// answered with the returned pong; anything else is ignored (`None`).
pub fn handle_incoming_discovery_packet(packet: &[u8]) -> (reply: Option<Vec<u8>>)
    ensures
        reply is Some <==> packet@ == ping_message(),
        reply matches Some(bytes) ==> bytes@ == pong_message(),
        reply is Some <==> packet@ == encode_utf8("RTABC_DISCOVERY_PING"@),
        reply matches Some(bytes) ==> bytes@ == encode_utf8("RTABC_DISCOVERY_PONG"@),
{
    proof {
        lemma_discovery_messages();
    }
    let ping: Vec<u8> = vec![
        82u8, 84u8, 65u8, 66u8, 67u8, 95u8, 68u8, 73u8, 83u8, 67u8,
        79u8, 86u8, 69u8, 82u8, 89u8, 95u8, 80u8, 73u8, 78u8, 71u8,
    ];
    assert(ping@ =~= ping_message());
    if bytes_equal(packet, ping.as_slice()) {
        Some(pong_bytes())
    } else {
        None
    }
}

// ---------------------------------------------------------------------------
// Media commands
// ---------------------------------------------------------------------------

/// A media key that the phone can press on the PC.
#[derive(Clone, Copy, Debug, PartialEq, Eq, Structural)]
pub enum MediaCommand {
    PlayPause,
    NextTrack,
    PrevTrack,
}

/// What a datagram on the media-command port turned out to be.
#[derive(Clone, Debug)]
pub enum AvrcpMessage {
    /// The bytes are not UTF-8: the datagram is dropped silently.
    NotText,
    /// Text that names no command, with surrounding white space removed.
    Unknown(String),
    /// A known command.
    Command(MediaCommand),
}

/// Unicode `White_Space`, the characters that `str::trim` removes.
pub open spec fn is_white_space(c: char) -> bool {
    ||| ('\u{9}' <= c && c <= '\u{d}')
    ||| c == ' '
    ||| c == '\u{85}'
    ||| c == '\u{a0}'
    ||| c == '\u{1680}'
    ||| ('\u{2000}' <= c && c <= '\u{200a}')
    ||| c == '\u{2028}'
    ||| c == '\u{2029}'
    ||| c == '\u{202f}'
    ||| c == '\u{205f}'
    ||| c == '\u{3000}'
}

pub open spec fn trim_start(s: Seq<char>) -> Seq<char>
    decreases s.len(),
{
    if s.len() > 0 && is_white_space(s[0]) {
        trim_start(s.drop_first())
    } else {
        s
    }
}

pub open spec fn trim_end(s: Seq<char>) -> Seq<char>
    decreases s.len(),
{
    if s.len() > 0 && is_white_space(s.last()) {
        trim_end(s.drop_last())
    } else {
        s
    }
}

/// `s` without its leading and trailing white space.
pub open spec fn trim_white_space(s: Seq<char>) -> Seq<char> {
    trim_end(trim_start(s))
}

/// The command that a trimmed text names, if any.
pub open spec fn media_command_named(text: Seq<char>) -> Option<MediaCommand> {
    if text == "play_pause"@ {
        Some(MediaCommand::PlayPause)
    } else if text == "next"@ {
        Some(MediaCommand::NextTrack)
    } else if text == "prev"@ {
        Some(MediaCommand::PrevTrack)
    } else {
        None
    }
}

/// Calls `core::str::from_utf8`. Claims what its documentation states: the
/// bytes are accepted exactly when they are valid UTF-8, and then the string
/// holds the characters that they encode.
#[verifier::external_body]
fn utf8_text(bytes: &[u8]) -> (text: Option<&str>)
    ensures
        text is Some <==> valid_utf8(bytes@),
        text matches Some(t) ==> t@ == decode_utf8(bytes@),
{
    core::str::from_utf8(bytes).ok()
}

/// Calls `str::trim`. Claims what its documentation states: the result is
/// the text without leading and trailing Unicode `White_Space`.
#[verifier::external_body]
fn trimmed(text: &str) -> (t: &str)
    ensures
        t@ == trim_white_space(text@),
{
    text.trim()
}

/// Whether `text` is exactly `word`.
fn text_is(text: &str, word: &str) -> (eq: bool)
    ensures
        eq == (text@ == word@),
{
    let eq = bytes_equal(text.as_bytes(), word.as_bytes());
    proof {
        if eq {
            encode_utf8_decode_utf8(text@);
            encode_utf8_decode_utf8(word@);
            assert(encode_utf8(text@) == encode_utf8(word@));
        }
    }
    eq
}

/// Reads a datagram received on the media-command port: text that, once
/// trimmed of white space, is `play_pause`, `next` or `prev`.
pub fn parse_media_command(datagram: &[u8]) -> (m: AvrcpMessage)
    ensures
        !valid_utf8(datagram@) ==> m is NotText,
        valid_utf8(datagram@) ==> match media_command_named(
            trim_white_space(decode_utf8(datagram@)),
        ) {
            Some(c) => m == AvrcpMessage::Command(c),
            None => m matches AvrcpMessage::Unknown(t) && t@ == trim_white_space(
                decode_utf8(datagram@),
            ),
        },
{
    let text = match utf8_text(datagram) {
        Some(t) => t,
        None => {
            return AvrcpMessage::NotText;
        },
    };
    let command = trimmed(text);
    if text_is(command, "play_pause") {
        AvrcpMessage::Command(MediaCommand::PlayPause)
    } else if text_is(command, "next") {
        AvrcpMessage::Command(MediaCommand::NextTrack)
    } else if text_is(command, "prev") {
        AvrcpMessage::Command(MediaCommand::PrevTrack)
    } else {
        AvrcpMessage::Unknown(command.to_owned())
    }
}

} // verus!
