# rtabc

The PC side of LocalAudioLink: it captures the system audio, compresses it
with Opus and streams it over UDP to a phone on the same LAN, answers the
phone's discovery pings, turns the phone's media commands into media keys,
and can mute the PC's own speakers while it streams.

## Layout

- `src/` is the verified library (Verus):
  - `protocol.rs`: the 32-byte version 1 datagram header, writing and
    reading datagrams, and the laws that reading undoes writing.
  - `audio_codec.rs`: 48 kHz stereo framing in 10 ms frames.
  - `streamer.rs`: what the audio streamer does on each timer tick (serve,
    purge a silent client, drop old audio, restart the stream) and how each
    encoded frame becomes a numbered, time-stamped datagram.
  - `network.rs`: the discovery ping/pong and the media-command parser.
  - `session.rs`: how start and stop commands drive capture, mute and the
    network tasks.
  - `ui.rs`: the state of the control window.
  - `icon.rs`: the tray icon's pixels.
  - `windows_mixer.rs`: the mute handle.
- `app/` is the program around it: the egui window and tray icon, the cpal
  capture, the Opus encoder, the tokio network tasks and the Windows mute
  calls.
- `tests/` exercises the library on concrete values.
