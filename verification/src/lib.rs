//! Core logic of the RTABC audio broadcaster: the binary datagram format,
//! the streaming, discovery and media-command decisions, the server session
//! and the window state, each with its contract.
use vstd::prelude::*;

pub mod audio_codec;
pub mod icon;
pub mod network;
pub mod protocol;
pub mod session;
pub mod streamer;
pub mod ui;
pub mod windows_mixer;

verus! {

/// What the window asks of the network side.
#[derive(Clone, Copy, Debug, PartialEq, Eq, Structural)]
pub enum UiCommand {
    /// Start serving; the flag asks to mute the PC's own speakers meanwhile.
    StartServer(bool),
    StopServer,
}

/// What the network side reports to the window.
#[derive(Clone, Debug)]
pub enum NetworkEvent {
    DiscoveryStarted(String),
    ClientConnected(String),
    Error(String),
}

} // verus!
