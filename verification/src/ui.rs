//! The state of the control window and how commands and events change it.
use vstd::prelude::*;
use vstd::string::StringExecFns;
use crate::{NetworkEvent, UiCommand};

verus! {

/// What the control window shows and remembers.
pub struct App {
    pub server_running: bool,
    pub status_message: String,
    pub local_ip_str: String,
    pub label: String,
    pub mute_local_pc: bool,
}

/// `prefix` followed by `text`.
fn prefixed(prefix: &str, text: &str) -> (s: String)
    ensures
        s@ == prefix@ + text@,
{
    let mut s = String::from_str(prefix);
    s.append(text);
    s
}

impl App {
    /// The window as it opens. `local_ip` is the computer's LAN address as
    /// text, or the reason it could not be found.
    pub fn new(local_ip: Result<String, String>) -> (app: App)
        ensures
            !app.server_running,
            !app.mute_local_pc,
            app.status_message@ == "Server Stopped."@,
            app.label@ == "RTABC - Listen on Local Network"@,
            match local_ip {
                Ok(ip) => app.local_ip_str@ == ip@,
                Err(e) => app.local_ip_str@ == "Error getting IP: "@ + e@,
            },
    {
        let local_ip_str = match local_ip {
            Ok(ip) => ip,
            Err(e) => prefixed("Error getting IP: ", e.as_str()),
        };
        App {
            server_running: false,
            status_message: String::from_str("Server Stopped."),
            local_ip_str,
            label: String::from_str("RTABC - Listen on Local Network"),
            mute_local_pc: false,
        }
    }

    /// Shows an event from the network side. An error also marks the server
    /// as stopped.
    pub fn apply_network_event(&mut self, event: NetworkEvent)
        ensures
            final(self).local_ip_str == old(self).local_ip_str,
            final(self).label == old(self).label,
            final(self).mute_local_pc == old(self).mute_local_pc,
            match event {
                NetworkEvent::DiscoveryStarted(msg) => final(self).status_message@ == "Activated: "@
                    + msg@ && final(self).server_running == old(self).server_running,
                NetworkEvent::ClientConnected(ip) => final(self).status_message@
                    == "Connected to client Tauri: "@ + ip@ && final(self).server_running == old(
                    self,
                ).server_running,
                NetworkEvent::Error(err) => final(self).status_message@ == "Error de Red: "@
                    + err@ && !final(self).server_running,
            },
    {
        match event {
            NetworkEvent::DiscoveryStarted(msg) => {
                self.status_message = prefixed("Activated: ", msg.as_str());
            },
            NetworkEvent::ClientConnected(ip) => {
                self.status_message = prefixed("Connected to client Tauri: ", ip.as_str());
            },
            NetworkEvent::Error(err) => {
                self.status_message = prefixed("Error de Red: ", err.as_str());
                self.server_running = false;
            },
        }
    }

    /// The main button was pressed: stops a running server, or starts one
    /// with the current mute choice. Returns the command to send.
    pub fn toggle_server(&mut self) -> (cmd: UiCommand)
        ensures
            final(self).server_running == !old(self).server_running,
            final(self).local_ip_str == old(self).local_ip_str,
            final(self).label == old(self).label,
            final(self).mute_local_pc == old(self).mute_local_pc,
            old(self).server_running ==> cmd == UiCommand::StopServer && final(self).status_message@
                == "Server Stopped."@,
            !old(self).server_running ==> cmd == UiCommand::StartServer(old(self).mute_local_pc)
                && final(self).status_message@ == "Starting UDP Broadcaster..."@,
    {
        if self.server_running {
            self.server_running = false;
            self.status_message = String::from_str("Server Stopped.");
            UiCommand::StopServer
        } else {
            self.server_running = true;
            self.status_message = String::from_str("Starting UDP Broadcaster...");
            UiCommand::StartServer(self.mute_local_pc)
        }
    }

    /// The command to send before quitting: a running server is stopped.
    pub fn quit_command(&self) -> (cmd: Option<UiCommand>)
        ensures
            cmd == (if self.server_running {
                Some(UiCommand::StopServer)
            } else {
                None::<UiCommand>
            }),
    {
        if self.server_running {
            Some(UiCommand::StopServer)
        } else {
            None
        }
    }

    /// The caption of the main button.
    pub fn button_text(&self) -> (text: &'static str)
        ensures
            self.server_running ==> text@ == "⏹ Stop Broadcast"@,
            !self.server_running ==> text@ == "▶ Start Streaming"@,
    {
        if self.server_running {
            "⏹ Stop Broadcast"
        } else {
            "▶ Start Streaming"
        }
    }
}

} // verus!
