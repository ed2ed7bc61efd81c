//! The recorder's status line and its reconnect button, and the start or
//! stop of the game connection when record mode changes.

use vstd::prelude::*;

use crate::text::eq_str;

verus! {

/// The address of the game connection when none is configured.
pub const DEFAULT_GAMEHOOK_URL: &'static str = "http://localhost:8085";

/// The configured address of the game connection, or the default.
pub fn gamehook_url(configured: Option<String>) -> (r: String)
    ensures
        r@ == match configured {
            Some(u) => u@,
            None => DEFAULT_GAMEHOOK_URL@,
        },
{
    match configured {
        Some(u) => u,
        None => String::from_str(DEFAULT_GAMEHOOK_URL),
    }
}

/// What a change of record mode does to the game connection.
#[derive(Clone, Copy, Debug, PartialEq, Eq, Structural)]
pub enum ModeChange {
    /// recording was switched on while a connection already runs
    AlreadyConnected,
    Start,
    Stop,
}

/// The status line shown while recording, and whether "Reconnect" is
/// offered.
pub struct ClientStatus {
    pub text: String,
    pub reconnect_enabled: bool,
}

impl ClientStatus {
    pub fn new() -> (r: ClientStatus)
        ensures
            r.text@ == Seq::<char>::empty(),
            !r.reconnect_enabled,
    {
        ClientStatus { text: String::new(), reconnect_enabled: false }
    }

    /// Record mode changed (`has_client`: a connection runs). Starting says
    /// it is connecting.
    pub fn mode_changed(&mut self, active: bool, has_client: bool) -> (r: ModeChange)
        ensures
            active && has_client ==> r == ModeChange::AlreadyConnected && final(self).text == old(self).text,
            active && !has_client ==> r == ModeChange::Start && final(self).text@
                == "Client Status: Connecting..."@,
            !active ==> r == ModeChange::Stop && final(self).text == old(self).text,
            final(self).reconnect_enabled == old(self).reconnect_enabled,
    {
        if active {
            if has_client {
                return ModeChange::AlreadyConnected;
            }
            self.text = String::from_str("Client Status: Connecting...");
            ModeChange::Start
        } else {
            ModeChange::Stop
        }
    }

    /// No recorder could be made for the game version.
    pub fn no_recorder(&mut self)
        ensures
            final(self).text@ == "No recorder has been created yet for the current version"@,
            !final(self).reconnect_enabled,
    {
        self.text = String::from_str("No recorder has been created yet for the current version");
        self.reconnect_enabled = false;
    }

    /// The recorder's latest report: a status word (the disconnected word
    /// offers "Reconnect"), and whether it is ready (a ready recorder needs
    /// no reconnect, one that is not does).
    pub fn refresh(&mut self, status: Option<&str>, ready: Option<bool>, disconnected: &str)
        ensures
            match status {
                Some(s) => final(self).text@ == "Client Status: "@ + s@,
                None => final(self).text == old(self).text,
            },
            final(self).reconnect_enabled == match ready {
                Some(r) => !r,
                None => match status {
                    Some(s) => s@ == disconnected@ || old(self).reconnect_enabled,
                    None => old(self).reconnect_enabled,
                },
            },
    {
        match status {
            Some(s) => {
                let mut t = String::from_str("Client Status: ");
                t.append(s);
                self.text = t;
                let w = String::from_str(s);
                if eq_str(&w, disconnected) {
                    self.reconnect_enabled = true;
                }
            },
            None => {},
        }
        match ready {
            Some(r) => {
                self.reconnect_enabled = !r;
            },
            None => {},
        }
    }
}

} // verus!
