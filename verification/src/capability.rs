//! The protocol extensions that a client can ask the server for.

use vstd::prelude::*;
use vstd::string::StringExecFns;

verus! {

/// A protocol extension of the server.
#[derive(Clone, Copy, Debug, PartialEq, Eq, Structural)]
pub enum TwitchCapabilities {
    Tags,
    Commands,
    Membership,
}

impl TwitchCapabilities {
    /// The name of the capability on the wire.
    pub open spec fn name(self) -> Seq<char> {
        match self {
            TwitchCapabilities::Tags => "tags"@,
            TwitchCapabilities::Commands => "commands"@,
            TwitchCapabilities::Membership => "membership"@,
        }
    }

    /// The line that asks for the capability, without its terminator.
    pub open spec fn request_text(self) -> Seq<char> {
        "CAP REQ :twitch.tv/"@ + self.name()
    }

    /// The line that asks the server for this capability, without its
    /// terminator.
    pub fn request(&self) -> (r: String)
        ensures
            r@ == self.request_text(),
    {
        let mut line = String::from_str("CAP REQ :twitch.tv/");
        match self {
            TwitchCapabilities::Tags => line.append("tags"),
            TwitchCapabilities::Commands => line.append("commands"),
            TwitchCapabilities::Membership => line.append("membership"),
        }
        line
    }
}

} // verus!
