use vstd::prelude::*;

use crate::text::{append_decimal, decimal_text};

verus! {

/// ZMQ base configuration
pub struct ZeromqConfig {
    /// Connection port
    pub port: u16,
    /// Connection host
    pub addr: String,
    /// Connection protocol
    pub protocol: String,
}

/// The endpoint of a configuration: `<protocol>://<addr>:<port>`.
pub open spec fn endpoint_text(protocol: Seq<char>, addr: Seq<char>, port: nat) -> Seq<char> {
    protocol + "://"@ + addr + ":"@ + decimal_text(port)
}

impl ZeromqConfig {
    /// Convert a configuration into an endpoint for connect and bind
    pub fn url(&self) -> (u: String)
        ensures
            u@ == endpoint_text(self.protocol@, self.addr@, self.port as nat),
    {
        let mut text = self.protocol.clone();
        text.append("://");
        text.append(self.addr.as_str());
        text.append(":");
        append_decimal(&mut text, self.port as u64);
        text
    }
}

/// Preferred configuration
impl Default for ZeromqConfig {
    fn default() -> (c: Self)
        ensures
            c.port == 9000,
            c.addr@ == "127.0.0.1"@,
            c.protocol@ == "tcp"@,
    {
        Self {
            port: 9000,
            addr: String::from_str("127.0.0.1"),
            protocol: String::from_str("tcp"),
        }
    }
}

/// What the subscriber does after a receive.
pub enum RecvAction {
    /// Hand over the first frame of the message that came (empty when it has none).
    DeliverFirstFrame,
    /// Wait this many milliseconds, then connect a new socket and receive again.
    WaitThenReconnect { millis: u64 },
}

/// The decision after a receive, from whether a message came: deliver it, or wait two
/// seconds and reconnect.
pub fn recv_step(received: bool) -> (a: RecvAction)
    ensures
        received ==> a == RecvAction::DeliverFirstFrame,
        !received ==> a == (RecvAction::WaitThenReconnect { millis: 2000 }),
{
    if received {
        RecvAction::DeliverFirstFrame
    } else {
        RecvAction::WaitThenReconnect { millis: 2000 }
    }
}

} // verus!
