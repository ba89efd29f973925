//! The DHCP relay: which datagrams are taken in, which are sent on to the
//! server, and where.
//!
//! The relay listens on the DHCP server port for datagrams from the workload's
//! side, and sends from the DHCP client port to the real server. Between the
//! two stands a queue of decoded messages, each with the address it came from.
//! The queue is bounded: when it is full the receiving side waits, so that a
//! slow sending side delays datagrams and loses none.

use crate::packet::{dhcp_encoding, message_of, writable, DHCPMessage};
use dhcproto::v4::Message;
use crate::subnet::Ipv4;
use vstd::prelude::*;

verus! {

/// Number of messages that the queue between the two sides holds.
pub const QUEUE_CAPACITY: usize = 1024;

/// Size of the buffer that one datagram is read into.
pub const DATAGRAM_SIZE: usize = 1024;

/// An IPv4 address and a UDP port.
#[derive(Debug, Clone, Copy, PartialEq, Eq, Structural)]
pub struct Endpoint {
    pub ip: Ipv4,
    pub port: u16,
}

/// Why nothing is sent on for a datagram.
#[derive(Debug, Clone, Copy, PartialEq, Eq, Structural)]
pub enum DropReason {
    /// The datagram was not read as a DHCP message.
    NotRead,
    /// The message did not come from the expected source.
    OtherSource,
    /// The message came from the expected source, and the codec cannot write
    /// it out.
    NotWritable,
}

/// What the sending side does with a message taken from the queue.
#[derive(Debug)]
pub enum RelayAction {
    /// Send `payload` to `to`, once. A failure to send is noted and the
    /// message is lost; the relay goes on.
    Forward { payload: Vec<u8>, to: Endpoint },
    /// Send nothing, for the reason given.
    Drop(DropReason),
}

impl RelayAction {
    /// What the action puts on the wire, and where to: nothing for `Drop`.
    pub open spec fn sent(self) -> Option<(Seq<u8>, Endpoint)> {
        match self {
            RelayAction::Forward { payload, to } => Some((payload@, to)),
            RelayAction::Drop(_) => None,
        }
    }

    /// Why the action sends nothing, if it sends nothing.
    pub open spec fn dropped(self) -> Option<DropReason> {
        match self {
            RelayAction::Forward { .. } => None,
            RelayAction::Drop(reason) => Some(reason),
        }
    }
}

/// The relay's settings: the one source address whose messages are sent on,
/// and the server that they are sent to.
#[derive(Debug, Clone, Copy, PartialEq, Eq, Structural)]
pub struct Relay {
    pub runtime: Ipv4,
    pub server: Endpoint,
}

/// What is sent on for a datagram that came from `source`, if anything: the
/// datagram must be a DHCP message that the codec can write out again, and
/// must come from the relay's source address; what is sent is the message
/// written out again. `source` is
/// `None` for a datagram that did not come from an IPv4 address.
pub open spec fn relayed(relay: Relay, datagram: Seq<u8>, source: Option<Ipv4>) -> Option<Seq<u8>> {
    match message_of(datagram) {
        Some(message) => if source == Some(relay.runtime) && writable(message) {
            Some(dhcp_encoding(message))
        } else {
            None
        },
        None => None,
    }
}

/// Why nothing is sent on for what a datagram from `source` was read as, if
/// nothing is: the first of the three reasons that holds, in the order in
/// which the relay meets them.
pub open spec fn drop_reason(relay: Relay, read: Option<Message>, source: Option<Ipv4>) -> Option<
    DropReason,
> {
    match read {
        None => Some(DropReason::NotRead),
        Some(message) => if source != Some(relay.runtime) {
            Some(DropReason::OtherSource)
        } else if !writable(message) {
            Some(DropReason::NotWritable)
        } else {
            None
        },
    }
}

/// The constant `dhcproto::v4::SERVER_PORT`, the DHCP server port.
#[verifier::external_body]
fn dhcp_server_port() -> (port: u16)
    ensures
        port == 67,
{
    dhcproto::v4::SERVER_PORT
}

/// The constant `dhcproto::v4::CLIENT_PORT`, the DHCP client port.
#[verifier::external_body]
fn dhcp_client_port() -> (port: u16)
    ensures
        port == 68,
{
    dhcproto::v4::CLIENT_PORT
}

/// Where the receiving side listens: every address, DHCP server port.
pub fn receiver_endpoint() -> (at: Endpoint)
    ensures
        at == (Endpoint { ip: Ipv4::unspecified_spec(), port: 67 }),
{
    Endpoint { ip: Ipv4::unspecified(), port: dhcp_server_port() }
}

/// Where the sending side sends from: every address, DHCP client port.
pub fn sender_endpoint() -> (at: Endpoint)
    ensures
        at == (Endpoint { ip: Ipv4::unspecified_spec(), port: 68 }),
{
    Endpoint { ip: Ipv4::unspecified(), port: dhcp_client_port() }
}

/// The source address of the container runtime's bridge, `172.17.0.1`.
pub fn default_runtime_address() -> (ip: Ipv4)
    ensures
        ip == (Ipv4 { a: 172, b: 17, c: 0, d: 1 }),
{
    Ipv4::new(172, 17, 0, 1)
}

impl Relay {
    pub fn new(runtime: Ipv4, server: Endpoint) -> (relay: Relay)
        ensures
            relay == (Relay { runtime, server }),
    {
        Relay { runtime, server }
    }

    /// The receiving side's step: reads a datagram. A message goes into the
    /// queue together with its source; `None` says that the datagram is not a
    /// DHCP message and is passed over.
    pub fn receive(&self, datagram: &[u8]) -> (read: Option<DHCPMessage>)
        ensures
            match read {
                Some(m) => message_of(datagram@) == Some(m.message()),
                None => message_of(datagram@) is None,
            },
    {
        DHCPMessage::decode(datagram)
    }

    /// Whether a message from `source` is sent on.
    pub fn admits(&self, source: Option<Ipv4>) -> (yes: bool)
        ensures
            yes == (source == Some(self.runtime)),
    {
        match source {
            Some(ip) => ip == self.runtime,
            None => false,
        }
    }

    /// What is done with the written-out message `payload` that came from
    /// `source`.
    pub fn forward(&self, payload: Vec<u8>, source: Option<Ipv4>) -> (action: RelayAction)
        ensures
            action.sent() == if source == Some(self.runtime) {
                Some((payload@, self.server))
            } else {
                None
            },
            action.dropped() == if source == Some(self.runtime) {
                None
            } else {
                Some(DropReason::OtherSource)
            },
    {
        if self.admits(source) {
            RelayAction::Forward { payload, to: self.server }
        } else {
            RelayAction::Drop(DropReason::OtherSource)
        }
    }

    /// The sending side's step: what is done with a message from the queue
    /// that came from `source`.
    pub fn send(&self, message: &DHCPMessage, source: Option<Ipv4>) -> (action: RelayAction)
        ensures
            action.sent() == if source == Some(self.runtime) && writable(message.message()) {
                Some((dhcp_encoding(message.message()), self.server))
            } else {
                None
            },
            action.dropped() == drop_reason(*self, Some(message.message()), source),
    {
        if !self.admits(source) {
            return RelayAction::Drop(DropReason::OtherSource);
        }
        match message.encode() {
            Some(payload) => RelayAction::Forward { payload, to: self.server },
            None => RelayAction::Drop(DropReason::NotWritable),
        }
    }

    /// One datagram through both sides. It is sent on exactly when it is
    /// read as a DHCP message, comes from the relay's source address and can
    /// be written out again; what is sent is the message written out again,
    /// and it goes to the server. Otherwise the reason is given.
    pub fn relay(&self, datagram: &[u8], source: Option<Ipv4>) -> (action: RelayAction)
        ensures
            action.sent() == match relayed(*self, datagram@, source) {
                Some(bytes) => Some((bytes, self.server)),
                None => None,
            },
            action.dropped() == drop_reason(*self, message_of(datagram@), source),
    {
        match self.receive(datagram) {
            Some(message) => self.send(&message, source),
            None => RelayAction::Drop(DropReason::NotRead),
        }
    }
}

} // verus!
