//! Sending a magic packet: from where, to where, and in which steps.
//!
//! The library does not touch the network. It says which socket operations
//! wake a device, in their order, and names the failure of each; whoever
//! owns the socket performs them.

use crate::packet::MagicPacket;
use vstd::prelude::*;
use vstd::string::StringExecFns;

verus! {

/// The address that magic packets are broadcast to unless another is given:
/// every host of the local network, on the port that Wake-on-LAN uses.
pub open spec fn default_broadcast_address() -> Seq<char> {
    "255.255.255.255:9"@
}

/// The address that the sending socket is bound to unless another is given:
/// any local address, any free port.
pub open spec fn default_bind_address() -> Seq<char> {
    "0.0.0.0:0"@
}

/// What to send, where to, and from where.
#[derive(Debug)]
pub struct WakeOptions<'a> {
    /// The magic packet to send.
    pub packet: &'a MagicPacket,
    /// The address and port that the packet is sent to.
    pub broadcast_address: String,
    /// The address and port that the sending socket is bound to.
    pub bind_address: String,
}

impl<'a> WakeOptions<'a> {
    /// Options that send `packet` to the default broadcast address from any
    /// local address.
    pub fn new(packet: &'a MagicPacket) -> (options: WakeOptions<'a>)
        ensures
            options.packet == packet,
            options.broadcast_address@ == default_broadcast_address(),
            options.bind_address@ == default_bind_address(),
    {
        WakeOptions {
            packet,
            broadcast_address: String::from_str("255.255.255.255:9"),
            bind_address: String::from_str("0.0.0.0:0"),
        }
    }

    /// The same options with another address to send to.
    pub fn broadcast_address(self, address: &str) -> (options: WakeOptions<'a>)
        ensures
            options.packet == self.packet,
            options.broadcast_address@ == address@,
            options.bind_address == self.bind_address,
    {
        WakeOptions {
            packet: self.packet,
            broadcast_address: String::from_str(address),
            bind_address: self.bind_address,
        }
    }

    /// The same options with another address to bind the socket to.
    pub fn bind_address(self, address: &str) -> (options: WakeOptions<'a>)
        ensures
            options.packet == self.packet,
            options.broadcast_address == self.broadcast_address,
            options.bind_address@ == address@,
    {
        WakeOptions {
            packet: self.packet,
            broadcast_address: self.broadcast_address,
            bind_address: String::from_str(address),
        }
    }
}

/// One operation on the sending socket.
#[derive(Debug, PartialEq, Eq)]
pub enum SocketStep {
    /// Open a datagram socket bound to `address`.
    Bind { address: String },
    /// Allow the socket to send to broadcast addresses.
    EnableBroadcast,
    /// Send `payload` to `address` as one datagram.
    SendTo { payload: Vec<u8>, address: String },
}

/// Why a magic packet was not sent; each holds what the operating system
/// said.
#[derive(Debug, PartialEq, Eq)]
pub enum SendError {
    /// The socket could not be bound.
    Bind(String),
    /// The socket could not be set to broadcast.
    Broadcast(String),
    /// The datagram could not be sent.
    Send(String),
}

impl SendError {
    /// The sentence that says which operation failed.
    pub open spec fn message(self) -> Seq<char> {
        match self {
            SendError::Bind(_) => "Failed to bind UDP socket"@,
            SendError::Broadcast(_) => "Failed to set socket to broadcast"@,
            SendError::Send(_) => "Failed to send magic packet"@,
        }
    }

    /// What the operating system said of the failure.
    pub open spec fn cause_text(self) -> Seq<char> {
        match self {
            SendError::Bind(cause) => cause@,
            SendError::Broadcast(cause) => cause@,
            SendError::Send(cause) => cause@,
        }
    }

    /// The sentence that says which operation failed.
    pub fn to_string(&self) -> (text: String)
        ensures
            text@ == self.message(),
    {
        match self {
            SendError::Bind(_) => String::from_str("Failed to bind UDP socket"),
            SendError::Broadcast(_) => String::from_str("Failed to set socket to broadcast"),
            SendError::Send(_) => String::from_str("Failed to send magic packet"),
        }
    }

    /// What the operating system said of the failure.
    pub fn cause(&self) -> (text: &str)
        ensures
            text@ == self.cause_text(),
    {
        match self {
            SendError::Bind(cause) => cause.as_str(),
            SendError::Broadcast(cause) => cause.as_str(),
            SendError::Send(cause) => cause.as_str(),
        }
    }
}

impl SocketStep {
    /// The error that stands for the failure of this operation, given what
    /// the operating system said of it.
    pub fn failed(&self, cause: String) -> (error: SendError)
        ensures
            error.cause_text() == cause@,
            self is Bind <==> error is Bind,
            self is EnableBroadcast <==> error is Broadcast,
            self is SendTo <==> error is Send,
    {
        match self {
            SocketStep::Bind { .. } => SendError::Bind(cause),
            SocketStep::EnableBroadcast => SendError::Broadcast(cause),
            SocketStep::SendTo { .. } => SendError::Send(cause),
        }
    }
}

/// Whether `steps` are the operations that send `payload` from
/// `bind_address` to `broadcast_address`: bind the socket, allow it to
/// broadcast, send the one datagram.
pub open spec fn is_wake_up(
    steps: Seq<SocketStep>,
    payload: Seq<u8>,
    broadcast_address: Seq<char>,
    bind_address: Seq<char>,
) -> bool {
    &&& steps.len() == 3
    &&& steps[0] matches SocketStep::Bind { address } && address@ == bind_address
    &&& steps[1] is EnableBroadcast
    &&& steps[2] matches SocketStep::SendTo { payload: sent, address } && sent@ == payload
        && address@ == broadcast_address
}

/// The socket operations that send a magic packet to wake a device, in the
/// order in which they are to be performed. No answer is awaited: the
/// device is woken, as far as the sender can tell, once the last operation
/// has succeeded.
pub fn wake_device(options: WakeOptions) -> (steps: Vec<SocketStep>)
    ensures
        is_wake_up(
            steps@,
            options.packet@,
            options.broadcast_address@,
            options.bind_address@,
        ),
{
    let payload = options.packet.0.clone();
    let mut steps: Vec<SocketStep> = Vec::new();
    steps.push(SocketStep::Bind { address: options.bind_address });
    steps.push(SocketStep::EnableBroadcast);
    steps.push(SocketStep::SendTo { payload, address: options.broadcast_address });
    steps
}

/// The socket operations that send a magic packet to the default broadcast
/// address (`255.255.255.255:9`) from any local address.
pub fn send_magic_packet(packet: &MagicPacket) -> (steps: Vec<SocketStep>)
    ensures
        is_wake_up(steps@, packet@, default_broadcast_address(), default_bind_address()),
{
    wake_device(WakeOptions::new(packet))
}

/// The socket operations that send a magic packet to the given broadcast
/// address, written as `IP:PORT`, from any local address.
pub fn send_magic_packet_to_broadcast_address(packet: &MagicPacket, broadcast_address: &str) -> (steps:
    Vec<SocketStep>)
    ensures
        is_wake_up(steps@, packet@, broadcast_address@, default_bind_address()),
{
    wake_device(WakeOptions::new(packet).broadcast_address(broadcast_address))
}

} // verus!
