//! Wake-on-LAN: hardware addresses, magic packets and machines known by
//! name.
//!
//! A machine whose network interface listens for it can be switched on by a
//! *magic packet*: 102 bytes, six of them `0xFF` and then the interface's
//! hardware address sixteen times, broadcast as one UDP datagram. This
//! library reads and writes hardware addresses ([`Mac`]), builds the packet
//! ([`create_magic_packet`]), says which socket operations send it
//! ([`wake_device`]), and finds the saved machine that a name means
//! ([`Data::find_best_machine`]).
//!
//! Every function is verified against its contract. The contracts speak of
//! sequences: an address is its six bytes, a text its characters, a packet
//! its bytes. The modules also state what holds between the functions, as
//! proof functions: an address that is written and read again is itself,
//! the packet has the layout that the interfaces expect, the search settles
//! on one machine.
//!
//! The library does not open sockets, files or terminals. Where a step
//! needs one, a function says what is to be done and another takes what
//! came of it: [`wake`] lists socket operations, [`cli`] and [`server`]
//! turn answers and outcomes into what follows.

pub mod binary64;
pub mod cli;
pub mod errors;
pub mod hex;
pub mod mac;
pub mod machines;
pub mod packet;
pub mod server;
pub mod similarity;
pub mod style;
pub mod text;
pub mod utils;
pub mod wake;

pub use errors::MacAddressError;
pub use hex::hex_val;
pub use mac::Mac;
pub use machines::{Data, Machine};
pub use packet::{create_magic_packet, AsMacBytes, MagicPacket};
pub use similarity::Similarity;
pub use utils::{format_machine_details, validate_mac, validate_text, Validation};
pub use wake::{
    send_magic_packet, send_magic_packet_to_broadcast_address, wake_device, SendError, SocketStep,
    WakeOptions,
};
