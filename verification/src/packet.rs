//! The Wake-on-LAN magic packet.

use crate::errors::{MacAddressError, MacFault};
use crate::mac::{parse_mac, six_bytes, Mac};
use std::convert::Infallible;
use vstd::prelude::*;

verus! {

/// The magic packet for `mac`: six bytes `0xFF`, then `mac` sixteen times.
pub open spec fn magic_packet(mac: Seq<u8>) -> Seq<u8> {
    Seq::new(
        102,
        |i: int|
            if i < 6 {
                0xFFu8
            } else {
                mac[(i - 6) % 6]
            },
    )
}

/// A type that can be converted into the six bytes of a MAC address.
pub trait AsMacBytes {
    /// The error type returned by the conversion.
    type Error;

    /// The address that the value stands for, where it stands for one.
    spec fn mac_bytes(&self) -> Option<Seq<u8>>;

    /// Whether `e` is the error that the conversion of this value gives.
    spec fn is_error(&self, e: Self::Error) -> bool;

    /// Converts the value into the bytes of a MAC address.
    fn as_mac_bytes(&self) -> (r: Result<[u8; 6], Self::Error>)
        ensures
            match r {
                Ok(bytes) => self.mac_bytes() == Some(bytes@),
                Err(e) => self.mac_bytes() is None && self.is_error(e),
            },
    ;
}

impl AsMacBytes for Mac {
    type Error = Infallible;

    open spec fn mac_bytes(&self) -> Option<Seq<u8>> {
        Some(self@)
    }

    open spec fn is_error(&self, e: Infallible) -> bool {
        false
    }

    fn as_mac_bytes(&self) -> (r: Result<[u8; 6], Infallible>) {
        Ok(self.0)
    }
}

impl AsMacBytes for [u8; 6] {
    type Error = Infallible;

    open spec fn mac_bytes(&self) -> Option<Seq<u8>> {
        Some(self@)
    }

    open spec fn is_error(&self, e: Infallible) -> bool {
        false
    }

    fn as_mac_bytes(&self) -> (r: Result<[u8; 6], Infallible>) {
        Ok(*self)
    }
}

impl AsMacBytes for &[u8] {
    type Error = MacAddressError;

    open spec fn mac_bytes(&self) -> Option<Seq<u8>> {
        if self@.len() == 6 {
            Some(self@)
        } else {
            None
        }
    }

    open spec fn is_error(&self, e: MacAddressError) -> bool {
        e@ == MacFault::InvalidLength(self@.len())
    }

    fn as_mac_bytes(&self) -> (r: Result<[u8; 6], MacAddressError>) {
        if self.len() != 6 {
            return Err(MacAddressError::InvalidLength(self.len()));
        }
        Ok(six_bytes(self))
    }
}

impl AsMacBytes for &str {
    type Error = MacAddressError;

    open spec fn mac_bytes(&self) -> Option<Seq<u8>> {
        match parse_mac(self@) {
            Ok(bytes) => Some(bytes),
            Err(_) => None,
        }
    }

    open spec fn is_error(&self, e: MacAddressError) -> bool {
        parse_mac(self@) == Err::<Seq<u8>, MacFault>(e@)
    }

    fn as_mac_bytes(&self) -> (r: Result<[u8; 6], MacAddressError>) {
        match Mac::from_str(self) {
            Ok(mac) => Ok(mac.0),
            Err(e) => Err(e),
        }
    }
}

impl AsMacBytes for String {
    type Error = MacAddressError;

    open spec fn mac_bytes(&self) -> Option<Seq<u8>> {
        match parse_mac(self@) {
            Ok(bytes) => Some(bytes),
            Err(_) => None,
        }
    }

    open spec fn is_error(&self, e: MacAddressError) -> bool {
        parse_mac(self@) == Err::<Seq<u8>, MacFault>(e@)
    }

    fn as_mac_bytes(&self) -> (r: Result<[u8; 6], MacAddressError>) {
        match Mac::from_str(self.as_str()) {
            Ok(mac) => Ok(mac.0),
            Err(e) => Err(e),
        }
    }
}

impl AsMacBytes for &String {
    type Error = MacAddressError;

    open spec fn mac_bytes(&self) -> Option<Seq<u8>> {
        match parse_mac(self@) {
            Ok(bytes) => Some(bytes),
            Err(_) => None,
        }
    }

    open spec fn is_error(&self, e: MacAddressError) -> bool {
        parse_mac(self@) == Err::<Seq<u8>, MacFault>(e@)
    }

    fn as_mac_bytes(&self) -> (r: Result<[u8; 6], MacAddressError>) {
        match Mac::from_str(self.as_str()) {
            Ok(mac) => Ok(mac.0),
            Err(e) => Err(e),
        }
    }
}

/// Represents a Wake-on-LAN magic packet.
#[derive(Debug, Clone, PartialEq, Eq)]
pub struct MagicPacket(pub Vec<u8>);

impl View for MagicPacket {
    type V = Seq<u8>;

    open spec fn view(&self) -> Seq<u8> {
        self.0@
    }
}

impl AsRef<[u8]> for MagicPacket {
    fn as_ref(&self) -> (bytes: &[u8])
        ensures
            bytes@ == self@,
    {
        self.0.as_slice()
    }
}

impl MagicPacket {
    /// Whether the packet is the magic packet of some address.
    pub open spec fn well_formed(&self) -> bool {
        exists|mac: Seq<u8>| mac.len() == 6 && self@ == magic_packet(mac)
    }
}

/// Creates a Wake-on-LAN magic packet for the given MAC address.
///
/// The address may be a [`Mac`], six bytes in an array or a slice, or its
/// text form; what is no address comes back as the conversion's error.
pub fn create_magic_packet<T>(mac_address: T) -> (r: Result<MagicPacket, T::Error>) where
    T: AsMacBytes,

    ensures
        match r {
            Ok(packet) => mac_address.mac_bytes() is Some && packet@ == magic_packet(
                mac_address.mac_bytes()->0,
            ),
            Err(e) => mac_address.mac_bytes() is None && mac_address.is_error(e),
        },
{
    match mac_address.as_mac_bytes() {
        Ok(mac_bytes) => Ok(create_magic_packet_impl(mac_bytes)),
        Err(e) => Err(e),
    }
}

/// Creates a Wake-on-LAN magic packet from a 6-byte MAC address array.
pub fn create_magic_packet_impl(addr: [u8; 6]) -> (packet: MagicPacket)
    ensures
        packet@ == magic_packet(addr@),
        packet.well_formed(),
{
    let mut packet: Vec<u8> = vec![0xFFu8; 6];
    packet.reserve(96);
    let mut round: usize = 0;
    while round < 16
        invariant
            round <= 16,
            packet@.len() == 6 + 6 * round,
            forall|i: int| 0 <= i < packet@.len() ==> packet@[i] == magic_packet(addr@)[i],
        decreases 16 - round,
    {
        packet.extend_from_slice(&addr);
        round = round + 1;
    }
    MagicPacket(packet)
}

/// The magic packet of every address of six bytes has 102 bytes: six bytes
/// `0xFF` first, and behind them the address in each of the sixteen
/// stretches of six bytes.
pub proof fn lemma_packet_layout(mac: Seq<u8>)
    requires
        mac.len() == 6,
    ensures
        magic_packet(mac).len() == 102,
        forall|i: int| 0 <= i < 6 ==> magic_packet(mac)[i] == 0xFFu8,
        forall|k: int|
            0 <= k < 16 ==> #[trigger] magic_packet(mac).subrange(6 + 6 * k, 12 + 6 * k) == mac,
{
    assert forall|k: int| 0 <= k < 16 implies #[trigger] magic_packet(mac).subrange(
        6 + 6 * k,
        12 + 6 * k,
    ) == mac by {
        let part = magic_packet(mac).subrange(6 + 6 * k, 12 + 6 * k);
        assert forall|j: int| 0 <= j < 6 implies part[j] == mac[j] by {
            assert((6 * k + j) % 6 == j) by (nonlinear_arith)
                requires
                    0 <= j < 6,
                    0 <= k,
            ;
        }
    }
}

/// Two addresses with the same magic packet are the same address.
pub proof fn lemma_packet_names_its_address(a: Seq<u8>, b: Seq<u8>)
    requires
        a.len() == 6,
        b.len() == 6,
        magic_packet(a) == magic_packet(b),
    ensures
        a == b,
{
    lemma_packet_layout(a);
    lemma_packet_layout(b);
    assert(magic_packet(a).subrange(6 + 6 * 0int, 12 + 6 * 0int) == a);
}

} // verus!
