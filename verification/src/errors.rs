//! What can be wrong with a hardware address.

use crate::text::{decimal, push_decimal};
use vstd::prelude::*;
use vstd::string::StringExecFns;

verus! {

/// The content of a [`MacAddressError`], over sequences of characters.
pub enum MacFault {
    /// A character that should have been a hexadecimal digit is none.
    InvalidByteInMac(Seq<char>),
    /// The text does not have the shape of six groups of two digits.
    InvalidMacAddress(Seq<char>),
    /// A sequence of bytes has a length other than six.
    InvalidLength(nat),
}

impl MacFault {
    /// The sentence that describes the fault.
    pub open spec fn message(self) -> Seq<char> {
        match self {
            MacFault::InvalidByteInMac(fragment) => "Invalid byte in MAC address: "@ + fragment,
            MacFault::InvalidMacAddress(text) => "Invalid MAC address: "@ + text,
            MacFault::InvalidLength(n) => "Invalid MAC address length: expected 6 bytes, got "@
                + decimal(n),
        }
    }
}

/// Represents errors that can occur when working with MAC addresses.
#[derive(Debug, PartialEq, Eq)]
pub enum MacAddressError {
    /// A character of the address text is not a hexadecimal digit; holds
    /// that character.
    InvalidByteInMac(String),
    /// The address text is not made of six separated groups of two digits;
    /// holds the text, without the white space around it.
    InvalidMacAddress(String),
    /// The address bytes are not six; holds how many there are.
    InvalidLength(usize),
}

impl View for MacAddressError {
    type V = MacFault;

    open spec fn view(&self) -> MacFault {
        match self {
            MacAddressError::InvalidByteInMac(fragment) => MacFault::InvalidByteInMac(fragment@),
            MacAddressError::InvalidMacAddress(text) => MacFault::InvalidMacAddress(text@),
            MacAddressError::InvalidLength(n) => MacFault::InvalidLength(*n as nat),
        }
    }
}

impl MacAddressError {
    /// The sentence that describes the error.
    pub fn to_string(&self) -> (text: String)
        ensures
            text@ == self@.message(),
    {
        match self {
            MacAddressError::InvalidByteInMac(fragment) => {
                String::from_str("Invalid byte in MAC address: ").concat(fragment.as_str())
            },
            MacAddressError::InvalidMacAddress(address) => {
                String::from_str("Invalid MAC address: ").concat(address.as_str())
            },
            MacAddressError::InvalidLength(n) => {
                let mut text = String::from_str(
                    "Invalid MAC address length: expected 6 bytes, got ",
                );
                push_decimal(&mut text, *n);
                text
            },
        }
    }
}

} // verus!
