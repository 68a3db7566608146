//! What the command line shows of a machine, and what it accepts as input.

use crate::mac::{format_mac, parse_mac, Mac};
use crate::machines::Machine;
use crate::style::{
    cyan, cyan_code, escape, green, green_code, is_terminal_form, is_styled,
};
use crate::text::{is_whitespace, lemma_trimmed_empty};
use vstd::prelude::*;
use vstd::string::StringExecFns;

verus! {

/// The lines that show a machine, given its name and address as they are to
/// appear.
pub open spec fn details_text(name: Seq<char>, mac: Seq<char>) -> Seq<char> {
    "\nName: "@ + name + "\nMAC: "@ + mac + "\n"@
}

/// The sentence that announces a wake-up, given the machine's name and
/// address as they are to appear; a machine without a name is announced by
/// its address alone.
pub open spec fn announcement_text(name: Option<Seq<char>>, mac: Seq<char>) -> Seq<char> {
    let who = match name {
        Some(name) => " "@ + name,
        None => Seq::<char>::empty(),
    };
    "Waking up machine"@ + who + " with MAC address "@ + mac + "..."@
}

/// Puts the lines that show a machine together.
pub fn machine_details(name: &str, mac: &str) -> (text: String)
    ensures
        text@ == details_text(name@, mac@),
{
    let mut text = String::from_str("\nName: ");
    text.append(name);
    text.append("\nMAC: ");
    text.append(mac);
    text.append("\n");
    text
}

/// Shows a machine on two lines, its name in green and its address, in
/// lower case, in cyan, where the terminal takes colours.
pub fn format_machine_details(machine: &Machine) -> (text: String)
    ensures
        exists|name: Seq<char>, mac: Seq<char>|
            is_styled(name, machine.name@, green_code()) && is_terminal_form(
                mac,
                format_mac(machine.mac@, false),
                cyan_code(),
            ) && text@ == details_text(name, mac),
{
    let name = green(machine.name.as_str());
    let address = machine.mac.to_string();
    let mac = cyan(address.as_str());
    proof {
        lemma_address_has_no_escape(machine.mac@, false);
    }
    machine_details(name.as_str(), mac.as_str())
}

/// The text form of an address holds no escape character.
pub proof fn lemma_address_has_no_escape(mac: Seq<u8>, upper: bool)
    ensures
        !format_mac(mac, upper).contains(escape()),
{
}

/// Puts the sentence that announces a wake-up together.
pub fn announcement(name: Option<&str>, mac: &str) -> (text: String)
    ensures
        text@ == announcement_text(
            match name {
                Some(name) => Some(name@),
                None => None,
            },
            mac@,
        ),
{
    let mut text = String::from_str("Waking up machine");
    match name {
        Some(name) => {
            text.append(" ");
            text.append(name);
        },
        None => {
        },
    }
    text.append(" with MAC address ");
    text.append(mac);
    text.append("...");
    text
}

/// Announces that a machine is being woken: by its name, in green, where it
/// has one, and by its address, in upper case and in cyan.
pub fn wake_announcement(machine: &Machine) -> (text: String)
    ensures
        exists|name: Seq<char>, mac: Seq<char>|
            is_styled(name, machine.name@, green_code()) && is_terminal_form(
                mac,
                format_mac(machine.mac@, true),
                cyan_code(),
            ) && text@ == announcement_text(
                if machine.name@.len() == 0 {
                    None
                } else {
                    Some(name)
                },
                mac,
            ),
{
    let address = machine.mac.to_upper_hex();
    let mac = cyan(address.as_str());
    proof {
        lemma_address_has_no_escape(machine.mac@, true);
    }
    if machine.name.as_str().is_empty() {
        let text = announcement(None, mac.as_str());
        assert(is_styled(machine.name@, machine.name@, green_code()));
        text
    } else {
        let name = green(machine.name.as_str());
        announcement(Some(name.as_str()), mac.as_str())
    }
}

/// What a check of an input says.
#[derive(Debug, PartialEq, Eq)]
pub enum Validation {
    /// The input is accepted.
    Valid,
    /// The input is refused, and why.
    Invalid(String),
}

/// Accepts a text that reads as a MAC address, and refuses any other with
/// the sentence that says what is wrong with it.
pub fn validate_mac(input: &str) -> (verdict: Validation)
    ensures
        match verdict {
            Validation::Valid => parse_mac(input@) is Ok,
            Validation::Invalid(reason) => parse_mac(input@) is Err && reason@ == parse_mac(
                input@,
            )->Err_0.message(),
        },
{
    match Mac::from_str(input) {
        Ok(_) => Validation::Valid,
        Err(e) => Validation::Invalid(e.to_string()),
    }
}

/// Accepts a text that holds more than white space.
pub fn validate_text(input: &str) -> (verdict: Validation)
    ensures
        match verdict {
            Validation::Valid => exists|i: int| 0 <= i < input@.len() && !is_whitespace(input@[i]),
            Validation::Invalid(reason) => reason@ == "Field cannot be empty"@ && forall|i: int|
                0 <= i < input@.len() ==> is_whitespace(input@[i]),
        },
{
    proof {
        lemma_trimmed_empty(input@);
    }
    if input.trim().is_empty() {
        Validation::Invalid(String::from_str("Field cannot be empty"))
    } else {
        Validation::Valid
    }
}

} // verus!
