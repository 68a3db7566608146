//! The decisions of the command line: what a call asks for, and how the
//! dialogue that adds a machine goes on. Prompts, files and the network are
//! the caller's; it reports what happened and is told what comes next.

use crate::errors::MacAddressError;
use crate::mac::{format_mac, parse_mac, Mac};
use crate::machines::{scores_of, Data, Machine};
use crate::similarity::{is_best, is_duplicate, none_matches};
use vstd::prelude::*;
use vstd::string::StringExecFns;

verus! {

/// What the command line does for one call.
#[derive(Debug, PartialEq)]
pub enum Action {
    /// Wake this machine.
    Wake(Machine),
    /// Give up: what was given as an address is none.
    Fail(MacAddressError),
    /// Say this and do nothing else.
    Tell(String),
    /// Look this name up among the saved machines.
    Resolve(String),
    /// Ask for a new machine and save it.
    Add,
    /// Let the user pick one of the saved machines, and wake it.
    Choose,
}

/// What is said where a machine is asked for and none is saved.
pub open spec fn no_machines_text() -> Seq<char> {
    "No machines found in config file"@
}

/// What is said where no saved machine has a name like the one asked for.
pub open spec fn not_found_text(name: Seq<char>) -> Seq<char> {
    "No machine found with name: "@ + name
}

/// What is said where a new machine has the name of a saved one.
pub open spec fn duplicate_text(name: Seq<char>) -> Seq<char> {
    "Machine already exists: "@ + name
}

/// Decides what a call of the command line asks for.
///
/// `name` is the positional argument; with `name_as_mac` it is an address
/// to wake, without it the name of a saved machine. `add` is set where the
/// call names the command that adds a machine; a name goes before it.
pub fn run(data: &Data, name: Option<&str>, name_as_mac: bool, add: bool) -> (action: Action)
    ensures
        match name {
            Some(text) => if name_as_mac {
                match parse_mac(text@) {
                    Ok(mac) => action matches Action::Wake(machine) && machine.name@.len() == 0
                        && machine.mac@ == mac,
                    Err(fault) => action matches Action::Fail(e) && e@ == fault,
                }
            } else if data.machines@.len() == 0 {
                action matches Action::Tell(said) && said@ == no_machines_text()
            } else {
                action matches Action::Resolve(wanted) && wanted@ == text@
            },
            None => if add {
                action is Add
            } else if data.machines@.len() == 0 {
                action matches Action::Tell(said) && said@ == no_machines_text()
            } else {
                action is Choose
            },
        },
{
    match name {
        Some(text) => {
            if name_as_mac {
                match Mac::from_str(text) {
                    Ok(mac) => Action::Wake(Machine { name: String::new(), mac }),
                    Err(e) => Action::Fail(e),
                }
            } else if data.machines.len() == 0 {
                Action::Tell(String::from_str("No machines found in config file"))
            } else {
                Action::Resolve(String::from_str(text))
            }
        },
        None => {
            if add {
                Action::Add
            } else if data.machines.len() == 0 {
                Action::Tell(String::from_str("No machines found in config file"))
            } else {
                Action::Choose
            }
        },
    }
}

/// Searches the saved machines for `name` and decides what follows: the
/// machine found is woken; where none is found, the user is told so.
pub fn resolved(data: &Data, name: &str) -> (action: Action)
    ensures
        match action {
            Action::Wake(machine) => exists|i: int|
                #[trigger] is_best(scores_of(data.machines@, name@), i) && machine
                    == data.machines@[i],
            Action::Tell(said) => said@ == not_found_text(name@) && none_matches(
                scores_of(data.machines@, name@),
            ),
            _ => false,
        },
{
    match data.find_best_machine(name) {
        Some(machine) => Action::Wake(machine),
        None => Action::Tell(String::from_str("No machine found with name: ").concat(name)),
    }
}

/// What the user did with a question.
#[derive(Debug, PartialEq, Eq)]
pub enum Answer {
    /// Answered with this text.
    Text(String),
    /// Interrupted or cancelled the question.
    Cancelled,
}

/// How the dialogue that asks for a machine goes on.
#[derive(Debug, PartialEq)]
pub enum PromptStep {
    /// Ask for the name, with `initial` filled in.
    AskName { initial: String },
    /// Ask for the address of the machine called `name`, with `initial`
    /// filled in.
    AskMac { name: String, initial: String },
    /// End without a machine; `notice` is what to tell the user, if
    /// anything.
    Abandon { notice: Option<String> },
    /// End with this machine.
    Done(Machine),
    /// End with an error: the address given is none.
    Fail(MacAddressError),
}

/// Opens the dialogue that asks for a machine: the name comes first. Where
/// a machine is being changed, its name is filled in.
pub fn prompt_machine(existing: Option<&Machine>) -> (step: PromptStep)
    ensures
        step matches PromptStep::AskName { initial } && initial@ == (match existing {
            Some(machine) => machine.name@,
            None => Seq::<char>::empty(),
        }),
{
    let initial = match existing {
        Some(machine) => machine.name.clone(),
        None => String::new(),
    };
    PromptStep::AskName { initial }
}

/// Goes on once the name has been asked for.
///
/// A cancelled question ends the dialogue. So does a name that is taken,
/// one that is alike above nine tenths to the name of a saved machine. Any
/// other name leads to the question for the address, in which the address
/// of the machine being changed is filled in.
pub fn name_answered(data: &Data, existing: Option<&Machine>, answer: Answer) -> (step: PromptStep)
    ensures
        match answer {
            Answer::Cancelled => step matches PromptStep::Abandon { notice } && notice is None,
            Answer::Text(given) => if is_duplicate(scores_of(data.machines@, given@)) {
                step matches PromptStep::Abandon { notice } && notice matches Some(said) && said@
                    == duplicate_text(given@)
            } else {
                step matches PromptStep::AskMac { name, initial } && name@ == given@ && initial@
                    == (match existing {
                    Some(machine) => format_mac(machine.mac@, false),
                    None => Seq::<char>::empty(),
                })
            },
        },
{
    match answer {
        Answer::Cancelled => PromptStep::Abandon { notice: None },
        Answer::Text(name) => {
            if data.has_duplicate(name.as_str()) {
                let said = String::from_str("Machine already exists: ").concat(name.as_str());
                PromptStep::Abandon { notice: Some(said) }
            } else {
                let initial = match existing {
                    Some(machine) => machine.mac.to_string(),
                    None => String::new(),
                };
                PromptStep::AskMac { name, initial }
            }
        },
    }
}

/// Goes on once the address has been asked for: a cancelled question ends
/// the dialogue, an address makes the machine, and any other text is an
/// error.
pub fn mac_answered(name: String, answer: Answer) -> (step: PromptStep)
    ensures
        match answer {
            Answer::Cancelled => step matches PromptStep::Abandon { notice } && notice is None,
            Answer::Text(given) => match parse_mac(given@) {
                Ok(mac) => step matches PromptStep::Done(machine) && machine.name == name
                    && machine.mac@ == mac,
                Err(fault) => step matches PromptStep::Fail(e) && e@ == fault,
            },
        },
{
    match answer {
        Answer::Cancelled => PromptStep::Abandon { notice: None },
        Answer::Text(given) => match Mac::from_str(given.as_str()) {
            Ok(mac) => PromptStep::Done(Machine { name, mac }),
            Err(e) => PromptStep::Fail(e),
        },
    }
}

} // verus!
