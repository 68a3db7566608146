use waker::cli::{mac_answered, name_answered, prompt_machine, resolved, run, Action, Answer, PromptStep};
use waker::{Data, Mac, MacAddressError, Machine};

fn machine(name: &str) -> Machine {
    Machine { name: name.to_string(), mac: Mac([0x01, 0x23, 0x45, 0x67, 0x89, 0xAB]) }
}

fn saved() -> Data {
    Data { machines: vec![machine("alpha"), machine("beta")] }
}

#[test]
fn address_on_the_command_line_is_woken() {
    let expected = Machine { name: String::new(), mac: Mac([0x01, 0x23, 0x45, 0x67, 0x89, 0xAB]) };
    assert_eq!(run(&saved(), Some("01:23:45:67:89:AB"), true, false), Action::Wake(expected.clone()));
    assert_eq!(run(&Data::default(), Some("01-23-45-67-89-ab"), true, true), Action::Wake(expected));
}

#[test]
fn bad_address_on_the_command_line_fails() {
    assert_eq!(
        run(&saved(), Some("alpha"), true, false),
        Action::Fail(MacAddressError::InvalidByteInMac("l".to_string()))
    );
    assert_eq!(
        run(&saved(), Some("01:23"), true, false),
        Action::Fail(MacAddressError::InvalidMacAddress("01:23".to_string()))
    );
    assert_eq!(
        run(&saved(), Some("zz:23:45:67:89:AB"), true, false),
        Action::Fail(MacAddressError::InvalidByteInMac("z".to_string()))
    );
}

#[test]
fn name_on_the_command_line_is_looked_up() {
    assert_eq!(run(&saved(), Some("alpha"), false, false), Action::Resolve("alpha".to_string()));
    assert_eq!(run(&saved(), Some("alpha"), false, true), Action::Resolve("alpha".to_string()));
    assert_eq!(
        run(&Data::default(), Some("alpha"), false, false),
        Action::Tell("No machines found in config file".to_string())
    );
}

#[test]
fn call_without_a_name() {
    assert_eq!(run(&saved(), None, false, true), Action::Add);
    assert_eq!(run(&Data::default(), None, false, true), Action::Add);
    assert_eq!(run(&saved(), None, false, false), Action::Choose);
    assert_eq!(run(&saved(), None, true, false), Action::Choose);
    assert_eq!(
        run(&Data::default(), None, false, false),
        Action::Tell("No machines found in config file".to_string())
    );
}

#[test]
fn machine_found_is_woken() {
    assert_eq!(resolved(&saved(), "bet"), Action::Wake(machine("beta")));
    assert_eq!(resolved(&saved(), "alpha"), Action::Wake(machine("alpha")));
    assert_eq!(resolved(&saved(), "alhpa"), Action::Wake(machine("alpha")));
    assert_eq!(
        resolved(&saved(), "xyz"),
        Action::Tell("No machine found with name: xyz".to_string())
    );
    assert_eq!(
        resolved(&Data::default(), "alpha"),
        Action::Tell("No machine found with name: alpha".to_string())
    );
}

#[test]
fn dialogue_begins_with_the_name() {
    assert_eq!(prompt_machine(None), PromptStep::AskName { initial: String::new() });
    assert_eq!(
        prompt_machine(Some(&machine("alpha"))),
        PromptStep::AskName { initial: "alpha".to_string() }
    );
}

#[test]
fn dialogue_after_the_name() {
    assert_eq!(
        name_answered(&saved(), None, Answer::Cancelled),
        PromptStep::Abandon { notice: None }
    );
    assert_eq!(
        name_answered(&saved(), None, Answer::Text("gamma".to_string())),
        PromptStep::AskMac { name: "gamma".to_string(), initial: String::new() }
    );
    assert_eq!(
        name_answered(&saved(), Some(&machine("alpha")), Answer::Text("gamma".to_string())),
        PromptStep::AskMac { name: "gamma".to_string(), initial: "01:23:45:67:89:ab".to_string() }
    );
    assert_eq!(
        name_answered(&saved(), None, Answer::Text("beta".to_string())),
        PromptStep::Abandon { notice: Some("Machine already exists: beta".to_string()) }
    );
    assert_eq!(
        name_answered(&saved(), None, Answer::Text("Alpha ".to_string())),
        PromptStep::Abandon { notice: Some("Machine already exists: Alpha ".to_string()) }
    );
    assert_eq!(
        name_answered(&Data::default(), None, Answer::Text("beta".to_string())),
        PromptStep::AskMac { name: "beta".to_string(), initial: String::new() }
    );
}

#[test]
fn dialogue_after_the_address() {
    assert_eq!(
        mac_answered("gamma".to_string(), Answer::Cancelled),
        PromptStep::Abandon { notice: None }
    );
    assert_eq!(
        mac_answered("alpha".to_string(), Answer::Text(" 01:23:45:67:89:AB ".to_string())),
        PromptStep::Done(machine("alpha"))
    );
    assert_eq!(
        mac_answered("alpha".to_string(), Answer::Text("01:23".to_string())),
        PromptStep::Fail(MacAddressError::InvalidMacAddress("01:23".to_string()))
    );
}
