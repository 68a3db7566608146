use waker::utils::{announcement, machine_details, wake_announcement};
use waker::{format_machine_details, validate_mac, validate_text, Mac, Machine, Validation};

fn machine(name: &str) -> Machine {
    Machine { name: name.to_string(), mac: Mac([0x01, 0x23, 0x45, 0x67, 0x89, 0xAB]) }
}

#[test]
fn details_are_two_lines() {
    assert_eq!(machine_details("alpha", "01:23:45:67:89:ab"), "\nName: alpha\nMAC: 01:23:45:67:89:ab\n");
    assert_eq!(machine_details("", ""), "\nName: \nMAC: \n");
}

#[test]
fn details_with_and_without_colours() {
    colored::control::set_override(false);
    assert_eq!(format_machine_details(&machine("alpha")), "\nName: alpha\nMAC: 01:23:45:67:89:ab\n");
    colored::control::set_override(true);
    assert_eq!(
        format_machine_details(&machine("alpha")),
        "\nName: \u{1b}[32malpha\u{1b}[0m\nMAC: \u{1b}[36m01:23:45:67:89:ab\u{1b}[0m\n"
    );
    colored::control::unset_override();
}

#[test]
fn announcement_names_the_machine() {
    assert_eq!(
        announcement(Some("alpha"), "01:23:45:67:89:AB"),
        "Waking up machine alpha with MAC address 01:23:45:67:89:AB..."
    );
    assert_eq!(
        announcement(None, "01:23:45:67:89:AB"),
        "Waking up machine with MAC address 01:23:45:67:89:AB..."
    );
    assert_eq!(
        announcement(Some(""), "01:23:45:67:89:AB"),
        "Waking up machine  with MAC address 01:23:45:67:89:AB..."
    );
}

#[test]
fn announcement_with_and_without_colours() {
    colored::control::set_override(false);
    assert_eq!(
        wake_announcement(&machine("alpha")),
        "Waking up machine alpha with MAC address 01:23:45:67:89:AB..."
    );
    assert_eq!(
        wake_announcement(&machine("")),
        "Waking up machine with MAC address 01:23:45:67:89:AB..."
    );
    colored::control::set_override(true);
    assert_eq!(
        wake_announcement(&machine("alpha")),
        "Waking up machine \u{1b}[32malpha\u{1b}[0m with MAC address \u{1b}[36m01:23:45:67:89:AB\u{1b}[0m..."
    );
    assert_eq!(
        wake_announcement(&machine("")),
        "Waking up machine with MAC address \u{1b}[36m01:23:45:67:89:AB\u{1b}[0m..."
    );
    colored::control::unset_override();
}

#[test]
fn address_input_is_checked() {
    assert_eq!(validate_mac("01:23:45:67:89:AB"), Validation::Valid);
    assert_eq!(validate_mac(" 01-23-45-67-89-ab "), Validation::Valid);
    assert_eq!(
        validate_mac("01:23:45:67:89"),
        Validation::Invalid("Invalid MAC address: 01:23:45:67:89".to_string())
    );
    assert_eq!(
        validate_mac("01:23:45:67:89:xy"),
        Validation::Invalid("Invalid byte in MAC address: x".to_string())
    );
}

#[test]
fn text_input_is_checked() {
    assert_eq!(validate_text("alpha"), Validation::Valid);
    assert_eq!(validate_text("  a  "), Validation::Valid);
    assert_eq!(validate_text(""), Validation::Invalid("Field cannot be empty".to_string()));
    assert_eq!(
        validate_text(" \t\r\n\u{a0}\u{2003}\u{3000}"),
        Validation::Invalid("Field cannot be empty".to_string())
    );
    assert_eq!(validate_text("\u{200b}"), Validation::Valid);
}
