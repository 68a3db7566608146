use waker::server::{get_num_threads, greet, wakeup, wakeup_reply, Reply, Threads};
use waker::{create_magic_packet, SendError};

#[test]
fn wakeup_builds_the_packet() {
    let expected = create_magic_packet([0x01, 0x23, 0x45, 0x67, 0x89, 0xAB]).unwrap();
    assert_eq!(wakeup("01:23:45:67:89:AB"), Ok(expected));
}

#[test]
fn wakeup_refuses_what_is_no_address() {
    assert_eq!(
        wakeup("invalidmac"),
        Err(Reply { status: 400, message: "Invalid byte in MAC address: i".to_string() })
    );
    assert_eq!(
        wakeup("01:23:45:67:89"),
        Err(Reply { status: 400, message: "Invalid MAC address: 01:23:45:67:89".to_string() })
    );
}

#[test]
fn wakeup_answers_for_the_send() {
    assert_eq!(
        wakeup_reply("01:23:45:67:89:AB", Ok(())),
        Reply { status: 200, message: "Magic packet sent to 01:23:45:67:89:AB".to_string() }
    );
    assert_eq!(
        wakeup_reply("01:23:45:67:89:AB", Err(SendError::Send("Network is unreachable".to_string()))),
        Reply { status: 500, message: "Failed to send magic packet".to_string() }
    );
    assert_eq!(
        wakeup_reply("01:23:45:67:89:AB", Err(SendError::Bind("Address in use".to_string()))),
        Reply { status: 500, message: "Failed to bind UDP socket".to_string() }
    );
}

#[test]
fn greeting() {
    assert_eq!(greet("John"), Reply { status: 200, message: "Hello, John!".to_string() });
    assert_eq!(greet("  John Doe\n"), Reply { status: 200, message: "Hello, John Doe!".to_string() });
    assert_eq!(greet(""), Reply { status: 400, message: "name cannot be empty".to_string() });
    assert_eq!(greet(" \t "), Reply { status: 400, message: "name cannot be empty".to_string() });
}

#[test]
fn thread_count() {
    let plain = |count| Threads { count, raised: false, capped: false };
    assert_eq!(get_num_threads(8, 6, None, None), plain(6));
    assert_eq!(get_num_threads(8, 6, Some(4), None), plain(4));
    assert_eq!(get_num_threads(8, 6, Some(4), Some(2)), plain(2));
    assert_eq!(get_num_threads(8, 6, None, Some(3)), plain(3));
    assert_eq!(get_num_threads(8, 6, None, Some(8)), plain(8));
    assert_eq!(get_num_threads(1, 1, None, Some(1)), plain(1));
    let raised = Threads { count: 1, raised: true, capped: false };
    assert_eq!(get_num_threads(8, 6, None, Some(0)), raised);
    assert_eq!(get_num_threads(8, 0, None, None), raised);
    assert_eq!(get_num_threads(8, 6, Some(0), None), raised);
    let capped = Threads { count: 8, raised: false, capped: true };
    assert_eq!(get_num_threads(8, 6, None, Some(64)), capped);
    assert_eq!(get_num_threads(8, 6, Some(9), None), capped);
    assert_eq!(get_num_threads(8, 9, None, None), capped);
    assert_eq!(get_num_threads(0, 0, None, None), Threads { count: 0, raised: true, capped: true });
}
