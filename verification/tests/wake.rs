use waker::{
    create_magic_packet, send_magic_packet, send_magic_packet_to_broadcast_address, wake_device,
    MagicPacket, SendError, SocketStep, WakeOptions,
};

fn packet() -> MagicPacket {
    create_magic_packet([0x01, 0x23, 0x45, 0x67, 0x89, 0xAB]).unwrap()
}

fn steps(payload: &MagicPacket, to: &str, from: &str) -> Vec<SocketStep> {
    vec![
        SocketStep::Bind { address: from.to_string() },
        SocketStep::EnableBroadcast,
        SocketStep::SendTo { payload: payload.0.clone(), address: to.to_string() },
    ]
}

#[test]
fn packet_goes_to_the_default_broadcast_address() {
    let packet = packet();
    assert_eq!(send_magic_packet(&packet), steps(&packet, "255.255.255.255:9", "0.0.0.0:0"));
    assert_eq!(
        wake_device(WakeOptions::new(&packet)),
        steps(&packet, "255.255.255.255:9", "0.0.0.0:0")
    );
}

#[test]
fn packet_goes_to_the_address_given() {
    let packet = packet();
    assert_eq!(
        send_magic_packet_to_broadcast_address(&packet, "192.168.0.255:9"),
        steps(&packet, "192.168.0.255:9", "0.0.0.0:0")
    );
    assert_eq!(
        wake_device(WakeOptions::new(&packet).broadcast_address("10.0.0.255:7")),
        steps(&packet, "10.0.0.255:7", "0.0.0.0:0")
    );
}

#[test]
fn socket_is_bound_to_the_address_given() {
    let packet = packet();
    assert_eq!(
        wake_device(WakeOptions::new(&packet).bind_address("127.0.0.1:0")),
        steps(&packet, "255.255.255.255:9", "127.0.0.1:0")
    );
    assert_eq!(
        wake_device(
            WakeOptions::new(&packet).broadcast_address("10.0.0.255:9").bind_address("10.0.0.1:4000")
        ),
        steps(&packet, "10.0.0.255:9", "10.0.0.1:4000")
    );
}

#[test]
fn datagram_is_the_whole_packet() {
    let packet = packet();
    let sent = send_magic_packet(&packet);
    match &sent[2] {
        SocketStep::SendTo { payload, .. } => {
            assert_eq!(payload.len(), 102);
            assert_eq!(payload, &packet.0);
        }
        other => panic!("{other:?}"),
    }
}

#[test]
fn each_operation_has_its_failure() {
    let packet = packet();
    let sent = send_magic_packet(&packet);
    let denied = "Permission denied".to_string();
    assert_eq!(sent[0].failed(denied.clone()), SendError::Bind(denied.clone()));
    assert_eq!(sent[1].failed(denied.clone()), SendError::Broadcast(denied.clone()));
    assert_eq!(sent[2].failed(denied.clone()), SendError::Send(denied.clone()));
    assert_eq!(SendError::Bind(denied.clone()).to_string(), "Failed to bind UDP socket");
    assert_eq!(
        SendError::Broadcast(denied.clone()).to_string(),
        "Failed to set socket to broadcast"
    );
    assert_eq!(SendError::Send(denied.clone()).to_string(), "Failed to send magic packet");
    assert_eq!(SendError::Send(denied).cause(), "Permission denied");
}
