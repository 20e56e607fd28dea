use shroomy::channel::{ClientChannel, Delivery, ServerChannel, PROTOCOL_ID};

#[test]
fn server_channels_have_their_numbers() {
    assert_eq!(u8::from(ServerChannel::NetworkedEntities), 0);
    assert_eq!(u8::from(ServerChannel::ServerMessages), 1);
}

#[test]
fn client_channels_have_their_numbers() {
    assert_eq!(u8::from(ClientChannel::Command), 0);
    assert_eq!(u8::from(ClientChannel::Input), 1);
}

#[test]
fn control_is_reliable_and_snapshots_are_not() {
    assert_eq!(ServerChannel::ServerMessages.delivery(), Delivery::ReliableOrdered);
    assert_eq!(ServerChannel::NetworkedEntities.delivery(), Delivery::UnreliableSequenced);
    assert_eq!(ClientChannel::Input.delivery(), Delivery::ReliableOrdered);
    assert_eq!(ClientChannel::Command.delivery(), Delivery::ReliableOrdered);
}

#[test]
fn schema_version_is_seven() {
    assert_eq!(PROTOCOL_ID, 7);
}
