use ubat::network::{
    client_server_address, connection_error_message, network_config_for, serialize_message, BridgeSignal, ConnectionError, NetworkEvent,
    NetworkManagerBridge, NetworkMode,
};

#[test]
fn message_bytes_are_length_prefixed() {
    let bytes = serialize_message("hello", &vec![9, 8]);
    let mut expected = 5u64.to_le_bytes().to_vec();
    expected.extend_from_slice(b"hello");
    expected.extend_from_slice(&2u64.to_le_bytes());
    expected.extend_from_slice(&[9, 8]);
    assert_eq!(bytes, expected);
}

#[test]
fn network_settings_by_mode() {
    let host = network_config_for(1, 70000, "x".to_string()).unwrap();
    assert_eq!(host.mode, NetworkMode::Host);
    assert_eq!(host.port, 70000u32 as u16);
    assert!(host.server_address.is_none());
    let client = network_config_for(2, 0, "10.0.0.1:7878".to_string()).unwrap();
    assert_eq!(client_server_address(&client).map(|s| s.as_str()), Ok("10.0.0.1:7878"));
    assert!(network_config_for(3, 0, String::new()).is_none());
    let standalone = network_config_for(0, 0, String::new()).unwrap();
    assert_eq!(client_server_address(&standalone), Err(ConnectionError::ConnectionFailed));
}

#[test]
fn bridge_counts_peers() {
    let mut b = NetworkManagerBridge::new();
    b.handler_started();
    assert!(matches!(b.handle_single_event(NetworkEvent::Connected("p1".to_string())), Some(BridgeSignal::PeerConnected(ref p)) if p == "p1"));
    assert_eq!(b.get_peer_count(), 1);
    assert!(matches!(b.handle_single_event(NetworkEvent::Disconnected("p1".to_string())), Some(BridgeSignal::PeerDisconnected(_))));
    assert_eq!(b.get_peer_count(), 0);
    match b.handle_single_event(NetworkEvent::ConnectionError(ConnectionError::SendError)) {
        Some(BridgeSignal::ConnectionFailed(m)) => assert_eq!(m, "Connection error: SendError"),
        _ => panic!("expected a failure signal"),
    }
    assert_eq!(connection_error_message(ConnectionError::InvalidMessage), "Connection error: InvalidMessage");
    b.disconnect();
    assert!(!b.is_connected());
}
