//! Networking decisions: modes and settings, the messages sent to peers,
//! and the peer bookkeeping of the network bridge.
//!
//! Sockets, threads and the listening loop stay with the caller.
use vstd::prelude::*;
use vstd::string::*;
use crate::world_state::le_u64;

verus! {

broadcast use vstd::string::group_string_axioms;

/// How this instance takes part in networking.
#[derive(Clone, Copy, Debug, PartialEq, Eq, Structural)]
pub enum NetworkMode {
    Standalone,
    Host,
    Client,
}

/// Connection settings.
pub struct NetworkConfig {
    pub mode: NetworkMode,
    pub port: u16,
    pub max_connections: usize,
    pub server_address: Option<String>,
}

/// What can go wrong with a connection.
#[derive(Clone, Copy, Debug, PartialEq, Eq, Structural)]
pub enum ConnectionError {
    ConnectionFailed,
    SendError,
    ReceiveError,
    InvalidMessage,
}

/// What the network layer reports.
pub enum NetworkEvent {
    Connected(String),
    Disconnected(String),
    DataReceived { peer_id: String, payload: Vec<u8> },
    ConnectionError(ConnectionError),
}

/// The name of an error, as its debug form writes it.
pub open spec fn error_name(e: ConnectionError) -> Seq<char> {
    match e {
        ConnectionError::ConnectionFailed => "ConnectionFailed"@,
        ConnectionError::SendError => "SendError"@,
        ConnectionError::ReceiveError => "ReceiveError"@,
        ConnectionError::InvalidMessage => "InvalidMessage"@,
    }
}

/// The name of a connection error.
pub fn connection_error_name(e: ConnectionError) -> (s: String)
    ensures
        s@ == error_name(e),
{
    match e {
        ConnectionError::ConnectionFailed => String::from_str("ConnectionFailed"),
        ConnectionError::SendError => String::from_str("SendError"),
        ConnectionError::ReceiveError => String::from_str("ReceiveError"),
        ConnectionError::InvalidMessage => String::from_str("InvalidMessage"),
    }
}

/// "Connection error: " and the error's name.
pub fn connection_error_message(e: ConnectionError) -> (s: String)
    ensures
        s@ == "Connection error: "@ + error_name(e),
{
    let prefix = String::from_str("Connection error: ");
    let name = connection_error_name(e);
    prefix.concat(name.as_str())
}

/// The network mode numbered `mode` (0 standalone, 1 host, 2 client).
pub open spec fn mode_of(mode: i32) -> Option<NetworkMode> {
    if mode == 0 {
        Some(NetworkMode::Standalone)
    } else if mode == 1 {
        Some(NetworkMode::Host)
    } else if mode == 2 {
        Some(NetworkMode::Client)
    } else {
        None
    }
}

/// The settings for starting the network in mode number `mode`: the port
/// cut to 16 bits, up to 64 connections, and the server address for a
/// client only; nothing for an unknown mode.
pub fn network_config_for(mode: i32, port: i32, server_address: String) -> (c: Option<NetworkConfig>)
    ensures
        c is Some <==> mode_of(mode) is Some,
        c matches Some(cfg) ==> {
            &&& Some(cfg.mode) == mode_of(mode)
            &&& cfg.port == port as u16
            &&& cfg.max_connections == 64
            &&& if mode == 2 { cfg.server_address == Some(server_address) } else { cfg.server_address is None }
        },
{
    let m = if mode == 0 {
        NetworkMode::Standalone
    } else if mode == 1 {
        NetworkMode::Host
    } else if mode == 2 {
        NetworkMode::Client
    } else {
        return None;
    };
    Some(NetworkConfig {
        mode: m,
        port: port as u16,
        max_connections: 64,
        server_address: if mode == 2 { Some(server_address) } else { None },
    })
}

/// The address a client connects to: a client without one cannot connect.
pub fn client_server_address(config: &NetworkConfig) -> (r: Result<&String, ConnectionError>)
    ensures
        match config.server_address {
            Some(a) => r matches Ok(s) && *s == a,
            None => r == Err::<&String, ConnectionError>(ConnectionError::ConnectionFailed),
        },
{
    match &config.server_address {
        Some(a) => Ok(a),
        None => Err(ConnectionError::ConnectionFailed),
    }
}

/// The bincode form of a message: its type as a length-prefixed UTF-8
/// string, then its payload as a length-prefixed byte sequence.
pub open spec fn encode_message(message_type: Seq<u8>, payload: Seq<u8>) -> Seq<u8> {
    le_u64(message_type.len() as u64) + message_type + le_u64(payload.len() as u64) + payload
}

/// `bincode::serialize` of a message of the given type and payload bytes.
#[verifier::external_body]
fn bincode_serialize_message(message_type: &str, payload: &Vec<u8>) -> (r: Vec<u8>)
    ensures
        r@ == encode_message(message_type.spec_bytes(), payload@),
{
    bincode::serialize(&(message_type, payload)).unwrap()
}

/// The bytes sent to a peer for a message of type `message_type` carrying
/// `payload`.
pub fn serialize_message(message_type: &str, payload: &Vec<u8>) -> (bytes: Vec<u8>)
    ensures
        bytes@ == encode_message(message_type.spec_bytes(), payload@),
{
    bincode_serialize_message(message_type, payload)
}

/// A signal the network bridge raises for an event.
pub enum BridgeSignal {
    PeerConnected(String),
    PeerDisconnected(String),
    ConnectionFailed(String),
}

/// Connection state of the network bridge.
pub struct NetworkManagerBridge {
    pub connected: bool,
    pub peer_count: i32,
    pub debug_mode: bool,
    pub has_handler: bool,
}

impl NetworkManagerBridge {
    /// Not connected, no peers.
    pub fn new() -> (b: Self)
        ensures
            !b.connected && b.peer_count == 0 && !b.debug_mode && !b.has_handler,
    {
        NetworkManagerBridge { connected: false, peer_count: 0, debug_mode: false, has_handler: false }
    }

    /// Records that a network handler was started.
    pub fn handler_started(&mut self)
        ensures
            final(self).connected,
            final(self).has_handler,
            final(self).peer_count == old(self).peer_count,
            final(self).debug_mode == old(self).debug_mode,
    {
        self.has_handler = true;
        self.connected = true;
    }

    /// Counts a connecting or leaving peer and names the signal to raise:
    /// data raises none, an error raises a connection failure.
    pub fn handle_single_event(&mut self, event: NetworkEvent) -> (signal: Option<BridgeSignal>)
        requires
            old(self).peer_count < i32::MAX,
            old(self).peer_count > i32::MIN,
        ensures
            final(self).connected == old(self).connected,
            final(self).has_handler == old(self).has_handler,
            final(self).debug_mode == old(self).debug_mode,
            match event {
                NetworkEvent::Connected(id) => final(self).peer_count == old(self).peer_count + 1
                    && signal == Some(BridgeSignal::PeerConnected(id)),
                NetworkEvent::Disconnected(id) => final(self).peer_count == old(self).peer_count - 1
                    && signal == Some(BridgeSignal::PeerDisconnected(id)),
                NetworkEvent::DataReceived { .. } => final(self).peer_count == old(self).peer_count && signal is None,
                NetworkEvent::ConnectionError(e) => final(self).peer_count == old(self).peer_count
                    && (signal matches Some(BridgeSignal::ConnectionFailed(m)) && m@ == "Connection error: "@ + error_name(e)),
            },
    {
        match event {
            NetworkEvent::Connected(peer_id) => {
                self.peer_count = self.peer_count + 1;
                Some(BridgeSignal::PeerConnected(peer_id))
            },
            NetworkEvent::Disconnected(peer_id) => {
                self.peer_count = self.peer_count - 1;
                Some(BridgeSignal::PeerDisconnected(peer_id))
            },
            NetworkEvent::DataReceived { .. } => None,
            NetworkEvent::ConnectionError(e) => Some(BridgeSignal::ConnectionFailed(connection_error_message(e))),
        }
    }

    pub fn is_connected(&self) -> (b: bool)
        ensures
            b == self.connected,
    {
        self.connected
    }

    pub fn get_peer_count(&self) -> (n: i32)
        ensures
            n == self.peer_count,
    {
        self.peer_count
    }

    /// Drops the handler: not connected, no peers.
    pub fn disconnect(&mut self)
        ensures
            !final(self).connected,
            !final(self).has_handler,
            final(self).peer_count == 0,
            final(self).debug_mode == old(self).debug_mode,
    {
        self.has_handler = false;
        self.connected = false;
        self.peer_count = 0;
    }
}

} // verus!
