//! Errors and options of system and world initialization.
use vstd::prelude::*;
use crate::network::NetworkMode;

verus! {

/// What can stop the world from initializing, with a description.
pub enum WorldInitError {
    ConfigError(String),
    TerrainError(String),
    EntityError(String),
    WorldStateError(String),
    OtherError(String),
}

/// The text of a world initialization error: its kind, then its description.
pub open spec fn world_init_message(e: WorldInitError) -> Seq<char> {
    match e {
        WorldInitError::ConfigError(m) => "Configuration error: "@ + m@,
        WorldInitError::TerrainError(m) => "Terrain error: "@ + m@,
        WorldInitError::EntityError(m) => "Entity error: "@ + m@,
        WorldInitError::WorldStateError(m) => "World state error: "@ + m@,
        WorldInitError::OtherError(m) => "Other error: "@ + m@,
    }
}

impl WorldInitError {
    /// The error's text.
    pub fn message(&self) -> (s: String)
        ensures
            s@ == world_init_message(*self),
    {
        match self {
            WorldInitError::ConfigError(m) => String::from_str("Configuration error: ").concat(m.as_str()),
            WorldInitError::TerrainError(m) => String::from_str("Terrain error: ").concat(m.as_str()),
            WorldInitError::EntityError(m) => String::from_str("Entity error: ").concat(m.as_str()),
            WorldInitError::WorldStateError(m) => String::from_str("World state error: ").concat(m.as_str()),
            WorldInitError::OtherError(m) => String::from_str("Other error: ").concat(m.as_str()),
        }
    }
}

impl From<String> for WorldInitError {
    /// A plain message is an error of no particular kind.
    fn from(error: String) -> (e: Self) {
        WorldInitError::OtherError(error)
    }
}

impl vstd::std_specs::convert::FromSpecImpl<String> for WorldInitError {
    open spec fn obeys_from_spec() -> bool {
        true
    }

    open spec fn from_spec(error: String) -> WorldInitError {
        WorldInitError::OtherError(error)
    }
}

/// What can stop the systems from initializing, with a description.
pub enum SystemInitError {
    ConfigError(String),
    NetworkError(String),
    GameError(String),
    BridgeError(String),
    ManagerError(String),
}

/// The text of a system initialization error: its kind, then its
/// description.
pub open spec fn system_init_message(e: SystemInitError) -> Seq<char> {
    match e {
        SystemInitError::ConfigError(m) => "Configuration error: "@ + m@,
        SystemInitError::NetworkError(m) => "Network error: "@ + m@,
        SystemInitError::GameError(m) => "Game error: "@ + m@,
        SystemInitError::BridgeError(m) => "Bridge error: "@ + m@,
        SystemInitError::ManagerError(m) => "Manager error: "@ + m@,
    }
}

impl SystemInitError {
    /// The error's text.
    pub fn message(&self) -> (s: String)
        ensures
            s@ == system_init_message(*self),
    {
        match self {
            SystemInitError::ConfigError(m) => String::from_str("Configuration error: ").concat(m.as_str()),
            SystemInitError::NetworkError(m) => String::from_str("Network error: ").concat(m.as_str()),
            SystemInitError::GameError(m) => String::from_str("Game error: ").concat(m.as_str()),
            SystemInitError::BridgeError(m) => String::from_str("Bridge error: ").concat(m.as_str()),
            SystemInitError::ManagerError(m) => String::from_str("Manager error: ").concat(m.as_str()),
        }
    }
}

/// The kind of failure that stopped initialization.
#[derive(Clone, Copy, Debug, PartialEq, Eq, Structural)]
pub enum InitializationError {
    ConfigError,
    WorldError,
    TerrainError,
    NetworkError,
    ResourceError,
    GeneralError,
}

/// How far system initialization has come.
#[derive(Clone, Copy, Debug, PartialEq, Eq, Structural)]
pub enum InitializationState {
    Uninitialized,
    CoreServicesInitialized,
    GameSystemsInitialized,
    TerrainSystemsInitialized,
    NetworkInitialized,
    Complete,
    Error(InitializationError),
}

/// Options for system initialization.
pub struct InitializationOptions {
    pub config_path: Option<String>,
    pub default_seed: Option<u64>,
    pub network_mode: NetworkMode,
    pub debug_mode: bool,
    pub terrain_enabled: bool,
}

impl Default for InitializationOptions {
    /// No configuration file or seed, standalone, without debugging, with
    /// terrain.
    fn default() -> (o: Self)
        ensures
            o.config_path is None,
            o.default_seed is None,
            o.network_mode == NetworkMode::Standalone,
            !o.debug_mode,
            o.terrain_enabled,
    {
        InitializationOptions {
            config_path: None,
            default_seed: None,
            network_mode: NetworkMode::Standalone,
            debug_mode: false,
            terrain_enabled: true,
        }
    }
}

} // verus!
