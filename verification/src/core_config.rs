//! The game configuration used by the configuration bridge: world, network
//! and game mode settings with custom values, and its manager.
//!
//! Reading and writing the configuration file happens outside the library;
//! the world generation rules are carried as an opaque value `R`.
use vstd::prelude::*;
use crate::assoc::AssocMap;
use crate::config::{ConfigurationError, ConfigValue, ConfigValueView, GameModeConfig, WorldSize};

verus! {

/// Network settings of a game.
#[derive(Clone, Copy, Debug, PartialEq, Eq, Structural)]
pub struct NetworkConfig {
    pub max_players: u8,
    pub server_port: u16,
    /// In milliseconds.
    pub connection_timeout: u32,
}

/// The game configuration.
pub struct GameConfiguration<R> {
    pub world_seed: u64,
    pub world_size: WorldSize,
    pub generation_rules: R,
    pub network: NetworkConfig,
    pub game_mode: GameModeConfig,
    pub custom_settings: AssocMap<String, ConfigValue>,
}

impl<R> GameConfiguration<R> {
    pub open spec fn wf(&self) -> bool {
        self.custom_settings.wf()
    }
}

/// The errors of a configuration: a host needs a seed that is not zero, a
/// client needs a server address.
pub open spec fn core_config_errors<R>(c: GameConfiguration<R>) -> Option<ConfigurationError> {
    match c.game_mode {
        GameModeConfig::Host(h) if h.world_generation_seed == 0 => Some(ConfigurationError::InvalidSeed),
        GameModeConfig::Client(cc) if cc.server_address@.len() == 0 => Some(ConfigurationError::InvalidServerAddress),
        _ => None,
    }
}

/// Holds the current configuration and where it is stored.
pub struct ConfigurationManager<R> {
    pub current_config: GameConfiguration<R>,
    pub config_path: Option<String>,
    pub is_initialized: bool,
}

impl<R> ConfigurationManager<R> {
    pub open spec fn wf(&self) -> bool {
        self.current_config.wf()
    }

    /// A manager of the given configuration and path.
    pub fn with_config(config: GameConfiguration<R>, config_path: Option<String>) -> (m: Self)
        ensures
            m.current_config == config,
            m.config_path == config_path,
            m.is_initialized,
    {
        ConfigurationManager { current_config: config, config_path, is_initialized: true }
    }

    /// The default configuration: the given seed and rules, a world of 10000
    /// by 10000, 64 players on port 7878 with a 5000 ms timeout, a
    /// standalone game and no custom values.
    pub fn create_default_config(world_seed: u64, generation_rules: R) -> (c: GameConfiguration<R>)
        ensures
            c.wf(),
            c.world_seed == world_seed,
            c.world_size == (WorldSize { width: 10000, height: 10000 }),
            c.generation_rules == generation_rules,
            c.network == (NetworkConfig { max_players: 64, server_port: 7878, connection_timeout: 5000 }),
            c.game_mode is Standalone,
            c.custom_settings.map() == Map::<Seq<char>, ConfigValueView>::empty(),
    {
        GameConfiguration {
            world_seed,
            world_size: WorldSize { width: 10000, height: 10000 },
            generation_rules,
            network: NetworkConfig { max_players: 64, server_port: 7878, connection_timeout: 5000 },
            game_mode: GameModeConfig::Standalone,
            custom_settings: AssocMap::new(),
        }
    }

    /// A manager of the default configuration with no path.
    pub fn default(world_seed: u64, generation_rules: R) -> (m: Self)
        ensures
            m.wf(),
            m.current_config.world_seed == world_seed,
            m.current_config.generation_rules == generation_rules,
            m.current_config.world_size == (WorldSize { width: 10000, height: 10000 }),
            m.current_config.network == (NetworkConfig { max_players: 64, server_port: 7878, connection_timeout: 5000 }),
            m.current_config.game_mode is Standalone,
            m.current_config.custom_settings.map() == Map::<Seq<char>, ConfigValueView>::empty(),
            m.config_path is None,
            m.is_initialized,
    {
        ConfigurationManager {
            current_config: Self::create_default_config(world_seed, generation_rules),
            config_path: None,
            is_initialized: true,
        }
    }

    pub fn set_config_path(&mut self, path: String)
        ensures
            final(self).config_path == Some(path),
            final(self).current_config == old(self).current_config,
            final(self).is_initialized == old(self).is_initialized,
    {
        self.config_path = Some(path);
    }

    /// Replaces the whole configuration.
    pub fn update_config(&mut self, updates: GameConfiguration<R>)
        ensures
            final(self).current_config == updates,
            final(self).config_path == old(self).config_path,
            final(self).is_initialized == old(self).is_initialized,
    {
        self.current_config = updates;
    }

    pub fn get_config(&self) -> (c: &GameConfiguration<R>)
        ensures
            *c == self.current_config,
    {
        &self.current_config
    }

    /// A copy of custom value `key`, if it is set.
    pub fn get(&self, key: &String) -> (r: Option<ConfigValue>)
        requires
            self.wf(),
        ensures
            r is Some <==> self.current_config.custom_settings.map().dom().contains(key@),
            r matches Some(v) ==> v@ == self.current_config.custom_settings.map()[key@],
    {
        match self.current_config.custom_settings.get(key) {
            Some(v) => Some(v.clone()),
            None => None,
        }
    }

    /// Sets custom value `key`.
    pub fn set(&mut self, key: String, value: ConfigValue)
        requires
            old(self).wf(),
        ensures
            final(self).wf(),
            final(self).current_config.custom_settings.map() == old(self).current_config.custom_settings.map().insert(key@, value@),
            final(self).current_config.world_seed == old(self).current_config.world_seed,
            final(self).current_config.world_size == old(self).current_config.world_size,
            final(self).current_config.network == old(self).current_config.network,
            final(self).current_config.game_mode == old(self).current_config.game_mode,
            final(self).config_path == old(self).config_path,
            final(self).is_initialized == old(self).is_initialized,
    {
        self.current_config.custom_settings.insert(key, value);
    }

    pub fn is_initialized(&self) -> (b: bool)
        ensures
            b == self.is_initialized,
    {
        self.is_initialized
    }

    /// Checks the configuration: a host needs a seed that is not zero, a
    /// client needs a server address.
    pub fn validate(&self) -> (r: Result<(), ConfigurationError>)
        ensures
            r matches Err(e) ==> core_config_errors(self.current_config) == Some(e),
            r is Ok <==> core_config_errors(self.current_config) is None,
            (self.current_config.game_mode matches GameModeConfig::Host(h) && h.world_generation_seed == 0)
                ==> r == Err::<(), ConfigurationError>(ConfigurationError::InvalidSeed),
            (self.current_config.game_mode matches GameModeConfig::Client(cc) && cc.server_address@.len() == 0)
                ==> r == Err::<(), ConfigurationError>(ConfigurationError::InvalidServerAddress),
            self.current_config.game_mode is Standalone ==> r is Ok,
            (self.current_config.game_mode matches GameModeConfig::Host(h) && h.world_generation_seed != 0) ==> r is Ok,
            (self.current_config.game_mode matches GameModeConfig::Client(cc) && cc.server_address@.len() > 0) ==> r is Ok,
    {
        match &self.current_config.game_mode {
            GameModeConfig::Host(host_config) => {
                if host_config.world_generation_seed == 0 {
                    return Err(ConfigurationError::InvalidSeed);
                }
            },
            GameModeConfig::Client(client_config) => {
                if client_config.server_address.as_str().is_empty() {
                    return Err(ConfigurationError::InvalidServerAddress);
                }
            },
            _ => {},
        }
        Ok(())
    }
}

} // verus!
