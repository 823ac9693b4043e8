//! Game configuration: defaults, the configuration types and the manager
//! that holds the current configuration.
//!
//! Reading and writing configuration files happens outside the library; the
//! world generation rules are carried as an opaque value `R`.
use vstd::prelude::*;
use vstd::string::*;
use crate::assoc::{AssocMap, MapKey};

verus! {

broadcast use vstd::string::group_string_axioms;

/// The server address a client connects to when none is given.
pub fn default_server_address() -> (s: String)
    ensures
        s@ == "127.0.0.1:7878"@,
{
    String::from_str("127.0.0.1:7878")
}

/// The user name of a client when none is given.
pub fn default_username() -> (s: String)
    ensures
        s@ == "Player"@,
{
    String::from_str("Player")
}

impl MapKey for String {
    fn same_key(&self, other: &Self) -> (b: bool) {
        *self == *other
    }

    fn copy_key(&self) -> (k: Self) {
        self.clone()
    }
}

/// Size of the world, in world units.
#[derive(Clone, Copy, Debug, PartialEq, Eq, Structural)]
pub struct WorldSize {
    pub width: u32,
    pub height: u32,
}

impl WorldSize {
    /// A world of 10000 by 10000 units.
    pub fn default() -> (w: Self)
        ensures
            w.width == 10000 && w.height == 10000,
    {
        WorldSize { width: 10000, height: 10000 }
    }
}

/// Network settings read from the configuration file.
#[derive(Clone, Copy, Debug, PartialEq, Eq, Structural)]
pub struct NetworkInitialConfigData {
    pub default_port: u16,
    pub max_players: u8,
    pub connection_timeout_ms: u32,
}

impl NetworkInitialConfigData {
    /// Port 7878, 64 players, a timeout of 5000 ms.
    pub fn default() -> (n: Self)
        ensures
            n.default_port == 7878 && n.max_players == 64 && n.connection_timeout_ms == 5000,
    {
        NetworkInitialConfigData { default_port: 7878, max_players: 64, connection_timeout_ms: 5000 }
    }
}

/// Settings of a hosting game.
pub struct HostConfig {
    pub world_generation_seed: u64,
    pub admin_password: Option<String>,
}

/// Settings of a client.
pub struct ClientConfig {
    pub server_address: String,
    pub username: String,
}

/// How this instance takes part in a game.
pub enum GameModeConfig {
    Standalone,
    Host(HostConfig),
    Client(ClientConfig),
}

impl HostConfig {
    pub fn clone(&self) -> (c: Self)
        ensures
            c == *self,
    {
        let admin_password = match &self.admin_password {
            Some(p) => Some(p.clone()),
            None => None,
        };
        HostConfig { world_generation_seed: self.world_generation_seed, admin_password }
    }
}

impl ClientConfig {
    pub fn clone(&self) -> (c: Self)
        ensures
            c == *self,
    {
        ClientConfig { server_address: self.server_address.clone(), username: self.username.clone() }
    }
}

impl GameModeConfig {
    pub fn clone(&self) -> (c: Self)
        ensures
            c == *self,
    {
        match self {
            GameModeConfig::Standalone => GameModeConfig::Standalone,
            GameModeConfig::Host(h) => GameModeConfig::Host(h.clone()),
            GameModeConfig::Client(c) => GameModeConfig::Client(c.clone()),
        }
    }
}

/// A custom configuration value; a float is kept as its `f64` bit pattern.
pub enum ConfigValue {
    String(String),
    Integer(i64),
    Float(u64),
    Boolean(bool),
}

/// A configuration value as plain values.
pub enum ConfigValueView {
    String(Seq<char>),
    Integer(i64),
    Float(u64),
    Boolean(bool),
}

impl View for ConfigValue {
    type V = ConfigValueView;

    open spec fn view(&self) -> ConfigValueView {
        match self {
            ConfigValue::String(s) => ConfigValueView::String(s@),
            ConfigValue::Integer(i) => ConfigValueView::Integer(*i),
            ConfigValue::Float(f) => ConfigValueView::Float(*f),
            ConfigValue::Boolean(b) => ConfigValueView::Boolean(*b),
        }
    }
}

impl ConfigValue {
    pub fn clone(&self) -> (c: Self)
        ensures
            c@ == self@,
    {
        match self {
            ConfigValue::String(s) => ConfigValue::String(s.clone()),
            ConfigValue::Integer(i) => ConfigValue::Integer(*i),
            ConfigValue::Float(f) => ConfigValue::Float(*f),
            ConfigValue::Boolean(b) => ConfigValue::Boolean(*b),
        }
    }

    /// The text of a string value, else the empty string.
    pub fn into_string(self) -> (s: String)
        ensures
            s@ == match self@ {
                ConfigValueView::String(t) => t,
                _ => Seq::<char>::empty(),
            },
    {
        match self {
            ConfigValue::String(s) => s,
            _ => String::new(),
        }
    }

    /// The number of an integer value, else 0.
    pub fn into_i64(self) -> (i: i64)
        ensures
            i == match self@ {
                ConfigValueView::Integer(v) => v,
                _ => 0,
            },
    {
        match self {
            ConfigValue::Integer(i) => i,
            _ => 0,
        }
    }

    /// The bit pattern of a float value, else that of 0.0 (all zero).
    pub fn into_f64_bits(self) -> (f: u64)
        ensures
            f == match self@ {
                ConfigValueView::Float(v) => v,
                _ => 0,
            },
    {
        match self {
            ConfigValue::Float(f) => f,
            _ => 0,
        }
    }

    /// The flag of a boolean value, else false.
    pub fn into_bool(self) -> (b: bool)
        ensures
            b == match self@ {
                ConfigValueView::Boolean(v) => v,
                _ => false,
            },
    {
        match self {
            ConfigValue::Boolean(b) => b,
            _ => false,
        }
    }
}

/// Why a configuration is not valid.
#[derive(Clone, Copy, Debug, PartialEq, Eq, Structural)]
pub enum ConfigurationError {
    InvalidSeed,
    InvalidServerAddress,
    NetworkConfigError,
    InvalidWorldSize,
}

/// `num_cpus::get`: the number of logical CPUs, at least 1.
#[verifier::external_body]
pub(crate) fn cpu_count() -> (n: usize)
    ensures
        n >= 1,
{
    num_cpus::get()
}

/// Terrain settings read from the configuration file; the blend distance is
/// kept as its `f32` bit pattern.
pub struct TerrainInitialConfigData {
    pub max_threads: usize,
    pub chunk_size: u32,
    pub blend_distance: u32,
    pub use_parallel_processing: bool,
    pub chunk_cache_size: usize,
    pub chunks_per_frame: usize,
    pub render_distance: i32,
    pub noise_paths: AssocMap<String, String>,
}

/// Bit pattern of the `f32` value 200.0.
pub const BLEND_DISTANCE_200_BITS: u32 = 0x4348_0000;

/// One thread fewer than the CPUs, but at least one.
pub open spec fn default_thread_count(cpus: usize) -> usize {
    if cpus <= 1 { 1 } else { (cpus - 1) as usize }
}

impl TerrainInitialConfigData {
    /// The defaults used when the configuration has no terrain section.
    pub fn default() -> (t: Self)
        ensures
            t.max_threads >= 1,
            t.chunk_size == 32,
            t.blend_distance == BLEND_DISTANCE_200_BITS,
            t.use_parallel_processing,
            t.chunk_cache_size == 400,
            t.chunks_per_frame == 4,
            t.render_distance == 2,
            t.noise_paths.wf(),
            t.noise_paths.map() == Map::<Seq<char>, Seq<char>>::empty(),
    {
        let cpus = cpu_count();
        Self::with_cpu_count(cpus)
    }

    /// The defaults for a machine with `cpus` CPUs.
    pub fn with_cpu_count(cpus: usize) -> (t: Self)
        ensures
            t.max_threads == default_thread_count(cpus),
            t.max_threads >= 1,
            t.chunk_size == 32,
            t.blend_distance == BLEND_DISTANCE_200_BITS,
            t.use_parallel_processing,
            t.chunk_cache_size == 400,
            t.chunks_per_frame == 4,
            t.render_distance == 2,
            t.noise_paths.wf(),
            t.noise_paths.map() == Map::<Seq<char>, Seq<char>>::empty(),
    {
        let max_threads = if cpus <= 1 { 1 } else { cpus - 1 };
        TerrainInitialConfigData {
            max_threads,
            chunk_size: 32,
            blend_distance: BLEND_DISTANCE_200_BITS,
            use_parallel_processing: true,
            chunk_cache_size: 400,
            chunks_per_frame: 4,
            render_distance: 2,
            noise_paths: AssocMap::new(),
        }
    }
}

/// The whole game configuration; `R` holds the world generation rules.
pub struct GameConfiguration<R> {
    pub debug_mode: bool,
    pub world_seed: u64,
    pub world_size: WorldSize,
    pub generation_rules: R,
    pub network: NetworkInitialConfigData,
    pub terrain: TerrainInitialConfigData,
    pub custom_settings: AssocMap<String, ConfigValue>,
    /// Runtime state, not read from the file.
    pub game_mode: GameModeConfig,
}

impl<R> GameConfiguration<R> {
    pub open spec fn wf(&self) -> bool {
        self.custom_settings.wf() && self.terrain.noise_paths.wf()
    }

    /// The defaults: no debug mode, the given seed and rules, a standalone
    /// game with no custom settings.
    pub fn default(world_seed: u64, generation_rules: R) -> (c: Self)
        ensures
            c.wf(),
            !c.debug_mode,
            c.world_seed == world_seed,
            c.world_size == (WorldSize { width: 10000, height: 10000 }),
            c.generation_rules == generation_rules,
            c.network == (NetworkInitialConfigData { default_port: 7878, max_players: 64, connection_timeout_ms: 5000 }),
            c.terrain.chunk_size == 32,
            c.terrain.max_threads >= 1,
            c.terrain.render_distance == 2,
            c.custom_settings.map() == Map::<Seq<char>, ConfigValueView>::empty(),
            c.game_mode is Standalone,
    {
        GameConfiguration {
            debug_mode: false,
            world_seed,
            world_size: WorldSize::default(),
            generation_rules,
            network: NetworkInitialConfigData::default(),
            terrain: TerrainInitialConfigData::default(),
            custom_settings: AssocMap::new(),
            game_mode: GameModeConfig::Standalone,
        }
    }
}

/// The errors of a configuration, in the order they are checked: a client
/// needs a server address, and the world must have a size.
pub open spec fn config_errors<R>(c: GameConfiguration<R>) -> Option<ConfigurationError> {
    match c.game_mode {
        GameModeConfig::Client(cc) if cc.server_address@.len() == 0 => Some(ConfigurationError::InvalidServerAddress),
        _ => if c.world_size.width == 0 || c.world_size.height == 0 {
            Some(ConfigurationError::InvalidWorldSize)
        } else {
            None
        },
    }
}

/// A configuration is refused for a client without a server address, and
/// otherwise for a world with no width or no height; any other is valid.
pub proof fn lemma_config_errors<R>(c: GameConfiguration<R>)
    ensures
        (c.game_mode matches GameModeConfig::Client(cc) && cc.server_address@.len() == 0)
            ==> config_errors(c) == Some(ConfigurationError::InvalidServerAddress),
        !(c.game_mode matches GameModeConfig::Client(cc) && cc.server_address@.len() == 0)
            && (c.world_size.width == 0 || c.world_size.height == 0)
            ==> config_errors(c) == Some(ConfigurationError::InvalidWorldSize),
        !(c.game_mode matches GameModeConfig::Client(cc) && cc.server_address@.len() == 0)
            && c.world_size.width > 0 && c.world_size.height > 0
            ==> config_errors(c) is None,
{
}

/// Holds the current configuration and where it is stored.
pub struct ConfigurationManager<R> {
    pub current_config: GameConfiguration<R>,
    pub config_path: Option<String>,
}

impl<R> ConfigurationManager<R> {
    pub open spec fn wf(&self) -> bool {
        self.current_config.wf()
    }

    /// A manager of the given configuration and path.
    pub fn with_config(config: GameConfiguration<R>, config_path: Option<String>) -> (m: Self)
        ensures
            m.current_config == config,
            m.config_path == config_path,
    {
        ConfigurationManager { current_config: config, config_path }
    }

    /// A manager of the default configuration with no path.
    pub fn default(world_seed: u64, generation_rules: R) -> (m: Self)
        ensures
            m.wf(),
            m.current_config.world_seed == world_seed,
            m.current_config.generation_rules == generation_rules,
            m.current_config.game_mode is Standalone,
            m.current_config.custom_settings.map() == Map::<Seq<char>, ConfigValueView>::empty(),
            m.config_path is None,
    {
        ConfigurationManager { current_config: GameConfiguration::default(world_seed, generation_rules), config_path: None }
    }

    pub fn set_config_path(&mut self, path: String)
        ensures
            final(self).config_path == Some(path),
            final(self).current_config == old(self).current_config,
    {
        self.config_path = Some(path);
    }

    /// Replaces the whole configuration.
    pub fn update_config(&mut self, updates: GameConfiguration<R>)
        ensures
            final(self).current_config == updates,
            final(self).config_path == old(self).config_path,
    {
        self.current_config = updates;
    }

    pub fn get_config(&self) -> (c: &GameConfiguration<R>)
        ensures
            *c == self.current_config,
    {
        &self.current_config
    }

    pub fn get_config_mut(&mut self) -> (c: &mut GameConfiguration<R>)
        ensures
            *c == old(self).current_config,
            final(self).current_config == *final(c),
            final(self).config_path == old(self).config_path,
    {
        &mut self.current_config
    }

    /// Sets custom value `key`.
    pub fn set(&mut self, key: String, value: ConfigValue)
        requires
            old(self).wf(),
        ensures
            final(self).wf(),
            final(self).current_config.custom_settings.map() == old(self).current_config.custom_settings.map().insert(key@, value@),
            final(self).config_path == old(self).config_path,
            final(self).current_config.world_seed == old(self).current_config.world_seed,
            final(self).current_config.world_size == old(self).current_config.world_size,
            final(self).current_config.game_mode == old(self).current_config.game_mode,
    {
        self.current_config.custom_settings.insert(key, value);
    }

    /// Checks the configuration: a client needs a server address, and the
    /// world must have a size.
    pub fn validate(&self) -> (r: Result<(), ConfigurationError>)
        ensures
            r matches Err(e) ==> config_errors(self.current_config) == Some(e),
            r is Ok <==> config_errors(self.current_config) is None,
            (self.current_config.game_mode matches GameModeConfig::Client(cc) && cc.server_address@.len() == 0)
                ==> r == Err::<(), ConfigurationError>(ConfigurationError::InvalidServerAddress),
            !(self.current_config.game_mode matches GameModeConfig::Client(cc) && cc.server_address@.len() == 0)
                && (self.current_config.world_size.width == 0 || self.current_config.world_size.height == 0)
                ==> r == Err::<(), ConfigurationError>(ConfigurationError::InvalidWorldSize),
            !(self.current_config.game_mode matches GameModeConfig::Client(cc) && cc.server_address@.len() == 0)
                && self.current_config.world_size.width > 0 && self.current_config.world_size.height > 0
                ==> r is Ok,
    {
        match &self.current_config.game_mode {
            GameModeConfig::Client(client_config) => {
                if client_config.server_address.as_str().is_empty() {
                    return Err(ConfigurationError::InvalidServerAddress);
                }
            },
            _ => {},
        }
        if self.current_config.world_size.width == 0 || self.current_config.world_size.height == 0 {
            return Err(ConfigurationError::InvalidWorldSize);
        }
        Ok(())
    }

    /// A manager always holds a configuration, loaded or default.
    pub fn is_initialized(&self) -> (b: bool)
        ensures
            b,
    {
        true
    }
}

} // verus!
