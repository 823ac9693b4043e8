//! How start-up options shape the configuration: the game mode, the world's
//! seed and size, the network settings, and the state announced once
//! everything is set up.
//!
//! The options arrive as plain values; reading them from the engine's
//! dictionary, and opening the network, happen outside the library.
use vstd::prelude::*;
use crate::config::{GameConfiguration, GameModeConfig, HostConfig, ClientConfig, NetworkInitialConfigData, default_server_address, default_username};
use crate::network::{NetworkMode, NetworkConfig};
use crate::game::{GameEvent, GameManager, GameState};
use crate::world_state::{WorldStateManager, WorldStateConfig};

verus! {

broadcast use vstd::string::group_string_axioms;

/// Start-up options, each present only when it was given with the right
/// type.
pub struct ConfigurationOptions {
    pub network_mode: Option<i64>,
    pub world_seed: Option<i64>,
    pub admin_password: Option<String>,
    pub server_address: Option<String>,
    pub player_name: Option<String>,
    pub world_width: Option<i64>,
    pub world_height: Option<i64>,
    pub server_port: Option<i64>,
    pub max_players: Option<i64>,
}

/// The network mode numbered `mode` (1 host, 2 client); standalone for any
/// other number or none.
pub open spec fn mode_from_option(mode: Option<i64>) -> NetworkMode {
    match mode {
        Some(1) => NetworkMode::Host,
        Some(2) => NetworkMode::Client,
        _ => NetworkMode::Standalone,
    }
}

pub fn network_mode_from_option(mode: Option<i64>) -> (m: NetworkMode)
    ensures
        m == mode_from_option(mode),
{
    match mode {
        Some(1) => NetworkMode::Host,
        Some(2) => NetworkMode::Client,
        _ => NetworkMode::Standalone,
    }
}

fn clone_opt(s: &Option<String>) -> (c: Option<String>)
    ensures
        c == *s,
{
    match s {
        Some(v) => Some(v.clone()),
        None => None,
    }
}

/// `gm` is the game mode that options `o` give for `mode`: a host's seed is
/// the given one (cut to 64 bits) or the configured one, its password the
/// given one; a client's address and name are the given ones or the
/// defaults.
pub open spec fn game_mode_from(gm: GameModeConfig, mode: NetworkMode, o: ConfigurationOptions, configured_seed: u64) -> bool {
    match mode {
        NetworkMode::Standalone => gm is Standalone,
        NetworkMode::Host => gm == GameModeConfig::Host(HostConfig {
            world_generation_seed: match o.world_seed { Some(s) => s as u64, None => configured_seed },
            admin_password: o.admin_password,
        }),
        NetworkMode::Client => match gm {
            GameModeConfig::Client(c) => {
                &&& c.server_address@ == (match o.server_address { Some(a) => a@, None => "127.0.0.1:7878"@ })
                &&& c.username@ == (match o.player_name { Some(n) => n@, None => "Player"@ })
            },
            _ => false,
        },
    }
}

/// Sets the game mode from the options, then the seed and the world's
/// width and height wherever the options give them (each cut to its
/// field's width); the rest of the configuration is kept.
pub fn update_configuration<R>(config: &mut GameConfiguration<R>, mode: NetworkMode, options: &ConfigurationOptions)
    ensures
        game_mode_from(final(config).game_mode, mode, *options, old(config).world_seed),
        final(config).world_seed == (match options.world_seed { Some(s) => s as u64, None => old(config).world_seed }),
        final(config).world_size.width == (match options.world_width { Some(w) => w as u32, None => old(config).world_size.width }),
        final(config).world_size.height == (match options.world_height { Some(h) => h as u32, None => old(config).world_size.height }),
        final(config).debug_mode == old(config).debug_mode,
        final(config).generation_rules == old(config).generation_rules,
        final(config).network == old(config).network,
        final(config).terrain == old(config).terrain,
        final(config).custom_settings == old(config).custom_settings,
{
    config.game_mode = match mode {
        NetworkMode::Standalone => GameModeConfig::Standalone,
        NetworkMode::Host => GameModeConfig::Host(HostConfig {
            world_generation_seed: match options.world_seed {
                Some(s) => s as u64,
                None => config.world_seed,
            },
            admin_password: clone_opt(&options.admin_password),
        }),
        NetworkMode::Client => GameModeConfig::Client(ClientConfig {
            server_address: match &options.server_address {
                Some(a) => a.clone(),
                None => default_server_address(),
            },
            username: match &options.player_name {
                Some(n) => n.clone(),
                None => default_username(),
            },
        }),
    };
    if let Some(seed) = options.world_seed {
        config.world_seed = seed as u64;
    }
    if let Some(width) = options.world_width {
        config.world_size.width = width as u32;
    }
    if let Some(height) = options.world_height {
        config.world_size.height = height as u32;
    }
}

/// `c` is the network setting that options `o` give for `mode`: nothing
/// for standalone; for a host the given port and player count (cut to their
/// widths) or the configured defaults; for a client one connection to the
/// given address, else the configured client's, else the default one.
pub open spec fn network_config_from(c: NetworkConfig, mode: NetworkMode, o: ConfigurationOptions,
    defaults: NetworkInitialConfigData, game_mode: GameModeConfig) -> bool {
    match mode {
        NetworkMode::Standalone => {
            &&& c.mode == NetworkMode::Standalone
            &&& c.port == 0
            &&& c.max_connections == 0
            &&& c.server_address is None
        },
        NetworkMode::Host => {
            &&& c.mode == NetworkMode::Host
            &&& c.port == (match o.server_port { Some(p) => p as u16, None => defaults.default_port })
            &&& c.max_connections == (match o.max_players { Some(p) => p as usize, None => defaults.max_players as usize })
            &&& c.server_address is None
        },
        NetworkMode::Client => {
            &&& c.mode == NetworkMode::Client
            &&& c.port == 0
            &&& c.max_connections == 1
            &&& c.server_address matches Some(a) && a@ == (match o.server_address {
                Some(s) => s@,
                None => match game_mode {
                    GameModeConfig::Client(cc) => cc.server_address@,
                    _ => "127.0.0.1:7878"@,
                },
            })
        },
    }
}

/// The network settings for `mode` from the options, the configured network
/// defaults and the configured game mode.
pub fn configure_network(mode: NetworkMode, options: &ConfigurationOptions, defaults: &NetworkInitialConfigData, game_mode: &GameModeConfig) -> (c: NetworkConfig)
    ensures
        network_config_from(c, mode, *options, *defaults, *game_mode),
{
    match mode {
        NetworkMode::Standalone => NetworkConfig { mode: NetworkMode::Standalone, port: 0, max_connections: 0, server_address: None },
        NetworkMode::Host => NetworkConfig {
            mode: NetworkMode::Host,
            port: match options.server_port {
                Some(p) => p as u16,
                None => defaults.default_port,
            },
            max_connections: match options.max_players {
                Some(p) => p as usize,
                None => defaults.max_players as usize,
            },
            server_address: None,
        },
        NetworkMode::Client => {
            let address = match &options.server_address {
                Some(a) => a.clone(),
                None => match game_mode {
                    GameModeConfig::Client(cc) => cc.server_address.clone(),
                    _ => default_server_address(),
                },
            };
            NetworkConfig { mode: NetworkMode::Client, port: 0, max_connections: 1, server_address: Some(address) }
        },
    }
}

/// Gives the world manager the configured seed and size, keeping its
/// generation parameters, and initializes it; returns the seed to give the
/// biome manager when one is attached.
pub fn initialize_world<R>(world: &mut WorldStateManager<R>, seed: u64, width: u32, height: u32) -> (r: Result<Option<u32>, String>)
    requires
        old(world).wf(),
    ensures
        final(world).wf(),
        r == Ok::<Option<u32>, String>(if old(world).has_terrain_spec() { Some(seed as u32) } else { None }),
        final(world).config_spec() == (WorldStateConfig {
            seed,
            world_size: (width, height),
            generation_parameters: old(world).config_spec().generation_parameters,
        }),
        final(world).initialized_spec(),
        final(world).pending() == (true, seed, (width, height)),
        final(world).entities() == old(world).entities(),
        final(world).version() == old(world).version(),
{
    let biome_seed = world.update_seed_and_size(seed, (width, height));
    match world.initialize() {
        Ok(()) => Ok(biome_seed),
        Err(e) => Err(e),
    }
}

/// The world's configuration as the game configuration gives it: its seed,
/// its size as (width, height), and a clone of its generation rules.
pub fn create_world_config<R: Clone>(config: &GameConfiguration<R>) -> (w: WorldStateConfig<R>)
    ensures
        w.seed == config.world_seed,
        w.world_size == (config.world_size.width, config.world_size.height),
        cloned::<R>(config.generation_rules, w.generation_parameters),
{
    WorldStateConfig {
        seed: config.world_seed,
        world_size: (config.world_size.width, config.world_size.height),
        generation_parameters: config.generation_rules.clone(),
    }
}

/// The state announced once initialization is done: running for a
/// standalone game or a host, loading for a client until the host's world
/// arrives.
pub fn announced_state(mode: NetworkMode) -> (s: GameState)
    ensures
        s == (match mode {
            NetworkMode::Client => GameState::Loading,
            _ => GameState::Running,
        }),
{
    match mode {
        NetworkMode::Client => GameState::Loading,
        _ => GameState::Running,
    }
}

/// Marks the game manager initialized (it moves to the main menu) and gives
/// the state to announce for the mode.
pub fn finalize_initialization<R>(game: &mut GameManager<R>, mode: NetworkMode) -> (announce: GameState)
    ensures
        announce == (match mode {
            NetworkMode::Client => GameState::Loading,
            _ => GameState::Running,
        }),
        final(game).initialized_spec(),
        final(game).state_spec() == GameState::MainMenu,
        final(game).events() == old(game).events().push(GameEvent::StateChanged(GameState::MainMenu)),
        final(game).wf() == old(game).wf(),
        final(game).world() == old(game).world(),
        final(game).running_spec() == old(game).running_spec(),
        final(game).has_network_spec() == old(game).has_network_spec(),
        final(game).frame_rate_spec() == old(game).frame_rate_spec(),
{
    game.mark_initialized();
    announced_state(mode)
}

} // verus!
