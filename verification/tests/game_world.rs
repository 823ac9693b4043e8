use ubat::config::{GameConfiguration, GameModeConfig, NetworkInitialConfigData};
use ubat::config_service::{announced_state, configure_network, create_world_config, finalize_initialization, initialize_world, network_mode_from_option, update_configuration, ConfigurationOptions};
use ubat::game::{GameError, GameEvent, GameManager, GameManagerBridge, GameState};
use ubat::init_errors::{InitializationOptions, SystemInitError, WorldInitError};
use ubat::init_timing::{TerrainInitializationState, TerrainInitializationTiming, TimingReport};
use ubat::network::NetworkMode;
use ubat::thread_pool::{pool_size, with_thread_local_context};
use ubat::world_state::{holds_world_state, WorldStateConfig, WorldStateManager};

fn world() -> WorldStateManager<u32> {
    WorldStateManager::new(WorldStateConfig { seed: 7, world_size: (100, 200), generation_parameters: 0u32 })
}

fn ready_game() -> GameManager<u32> {
    let mut g: GameManager<u32> = GameManager::new_with_dependencies(Some(world()), false);
    g.mark_initialized();
    g
}

#[test]
fn pause_then_resume_runs_again() {
    let mut g = ready_game();
    assert!(g.start_game().is_ok());
    let _ = g.take_events();
    g.pause();
    assert_eq!(g.get_state(), GameState::Paused);
    g.resume();
    assert_eq!(g.get_state(), GameState::Running);
    let events = g.take_events();
    assert!(matches!(events[..], [GameEvent::StateChanged(GameState::Paused), GameEvent::StateChanged(GameState::Running)]));
    g.resume();
    assert!(g.take_events().is_empty());
}

#[test]
fn starting_needs_initialization_and_a_world() {
    let mut g: GameManager<u32> = GameManager::new();
    match g.start_game() {
        Err(GameError::SystemError(m)) => assert_eq!(m, "Game not initialized"),
        _ => panic!("expected a system error"),
    }
    g.mark_initialized();
    match g.start_game() {
        Err(GameError::WorldError(m)) => assert_eq!(m, "World manager not created"),
        _ => panic!("expected a world error"),
    }
    assert_eq!(g.get_state(), GameState::MainMenu);
}

#[test]
fn bridge_shows_state_changes() {
    let mut g = ready_game();
    let mut b = GameManagerBridge::new();
    assert_eq!(b.get_game_state(), -1);
    assert_eq!(b.get_game_state_name(), "Not Initialized");
    let change = b.start_game(&mut g).ok().unwrap().unwrap();
    assert_eq!((change.0, change.1, change.2.as_str()), (-1, 3, "Running"));
    assert_eq!(b.pause_game(&mut g).map(|c| c.1), Some(4));
    assert_eq!(b.get_game_state_name(), "Paused");
    assert_eq!(b.resume_game(&mut g).map(|c| c.2), Some("Running".to_string()));
    assert!(b.resume_game(&mut g).is_none());
    assert_eq!(b.stop_game(&mut g).map(|c| c.1), Some(5));
    assert!(!g.is_running());
    b.set_frame_rate(&mut g, 30);
    assert_eq!(g.get_frame_rate(), 30);
    assert!(b.is_initialized(Some(&g)));
    assert!(!b.is_initialized::<u32>(None));
}

#[test]
fn world_state_read_back_keeps_the_version() {
    let mut w = world();
    w.add_entity(1, vec![1, 2, 3]);
    w.apply_world_state(5);
    w.add_entity(2, vec![9]);
    let bytes = w.serialize_world_state();
    assert_eq!(w.get_version(), 6);
    assert!(w.get_entity(1).is_none());
    assert_eq!(&bytes[..8], &6u64.to_le_bytes());
    let mut other = world();
    assert!(holds_world_state(&bytes));
    other.deserialize_world_state(&bytes);
    assert_eq!(other.get_version(), 6);
    assert!(other.get_entity(2).is_none());
    assert!(!holds_world_state(&[1, 2, 3]));
    other.apply_world_state(3);
    assert_eq!(other.get_version(), 6);
}

#[test]
fn options_shape_a_host_configuration() {
    let mut c: GameConfiguration<u32> = GameConfiguration::default(11, 0);
    let o = ConfigurationOptions {
        network_mode: Some(1),
        world_seed: None,
        admin_password: Some("pw".to_string()),
        server_address: None,
        player_name: None,
        world_width: Some(640),
        world_height: None,
        server_port: Some(70000),
        max_players: None,
    };
    let mode = network_mode_from_option(o.network_mode);
    assert_eq!(mode, NetworkMode::Host);
    update_configuration(&mut c, mode, &o);
    match &c.game_mode {
        GameModeConfig::Host(h) => {
            assert_eq!(h.world_generation_seed, 11);
            assert_eq!(h.admin_password.as_deref(), Some("pw"));
        },
        _ => panic!("expected host mode"),
    }
    assert_eq!(c.world_size.width, 640);
    assert_eq!(c.world_size.height, 10000);
    let defaults = NetworkInitialConfigData { default_port: 7878, max_players: 64, connection_timeout_ms: 5000 };
    let n = configure_network(mode, &o, &defaults, &c.game_mode);
    assert_eq!(n.port, (70000i64 as u16));
    assert_eq!(n.max_connections, 64);
    assert_eq!(announced_state(mode), GameState::Running);
}

#[test]
fn options_shape_a_client_configuration() {
    let mut c: GameConfiguration<u32> = GameConfiguration::default(11, 0);
    let o = ConfigurationOptions {
        network_mode: Some(2),
        world_seed: Some(-1),
        admin_password: None,
        server_address: None,
        player_name: Some("Ann".to_string()),
        world_width: None,
        world_height: None,
        server_port: None,
        max_players: None,
    };
    let mode = network_mode_from_option(o.network_mode);
    update_configuration(&mut c, mode, &o);
    assert_eq!(c.world_seed, u64::MAX);
    match &c.game_mode {
        GameModeConfig::Client(cc) => {
            assert_eq!(cc.server_address, "127.0.0.1:7878");
            assert_eq!(cc.username, "Ann");
        },
        _ => panic!("expected client mode"),
    }
    let defaults = NetworkInitialConfigData { default_port: 7878, max_players: 64, connection_timeout_ms: 5000 };
    let n = configure_network(mode, &o, &defaults, &c.game_mode);
    assert_eq!(n.server_address.as_deref(), Some("127.0.0.1:7878"));
    assert_eq!(n.max_connections, 1);
    assert_eq!(announced_state(mode), GameState::Loading);
    assert_eq!(network_mode_from_option(Some(9)), NetworkMode::Standalone);
    assert_eq!(network_mode_from_option(None), NetworkMode::Standalone);
}

#[test]
fn world_initialization_takes_the_configured_seed() {
    let mut w = world();
    assert_eq!(initialize_world(&mut w, 99, 10, 20), Ok(None));
    assert!(w.is_initialized());
    assert_eq!(w.get_config().seed, 99);
    assert_eq!(w.get_config().world_size, (10, 20));
    assert_eq!(w.get_pending_world_init(), (true, 99, (10, 20)));
}

#[test]
fn init_error_messages() {
    assert_eq!(WorldInitError::TerrainError("no mask".to_string()).message(), "Terrain error: no mask");
    assert_eq!(WorldInitError::from("x".to_string()).message(), "Other error: x");
    assert_eq!(SystemInitError::BridgeError("b".to_string()).message(), "Bridge error: b");
    assert_eq!(SystemInitError::ConfigError("c".to_string()).message(), "Configuration error: c");
    let o = InitializationOptions::default();
    assert!(o.config_path.is_none() && o.terrain_enabled && !o.debug_mode);
    assert_eq!(o.network_mode, NetworkMode::Standalone);
}

#[test]
fn timing_breakdown() {
    let mut t = TerrainInitializationTiming::new(1000);
    assert_eq!(t.update_state(TerrainInitializationState::ConfigLoaded, 1100), TimingReport::ConfigLoaded(100));
    assert_eq!(t.update_state(TerrainInitializationState::BiomeInitialized, 1400), TimingReport::BiomeInitialized(300));
    assert_eq!(t.update_state(TerrainInitializationState::ChunkManagerInitialized, 1900), TimingReport::ChunkManagerInitialized(500));
    match t.update_state(TerrainInitializationState::Ready, 2000) {
        TimingReport::Ready(total, Some(b)) => {
            assert_eq!(total, 1000);
            assert_eq!((b.config_ms, b.config_pct), (100, 10));
            assert_eq!((b.biome_ms, b.biome_pct), (300, 30));
            assert_eq!((b.chunk_ms, b.chunk_pct), (500, 50));
            assert_eq!((b.final_ms, b.final_pct), (100, 10));
        },
        _ => panic!("expected a breakdown"),
    }
    assert_eq!(t.ready_time, Some(2000));
    let mut u = TerrainInitializationTiming::new(50);
    assert_eq!(u.update_state(TerrainInitializationState::BiomeInitialized, 80), TimingReport::BiomeInitialized(30));
    assert_eq!(u.update_state(TerrainInitializationState::Ready, 90), TimingReport::Ready(40, None));
    assert_eq!(u.update_state(TerrainInitializationState::Uninitialized, 95), TimingReport::Nothing);
}

#[test]
fn thread_pool_sizes_and_contexts() {
    assert_eq!(pool_size(6), 6);
    assert!(pool_size(0) >= 1);
    let ctx = with_thread_local_context(3, || 7u8);
    assert_eq!(ctx.len(), 3);
    assert_eq!(*ctx.get(5), 7);
}

#[test]
fn world_config_follows_game_configuration() {
    let mut c: GameConfiguration<Vec<u8>> = GameConfiguration::default(77, vec![1, 2, 3]);
    c.world_size.width = 640;
    c.world_size.height = 480;
    let w = create_world_config(&c);
    assert_eq!(w.seed, 77);
    assert_eq!(w.world_size, (640, 480));
    assert_eq!(w.generation_parameters, vec![1, 2, 3]);
}

#[test]
fn finalizing_marks_initialized_and_picks_announced_state() {
    let mut g: GameManager<u32> = GameManager::new_with_dependencies(Some(world()), false);
    assert!(!g.is_initialized());
    assert_eq!(finalize_initialization(&mut g, NetworkMode::Client), GameState::Loading);
    assert!(g.is_initialized());
    assert_eq!(g.get_state(), GameState::MainMenu);
    assert!(matches!(g.take_events()[..], [GameEvent::StateChanged(GameState::MainMenu)]));
    let mut h: GameManager<u32> = GameManager::new_with_dependencies(Some(world()), false);
    assert_eq!(finalize_initialization(&mut h, NetworkMode::Host), GameState::Running);
    assert_eq!(finalize_initialization(&mut h, NetworkMode::Standalone), GameState::Running);
}
