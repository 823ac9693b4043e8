//! Verified core logic of the ubat terrain and session library.

pub mod assoc;
pub mod chunk_controller;
pub mod chunk_handler;
pub mod chunk_io;
pub mod chunk_manager;
pub mod chunk_storage;
pub mod config;
pub mod config_bridge;
pub mod config_service;
pub mod core_config;
pub mod error_log;
pub mod event_bus;
pub mod game;
pub mod init_errors;
pub mod init_timing;
pub mod mesh_geometry;
pub mod network;
pub mod resources;
pub mod section_map;
pub mod session;
pub mod terrain_collision;
pub mod thread_pool;
pub mod world_state;
