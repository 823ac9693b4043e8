use ubat::chunk_controller::ChunkController;
use ubat::chunk_handler::ChunkHandler;
use ubat::chunk_io::{get_chunk_path, preload_order, signed_decimal_string};
use ubat::chunk_manager::{ChunkManager, ChunkPosition, ChunkResult};
use ubat::chunk_storage::{ChunkCache, ChunkData};
use ubat::mesh_geometry::{generate_mesh_indices, get_clamped_height, mesh_input_valid};
use ubat::section_map::{decimal_string, get_biome_name, section_from_image, section_from_rgb, section_from_rgb6};

fn pos(x: i32, z: i32) -> ChunkPosition {
    ChunkPosition { x, z }
}

fn chunk(x: i32, z: i32, size: u32) -> ChunkData {
    let n = ((size + 1) * (size + 1)) as usize;
    ChunkData {
        position: (x, z),
        heightmap: vec![1.5f32.to_bits(); n],
        biome_indices: vec![[1, 2, 3]; n],
        biome_blend_weights: vec![[1.0f32.to_bits(), 0, 0]; n],
    }
}

#[test]
fn render_distance_is_clamped() {
    let mut m = ChunkManager::new(32, 8);
    assert_eq!(m.get_render_distance(), 4);
    m.set_render_distance(100);
    assert_eq!(m.get_render_distance(), 32);
    m.set_render_distance(-3);
    assert_eq!(m.get_render_distance(), 1);
}

#[test]
fn update_requests_the_square_in_order_once() {
    let mut m = ChunkManager::new(32, 8);
    m.set_render_distance(1);
    let loads = m.update(10, -5, 0);
    let got: Vec<(i32, i32)> = loads.iter().map(|p| (p.x, p.z)).collect();
    assert_eq!(got, vec![(9, -6), (9, -5), (9, -4), (10, -6), (10, -5), (10, -4), (11, -6), (11, -5), (11, -4)]);
    assert_eq!(m.get_chunk_state_at(10, -5), 1);
    assert_eq!(m.get_chunk_state_at(0, 0), -1);
    assert!(m.update(10, -5, 50_000).is_empty());
    assert_eq!(m.get_chunk_count(), 9);
}

#[test]
fn loaded_chunk_becomes_ready_and_cached() {
    let mut m = ChunkManager::new(2, 8);
    m.set_render_distance(1);
    let _ = m.update(0, 0, 0);
    assert!(!m.is_chunk_ready(0, 0));
    assert!(m.handle_chunk_result(ChunkResult::Loaded(pos(0, 0), chunk(0, 0, 2)), 100).is_none());
    assert!(m.is_chunk_ready(0, 0));
    assert_eq!(m.get_chunk_state_at(0, 0), 3);
    let d = m.get_cached_chunk_data(0, 0).unwrap();
    assert_eq!(d.position, (0, 0));
    assert_eq!(d.heightmap.len(), 9);
    assert_eq!(m.get_chunk_heightmap(0, 0).len(), 9);
    assert_eq!(m.get_chunk_biomes(0, 0), vec![1; 9]);
    assert!(m.get_cached_chunk_data(1, 1).is_none());
}

#[test]
fn failed_load_turns_into_generation() {
    let mut m = ChunkManager::new(32, 8);
    assert!(m.get_chunk(3, 4));
    assert_eq!(m.handle_chunk_result(ChunkResult::LoadFailed(pos(3, 4)), 0).map(|p| (p.x, p.z)), Some((3, 4)));
    assert_eq!(m.get_chunk_state_at(3, 4), 2);
    assert!(m.handle_chunk_result(ChunkResult::GenerationFailed(pos(3, 4), "noise".to_string()), 0).is_none());
    assert_eq!(m.get_chunk_state_at(3, 4), 0);
    assert!(m.handle_chunk_result(ChunkResult::LoadFailed(pos(7, 7)), 0).is_none());
    assert_eq!(m.get_chunk_state_at(7, 7), 0);
}

#[test]
fn stale_ready_chunks_outside_the_view_are_dropped() {
    let mut m = ChunkManager::new(2, 8);
    m.set_render_distance(1);
    let _ = m.handle_chunk_result(ChunkResult::Generated(pos(50, 50), chunk(50, 50, 2)), 1_000);
    let _ = m.update(0, 0, 5_000);
    assert_eq!(m.get_chunk_state_at(50, 50), 3);
    let _ = m.update(0, 0, 11_001);
    assert_eq!(m.get_chunk_state_at(50, 50), -1);
}

#[test]
fn lru_cache_keeps_the_most_recent() {
    let mut c = ChunkCache::new(2);
    c.push((0, 0), chunk(0, 0, 1));
    c.push((1, 0), chunk(1, 0, 1));
    assert!(c.get((0, 0)).is_some());
    c.push((2, 0), chunk(2, 0, 1));
    assert_eq!(c.len(), 2);
    assert!(c.contains((0, 0)));
    assert!(!c.contains((1, 0)));
    assert_eq!(c.cached_positions(), vec![(2, 0), (0, 0)]);
    let mut z = ChunkCache::new(0);
    z.push((5, 5), chunk(5, 5, 1));
    z.push((6, 6), chunk(6, 6, 1));
    assert_eq!(z.len(), 1);
    c.clear();
    assert_eq!(c.len(), 0);
}

#[test]
fn controller_queues_ready_chunks_and_builds_them() {
    let mut m = ChunkManager::new(2, 16);
    let mut c = ChunkController::new();
    c.ready(&m, 2, 4);
    c.set_render_distance(&mut m, 1);
    assert_eq!(m.get_render_distance(), 1);
    let start = c.begin_frame(&mut m, 0);
    assert_eq!(start.loads.len(), 9);
    assert!(start.freed.is_empty());
    let _ = m.handle_chunk_result(ChunkResult::Loaded(pos(0, 0), chunk(0, 0, 2)), 10);
    let _ = m.handle_chunk_result(ChunkResult::Loaded(pos(1, 0), chunk(1, 0, 3)), 10);
    c.force_update();
    let start = c.begin_frame(&mut m, 20);
    assert!(start.loads.is_empty());
    let work = c.process_mesh_queues(&mut m);
    assert!(work.removed.is_empty());
    let built: Vec<(i32, i32)> = work.built.iter().map(|(p, _)| (p.x, p.z)).collect();
    assert_eq!(built, vec![(0, 0)]);
    let stats = c.get_stats(Some(&m));
    assert_eq!(stats.visualized_mesh_count, 1);
    assert_eq!(stats.render_distance, 1);
    assert_eq!(stats.managed_chunk_states, 9);
}

#[test]
fn controller_removes_meshes_that_leave_the_view() {
    let mut m = ChunkManager::new(2, 16);
    let mut c = ChunkController::new();
    c.ready(&m, 2, 4);
    c.set_render_distance(&mut m, 1);
    let _ = c.begin_frame(&mut m, 0);
    let _ = m.handle_chunk_result(ChunkResult::Loaded(pos(0, 0), chunk(0, 0, 2)), 10);
    c.update_visualization(&m);
    let work = c.process_mesh_queues(&mut m);
    assert_eq!(work.built.len(), 1);
    c.update_player_position(10, 10);
    assert_eq!(c.get_player_chunk_coords(), (10, 10));
    let _ = c.begin_frame(&mut m, 30);
    let work = c.process_mesh_queues(&mut m);
    let removed: Vec<(i32, i32)> = work.removed.iter().map(|p| (p.x, p.z)).collect();
    assert_eq!(removed, vec![(0, 0)]);
    assert_eq!(c.get_stats(None).visualized_mesh_count, 0);
}

#[test]
fn disabling_visualization_frees_every_mesh() {
    let mut m = ChunkManager::new(2, 16);
    let mut c = ChunkController::new();
    c.ready(&m, 2, 4);
    c.set_render_distance(&mut m, 1);
    let _ = c.begin_frame(&mut m, 0);
    let _ = m.handle_chunk_result(ChunkResult::Loaded(pos(1, 1), chunk(1, 1, 2)), 10);
    c.update_visualization(&m);
    let _ = c.process_mesh_queues(&mut m);
    let freed = c.set_visualization_enabled(false);
    assert_eq!(freed.iter().map(|p| (p.x, p.z)).collect::<Vec<_>>(), vec![(1, 1)]);
    assert!(c.set_visualization_enabled(false).is_empty());
    assert_eq!(c.get_stats(None).visualization_enabled, false);
    c.set_debug_visualization_mode(-5);
    let _ = c.set_visualization_enabled(true);
    let start = c.begin_frame(&mut m, 20);
    assert!(start.freed.is_empty());
}

#[test]
fn chunk_handler_starts_at_most_three_loads() {
    let mut h: ChunkHandler<u8, String> = ChunkHandler::new();
    for i in 0..5 {
        h.load_chunk(i, 0, i as u8);
    }
    h.load_chunk(0, 0, 99);
    assert_eq!(h.get_pending_load_count(), 5);
    assert_eq!(h.get_loaded_chunk_count(), 5);
    let started = h.process_pending_loads();
    assert_eq!(started.iter().map(|p| (p.x, p.z)).collect::<Vec<_>>(), vec![(0, 0), (1, 0), (2, 0)]);
    assert_eq!(h.get_pending_load_count(), 2);
    assert_eq!(*h.chunk_color(0, 0).unwrap(), 0);
    assert!(h.start_chunk_load(0, 0, "node0".to_string()));
    assert_eq!(h.get_chunk_at_position(0, 0).map(|s| s.as_str()), Some("node0"));
    assert!(!h.start_chunk_load(9, 9, "ghost".to_string()));
    assert_eq!(h.unload_chunk(0, 0), Some("node0".to_string()));
    assert_eq!(h.unload_chunk(3, 0), None);
    assert_eq!(h.get_pending_load_count(), 1);
    assert_eq!(h.get_loaded_chunk_count(), 3);
}

#[test]
fn mesh_indices_of_a_one_quad_grid() {
    assert_eq!(generate_mesh_indices(1), vec![0, 1, 2, 1, 3, 2]);
    let idx = generate_mesh_indices(2);
    assert_eq!(idx.len(), 24);
    assert_eq!(&idx[6..12], &[1, 2, 4, 2, 5, 4]);
    assert!(idx.iter().all(|&i| (0..9).contains(&i)));
    assert!(generate_mesh_indices(0).is_empty());
}

#[test]
fn mesh_input_needs_one_sample_per_vertex() {
    assert!(mesh_input_valid(2, 9, 9, 9));
    assert!(!mesh_input_valid(2, 9, 8, 9));
    assert!(!mesh_input_valid(0, 1, 1, 1));
}

#[test]
fn clamped_height_stays_inside() {
    let h: Vec<u32> = (0..9).collect();
    assert_eq!(get_clamped_height(-5, -5, &h, 3), 0);
    assert_eq!(get_clamped_height(10, 10, &h, 3), 8);
    assert_eq!(get_clamped_height(1, 2, &h, 3), 7);
    assert_eq!(get_clamped_height(1, 1, &h[..2].to_vec(), 3), 0);
}

#[test]
fn section_colours() {
    assert_eq!(section_from_rgb(255, 0, 0), 1);
    assert_eq!(section_from_rgb(0, 255, 0), 2);
    assert_eq!(section_from_rgb(0, 0, 255), 3);
    assert_eq!(section_from_rgb(10, 20, 25), 0);
    assert_eq!(section_from_rgb(200, 200, 10), 1);
    assert_eq!(section_from_rgb(100, 150, 120), 2);
    assert_eq!(section_from_rgb6(200, 200, 10), 4);
    assert_eq!(section_from_rgb6(200, 10, 200), 5);
    assert_eq!(section_from_rgb6(10, 200, 200), 6);
    assert_eq!(section_from_rgb(179, 76, 76), 1);
    assert_eq!(section_from_rgb(178, 76, 76), 1);
    assert_eq!(section_from_rgb(26, 0, 0), 1);
}

#[test]
fn section_from_a_mask_image() {
    let img = vec![255, 0, 0, 255, 0, 255, 0, 255, 0, 0, 255, 255, 0, 0, 0, 255];
    assert_eq!(section_from_image(&img, 2, 2, 0, 0), Some(1));
    assert_eq!(section_from_image(&img, 2, 2, 5, 0), Some(2));
    assert_eq!(section_from_image(&img, 2, 2, -3, 1), Some(3));
    assert_eq!(section_from_image(&img, 2, 2, 1, 1), Some(0));
    assert_eq!(section_from_image(&vec![], 2, 2, 0, 0), None);
    assert_eq!(section_from_image(&img[..6].to_vec(), 2, 2, 1, 0), None);
}

#[test]
fn biome_names() {
    assert_eq!(get_biome_name(0), "Unknown");
    assert_eq!(get_biome_name(3), "Rock");
    assert_eq!(get_biome_name(5), "Lavarock");
    assert_eq!(get_biome_name(42), "Biome 42");
    assert_eq!(get_biome_name(255), "Biome 255");
    assert_eq!(decimal_string(7), "7");
}

#[test]
fn chunk_paths() {
    assert_eq!(get_chunk_path("saves/world", pos(3, -12)), "saves/world/chunk_3_-12.json");
    assert_eq!(signed_decimal_string(i32::MIN), "-2147483648");
    assert_eq!(signed_decimal_string(0), "0");
}

#[test]
fn preload_goes_outwards_from_the_centre() {
    let order: Vec<(i32, i32)> = preload_order(pos(5, 5), 1).iter().map(|p| (p.x, p.z)).collect();
    assert_eq!(order, vec![(5, 5), (4, 5), (5, 4), (5, 6), (6, 5), (4, 4), (4, 6), (6, 4), (6, 6)]);
    assert!(preload_order(pos(0, 0), -1).is_empty());
}

#[test]
fn visualization_update_settles() {
    let mut m = ChunkManager::new(2, 16);
    let mut c = ChunkController::new();
    c.ready(&m, 2, 1);
    c.set_render_distance(&mut m, 1);
    let _ = c.begin_frame(&mut m, 0);
    let _ = m.handle_chunk_result(ChunkResult::Loaded(pos(0, 0), chunk(0, 0, 2)), 10);
    let _ = m.handle_chunk_result(ChunkResult::Loaded(pos(0, 1), chunk(0, 1, 2)), 10);
    c.update_visualization(&m);
    c.update_visualization(&m);
    let first: Vec<(i32, i32)> = c.process_mesh_queues(&mut m).built.iter().map(|(p, _)| (p.x, p.z)).collect();
    let second: Vec<(i32, i32)> = c.process_mesh_queues(&mut m).built.iter().map(|(p, _)| (p.x, p.z)).collect();
    assert_eq!(first, vec![(0, 0)]);
    assert_eq!(second, vec![(0, 1)]);
    assert!(c.process_mesh_queues(&mut m).built.is_empty());
}
