use ubat::chunk_manager::ChunkPosition;
use ubat::terrain_collision::TerrainCollisionSystem;
use ubat::resources::{ShaderCache, TextureManager};

#[test]
fn textures_are_cached_by_path() {
    let mut m = TextureManager::new();
    let a = m.get_texture("res://grass.png");
    let b = m.get_texture("res://rock.png");
    assert_ne!(a, b);
    assert_eq!(m.get_texture("res://grass.png"), a);
    let made = m.create_texture_from_data("noise", &[1, 2, 3, 4], 1, 1);
    assert_ne!(made, a);
    assert_ne!(made, b);
}

#[test]
fn atlas_packs_known_and_new_textures() {
    let mut m = TextureManager::new();
    let grass = m.get_texture("grass");
    let atlas = m.create_atlas(&vec!["grass".to_string(), "sand".to_string()], "ground");
    let sand = m.get_texture("sand");
    assert_ne!(sand, grass);
    assert_eq!(atlas.id, 2);
    assert_eq!(m.get_texture("grass"), grass);
}

#[test]
fn shader_variants_get_their_own_handles() {
    let mut c = ShaderCache::new();
    let v1 = c.create_shader_variant("terrain.gdshader", &vec![("FOG".to_string(), "1".to_string())]);
    let base = c.get_shader("terrain.gdshader");
    assert_eq!(base.id, 0);
    assert_eq!(v1.id, 1);
    let v2 = c.create_shader_variant("terrain.gdshader", &vec![]);
    assert_eq!(v2.id, 2);
    assert_eq!(c.get_shader("water.gdshader").id, 3);
}

#[test]
fn colliders_are_kept_per_chunk() {
    let mut t = TerrainCollisionSystem::new();
    assert!(!t.has_collider(1, 2));
    let heights: Vec<u32> = [0.0f32, 1.5, 2.0, 0.5].iter().map(|h| h.to_bits()).collect();
    t.create_terrain_collider(ChunkPosition { x: 1, z: 2 }, &heights, 2);
    assert!(t.has_collider(1, 2));
    assert!(!t.has_collider(2, 1));
}
