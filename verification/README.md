# ubat

The core of an underwater terrain and multiplayer game, verified with Verus.

`src/` is the verified library:

- `chunk_manager`, `chunk_storage`, `chunk_io` — the life cycle of terrain
  chunks around the player, the least-recently-used chunk cache (the `lru`
  crate), chunk file names and the order a region is preloaded in.
- `chunk_controller`, `chunk_handler`, `mesh_geometry` — which chunks get a
  mesh and which lose theirs, a few per frame; scene chunks loaded a few at a
  time; mesh validity and triangle indices.
- `section_map` — terrain sections read from a colour mask, biome names.
- `config`, `core_config`, `config_bridge`, `config_service` — the game
  configuration, its editor-facing properties and how start-up options shape
  it.
- `game`, `world_state`, `network`, `session`, `event_bus` — game states,
  the versioned world state and its byte form (`bincode`), network events,
  replication routed by client interest, combat range checks, and the event
  bus.
- `resources`, `terrain_collision` — texture and shader caches handing out
  handles, and per-chunk heightfield colliders.
- `error_log`, `init_timing`, `init_errors`, `thread_pool`, `assoc` — the
  error log, initialization timing, initialization errors, worker pool sizing
  and a small association map used throughout.

`app/` is ordinary Rust around the library: configuration and chunk files,
the storage thread, TCP connections, the worker pool, floating-point mesh and
colour work, process-wide instances, start-up and shutdown, and the per-frame
glue. Terrain generation itself (noise and biome blending) is supplied to the
frame glue by the engine through the `ChunkGenerator` trait.

`tests/` exercises the library on concrete values.
