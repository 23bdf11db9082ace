use chunk_stream::config::StreamConfig;
use chunk_stream::coords::{
    chunk_to_world_origin, coord_in_range_check, world_to_chunk, ChunkCoordinate, WorldPos,
};

fn reference_config() -> StreamConfig {
    StreamConfig {
        tile_size: 16,
        chunk_width: 8,
        chunk_height: 8,
        window_radius: 4,
        evict_distance: 320,
        noise_seed: 0,
    }
}

#[test]
fn config_wellformedness() {
    let config = reference_config();
    assert!(config.is_wellformed());
    assert_eq!(config.cell_width_units(), 128);
    assert_eq!(config.cell_height_units(), 128);
    assert_eq!(config.tile_count(), 64);
    let degenerate = StreamConfig { tile_size: 0, ..reference_config() };
    assert!(!degenerate.is_wellformed());
}

#[test]
fn world_to_chunk_positive_positions() {
    let config = reference_config();
    let c = world_to_chunk(WorldPos { x: 0, y: 0 }, &config);
    assert_eq!((c.x, c.y), (0, 0));
    let c = world_to_chunk(WorldPos { x: 127, y: 127 }, &config);
    assert_eq!((c.x, c.y), (0, 0));
    let c = world_to_chunk(WorldPos { x: 128, y: 300 }, &config);
    assert_eq!((c.x, c.y), (1, 2));
}

#[test]
fn world_to_chunk_floors_negative_positions() {
    let config = reference_config();
    let c = world_to_chunk(WorldPos { x: -1, y: -1 }, &config);
    assert_eq!((c.x, c.y), (-1, -1));
    let c = world_to_chunk(WorldPos { x: -128, y: -128 }, &config);
    assert_eq!((c.x, c.y), (-1, -1));
    let c = world_to_chunk(WorldPos { x: -129, y: 5 }, &config);
    assert_eq!((c.x, c.y), (-2, 0));
}

#[test]
fn origin_brackets_position_both_signs() {
    let config = reference_config();
    let positions = [
        WorldPos { x: 0, y: 0 },
        WorldPos { x: 5, y: 127 },
        WorldPos { x: 128, y: 129 },
        WorldPos { x: -1, y: -128 },
        WorldPos { x: -129, y: -1000 },
        WorldPos { x: 2_000_000, y: -2_000_000 },
    ];
    for p in positions {
        let c = world_to_chunk(p, &config);
        let o = chunk_to_world_origin(c, &config);
        assert!(o.0 <= p.x as i64 && (p.x as i64) < o.0 + 128, "x axis at {:?}", p);
        assert!(o.1 <= p.y as i64 && (p.y as i64) < o.1 + 128, "y axis at {:?}", p);
    }
}

#[test]
fn chunk_origin_is_coordinate_times_cell() {
    let config = reference_config();
    let o = chunk_to_world_origin(ChunkCoordinate { x: 20, y: 0 }, &config);
    assert_eq!(o, (2560, 0));
    let o = chunk_to_world_origin(ChunkCoordinate { x: -3, y: 7 }, &config);
    assert_eq!(o, (-384, 896));
}

#[test]
fn coordinate_range_defence() {
    let config = reference_config();
    assert!(coord_in_range_check(ChunkCoordinate { x: 1 << 40, y: 0 }, &config));
    assert!(!coord_in_range_check(ChunkCoordinate { x: i64::MAX / 2, y: 0 }, &config));
    assert!(!coord_in_range_check(ChunkCoordinate { x: 0, y: i64::MIN / 2 }, &config));
}
