use chunk_stream::config::{StreamConfig, PALETTE_SIZE, RARE_TILE_TYPE};
use chunk_stream::coords::ChunkCoordinate;
use chunk_stream::rng::TileRng;
use chunk_stream::tiles::generate;

fn reference_config() -> StreamConfig {
    StreamConfig {
        tile_size: 16,
        chunk_width: 8,
        chunk_height: 8,
        window_radius: 4,
        evict_distance: 320,
        noise_seed: 0,
    }
}

#[test]
fn generate_covers_grid_exactly_once() {
    let config = reference_config();
    let samples = vec![0u16; 64];
    let mut rng = TileRng::new(1);
    let chunk = generate(ChunkCoordinate { x: 0, y: 0 }, &config, &samples, &mut rng);
    assert_eq!(chunk.tiles.len(), 64);
    let mut seen = [[false; 8]; 8];
    for t in &chunk.tiles {
        assert!(t.tx < 8 && t.ty < 8);
        assert!(!seen[t.tx as usize][t.ty as usize], "duplicate tile at ({}, {})", t.tx, t.ty);
        seen[t.tx as usize][t.ty as usize] = true;
    }
    for col in &seen {
        for &covered in col {
            assert!(covered);
        }
    }
}

#[test]
fn generate_derives_origin_from_coordinate() {
    let config = reference_config();
    let samples = vec![500u16; 64];
    let mut rng = TileRng::new(7);
    let chunk = generate(ChunkCoordinate { x: 3, y: -2 }, &config, &samples, &mut rng);
    assert_eq!(chunk.coord, ChunkCoordinate { x: 3, y: -2 });
    assert_eq!(chunk.origin_x, 384);
    assert_eq!(chunk.origin_y, -256);
}

#[test]
fn rare_gate_threshold() {
    let config = reference_config();
    let mut samples = vec![300u16; 64];
    samples[5] = 800;
    samples[7] = 1000;
    samples[9] = 799;
    let mut rng = TileRng::new(2);
    let chunk = generate(ChunkCoordinate { x: 0, y: 0 }, &config, &samples, &mut rng);
    for (i, t) in chunk.tiles.iter().enumerate() {
        if i == 5 || i == 7 {
            assert_eq!(t.tile_type, RARE_TILE_TYPE);
        } else {
            assert!(t.tile_type < PALETTE_SIZE, "tile {} has type {}", i, t.tile_type);
        }
    }
}

#[test]
fn rare_gate_deterministic_across_regenerations() {
    let config = reference_config();
    let mut samples = vec![100u16; 64];
    for i in 0..64 {
        if i % 5 == 0 {
            samples[i] = 900;
        }
    }
    let mut rng_a = TileRng::new(11);
    let mut rng_b = TileRng::new(9999);
    let a = generate(ChunkCoordinate { x: 4, y: 4 }, &config, &samples, &mut rng_a);
    let b = generate(ChunkCoordinate { x: 4, y: 4 }, &config, &samples, &mut rng_b);
    let rare_a: Vec<bool> = a.tiles.iter().map(|t| t.tile_type == RARE_TILE_TYPE).collect();
    let rare_b: Vec<bool> = b.tiles.iter().map(|t| t.tile_type == RARE_TILE_TYPE).collect();
    assert_eq!(rare_a, rare_b);
    for (i, rare) in rare_a.iter().enumerate() {
        assert_eq!(*rare, i % 5 == 0);
    }
}

#[test]
fn cosmetic_draws_stay_in_palette() {
    let config = reference_config();
    let samples = vec![0u16; 64];
    let mut rng = TileRng::new(3);
    for k in 0..8 {
        let chunk = generate(ChunkCoordinate { x: k, y: 0 }, &config, &samples, &mut rng);
        for t in &chunk.tiles {
            assert!(t.tile_type < PALETTE_SIZE);
        }
    }
}

#[test]
fn smallest_chunk_has_one_tile() {
    let config = StreamConfig {
        tile_size: 1,
        chunk_width: 1,
        chunk_height: 1,
        window_radius: 0,
        evict_distance: 0,
        noise_seed: 0,
    };
    let samples = vec![1000u16; 1];
    let mut rng = TileRng::new(0);
    let chunk = generate(ChunkCoordinate { x: 0, y: 0 }, &config, &samples, &mut rng);
    assert_eq!(chunk.tiles.len(), 1);
    assert_eq!(chunk.tiles[0].tile_type, RARE_TILE_TYPE);
}
