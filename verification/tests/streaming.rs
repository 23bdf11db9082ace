use std::collections::HashSet;

use chunk_stream::config::StreamConfig;
use chunk_stream::controller::{evict_pass, load_pass, tick};
use chunk_stream::coords::{ChunkCoordinate, WorldPos};
use chunk_stream::registry::ChunkRegistry;

fn reference_config() -> StreamConfig {
    StreamConfig {
        tile_size: 16,
        chunk_width: 8,
        chunk_height: 8,
        window_radius: 4,
        evict_distance: 320,
        noise_seed: 0,
    }
}

fn retentive_config() -> StreamConfig {
    // Eviction distance clears the window's farthest edge:
    // 1000^2 >= 2 * (5 * 128)^2.
    StreamConfig { evict_distance: 1000, ..reference_config() }
}

#[test]
fn registry_tracks_residents() {
    let mut reg = ChunkRegistry::new();
    let a = ChunkCoordinate { x: 1, y: 2 };
    let b = ChunkCoordinate { x: -3, y: 0 };
    assert_eq!(reg.len(), 0);
    assert!(!reg.contains(a));
    reg.insert(a);
    reg.insert(b);
    assert_eq!(reg.len(), 2);
    assert!(reg.contains(a) && reg.contains(b));
    reg.remove(a);
    assert_eq!(reg.len(), 1);
    assert!(!reg.contains(a) && reg.contains(b));
    reg.remove(a);
    assert_eq!(reg.len(), 1);
    let coords = reg.coordinates();
    assert_eq!(coords, vec![b]);
}

#[test]
fn first_tick_requests_full_window() {
    let config = reference_config();
    let mut reg = ChunkRegistry::new();
    let vps = vec![WorldPos { x: 0, y: 0 }];
    let (loads, _) = tick(&mut reg, &vps, &config);
    assert_eq!(loads.len(), 64);
    let requested: HashSet<(i64, i64)> = loads.iter().map(|c| (c.x, c.y)).collect();
    assert_eq!(requested.len(), 64);
    for x in -4..4 {
        for y in -4..4 {
            assert!(requested.contains(&(x, y)), "missing chunk ({}, {})", x, y);
        }
    }
}

#[test]
fn distant_chunk_is_evicted() {
    let config = reference_config();
    let mut reg = ChunkRegistry::new();
    let far = ChunkCoordinate { x: 20, y: 0 };
    reg.insert(far);
    let vps = vec![WorldPos { x: 0, y: 0 }];
    let (_, evicts) = tick(&mut reg, &vps, &config);
    assert!(evicts.contains(&far));
    assert!(!reg.contains(far));
}

#[test]
fn near_chunk_survives_eviction_scan() {
    let config = reference_config();
    let mut reg = ChunkRegistry::new();
    let near = ChunkCoordinate { x: 0, y: 0 };
    let far = ChunkCoordinate { x: 20, y: 0 };
    reg.insert(near);
    reg.insert(far);
    let vps = vec![WorldPos { x: 0, y: 0 }];
    let gone = evict_pass(&mut reg, &vps, &config);
    assert_eq!(gone, vec![far]);
    assert!(reg.contains(near));
    assert!(!reg.contains(far));
}

#[test]
fn unmoved_viewpoint_triggers_no_work() {
    let config = retentive_config();
    assert!(config.clears_window());
    let mut reg = ChunkRegistry::new();
    let vps = vec![WorldPos { x: 0, y: 0 }];
    let (loads, evicts) = tick(&mut reg, &vps, &config);
    assert_eq!(loads.len(), 64);
    assert_eq!(evicts.len(), 0);
    let resident = reg.len();
    let (loads2, evicts2) = tick(&mut reg, &vps, &config);
    assert_eq!(loads2.len(), 0);
    assert_eq!(evicts2.len(), 0);
    assert_eq!(reg.len(), resident);
}

#[test]
fn newly_resident_chunk_is_not_thrashed() {
    let config = retentive_config();
    let mut reg = ChunkRegistry::new();
    let vps = vec![WorldPos { x: 0, y: 0 }];
    let corner = ChunkCoordinate { x: -4, y: -4 };
    let (loads, _) = tick(&mut reg, &vps, &config);
    assert!(loads.contains(&corner));
    assert!(reg.contains(corner));
    let (_, evicts2) = tick(&mut reg, &vps, &config);
    assert!(!evicts2.contains(&corner));
    assert!(reg.contains(corner));
}

#[test]
fn reference_eviction_distance_does_not_clear_window() {
    // The reference sizes (radius 4, 128-unit chunks, eviction at 320)
    // thrash: the window's far corner lies beyond the eviction distance.
    let config = reference_config();
    assert!(!config.clears_window());
}

#[test]
fn no_viewpoint_means_no_work() {
    let config = reference_config();
    let mut reg = ChunkRegistry::new();
    let far = ChunkCoordinate { x: 20, y: 0 };
    reg.insert(far);
    let vps: Vec<WorldPos> = Vec::new();
    let (loads, evicts) = tick(&mut reg, &vps, &config);
    assert!(loads.is_empty());
    assert!(evicts.is_empty());
    assert!(reg.contains(far));
}

#[test]
fn overlapping_windows_request_each_chunk_once() {
    let config = reference_config();
    let mut reg = ChunkRegistry::new();
    let vps = vec![WorldPos { x: 0, y: 0 }, WorldPos { x: 129, y: 0 }];
    let loads = load_pass(&mut reg, &vps, &config);
    // Second viewpoint sits one chunk to the right: the union spans nine
    // columns by eight rows.
    assert_eq!(loads.len(), 72);
    let requested: HashSet<(i64, i64)> = loads.iter().map(|c| (c.x, c.y)).collect();
    assert_eq!(requested.len(), 72);
    for x in -4..5 {
        for y in -4..4 {
            assert!(requested.contains(&(x, y)), "missing chunk ({}, {})", x, y);
        }
    }
}

#[test]
fn already_resident_chunks_are_not_requested_again() {
    let config = reference_config();
    let mut reg = ChunkRegistry::new();
    reg.insert(ChunkCoordinate { x: 0, y: 0 });
    reg.insert(ChunkCoordinate { x: -1, y: 3 });
    let vps = vec![WorldPos { x: 0, y: 0 }];
    let loads = load_pass(&mut reg, &vps, &config);
    assert_eq!(loads.len(), 62);
    for c in &loads {
        assert!(!(c.x == 0 && c.y == 0));
        assert!(!(c.x == -1 && c.y == 3));
    }
}

#[test]
fn zero_radius_window_loads_nothing() {
    let config = StreamConfig { window_radius: 0, ..reference_config() };
    let mut reg = ChunkRegistry::new();
    let vps = vec![WorldPos { x: 0, y: 0 }];
    let loads = load_pass(&mut reg, &vps, &config);
    assert!(loads.is_empty());
    assert_eq!(reg.len(), 0);
}
