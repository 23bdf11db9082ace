use vstd::prelude::*;

use vstd::arithmetic::div_mod::{
    lemma_fundamental_div_mod, lemma_fundamental_div_mod_converse_div, lemma_mod_bound,
};

use crate::config::StreamConfig;

verus! {

/// Discrete coordinate of a chunk in the chunk lattice.
#[derive(Clone, Copy, PartialEq, Eq, Structural, Hash, Debug)]
pub struct ChunkCoordinate {
    pub x: i64,
    pub y: i64,
}

/// A world-space position, e.g. of a viewpoint.
#[derive(Clone, Copy, PartialEq, Eq, Structural, Hash, Debug)]
pub struct WorldPos {
    pub x: i32,
    pub y: i32,
}

/// Bound on the magnitude of a chunk's world origin. Coordinates whose
/// origin would fall outside it are refused up front (the documented
/// defence against overflow from extremely distant viewpoints).
pub const ORIGIN_BOUND: i64 = 0x4000_0000_0000_0000;

/// Chunk index along x of the chunk containing a position: floor division
/// of the position by the chunk's world-unit width.
pub open spec fn chunk_x(p: WorldPos, config: StreamConfig) -> int {
    p.x as int / config.cell_width()
}

/// Chunk index along y of the chunk containing a position.
pub open spec fn chunk_y(p: WorldPos, config: StreamConfig) -> int {
    p.y as int / config.cell_height()
}

/// World-space x of the origin of the chunk with index `cx`.
pub open spec fn origin_of_x(cx: int, config: StreamConfig) -> int {
    cx * config.cell_width()
}

/// World-space y of the origin of the chunk with index `cy`.
pub open spec fn origin_of_y(cy: int, config: StreamConfig) -> int {
    cy * config.cell_height()
}

/// A coordinate whose world origin stays within `ORIGIN_BOUND` on both axes.
pub open spec fn coord_in_range(c: ChunkCoordinate, config: StreamConfig) -> bool {
    &&& -(ORIGIN_BOUND as int) <= origin_of_x(c.x as int, config) <= ORIGIN_BOUND as int
    &&& -(ORIGIN_BOUND as int) <= origin_of_y(c.y as int, config) <= ORIGIN_BOUND as int
}

/// Division of `a` by a positive `b`, rounding towards negative infinity,
/// so that negative positions map to chunk indices consistently.
fn floor_div(a: i64, b: i64) -> (q: i64)
    requires
        1 <= b,
    ensures
        q == a as int / b as int,
{
    if a >= 0 {
        let q = (a as u64) / (b as u64);
        q as i64
    } else {
        let na: u64 = (-(a as i128)) as u64;
        let bu: u64 = b as u64;
        let qm: u64 = (na - 1) / bu + 1;
        proof {
            let n = na as int;
            let d = b as int;
            let k = (n - 1) / d;
            let r = (n - 1) % d;
            lemma_fundamental_div_mod(n - 1, d);
            lemma_mod_bound(n - 1, d);
            assert(a as int == (-(k + 1)) * d + (d - r - 1)) by (nonlinear_arith)
                requires
                    n - 1 == d * k + r,
                    n == -(a as int),
            ;
            lemma_fundamental_div_mod_converse_div(a as int, d, -(k + 1), d - r - 1);
        }
        (-(qm as i128)) as i64
    }
}

/// Maps a world position to the coordinate of the chunk containing it,
/// flooring (not truncating towards zero) on each axis.
pub fn world_to_chunk(p: WorldPos, config: &StreamConfig) -> (c: ChunkCoordinate)
    requires
        config.wf(),
    ensures
        c.x == chunk_x(p, *config),
        c.y == chunk_y(p, *config),
{
    let cw = config.cell_width_units();
    let ch = config.cell_height_units();
    proof {
        lemma_cell_extent_positive(*config);
    }
    ChunkCoordinate { x: floor_div(p.x as i64, cw), y: floor_div(p.y as i64, ch) }
}

/// Inverse of `world_to_chunk`: the world-space origin of a chunk,
/// as an `(x, y)` pair.
pub fn chunk_to_world_origin(c: ChunkCoordinate, config: &StreamConfig) -> (o: (i64, i64))
    requires
        config.wf(),
        coord_in_range(c, *config),
    ensures
        o.0 == origin_of_x(c.x as int, *config),
        o.1 == origin_of_y(c.y as int, *config),
{
    let ox = (c.x as i128) * (config.cell_width_units() as i128);
    let oy = (c.y as i128) * (config.cell_height_units() as i128);
    (ox as i64, oy as i64)
}

/// Runtime form of `coord_in_range`, for callers outside the library
/// that must reject coordinates before handing them in.
pub fn coord_in_range_check(c: ChunkCoordinate, config: &StreamConfig) -> (r: bool)
    requires
        config.wf(),
    ensures
        r == coord_in_range(c, *config),
{
    proof {
        lemma_cell_extent_positive(*config);
        lemma_i64_product_fits_i128(c.x as int, config.cell_width());
        lemma_i64_product_fits_i128(c.y as int, config.cell_height());
    }
    let ox = (c.x as i128) * (config.cell_width_units() as i128);
    let oy = (c.y as i128) * (config.cell_height_units() as i128);
    let bound = ORIGIN_BOUND as i128;
    -bound <= ox && ox <= bound && -bound <= oy && oy <= bound
}

/// The product of two values in `i64` range stays in `i128` range.
proof fn lemma_i64_product_fits_i128(a: int, b: int)
    requires
        i64::MIN <= a <= i64::MAX,
        i64::MIN <= b <= i64::MAX,
    ensures
        i128::MIN <= a * b <= i128::MAX,
{
    assert(i128::MIN <= a * b <= i128::MAX) by (nonlinear_arith)
        requires
            i64::MIN <= a <= i64::MAX,
            i64::MIN <= b <= i64::MAX,
    ;
}

/// A well-formed configuration gives every chunk a positive world extent.
pub proof fn lemma_cell_extent_positive(config: StreamConfig)
    requires
        config.wf(),
    ensures
        1 <= config.cell_width() < 0x1_0000_0000,
        1 <= config.cell_height() < 0x1_0000_0000,
{
    assert(1 <= config.cell_width() < 0x1_0000_0000 && 1 <= config.cell_height()
        < 0x1_0000_0000) by (nonlinear_arith)
        requires
            config.tile_size >= 1,
            config.chunk_width >= 1,
            config.chunk_height >= 1,
            config.cell_width() == config.chunk_width * config.tile_size,
            config.cell_height() == config.chunk_height * config.tile_size,
    ;
}

/// The chunk selected for a position brackets that position on both axes:
/// its origin lies at or below the position, and the next chunk's origin
/// lies strictly above it. This holds for negative positions as well,
/// because the mapping floors rather than truncating.
pub proof fn lemma_chunk_cell_brackets_position(p: WorldPos, config: StreamConfig)
    requires
        config.wf(),
    ensures
        origin_of_x(chunk_x(p, config), config) <= p.x as int,
        (p.x as int) < origin_of_x(chunk_x(p, config), config) + config.cell_width(),
        origin_of_y(chunk_y(p, config), config) <= p.y as int,
        (p.y as int) < origin_of_y(chunk_y(p, config), config) + config.cell_height(),
{
    lemma_cell_extent_positive(config);
    lemma_fundamental_div_mod(p.x as int, config.cell_width());
    lemma_mod_bound(p.x as int, config.cell_width());
    lemma_fundamental_div_mod(p.y as int, config.cell_height());
    lemma_mod_bound(p.y as int, config.cell_height());
    assert(chunk_x(p, config) * config.cell_width() == config.cell_width() * chunk_x(p, config))
        by (nonlinear_arith);
    assert(chunk_y(p, config) * config.cell_height() == config.cell_height() * chunk_y(p, config))
        by (nonlinear_arith);
}

} // verus!
