use vstd::prelude::*;

use vstd::arithmetic::div_mod::{
    lemma_fundamental_div_mod, lemma_fundamental_div_mod_converse_div,
    lemma_fundamental_div_mod_converse_mod,
};

use crate::config::{StreamConfig, PALETTE_SIZE, RARE_GATE_THRESHOLD, RARE_TILE_TYPE, SAMPLE_SCALE};
use crate::coords::{
    chunk_to_world_origin, coord_in_range, origin_of_x, origin_of_y, ChunkCoordinate,
};
use crate::rng::TileRng;

verus! {

/// One terrain tile: its local position inside the chunk grid and the index
/// of its tile type.
#[derive(Clone, Copy, PartialEq, Eq, Structural, Debug)]
pub struct TileSample {
    /// Local column within the chunk, `0 <= tx < chunk_width`.
    pub tx: u16,
    /// Local row within the chunk, `0 <= ty < chunk_height`.
    pub ty: u16,
    /// Palette index, or `RARE_TILE_TYPE` where the noise gate fired.
    pub tile_type: u32,
}

/// A generated chunk: its coordinate, its world-space origin (derived
/// deterministically from the coordinate) and its immutable tile grid.
/// Collaborators build their own rendering representation from it.
pub struct Chunk {
    pub coord: ChunkCoordinate,
    pub origin_x: i64,
    pub origin_y: i64,
    pub tiles: Vec<TileSample>,
}

/// The tile grid enumerates local positions column by column: the tile at
/// index `i` sits at local position `(i / chunk_height, i % chunk_height)`.
pub open spec fn tiles_in_grid_order(tiles: Seq<TileSample>, config: StreamConfig) -> bool {
    &&& tiles.len() == config.chunk_area()
    &&& forall|i: int|
        0 <= i < tiles.len() ==> (#[trigger] tiles[i]).tx == i / (config.chunk_height as int)
            && tiles[i].ty == i % (config.chunk_height as int)
}

/// Each tile obeys the rare gate of its noise sample: at or above the
/// threshold the tile is the distinguished rare type, below it the tile is
/// one of the ordinary palette types.
pub open spec fn tiles_respect_gate(tiles: Seq<TileSample>, samples: Seq<u16>) -> bool {
    &&& tiles.len() == samples.len()
    &&& forall|i: int|
        0 <= i < tiles.len() ==> {
            &&& (samples[i] >= RARE_GATE_THRESHOLD ==> (#[trigger] tiles[i]).tile_type
                == RARE_TILE_TYPE)
            &&& (samples[i] < RARE_GATE_THRESHOLD ==> tiles[i].tile_type < PALETTE_SIZE)
        }
}

/// Some tile of `tiles` covers local position `(tx, ty)`.
pub open spec fn covers(tiles: Seq<TileSample>, tx: int, ty: int) -> bool {
    exists|i: int| 0 <= i < tiles.len() && (#[trigger] tiles[i]).tx == tx && tiles[i].ty == ty
}

/// Produces the chunk at `coord`: one tile per local grid position, sampled
/// from the caller-supplied noise grid (`samples[i]` belongs to the tile at
/// index `i`, in grid order, as fixed-point values in `0..=SAMPLE_SCALE`).
/// The noise alone decides rarity; the cosmetic draw picks the palette type
/// of ordinary tiles and never influences which tiles are rare.
pub fn generate(
    coord: ChunkCoordinate,
    config: &StreamConfig,
    samples: &Vec<u16>,
    rng: &mut TileRng,
) -> (chunk: Chunk)
    requires
        config.wf(),
        coord_in_range(coord, *config),
        samples@.len() == config.chunk_area(),
        forall|i: int| 0 <= i < samples@.len() ==> samples@[i] <= SAMPLE_SCALE,
    ensures
        chunk.coord == coord,
        chunk.origin_x == origin_of_x(coord.x as int, *config),
        chunk.origin_y == origin_of_y(coord.y as int, *config),
        tiles_in_grid_order(chunk.tiles@, *config),
        tiles_respect_gate(chunk.tiles@, samples@),
{
    let w = config.chunk_width;
    let h = config.chunk_height;
    let origin = chunk_to_world_origin(coord, config);
    let mut tiles: Vec<TileSample> = Vec::new();
    let mut x: u16 = 0;
    while x < w
        invariant
            x <= w,
            w == config.chunk_width,
            h == config.chunk_height,
            config.wf(),
            samples@.len() == config.chunk_area(),
            tiles@.len() == x as int * h as int,
            forall|i: int|
                0 <= i < tiles@.len() ==> (#[trigger] tiles@[i]).tx == i / (h as int)
                    && tiles@[i].ty == i % (h as int),
            forall|i: int|
                0 <= i < tiles@.len() ==> {
                    &&& (samples@[i] >= RARE_GATE_THRESHOLD ==> (#[trigger] tiles@[i]).tile_type
                        == RARE_TILE_TYPE)
                    &&& (samples@[i] < RARE_GATE_THRESHOLD ==> tiles@[i].tile_type < PALETTE_SIZE)
                },
        decreases w - x,
    {
        let mut y: u16 = 0;
        proof {
            assert(x as int * h as int >= 0) by (nonlinear_arith)
                requires
                    x >= 0,
                    h >= 0,
            ;
        }
        while y < h
            invariant
                y <= h,
                x < w,
                w == config.chunk_width,
                h == config.chunk_height,
                config.wf(),
                samples@.len() == config.chunk_area(),
                tiles@.len() == x as int * h as int + y as int,
                forall|i: int|
                    0 <= i < tiles@.len() ==> (#[trigger] tiles@[i]).tx == i / (h as int)
                        && tiles@[i].ty == i % (h as int),
                forall|i: int|
                    0 <= i < tiles@.len() ==> {
                        &&& (samples@[i] >= RARE_GATE_THRESHOLD ==> (#[trigger] tiles@[i]).tile_type
                            == RARE_TILE_TYPE)
                        &&& (samples@[i] < RARE_GATE_THRESHOLD ==> tiles@[i].tile_type
                            < PALETTE_SIZE)
                    },
            decreases h - y,
        {
            proof {
                assert((x as int * h as int + y as int) < config.chunk_area()) by (nonlinear_arith)
                    requires
                        0 <= x < w,
                        0 <= y < h,
                        config.chunk_area() == w as int * h as int,
                ;
            }
            let idx = tiles.len();
            let sample = samples[idx];
            let tile_type = if sample < RARE_GATE_THRESHOLD {
                rng.draw_below(PALETTE_SIZE)
            } else {
                RARE_TILE_TYPE
            };
            tiles.push(TileSample { tx: x, ty: y, tile_type });
            proof {
                lemma_fundamental_div_mod_converse_div(idx as int, h as int, x as int, y as int);
                lemma_fundamental_div_mod_converse_mod(idx as int, h as int, x as int, y as int);
            }
            y += 1;
        }
        x += 1;
        proof {
            assert(x as int * h as int == (x - 1) as int * h as int + h as int)
                by (nonlinear_arith);
        }
    }
    proof {
        assert(tiles@.len() == config.chunk_area()) by (nonlinear_arith)
            requires
                tiles@.len() == w as int * h as int,
                config.chunk_area() == config.chunk_width as int * config.chunk_height as int,
                w == config.chunk_width,
                h == config.chunk_height,
        ;
    }
    Chunk { coord, origin_x: origin.0, origin_y: origin.1, tiles }
}

/// A grid in generation order covers every local position exactly once:
/// all tile positions lie inside the grid, no two tiles share a position,
/// and every position is covered.
pub proof fn lemma_grid_covered_exactly_once(tiles: Seq<TileSample>, config: StreamConfig)
    requires
        config.wf(),
        tiles_in_grid_order(tiles, config),
    ensures
        tiles.len() == config.chunk_area(),
        forall|i: int|
            0 <= i < tiles.len() ==> (#[trigger] tiles[i]).tx < config.chunk_width
                && tiles[i].ty < config.chunk_height,
        forall|i: int, j: int|
            0 <= i < tiles.len() && 0 <= j < tiles.len() && i != j ==> !((#[trigger] tiles[i]).tx
                == (#[trigger] tiles[j]).tx && tiles[i].ty == tiles[j].ty),
        forall|tx: int, ty: int|
            0 <= tx < config.chunk_width && 0 <= ty < config.chunk_height ==> #[trigger] covers(
                tiles,
                tx,
                ty,
            ),
{
    let w = config.chunk_width as int;
    let h = config.chunk_height as int;
    assert forall|i: int| 0 <= i < tiles.len() implies (#[trigger] tiles[i]).tx < w && tiles[i].ty
        < h by {
        lemma_fundamental_div_mod(i, h);
        vstd::arithmetic::div_mod::lemma_mod_bound(i, h);
        assert(i < w * h);
        assert(i / h < w) by (nonlinear_arith)
            requires
                h >= 1,
                i < w * h,
                h * (i / h) + i % h == i,
                i % h >= 0,
        ;
    }
    assert forall|i: int, j: int|
        0 <= i < tiles.len() && 0 <= j < tiles.len() && i != j implies !((#[trigger] tiles[i]).tx
        == (#[trigger] tiles[j]).tx && tiles[i].ty == tiles[j].ty) by {
        lemma_fundamental_div_mod(i, h);
        lemma_fundamental_div_mod(j, h);
    }
    assert forall|tx: int, ty: int|
        0 <= tx < config.chunk_width && 0 <= ty < config.chunk_height implies #[trigger] covers(
        tiles,
        tx,
        ty,
    ) by {
        let i = tx * h + ty;
        assert(0 <= i < w * h) by (nonlinear_arith)
            requires
                0 <= tx < w,
                0 <= ty < h,
                i == tx * h + ty,
        ;
        lemma_fundamental_div_mod_converse_div(i, h, tx, ty);
        lemma_fundamental_div_mod_converse_mod(i, h, tx, ty);
        assert(tiles[i].tx == tx && tiles[i].ty == ty);
    }
}

/// The rare gate is decided by the noise samples alone: two tile grids
/// produced from the same samples mark exactly the same tiles rare, whatever
/// their cosmetic draws returned.
pub proof fn lemma_rare_gate_deterministic(
    a: Seq<TileSample>,
    b: Seq<TileSample>,
    samples: Seq<u16>,
)
    requires
        tiles_respect_gate(a, samples),
        tiles_respect_gate(b, samples),
    ensures
        a.len() == b.len(),
        forall|i: int|
            0 <= i < a.len() ==> ((#[trigger] a[i]).tile_type == RARE_TILE_TYPE <==> b[i].tile_type
                == RARE_TILE_TYPE),
{
    assert forall|i: int| 0 <= i < a.len() implies ((#[trigger] a[i]).tile_type == RARE_TILE_TYPE
        <==> b[i].tile_type == RARE_TILE_TYPE) by {
        assert(a[i].tile_type == b[i].tile_type || (a[i].tile_type < PALETTE_SIZE
            && b[i].tile_type < PALETTE_SIZE));
    }
}

} // verus!
