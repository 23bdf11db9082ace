use vstd::prelude::*;

verus! {

/// Number of ordinary tile kinds in the palette; a cosmetic draw picks one of them.
pub const PALETTE_SIZE: u32 = 6;

/// The distinguished tile kind used where the noise field crosses the rare gate.
pub const RARE_TILE_TYPE: u32 = 100;

/// Noise samples are fixed-point values in thousandths: `0` stands for `0.0`
/// and `SAMPLE_SCALE` for `1.0`.
pub const SAMPLE_SCALE: u16 = 1000;

/// A tile is rare exactly when its noise sample reaches this threshold
/// (eight tenths of the sample scale).
pub const RARE_GATE_THRESHOLD: u16 = 800;

/// Fixed configuration of the streaming core: tile and chunk geometry, the
/// load window radius (in chunks), the eviction distance (in world units)
/// and the seed of the noise field.
pub struct StreamConfig {
    /// Edge length of one square tile, in world units.
    pub tile_size: u16,
    /// Number of tiles along a chunk's x axis.
    pub chunk_width: u16,
    /// Number of tiles along a chunk's y axis.
    pub chunk_height: u16,
    /// Half-width of the square load window, in chunks.
    pub window_radius: u16,
    /// A resident chunk farther than this from every viewpoint is evicted.
    pub evict_distance: u32,
    /// Seed of the noise field; kept here so collaborators sample consistently.
    pub noise_seed: u32,
}

impl StreamConfig {
    /// A configuration is well-formed when tiles and chunks have positive extent.
    pub open spec fn wf(self) -> bool {
        &&& self.tile_size >= 1
        &&& self.chunk_width >= 1
        &&& self.chunk_height >= 1
    }

    /// World-unit width of one chunk.
    pub open spec fn cell_width(self) -> int {
        self.chunk_width * self.tile_size
    }

    /// World-unit height of one chunk.
    pub open spec fn cell_height(self) -> int {
        self.chunk_height * self.tile_size
    }

    /// Number of tiles in one chunk.
    pub open spec fn chunk_area(self) -> int {
        self.chunk_width * self.chunk_height
    }

    pub fn is_wellformed(&self) -> (r: bool)
        ensures
            r == self.wf(),
    {
        self.tile_size >= 1 && self.chunk_width >= 1 && self.chunk_height >= 1
    }

    pub fn cell_width_units(&self) -> (r: i64)
        ensures
            r == self.cell_width(),
    {
        proof {
            assert((self.chunk_width as int) * (self.tile_size as int) < 0x1_0000_0000int)
                by (nonlinear_arith)
                requires
                    self.chunk_width < 0x1_0000,
                    self.tile_size < 0x1_0000,
            ;
        }
        (self.chunk_width as i64) * (self.tile_size as i64)
    }

    pub fn cell_height_units(&self) -> (r: i64)
        ensures
            r == self.cell_height(),
    {
        proof {
            assert((self.chunk_height as int) * (self.tile_size as int) < 0x1_0000_0000int)
                by (nonlinear_arith)
                requires
                    self.chunk_height < 0x1_0000,
                    self.tile_size < 0x1_0000,
            ;
        }
        (self.chunk_height as i64) * (self.tile_size as i64)
    }

    pub fn tile_count(&self) -> (n: usize)
        ensures
            n == self.chunk_area(),
    {
        proof {
            assert((self.chunk_width as int) * (self.chunk_height as int) < 0x1_0000_0000int)
                by (nonlinear_arith)
                requires
                    self.chunk_width < 0x1_0000,
                    self.chunk_height < 0x1_0000,
            ;
        }
        (self.chunk_width as usize) * (self.chunk_height as usize)
    }
}

} // verus!
