use vstd::prelude::*;

use vstd::arithmetic::div_mod::{lemma_fundamental_div_mod, lemma_mod_bound};

use crate::config::StreamConfig;
use crate::coords::{
    chunk_to_world_origin, chunk_x, chunk_y, coord_in_range, coord_in_range_check, origin_of_x,
    origin_of_y, world_to_chunk, ChunkCoordinate, WorldPos, ORIGIN_BOUND,
};
use crate::registry::ChunkRegistry;

verus! {

/// Chunk `c` lies inside the square load window around viewpoint `p`: within
/// `window_radius` chunks of the viewpoint's own chunk on both axes, lower
/// bound inclusive, upper bound exclusive.
pub open spec fn in_window(c: ChunkCoordinate, p: WorldPos, config: StreamConfig) -> bool {
    &&& chunk_x(p, config) - config.window_radius <= c.x
    &&& c.x < chunk_x(p, config) + config.window_radius
    &&& chunk_y(p, config) - config.window_radius <= c.y
    &&& c.y < chunk_y(p, config) + config.window_radius
}

/// The chunks that the load windows of the active viewpoints require resident.
pub open spec fn window_union(vps: Seq<WorldPos>, config: StreamConfig) -> Set<ChunkCoordinate> {
    Set::new(
        |c: ChunkCoordinate|
            exists|k: int| 0 <= k < vps.len() && in_window(c, #[trigger] vps[k], config),
    )
}

/// Squared distance from viewpoint `p` to the world origin of chunk `c`,
/// the chunk's representative point.
pub open spec fn dist_sq(c: ChunkCoordinate, p: WorldPos, config: StreamConfig) -> int {
    let dx = p.x - origin_of_x(c.x as int, config);
    let dy = p.y - origin_of_y(c.y as int, config);
    dx * dx + dy * dy
}

/// Chunk `c` is out of range this tick: at least one viewpoint is active and
/// the chunk lies beyond the eviction distance from every one of them. With
/// no active viewpoint nothing is out of range (the tick does no work).
pub open spec fn out_of_range(c: ChunkCoordinate, vps: Seq<WorldPos>, config: StreamConfig) -> bool {
    &&& vps.len() > 0
    &&& forall|k: int|
        0 <= k < vps.len() ==> dist_sq(c, #[trigger] vps[k], config) > (
        config.evict_distance as int) * (config.evict_distance as int)
}

/// Residents after the load phase: the old residents plus every window chunk.
pub open spec fn after_load(
    s: Set<ChunkCoordinate>,
    vps: Seq<WorldPos>,
    config: StreamConfig,
) -> Set<ChunkCoordinate> {
    s.union(window_union(vps, config))
}

/// The chunks a tick newly generates: window chunks not already resident.
pub open spec fn loaded_set(
    s: Set<ChunkCoordinate>,
    vps: Seq<WorldPos>,
    config: StreamConfig,
) -> Set<ChunkCoordinate> {
    window_union(vps, config).difference(s)
}

/// The members of `s` that are out of range of every viewpoint.
pub open spec fn evicted_from(
    s: Set<ChunkCoordinate>,
    vps: Seq<WorldPos>,
    config: StreamConfig,
) -> Set<ChunkCoordinate> {
    s.filter(|c: ChunkCoordinate| out_of_range(c, vps, config))
}

/// The chunks a tick evicts: residents (after loading) out of range of every
/// viewpoint.
pub open spec fn evicted_set(
    s: Set<ChunkCoordinate>,
    vps: Seq<WorldPos>,
    config: StreamConfig,
) -> Set<ChunkCoordinate> {
    evicted_from(after_load(s, vps, config), vps, config)
}

/// Residents after a full tick: load, then evict.
pub open spec fn after_tick(
    s: Set<ChunkCoordinate>,
    vps: Seq<WorldPos>,
    config: StreamConfig,
) -> Set<ChunkCoordinate> {
    after_load(s, vps, config).difference(evicted_set(s, vps, config))
}

/// The chunk index of a 32-bit position is moderate: flooring by a positive
/// cell extent cannot move a position past these bounds.
proof fn lemma_chunk_index_bounds(p: WorldPos, config: StreamConfig)
    requires
        config.wf(),
    ensures
        -0x4_0000_0000 <= chunk_x(p, config) <= 0x4_0000_0000,
        -0x4_0000_0000 <= chunk_y(p, config) <= 0x4_0000_0000,
{
    crate::coords::lemma_cell_extent_positive(config);
    lemma_fundamental_div_mod(p.x as int, config.cell_width());
    lemma_mod_bound(p.x as int, config.cell_width());
    lemma_fundamental_div_mod(p.y as int, config.cell_height());
    lemma_mod_bound(p.y as int, config.cell_height());
    assert(-0x4_0000_0000 <= chunk_x(p, config) <= 0x4_0000_0000) by (nonlinear_arith)
        requires
            p.x as int == config.cell_width() * chunk_x(p, config) + (p.x as int) % config.cell_width(),
            0 <= (p.x as int) % config.cell_width() < config.cell_width(),
            1 <= config.cell_width() < 0x1_0000_0000,
            -0x8000_0000 <= p.x as int <= 0x8000_0000,
    ;
    assert(-0x4_0000_0000 <= chunk_y(p, config) <= 0x4_0000_0000) by (nonlinear_arith)
        requires
            p.y as int == config.cell_height() * chunk_y(p, config) + (p.y as int) % config.cell_height(),
            0 <= (p.y as int) % config.cell_height() < config.cell_height(),
            1 <= config.cell_height() < 0x1_0000_0000,
            -0x8000_0000 <= p.y as int <= 0x8000_0000,
    ;
}

/// Every chunk of a viewpoint's load window has its world origin in range:
/// windows never reach coordinates that the origin bound refuses.
pub proof fn lemma_window_coord_in_range(c: ChunkCoordinate, p: WorldPos, config: StreamConfig)
    requires
        config.wf(),
        in_window(c, p, config),
    ensures
        coord_in_range(c, config),
{
    crate::coords::lemma_cell_extent_positive(config);
    lemma_fundamental_div_mod(p.x as int, config.cell_width());
    lemma_mod_bound(p.x as int, config.cell_width());
    lemma_fundamental_div_mod(p.y as int, config.cell_height());
    lemma_mod_bound(p.y as int, config.cell_height());
    assert(-(ORIGIN_BOUND as int) <= c.x as int * config.cell_width() <= ORIGIN_BOUND as int)
        by (nonlinear_arith)
        requires
            p.x as int == config.cell_width() * chunk_x(p, config) + (p.x as int) % config.cell_width(),
            0 <= (p.x as int) % config.cell_width() < config.cell_width(),
            1 <= config.cell_width() < 0x1_0000_0000,
            -0x8000_0000 <= p.x as int <= 0x8000_0000,
            chunk_x(p, config) - config.window_radius <= c.x as int <= chunk_x(p, config)
                + config.window_radius,
            config.window_radius <= 0x1_0000,
            ORIGIN_BOUND == 0x4000_0000_0000_0000i64,
    ;
    assert(-(ORIGIN_BOUND as int) <= c.y as int * config.cell_height() <= ORIGIN_BOUND as int)
        by (nonlinear_arith)
        requires
            p.y as int == config.cell_height() * chunk_y(p, config) + (p.y as int) % config.cell_height(),
            0 <= (p.y as int) % config.cell_height() < config.cell_height(),
            1 <= config.cell_height() < 0x1_0000_0000,
            -0x8000_0000 <= p.y as int <= 0x8000_0000,
            chunk_y(p, config) - config.window_radius <= c.y as int <= chunk_y(p, config)
                + config.window_radius,
            config.window_radius <= 0x1_0000,
            ORIGIN_BOUND == 0x4000_0000_0000_0000i64,
    ;
}

/// Whether `c` lies beyond the eviction distance from every active viewpoint,
/// by comparing squared distances in wide integers.
fn is_out_of_range(c: ChunkCoordinate, vps: &Vec<WorldPos>, config: &StreamConfig) -> (r: bool)
    requires
        config.wf(),
        coord_in_range(c, *config),
    ensures
        r == out_of_range(c, vps@, *config),
{
    let n = vps.len();
    if n == 0 {
        return false;
    }
    let origin = chunk_to_world_origin(c, config);
    let ox = origin.0 as i128;
    let oy = origin.1 as i128;
    let ed = config.evict_distance as i128;
    proof {
        lemma_square_below_bound(ed as int, 0x1_0000_0000);
    }
    let e2 = ed * ed;
    let mut k: usize = 0;
    while k < n
        invariant
            k <= n,
            n == vps@.len(),
            config.wf(),
            ox == origin_of_x(c.x as int, *config),
            oy == origin_of_y(c.y as int, *config),
            -(ORIGIN_BOUND as int) <= ox <= ORIGIN_BOUND as int,
            -(ORIGIN_BOUND as int) <= oy <= ORIGIN_BOUND as int,
            e2 == (config.evict_distance as int) * (config.evict_distance as int),
            forall|j: int| 0 <= j < k ==> dist_sq(c, #[trigger] vps@[j], *config) > e2,
        decreases n - k,
    {
        let p = vps[k];
        let dx = (p.x as i128) - ox;
        let dy = (p.y as i128) - oy;
        proof {
            lemma_square_below_bound(dx as int, 0x4000_0000_8000_0000);
            lemma_square_below_bound(dy as int, 0x4000_0000_8000_0000);
        }
        let d2 = dx * dx + dy * dy;
        if d2 <= e2 {
            proof {
                assert(dist_sq(c, vps@[k as int], *config) <= e2);
            }
            return false;
        }
        k += 1;
    }
    true
}

/// A value within `bound` of zero has a square at most `bound * bound`.
proof fn lemma_square_below_bound(a: int, bound: int)
    requires
        -bound <= a <= bound,
    ensures
        0 <= a * a <= bound * bound,
{
    assert(0 <= a * a <= bound * bound) by (nonlinear_arith)
        requires
            -bound <= a <= bound,
    ;
}

/// The chunks required by the load windows of the first `n` viewpoints.
spec fn window_union_prefix(vps: Seq<WorldPos>, n: int, config: StreamConfig) -> Set<
    ChunkCoordinate,
> {
    Set::new(
        |c: ChunkCoordinate|
            exists|k: int| 0 <= k < n && k < vps.len() && in_window(c, #[trigger] vps[k], config),
    )
}

/// The load window of a single viewpoint as a set.
spec fn window_set(p: WorldPos, config: StreamConfig) -> Set<ChunkCoordinate> {
    Set::new(|c: ChunkCoordinate| in_window(c, p, config))
}

/// The part of `p`'s window already enumerated: all of the first `rows`
/// rows, plus the first `cols` chunks of row `rows` (rows and columns
/// counted from the window's lower corner).
spec fn window_prefix(p: WorldPos, config: StreamConfig, rows: int, cols: int) -> Set<
    ChunkCoordinate,
> {
    Set::new(
        |c: ChunkCoordinate|
            in_window(c, p, config) && {
                let row = c.y - (chunk_y(p, config) - config.window_radius);
                let col = c.x - (chunk_x(p, config) - config.window_radius);
                row < rows || (row == rows && col < cols)
            },
    )
}

/// Enumerates the load window of one viewpoint; every window chunk that is
/// not yet resident is inserted into the registry (before any generation is
/// requested) and appended to `newly`.
fn load_window(
    reg: &mut ChunkRegistry,
    newly: &mut Vec<ChunkCoordinate>,
    p: WorldPos,
    config: &StreamConfig,
)
    requires
        config.wf(),
        old(reg).wf(),
        old(newly)@.no_duplicates(),
        old(newly)@.to_set().subset_of(old(reg)@),
        forall|t: int|
            0 <= t < old(newly)@.len() ==> coord_in_range(#[trigger] old(newly)@[t], *config),
    ensures
        final(reg).wf(),
        final(reg)@ == old(reg)@.union(window_set(p, *config)),
        final(newly)@.to_set() == old(newly)@.to_set().union(
            window_set(p, *config).difference(old(reg)@),
        ),
        final(newly)@.no_duplicates(),
        final(newly)@.to_set().subset_of(final(reg)@),
        forall|t: int|
            0 <= t < final(newly)@.len() ==> coord_in_range(#[trigger] final(newly)@[t], *config),
{
    let vc = world_to_chunk(p, config);
    proof {
        lemma_chunk_index_bounds(p, *config);
    }
    let r = config.window_radius as i64;
    let base_x = vc.x - r;
    let base_y = vc.y - r;
    let span: u32 = 2 * (config.window_radius as u32);
    let mut j: u32 = 0;
    proof {
        assert(window_prefix(p, *config, 0, 0) =~= Set::<ChunkCoordinate>::empty());
    }
    while j < span
        invariant
            j <= span,
            span == 2 * config.window_radius,
            config.wf(),
            base_x == chunk_x(p, *config) - config.window_radius,
            base_y == chunk_y(p, *config) - config.window_radius,
            -0x4_0002_0000 <= base_x <= 0x4_0002_0000,
            -0x4_0002_0000 <= base_y <= 0x4_0002_0000,
            reg.wf(),
            reg@ == old(reg)@.union(window_prefix(p, *config, j as int, 0)),
            newly@.to_set() == old(newly)@.to_set().union(
                window_prefix(p, *config, j as int, 0).difference(old(reg)@),
            ),
            newly@.no_duplicates(),
            newly@.to_set().subset_of(reg@),
            forall|t: int|
                0 <= t < newly@.len() ==> coord_in_range(#[trigger] newly@[t], *config),
        decreases span - j,
    {
        let cy = base_y + j as i64;
        let mut i: u32 = 0;
        while i < span
            invariant
                i <= span,
                j < span,
                span == 2 * config.window_radius,
                config.wf(),
                base_x == chunk_x(p, *config) - config.window_radius,
                base_y == chunk_y(p, *config) - config.window_radius,
                -0x4_0002_0000 <= base_x <= 0x4_0002_0000,
                -0x4_0002_0000 <= base_y <= 0x4_0002_0000,
                cy == base_y + j as int,
                reg.wf(),
                reg@ == old(reg)@.union(window_prefix(p, *config, j as int, i as int)),
                newly@.to_set() == old(newly)@.to_set().union(
                    window_prefix(p, *config, j as int, i as int).difference(old(reg)@),
                ),
                newly@.no_duplicates(),
                newly@.to_set().subset_of(reg@),
                forall|t: int|
                    0 <= t < newly@.len() ==> coord_in_range(#[trigger] newly@[t], *config),
            decreases span - i,
        {
            let c = ChunkCoordinate { x: base_x + i as i64, y: cy };
            proof {
                assert(in_window(c, p, *config));
                lemma_window_coord_in_range(c, p, *config);
                assert(window_prefix(p, *config, j as int, i as int + 1) =~= window_prefix(
                    p,
                    *config,
                    j as int,
                    i as int,
                ).insert(c));
            }
            if !reg.contains(c) {
                let ghost newly0 = newly@;
                reg.insert(c);
                newly.push(c);
                proof {
                    newly0.lemma_push_to_set_commute(c);
                    assert(reg@ =~= old(reg)@.union(
                        window_prefix(p, *config, j as int, i as int + 1),
                    ));
                    assert(newly@.to_set() =~= old(newly)@.to_set().union(
                        window_prefix(p, *config, j as int, i as int + 1).difference(old(reg)@),
                    ));
                    assert(newly@.no_duplicates()) by {
                        assert(!newly0.contains(c));
                        assert(forall|t: int| 0 <= t < newly0.len() ==> #[trigger] newly0[t] != c);
                    }
                    assert(newly@.to_set().subset_of(reg@));
                }
            } else {
                proof {
                    assert(reg@ =~= old(reg)@.union(
                        window_prefix(p, *config, j as int, i as int + 1),
                    ));
                    assert(newly@.to_set() =~= old(newly)@.to_set().union(
                        window_prefix(p, *config, j as int, i as int + 1).difference(old(reg)@),
                    ));
                }
            }
            i += 1;
        }
        proof {
            assert(window_prefix(p, *config, j as int, span as int) =~= window_prefix(
                p,
                *config,
                j as int + 1,
                0,
            ));
        }
        j += 1;
    }
    proof {
        assert(window_prefix(p, *config, span as int, 0) =~= window_set(p, *config));
    }
}

/// Load phase: for every active viewpoint, makes the chunks of its load
/// window resident. A coordinate is inserted into the registry before its
/// generation is requested, so overlapping windows in the same pass cannot
/// request a chunk twice. Returns the coordinates to generate, each once.
pub fn load_pass(reg: &mut ChunkRegistry, vps: &Vec<WorldPos>, config: &StreamConfig) -> (newly:
    Vec<ChunkCoordinate>)
    requires
        config.wf(),
        old(reg).wf(),
    ensures
        final(reg).wf(),
        final(reg)@ == after_load(old(reg)@, vps@, *config),
        newly@.to_set() == loaded_set(old(reg)@, vps@, *config),
        newly@.no_duplicates(),
        forall|t: int| 0 <= t < newly@.len() ==> coord_in_range(#[trigger] newly@[t], *config),
{
    let mut newly: Vec<ChunkCoordinate> = Vec::new();
    let n = vps.len();
    let mut k: usize = 0;
    proof {
        assert(window_union_prefix(vps@, 0, *config) =~= Set::<ChunkCoordinate>::empty());
        assert(newly@.to_set() =~= Set::<ChunkCoordinate>::empty());
    }
    while k < n
        invariant
            k <= n,
            n == vps@.len(),
            config.wf(),
            reg.wf(),
            reg@ == old(reg)@.union(window_union_prefix(vps@, k as int, *config)),
            newly@.to_set() == window_union_prefix(vps@, k as int, *config).difference(old(reg)@),
            newly@.no_duplicates(),
            newly@.to_set().subset_of(reg@),
            forall|t: int|
                0 <= t < newly@.len() ==> coord_in_range(#[trigger] newly@[t], *config),
        decreases n - k,
    {
        let ghost reg0 = reg@;
        let ghost newly0 = newly@;
        load_window(reg, &mut newly, vps[k], config);
        proof {
            let prefix = window_union_prefix(vps@, k as int, *config);
            let next = window_union_prefix(vps@, k as int + 1, *config);
            let w = window_set(vps@[k as int], *config);
            assert(next =~= prefix.union(w)) by {
                assert forall|c: ChunkCoordinate| next.contains(c) implies prefix.union(
                    w,
                ).contains(c) by {
                    let k2 = choose|k2: int|
                        0 <= k2 < k + 1 && k2 < vps@.len() && in_window(c, vps@[k2], *config);
                    if k2 < k {
                        assert(prefix.contains(c));
                    } else {
                        assert(in_window(c, vps@[k as int], *config));
                    }
                }
                assert forall|c: ChunkCoordinate| prefix.union(w).contains(c) implies next.contains(
                    c,
                ) by {
                    if prefix.contains(c) {
                        let k2 = choose|k2: int|
                            0 <= k2 < k && k2 < vps@.len() && in_window(c, vps@[k2], *config);
                        assert(0 <= k2 < k + 1 && in_window(c, vps@[k2], *config));
                    } else {
                        assert(in_window(c, vps@[k as int], *config));
                    }
                }
            }
            assert(reg@ =~= old(reg)@.union(next));
            assert(newly@.to_set() =~= next.difference(old(reg)@)) by {
                assert(reg0 == old(reg)@.union(prefix));
                assert(newly@.to_set() == newly0.to_set().union(w.difference(reg0)));
            }
        }
        k += 1;
    }
    proof {
        assert(window_union_prefix(vps@, n as int, *config) =~= window_union(vps@, *config));
    }
    newly
}

/// Eviction scan: walks the resident set once and removes every chunk that
/// lies beyond the eviction distance from all active viewpoints, returning
/// the removed coordinates as destroy notifications for collaborators. With
/// no active viewpoint, nothing is removed.
pub fn evict_pass(reg: &mut ChunkRegistry, vps: &Vec<WorldPos>, config: &StreamConfig) -> (gone:
    Vec<ChunkCoordinate>)
    requires
        config.wf(),
        old(reg).wf(),
        forall|c: ChunkCoordinate| old(reg)@.contains(c) ==> coord_in_range(c, *config),
    ensures
        final(reg).wf(),
        final(reg)@ == old(reg)@.difference(evicted_from(old(reg)@, vps@, *config)),
        gone@.to_set() == evicted_from(old(reg)@, vps@, *config),
        gone@.no_duplicates(),
        forall|c: ChunkCoordinate| final(reg)@.contains(c) ==> coord_in_range(c, *config),
{
    let snapshot = reg.coordinates();
    let n = snapshot.len();
    let mut gone: Vec<ChunkCoordinate> = Vec::new();
    let mut i: usize = 0;
    while i < n
        invariant
            i <= n,
            n == snapshot@.len(),
            config.wf(),
            snapshot@.no_duplicates(),
            snapshot@.to_set() == old(reg)@,
            forall|c: ChunkCoordinate| old(reg)@.contains(c) ==> coord_in_range(c, *config),
            reg.wf(),
            reg@ == old(reg)@.difference(
                evicted_from(snapshot@.take(i as int).to_set(), vps@, *config),
            ),
            gone@.to_set() == evicted_from(snapshot@.take(i as int).to_set(), vps@, *config),
            gone@.no_duplicates(),
        decreases n - i,
    {
        let c = snapshot[i];
        proof {
            assert(snapshot@.to_set().contains(c));
            assert(old(reg)@.contains(c));
            snapshot@.lemma_take_succ_push(i as int);
        }
        if is_out_of_range(c, vps, config) {
            let ghost gone0 = gone@;
            reg.remove(c);
            gone.push(c);
            proof {
                let prev = evicted_from(snapshot@.take(i as int).to_set(), vps@, *config);
                let next = evicted_from(snapshot@.take(i as int + 1).to_set(), vps@, *config);
                assert(!snapshot@.take(i as int).contains(c)) by {
                    assert forall|j: int| 0 <= j < i implies snapshot@.take(i as int)[j] != c by {
                        assert(snapshot@[j] != snapshot@[i as int]);
                    }
                }
                assert(!prev.contains(c));
                snapshot@.take(i as int).lemma_push_to_set_commute(c);
                assert(snapshot@.take(i as int + 1).to_set() =~= snapshot@.take(
                    i as int,
                ).to_set().insert(c));
                assert(next =~= prev.insert(c));
                gone0.lemma_push_to_set_commute(c);
                assert(gone@.to_set() =~= next);
                assert(gone@.no_duplicates()) by {
                    assert(!gone0.contains(c));
                    assert(forall|j: int| 0 <= j < gone0.len() ==> #[trigger] gone0[j] != c);
                }
                assert(reg@ =~= old(reg)@.difference(next));
            }
        } else {
            proof {
                let prev = evicted_from(snapshot@.take(i as int).to_set(), vps@, *config);
                let next = evicted_from(snapshot@.take(i as int + 1).to_set(), vps@, *config);
                assert(next =~= prev);
            }
        }
        i += 1;
    }
    proof {
        assert(snapshot@.take(n as int) =~= snapshot@);
        assert(snapshot@.take(n as int).to_set() =~= old(reg)@);
    }
    gone
}

/// One controller tick: the load phase makes every window chunk resident and
/// returns the coordinates to generate; the eviction scan then removes the
/// residents beyond the eviction distance of every viewpoint and returns
/// them as destroy notifications. With no active viewpoint, a tick performs
/// no work.
pub fn tick(reg: &mut ChunkRegistry, vps: &Vec<WorldPos>, config: &StreamConfig) -> (r: (
    Vec<ChunkCoordinate>,
    Vec<ChunkCoordinate>,
))
    requires
        config.wf(),
        old(reg).wf(),
        forall|c: ChunkCoordinate| old(reg)@.contains(c) ==> coord_in_range(c, *config),
    ensures
        final(reg).wf(),
        final(reg)@ == after_tick(old(reg)@, vps@, *config),
        r.0@.to_set() == loaded_set(old(reg)@, vps@, *config),
        r.0@.no_duplicates(),
        forall|t: int| 0 <= t < r.0@.len() ==> coord_in_range(#[trigger] r.0@[t], *config),
        r.1@.to_set() == evicted_set(old(reg)@, vps@, *config),
        r.1@.no_duplicates(),
        forall|c: ChunkCoordinate| final(reg)@.contains(c) ==> coord_in_range(c, *config),
{
    let loads = load_pass(reg, vps, config);
    proof {
        assert forall|c: ChunkCoordinate| reg@.contains(c) implies coord_in_range(c, *config) by {
            if !old(reg)@.contains(c) {
                let k = choose|k: int|
                    0 <= k < vps@.len() && in_window(c, #[trigger] vps@[k], *config);
                lemma_window_coord_in_range(c, vps@[k], *config);
            }
        }
    }
    let evicts = evict_pass(reg, vps, config);
    (loads, evicts)
}

/// Whether every resident chunk's world origin is in range — the condition
/// a tick relies on; callers outside the library test it before handing a
/// registry in.
pub fn residents_in_range(reg: &ChunkRegistry, config: &StreamConfig) -> (r: bool)
    requires
        config.wf(),
        reg.wf(),
    ensures
        r == forall|c: ChunkCoordinate| reg@.contains(c) ==> coord_in_range(c, *config),
{
    let snapshot = reg.coordinates();
    let n = snapshot.len();
    let mut i: usize = 0;
    while i < n
        invariant
            i <= n,
            n == snapshot@.len(),
            config.wf(),
            snapshot@.to_set() == reg@,
            forall|j: int| 0 <= j < i ==> coord_in_range(#[trigger] snapshot@[j], *config),
        decreases n - i,
    {
        if !coord_in_range_check(snapshot[i], config) {
            proof {
                assert(reg@.contains(snapshot@[i as int]));
            }
            return false;
        }
        i += 1;
    }
    proof {
        assert forall|c: ChunkCoordinate| reg@.contains(c) implies coord_in_range(c, *config) by {
            assert(snapshot@.to_set().contains(c));
            let j = choose|j: int| 0 <= j < snapshot@.len() && snapshot@[j] == c;
            assert(coord_in_range(snapshot@[j], *config));
        }
    }
    true
}

/// The squared reach of a load window: how far (squared) a window chunk's
/// origin can lie from its viewpoint, with one chunk of slack per axis.
pub open spec fn window_reach_sq(config: StreamConfig) -> int {
    let rx = (config.window_radius + 1) * config.cell_width();
    let ry = (config.window_radius + 1) * config.cell_height();
    rx * rx + ry * ry
}

/// The tunable non-thrashing condition: the eviction distance clears the
/// load window's farthest edge, so a chunk loaded for a viewpoint is not
/// evicted while that viewpoint stands still. To be re-established whenever
/// tile size, chunk size or window radius change.
pub open spec fn eviction_clears_window(config: StreamConfig) -> bool {
    (config.evict_distance as int) * (config.evict_distance as int) >= window_reach_sq(config)
}

impl StreamConfig {
    /// Runtime form of `eviction_clears_window`, for tuning checks.
    pub fn clears_window(&self) -> (r: bool)
        requires
            self.wf(),
        ensures
            r == eviction_clears_window(*self),
    {
        proof {
            crate::coords::lemma_cell_extent_positive(*self);
            assert(0 < ((self.window_radius as int) + 1) * self.cell_width()
                <= 0x2_0000_0000_0000) by (nonlinear_arith)
                requires
                    0 <= self.window_radius <= 0xFFFF,
                    1 <= self.cell_width() < 0x1_0000_0000,
            ;
            assert(0 < ((self.window_radius as int) + 1) * self.cell_height()
                <= 0x2_0000_0000_0000) by (nonlinear_arith)
                requires
                    0 <= self.window_radius <= 0xFFFF,
                    1 <= self.cell_height() < 0x1_0000_0000,
            ;
        }
        let rx = ((self.window_radius as i128) + 1) * (self.cell_width_units() as i128);
        let ry = ((self.window_radius as i128) + 1) * (self.cell_height_units() as i128);
        proof {
            lemma_square_below_bound(rx as int, 0x2_0000_0000_0000);
            lemma_square_below_bound(ry as int, 0x2_0000_0000_0000);
            lemma_square_below_bound(self.evict_distance as int, 0x1_0000_0000);
        }
        let e2 = (self.evict_distance as i128) * (self.evict_distance as i128);
        e2 >= rx * rx + ry * ry
    }
}

/// A chunk inside the load window of a viewpoint lies within the eviction
/// distance of that viewpoint whenever the eviction distance clears the
/// window's farthest edge; such a chunk is never out of range while the
/// viewpoint is active.
pub proof fn lemma_window_chunk_not_evicted(
    c: ChunkCoordinate,
    p: WorldPos,
    vps: Seq<WorldPos>,
    config: StreamConfig,
)
    requires
        config.wf(),
        eviction_clears_window(config),
        in_window(c, p, config),
        vps.contains(p),
    ensures
        !out_of_range(c, vps, config),
{
    crate::coords::lemma_cell_extent_positive(config);
    crate::coords::lemma_chunk_cell_brackets_position(p, config);
    let cw = config.cell_width();
    let ch = config.cell_height();
    let rad = config.window_radius as int;
    let vx = chunk_x(p, config);
    let vy = chunk_y(p, config);
    let dx = p.x - origin_of_x(c.x as int, config);
    let dy = p.y - origin_of_y(c.y as int, config);
    let rx = (rad + 1) * cw;
    let ry = (rad + 1) * ch;
    assert(-rx <= dx <= rx) by (nonlinear_arith)
        requires
            1 <= cw,
            0 <= rad,
            vx - rad <= c.x as int,
            (c.x as int) < vx + rad,
            vx * cw <= p.x as int,
            (p.x as int) < vx * cw + cw,
            dx == p.x - (c.x as int) * cw,
            rx == (rad + 1) * cw,
    ;
    assert(-ry <= dy <= ry) by (nonlinear_arith)
        requires
            1 <= ch,
            0 <= rad,
            vy - rad <= c.y as int,
            (c.y as int) < vy + rad,
            vy * ch <= p.y as int,
            (p.y as int) < vy * ch + ch,
            dy == p.y - (c.y as int) * ch,
            ry == (rad + 1) * ch,
    ;
    assert(dx * dx <= rx * rx) by (nonlinear_arith)
        requires
            -rx <= dx <= rx,
    ;
    assert(dy * dy <= ry * ry) by (nonlinear_arith)
        requires
            -ry <= dy <= ry,
    ;
    assert(dist_sq(c, p, config) <= window_reach_sq(config));
    let k = choose|k: int| 0 <= k < vps.len() && vps[k] == p;
    assert(dist_sq(c, vps[k], config) <= (config.evict_distance as int) * (
    config.evict_distance as int));
}

/// Non-thrashing: when the eviction distance clears the window's farthest
/// edge, a chunk that a tick makes newly resident survives that tick, is not
/// evicted by the immediately following tick with unmoved viewpoints, and is
/// still resident after it.
pub proof fn lemma_new_chunk_not_thrashed(
    s: Set<ChunkCoordinate>,
    vps: Seq<WorldPos>,
    config: StreamConfig,
    c: ChunkCoordinate,
)
    requires
        config.wf(),
        eviction_clears_window(config),
        loaded_set(s, vps, config).contains(c),
    ensures
        after_tick(s, vps, config).contains(c),
        !evicted_set(after_tick(s, vps, config), vps, config).contains(c),
        after_tick(after_tick(s, vps, config), vps, config).contains(c),
{
    let k = choose|k: int| 0 <= k < vps.len() && in_window(c, #[trigger] vps[k], config);
    assert(vps.contains(vps[k]));
    lemma_window_chunk_not_evicted(c, vps[k], vps, config);
    assert(after_load(s, vps, config).contains(c));
    assert(after_load(after_tick(s, vps, config), vps, config).contains(c));
}

/// Idempotence: a tick leaves the resident set in a state on which running
/// the controller again with the same, unmoved viewpoints loads nothing,
/// evicts nothing and changes nothing — provided the eviction distance
/// clears the load window's farthest edge.
pub proof fn lemma_tick_idempotent(s: Set<ChunkCoordinate>, vps: Seq<WorldPos>, config: StreamConfig)
    requires
        config.wf(),
        eviction_clears_window(config),
    ensures
        loaded_set(after_tick(s, vps, config), vps, config) == Set::<ChunkCoordinate>::empty(),
        evicted_set(after_tick(s, vps, config), vps, config) == Set::<ChunkCoordinate>::empty(),
        after_tick(after_tick(s, vps, config), vps, config) == after_tick(s, vps, config),
{
    let s1 = after_tick(s, vps, config);
    assert forall|c: ChunkCoordinate| window_union(vps, config).contains(c) implies s1.contains(
        c,
    ) by {
        let k = choose|k: int| 0 <= k < vps.len() && in_window(c, #[trigger] vps[k], config);
        assert(vps.contains(vps[k]));
        lemma_window_chunk_not_evicted(c, vps[k], vps, config);
        assert(after_load(s, vps, config).contains(c));
    }
    assert(loaded_set(s1, vps, config) =~= Set::<ChunkCoordinate>::empty());
    assert forall|c: ChunkCoordinate| after_load(s1, vps, config).contains(c) implies !out_of_range(
        c,
        vps,
        config,
    ) by {
        if s1.contains(c) {
            assert(after_load(s, vps, config).contains(c));
            assert(!evicted_set(s, vps, config).contains(c));
        } else {
            let k = choose|k: int| 0 <= k < vps.len() && in_window(c, #[trigger] vps[k], config);
            assert(vps.contains(vps[k]));
            lemma_window_chunk_not_evicted(c, vps[k], vps, config);
        }
    }
    assert(evicted_set(s1, vps, config) =~= Set::<ChunkCoordinate>::empty());
    assert(after_load(s1, vps, config) =~= s1);
    assert(after_tick(s1, vps, config) =~= s1);
}

} // verus!

