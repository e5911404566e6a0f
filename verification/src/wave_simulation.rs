//! The simulation engine: the grid of cells, the double-buffered step and
//! the data-parallel scheduler, and the commands external collaborators
//! drive it with.
//!
//! One step builds the next generation from an immutable snapshot of the
//! current one: every cell is rewritten from the snapshot alone, so no
//! ordering dependency exists between cells.  The scheduler splits the
//! grid into disjoint column ranges and computes them in parallel; the
//! result is the same sequence of cells for every partition count.

use crate::config::SimConfig;
use crate::fixed::{div_floor, FP_ONE};
use crate::particle::{
    flat_idx, heights_bounded, in_grid, is_perimeter, lemma_flat_idx_range, lemma_updated_wf,
    neighbor_average, particle_wf, spec_updated, type_wf, Particle, ParticleType,
};
use rayon::iter::IntoParallelRefIterator;
use rayon::iter::ParallelIterator;
use vstd::arithmetic::div_mod::{
    lemma_div_pos_is_pos, lemma_fundamental_div_mod, lemma_fundamental_div_mod_converse,
    lemma_mod_bound,
};
use vstd::prelude::*;

verus! {

/// The cell of a grid sequence at grid coordinates `(x, y)`.
pub open spec fn cell(s: Seq<Particle>, cfg: SimConfig, x: int, y: int) -> Particle {
    s[flat_idx(cfg, x, y)]
}

/// A well-formed grid buffer: one cell per grid slot, every cell within
/// the state bounds, and every cell's grid indices equal to its position
/// in the buffer.
pub open spec fn grid_wf(s: Seq<Particle>, cfg: SimConfig) -> bool {
    &&& s.len() == cfg.spec_cell_count()
    &&& forall|i: int|
        0 <= i < s.len() ==> particle_wf(cfg, #[trigger] s[i]) && s[i].index_x == i / (
        cfg.height as int) && s[i].index_y == i % (cfg.height as int)
}

/// The flat index of a cell decomposes into in-grid coordinates that map
/// back to the same index.
pub proof fn lemma_flat_decomp(cfg: SimConfig, i: int)
    requires
        cfg.wf(),
        0 <= i < cfg.spec_cell_count(),
    ensures
        in_grid(cfg, i / (cfg.height as int), i % (cfg.height as int)),
        flat_idx(cfg, i / (cfg.height as int), i % (cfg.height as int)) == i,
{
    let h = cfg.height as int;
    lemma_fundamental_div_mod(i, h);
    lemma_mod_bound(i, h);
    lemma_div_pos_is_pos(i, h);
    assert(i / h < cfg.width) by (nonlinear_arith)
        requires
            h * (i / h) + (i % h) == i,
            i < cfg.width * h,
            0 <= i % h,
            0 < h,
    ;
    assert((i / h) * h + (i % h) == h * (i / h) + (i % h)) by (nonlinear_arith);
}

/// Grid coordinates map to a flat index that decomposes back into them.
pub proof fn lemma_flat_inverse(cfg: SimConfig, x: int, y: int)
    requires
        cfg.wf(),
        in_grid(cfg, x, y),
    ensures
        0 <= flat_idx(cfg, x, y) < cfg.spec_cell_count(),
        flat_idx(cfg, x, y) / (cfg.height as int) == x,
        flat_idx(cfg, x, y) % (cfg.height as int) == y,
{
    let h = cfg.height as int;
    lemma_flat_idx_range(cfg, x, y);
    lemma_fundamental_div_mod_converse(x * h + y, h, x, y);
}

/// A well-formed grid keeps every height within the clamp.
pub proof fn lemma_grid_wf_heights(s: Seq<Particle>, cfg: SimConfig)
    requires
        grid_wf(s, cfg),
    ensures
        heights_bounded(s, cfg),
{
    assert forall|i: int| 0 <= i < s.len() implies -cfg.height_limit <= #[trigger] s[i].pos_y
        <= cfg.height_limit by {
        assert(particle_wf(cfg, s[i]));
    }
}

/// The next generation of a whole grid: every cell rewritten from the
/// snapshot by the per-cell update rule.
pub open spec fn spec_step(s: Seq<Particle>, cfg: SimConfig) -> Seq<Particle> {
    Seq::new(s.len(), |i: int| spec_updated(s, cfg, s[i]))
}

/// The next generation of the flat cell range `start..end`, read from the
/// snapshot of the whole grid.
pub open spec fn spec_step_range(s: Seq<Particle>, cfg: SimConfig, start: int, end: int) -> Seq<
    Particle,
> {
    Seq::new((end - start) as nat, |j: int| spec_updated(s, cfg, s[start + j]))
}

/// Stepping disjoint adjacent ranges and concatenating the results is the
/// same as stepping the union range: the scheduler's output does not
/// depend on how the grid is partitioned.
pub proof fn lemma_step_range_concat(s: Seq<Particle>, cfg: SimConfig, a: int, b: int, c: int)
    requires
        a <= b <= c,
    ensures
        spec_step_range(s, cfg, a, b) + spec_step_range(s, cfg, b, c) == spec_step_range(
            s,
            cfg,
            a,
            c,
        ),
{
    assert(spec_step_range(s, cfg, a, b) + spec_step_range(s, cfg, b, c) =~= spec_step_range(
        s,
        cfg,
        a,
        c,
    ));
}

/// One step keeps the grid well formed.
pub proof fn lemma_step_preserves_grid_wf(s: Seq<Particle>, cfg: SimConfig)
    requires
        cfg.wf(),
        grid_wf(s, cfg),
    ensures
        grid_wf(spec_step(s, cfg), cfg),
{
    lemma_grid_wf_heights(s, cfg);
    let s2 = spec_step(s, cfg);
    assert forall|i: int|
        0 <= i < s2.len() implies particle_wf(cfg, #[trigger] s2[i]) && s2[i].index_x == i / (
    cfg.height as int) && s2[i].index_y == i % (cfg.height as int) by {
        lemma_flat_decomp(cfg, i);
        lemma_updated_wf(s, cfg, s[i]);
    }
}

/// The engine: the live grid of the current generation together with its
/// fixed configuration.
pub struct WaveSimulation {
    /// The immutable configuration the grid was built with.
    pub config: SimConfig,
    /// The cells of the current generation, in column-major order: cell
    /// `(x, y)` lives at flat index `x * height + y`.
    pub particles: Vec<Particle>,
}

/// The cell every slot of a fresh grid holds: at rest, fluid, with its
/// world position derived from its grid position and the world spacing.
pub open spec fn spec_init_cell(cfg: SimConfig, i: int) -> Particle {
    let x = i / (cfg.height as int);
    let y = i % (cfg.height as int);
    Particle {
        pos_x: spec_world_coord(cfg, x, cfg.width as int) as i64,
        pos_y: 0,
        pos_z: spec_world_coord(cfg, y, cfg.height as int) as i64,
        vel: 0,
        acc: 0,
        index_x: x as usize,
        index_y: y as usize,
        particle_type: ParticleType::Fluid,
    }
}

/// The fixed world coordinate of grid line `v` of an axis with `dim`
/// lines: the centered index scaled to the world spacing, as a fixed-point
/// value.
pub open spec fn spec_world_coord(cfg: SimConfig, v: int, dim: int) -> int {
    (v - dim / 2) * cfg.grid_scale * (FP_ONE as int) / dim
}

/// Computes the fixed world coordinate of grid line `v` on an axis with
/// `dim` lines.
fn world_coord(config: &SimConfig, v: usize, dim: usize) -> (r: i64)
    requires
        config.wf(),
        0 < dim <= 10000,
        v < dim,
        0 <= config.grid_scale <= 1000000,
    ensures
        r == spec_world_coord(*config, v as int, dim as int),
{
    let centered: i64 = v as i64 - (dim / 2) as i64;
    proof {
        assert(-10000000000 <= centered * config.grid_scale <= 10000000000) by (nonlinear_arith)
            requires
                -10000 <= centered <= 10000,
                0 <= config.grid_scale <= 1000000,
        ;
    }
    div_floor(centered * config.grid_scale * FP_ONE, dim as i64)
}

impl WaveSimulation {
    /// A grid is well formed when its configuration is acceptable and its
    /// buffer is a well-formed grid of that configuration.
    pub open spec fn wf(self) -> bool {
        &&& self.config.wf()
        &&& grid_wf(self.particles@, self.config)
    }

    /// Builds the grid of a validated configuration: every cell at rest,
    /// fluid, with world positions derived from grid position and spacing.
    pub fn new(config: SimConfig) -> (sim: WaveSimulation)
        requires
            config.wf(),
        ensures
            sim.wf(),
            sim.config == config,
            sim.particles@.len() == config.spec_cell_count(),
            forall|i: int|
                0 <= i < sim.particles@.len() ==> sim.particles@[i] == spec_init_cell(config, i),
    {
        proof {
            assert(config.width * config.height <= 100000000) by (nonlinear_arith)
                requires
                    0 < config.width <= 10000,
                    0 < config.height <= 10000,
            ;
        }
        let total: usize = config.width * config.height;
        let mut particles: Vec<Particle> = Vec::new();
        let mut i: usize = 0;
        while i < total
            invariant
                config.wf(),
                i <= total,
                total == config.spec_cell_count(),
                particles@.len() == i,
                forall|j: int| 0 <= j < i ==> particles@[j] == spec_init_cell(config, j),
            decreases total - i,
        {
            proof {
                lemma_flat_decomp(config, i as int);
            }
            let x: usize = i / config.height;
            let y: usize = i % config.height;
            let mut p = Particle::new();
            p.pos_x = world_coord(&config, x, config.width);
            p.pos_z = world_coord(&config, y, config.height);
            p.index_x = x;
            p.index_y = y;
            particles.push(p);
            i = i + 1;
        }
        proof {
            assert forall|j: int|
                0 <= j < particles@.len() implies particle_wf(config, #[trigger] particles@[j])
                && particles@[j].index_x == j / (config.height as int) && particles@[j].index_y
                == j % (config.height as int) by {
                lemma_flat_decomp(config, j);
                assert(particles@[j] == spec_init_cell(config, j));
            }
        }
        WaveSimulation { config, particles }
    }

    /// Advances the whole grid by one generation, one partition per grid
    /// column.
    pub fn update(&mut self)
        requires
            old(self).wf(),
        ensures
            final(self).wf(),
            final(self).config == old(self).config,
            final(self).particles@ == spec_step(old(self).particles@, old(self).config),
    {
        let w = self.config.width;
        self.update_with_partitions(w);
    }

    /// Advances the whole grid by one generation with the data-parallel
    /// scheduler split into the given number of column groups.  The result
    /// is the same for every partition count: the scheduler is
    /// deterministic.
    pub fn update_with_partitions(&mut self, partitions: usize)
        requires
            old(self).wf(),
            1 <= partitions,
        ensures
            final(self).wf(),
            final(self).config == old(self).config,
            final(self).particles@ == spec_step(old(self).particles@, old(self).config),
    {
        let ghost snap = self.particles@;
        let ghost cfg = self.config;
        let h = self.config.height;
        let w = self.config.width;
        let n = self.particles.len();
        let cols_per: usize = if partitions >= w {
            1
        } else {
            w / partitions + 1
        };
        proof {
            if partitions < w {
                lemma_div_pos_is_pos(w as int, partitions as int);
                assert(w as int / (partitions as int) <= w) by {
                    lemma_fundamental_div_mod(w as int, partitions as int);
                    lemma_mod_bound(w as int, partitions as int);
                    assert(w as int / (partitions as int) <= w) by (nonlinear_arith)
                        requires
                            (partitions as int) * (w as int / (partitions as int)) + (w as int % (
                            partitions as int)) == w as int,
                            0 <= w as int % (partitions as int),
                            1 <= partitions as int,
                            0 <= w as int / (partitions as int),
                    ;
                }
            }
        }
        let mut ranges: Vec<(usize, usize)> = Vec::new();
        let mut col: usize = 0;
        while col < w
            invariant
                self.config == cfg,
                self.particles@ == snap,
                cfg.wf(),
                grid_wf(snap, cfg),
                h == cfg.height,
                w == cfg.width,
                n == cfg.spec_cell_count(),
                1 <= cols_per <= 10001,
                col <= w,
                forall|j: int|
                    0 <= j < ranges@.len() ==> (#[trigger] ranges@[j]).0 <= ranges@[j].1 <= n,
                forall|j: int|
                    0 < j < ranges@.len() ==> (#[trigger] ranges@[j]).0 == ranges@[j - 1].1,
                ranges@.len() > 0 ==> ranges@[0].0 == 0 && ranges@[ranges@.len() - 1].1 == col * (
                h as int),
                ranges@.len() == 0 ==> col == 0,
            decreases w - col,
        {
            let next_col: usize = if col + cols_per < w {
                col + cols_per
            } else {
                w
            };
            proof {
                assert(col * cfg.height < next_col * cfg.height <= cfg.width * cfg.height)
                    by (nonlinear_arith)
                    requires
                        col < next_col <= cfg.width,
                        0 < cfg.height <= 10000,
                        cfg.width <= 10000,
                ;
            }
            let start: usize = col * h;
            let end: usize = next_col * h;
            ranges.push((start, end));
            col = next_col;
        }
        let parts = par_step_ranges(&self.particles, &self.config, &ranges);
        let mut next: Vec<Particle> = Vec::new();
        proof {
            assert(next@ =~= spec_step_range(snap, cfg, 0, 0));
        }
        let mut j: usize = 0;
        while j < ranges.len()
            invariant
                cfg.wf(),
                grid_wf(snap, cfg),
                n == cfg.spec_cell_count(),
                parts@.len() == ranges@.len(),
                forall|t: int|
                    0 <= t < ranges@.len() ==> (#[trigger] ranges@[t]).0 <= ranges@[t].1 <= n,
                forall|t: int|
                    0 < t < ranges@.len() ==> (#[trigger] ranges@[t]).0 == ranges@[t - 1].1,
                ranges@.len() > 0 ==> ranges@[0].0 == 0 && ranges@[ranges@.len() - 1].1 == n,
                ranges@.len() == 0 ==> n == 0,
                forall|t: int|
                    0 <= t < ranges@.len() ==> (#[trigger] parts@[t])@ == spec_step_range(
                        snap,
                        cfg,
                        ranges@[t].0 as int,
                        ranges@[t].1 as int,
                    ),
                j <= ranges@.len(),
                next@ == spec_step_range(
                    snap,
                    cfg,
                    0,
                    if j == 0 {
                        0int
                    } else {
                        ranges@[j - 1].1 as int
                    },
                ),
            decreases ranges@.len() - j,
        {
            let ghost prev_end: int = if j == 0 {
                0int
            } else {
                ranges@[j - 1].1 as int
            };
            proof {
                assert(ranges@[j as int].0 == prev_end);
            }
            let part = &parts[j];
            let mut t: usize = 0;
            while t < part.len()
                invariant
                    j < ranges@.len(),
                    part@ == spec_step_range(snap, cfg, ranges@[j as int].0 as int, ranges@[
                        j as int].1 as int),
                    ranges@[j as int].0 == prev_end,
                    ranges@[j as int].0 <= ranges@[j as int].1 <= n,
                    t <= part@.len(),
                    part@.len() == ranges@[j as int].1 - ranges@[j as int].0,
                    next@ == spec_step_range(snap, cfg, 0, prev_end + t),
                decreases part@.len() - t,
            {
                next.push(part[t]);
                proof {
                    assert(next@ =~= spec_step_range(snap, cfg, 0, prev_end + t + 1));
                }
                t = t + 1;
            }
            j = j + 1;
        }
        proof {
            assert(next@ =~= spec_step(snap, cfg));
            lemma_step_preserves_grid_wf(snap, cfg);
        }
        self.particles = next;
    }

    /// Assigns the given behavior tag to every perimeter cell; interior
    /// cells and every other field are untouched.
    pub fn set_borders(&mut self, border_type: ParticleType)
        requires
            old(self).wf(),
            type_wf(border_type),
        ensures
            final(self).wf(),
            final(self).config == old(self).config,
            final(self).particles@.len() == old(self).particles@.len(),
            forall|i: int|
                0 <= i < final(self).particles@.len() ==> final(self).particles@[i] == (
                if is_perimeter(
                    old(self).config,
                    i / (old(self).config.height as int),
                    i % (old(self).config.height as int),
                ) {
                    Particle { particle_type: border_type, ..old(self).particles@[i] }
                } else {
                    old(self).particles@[i]
                }),
    {
        let ghost cfg = self.config;
        let ghost snap = self.particles@;
        let h = self.config.height;
        let w = self.config.width;
        let n = self.particles.len();
        let mut i: usize = 0;
        while i < n
            invariant
                cfg.wf(),
                self.config == cfg,
                grid_wf(snap, cfg),
                h == cfg.height,
                w == cfg.width,
                n == self.particles@.len(),
                n == snap.len(),
                i <= n,
                forall|j: int|
                    i <= j < n ==> #[trigger] self.particles@[j] == snap[j],
                forall|j: int|
                    0 <= j < i ==> #[trigger] self.particles@[j] == (if is_perimeter(
                        cfg,
                        j / (cfg.height as int),
                        j % (cfg.height as int),
                    ) {
                        Particle { particle_type: border_type, ..snap[j] }
                    } else {
                        snap[j]
                    }),
            decreases n - i,
        {
            proof {
                lemma_flat_decomp(cfg, i as int);
            }
            let x: usize = i / h;
            let y: usize = i % h;
            if x == 0 || x == w - 1 || y == 0 || y == h - 1 {
                let mut p = self.particles[i];
                p.particle_type = border_type;
                self.particles[i] = p;
            }
            i = i + 1;
        }
        proof {
            assert forall|i: int|
                0 <= i < self.particles@.len() implies particle_wf(
                cfg,
                #[trigger] self.particles@[i],
            ) && self.particles@[i].index_x == i / (cfg.height as int)
                && self.particles@[i].index_y == i % (cfg.height as int) by {
                assert(particle_wf(cfg, snap[i]));
            }
        }
    }

    /// Sets every non-perimeter cell's behavior back to fluid, discarding
    /// any accumulated oscillator phase; perimeter cells and every other
    /// field are untouched.
    pub fn reset_oscillators(&mut self)
        requires
            old(self).wf(),
        ensures
            final(self).wf(),
            final(self).config == old(self).config,
            final(self).particles@.len() == old(self).particles@.len(),
            forall|i: int|
                0 <= i < final(self).particles@.len() ==> final(self).particles@[i] == (
                if !is_perimeter(
                    old(self).config,
                    i / (old(self).config.height as int),
                    i % (old(self).config.height as int),
                ) {
                    Particle { particle_type: ParticleType::Fluid, ..old(self).particles@[i] }
                } else {
                    old(self).particles@[i]
                }),
    {
        let ghost cfg = self.config;
        let ghost snap = self.particles@;
        let h = self.config.height;
        let w = self.config.width;
        let n = self.particles.len();
        let mut i: usize = 0;
        while i < n
            invariant
                cfg.wf(),
                self.config == cfg,
                grid_wf(snap, cfg),
                h == cfg.height,
                w == cfg.width,
                n == self.particles@.len(),
                n == snap.len(),
                i <= n,
                forall|j: int|
                    i <= j < n ==> #[trigger] self.particles@[j] == snap[j],
                forall|j: int|
                    0 <= j < i ==> #[trigger] self.particles@[j] == (if !is_perimeter(
                        cfg,
                        j / (cfg.height as int),
                        j % (cfg.height as int),
                    ) {
                        Particle { particle_type: ParticleType::Fluid, ..snap[j] }
                    } else {
                        snap[j]
                    }),
            decreases n - i,
        {
            proof {
                lemma_flat_decomp(cfg, i as int);
            }
            let x: usize = i / h;
            let y: usize = i % h;
            if !(x == 0 || x == w - 1 || y == 0 || y == h - 1) {
                let mut p = self.particles[i];
                p.particle_type = ParticleType::Fluid;
                self.particles[i] = p;
            }
            i = i + 1;
        }
        proof {
            assert forall|i: int|
                0 <= i < self.particles@.len() implies particle_wf(
                cfg,
                #[trigger] self.particles@[i],
            ) && self.particles@[i].index_x == i / (cfg.height as int)
                && self.particles@[i].index_y == i % (cfg.height as int) by {
                assert(particle_wf(cfg, snap[i]));
            }
        }
    }
}

/// Whether flat index `i` lies in the square brush of the given radius
/// around `(center_x, center_y)`.
pub open spec fn in_brush(cfg: SimConfig, center_x: int, center_y: int, radius: int, i: int) -> bool {
    let x = i / (cfg.height as int);
    let y = i % (cfg.height as int);
    center_x - radius <= x <= center_x + radius && center_y - radius <= y <= center_y + radius
}

/// The faces the cell at flat index `k` contributes to the mesh topology:
/// one triangle toward the previous column and row, one toward the next,
/// each only where those neighbors exist.
pub open spec fn spec_faces_of_cell(cfg: SimConfig, k: int) -> Seq<(usize, usize, usize)> {
    let x = k / (cfg.height as int);
    let y = k % (cfg.height as int);
    let up = if x > 0 && y > 0 {
        seq![(k as usize, (k - 1) as usize, (k - cfg.height) as usize)]
    } else {
        Seq::empty()
    };
    let down = if x < cfg.width - 1 && y < cfg.height - 1 {
        seq![(k as usize, (k + 1) as usize, (k + cfg.height) as usize)]
    } else {
        Seq::empty()
    };
    up + down
}

/// The faces of the first `k` cells, in cell order.
pub open spec fn spec_faces_upto(cfg: SimConfig, k: int) -> Seq<(usize, usize, usize)>
    decreases k,
{
    if k <= 0 {
        Seq::empty()
    } else {
        spec_faces_upto(cfg, k - 1) + spec_faces_of_cell(cfg, k - 1)
    }
}

/// The fixed mesh topology of the grid: two triangles per interior quad,
/// derived from grid adjacency alone.
pub open spec fn spec_faces(cfg: SimConfig) -> Seq<(usize, usize, usize)> {
    spec_faces_upto(cfg, cfg.spec_cell_count())
}

impl WaveSimulation {
    /// Sets every cell of the `(2 * radius + 1)` square centered at
    /// `(center_x, center_y)` to the given height and forces its behavior
    /// to fluid; all other cells and fields are untouched.  The center
    /// must be pre-clamped so that the whole square lies in the grid, and
    /// the height must lie within the height clamp.
    pub fn apply_brush(&mut self, center_x: usize, center_y: usize, radius: usize, height: i64)
        requires
            old(self).wf(),
            radius <= center_x,
            center_x + radius < old(self).config.width,
            radius <= center_y,
            center_y + radius < old(self).config.height,
            -old(self).config.height_limit <= height <= old(self).config.height_limit,
        ensures
            final(self).wf(),
            final(self).config == old(self).config,
            final(self).particles@.len() == old(self).particles@.len(),
            forall|i: int|
                0 <= i < final(self).particles@.len() ==> final(self).particles@[i] == (
                if in_brush(
                    old(self).config,
                    center_x as int,
                    center_y as int,
                    radius as int,
                    i,
                ) {
                    Particle {
                        pos_y: height,
                        particle_type: ParticleType::Fluid,
                        ..old(self).particles@[i]
                    }
                } else {
                    old(self).particles@[i]
                }),
    {
        let ghost cfg = self.config;
        let ghost snap = self.particles@;
        let h = self.config.height;
        let n = self.particles.len();
        let mut i: usize = 0;
        while i < n
            invariant
                cfg.wf(),
                self.config == cfg,
                grid_wf(snap, cfg),
                h == cfg.height,
                n == self.particles@.len(),
                n == snap.len(),
                i <= n,
                radius <= center_x,
                center_x + radius < cfg.width,
                radius <= center_y,
                center_y + radius < cfg.height,
                forall|j: int| i <= j < n ==> #[trigger] self.particles@[j] == snap[j],
                forall|j: int|
                    0 <= j < i ==> #[trigger] self.particles@[j] == (if in_brush(
                        cfg,
                        center_x as int,
                        center_y as int,
                        radius as int,
                        j,
                    ) {
                        Particle {
                            pos_y: height,
                            particle_type: ParticleType::Fluid,
                            ..snap[j]
                        }
                    } else {
                        snap[j]
                    }),
            decreases n - i,
        {
            proof {
                lemma_flat_decomp(cfg, i as int);
            }
            let x: usize = i / h;
            let y: usize = i % h;
            if center_x - radius <= x && x <= center_x + radius && center_y - radius <= y && y
                <= center_y + radius {
                let mut p = self.particles[i];
                p.pos_y = height;
                p.particle_type = ParticleType::Fluid;
                self.particles[i] = p;
            }
            i = i + 1;
        }
        proof {
            assert forall|i: int|
                0 <= i < self.particles@.len() implies particle_wf(
                cfg,
                #[trigger] self.particles@[i],
            ) && self.particles@[i].index_x == i / (cfg.height as int)
                && self.particles@[i].index_y == i % (cfg.height as int) by {
                assert(particle_wf(cfg, snap[i]));
            }
        }
    }

    /// Sets the behavior of the single cell `(x, y)` to an oscillator at
    /// phase zero; every other cell and field is untouched.
    pub fn set_oscillator(&mut self, x: usize, y: usize)
        requires
            old(self).wf(),
            x < old(self).config.width,
            y < old(self).config.height,
        ensures
            final(self).wf(),
            final(self).config == old(self).config,
            final(self).particles@ == old(self).particles@.update(
                flat_idx(old(self).config, x as int, y as int),
                (Particle {
                    particle_type: ParticleType::Oszillator(0),
                    ..old(self).particles@[flat_idx(old(self).config, x as int, y as int)]
                }),
            ),
    {
        let ghost cfg = self.config;
        let ghost snap = self.particles@;
        proof {
            lemma_flat_inverse(cfg, x as int, y as int);
            assert(x * cfg.height <= 100000000) by (nonlinear_arith)
                requires
                    0 <= x < 10000,
                    0 < cfg.height <= 10000,
            ;
        }
        let idx: usize = x * self.config.height + y;
        let mut p = self.particles[idx];
        p.particle_type = ParticleType::Oszillator(0);
        self.particles[idx] = p;
        proof {
            assert forall|i: int|
                0 <= i < self.particles@.len() implies particle_wf(
                cfg,
                #[trigger] self.particles@[i],
            ) && self.particles@[i].index_x == i / (cfg.height as int)
                && self.particles@[i].index_y == i % (cfg.height as int) by {
                assert(particle_wf(cfg, snap[i]));
            }
        }
    }

    /// The read-only position snapshot handed to the rendering
    /// collaborator: the world coordinates of every cell, one triple per
    /// cell, in the flat order of the grid.
    pub fn positions(&self) -> (r: Vec<(i64, i64, i64)>)
        ensures
            r@.len() == self.particles@.len(),
            forall|i: int|
                0 <= i < r@.len() ==> #[trigger] r@[i] == (self.particles@[i].pos_x, self.particles@[
                    i].pos_y, self.particles@[i].pos_z),
    {
        let mut out: Vec<(i64, i64, i64)> = Vec::new();
        let n = self.particles.len();
        let mut i: usize = 0;
        while i < n
            invariant
                n == self.particles@.len(),
                i <= n,
                out@.len() == i,
                forall|j: int|
                    0 <= j < i ==> #[trigger] out@[j] == (self.particles@[j].pos_x, self.particles@[
                        j].pos_y, self.particles@[j].pos_z),
            decreases n - i,
        {
            let p = &self.particles[i];
            out.push((p.pos_x, p.pos_y, p.pos_z));
            i = i + 1;
        }
        out
    }

    /// The fixed vertex topology of the mesh: for every grid cell, the
    /// triangles toward its existing previous and next neighbors, as flat
    /// vertex index triples matching [`Self::positions`].
    pub fn face_indices(&self) -> (r: Vec<(usize, usize, usize)>)
        requires
            self.wf(),
        ensures
            r@ == spec_faces(self.config),
    {
        let ghost cfg = self.config;
        let h = self.config.height;
        let w = self.config.width;
        let n = self.particles.len();
        proof {
            assert(cfg.width * cfg.height <= 100000000) by (nonlinear_arith)
                requires
                    0 < cfg.width <= 10000,
                    0 < cfg.height <= 10000,
            ;
        }
        let mut out: Vec<(usize, usize, usize)> = Vec::new();
        proof {
            assert(out@ =~= spec_faces_upto(cfg, 0));
        }
        let mut i: usize = 0;
        while i < n
            invariant
                cfg.wf(),
                self.config == cfg,
                h == cfg.height,
                w == cfg.width,
                n == self.particles@.len(),
                n == cfg.spec_cell_count(),
                n <= 100000000,
                i <= n,
                out@ == spec_faces_upto(cfg, i as int),
            decreases n - i,
        {
            proof {
                lemma_flat_decomp(cfg, i as int);
            }
            let x: usize = i / h;
            let y: usize = i % h;
            if x > 0 && y > 0 {
                proof {
                    lemma_flat_inverse(cfg, x as int, y as int);
                    assert(cfg.height <= x * cfg.height) by (nonlinear_arith)
                        requires
                            1 <= x,
                            0 < cfg.height,
                    ;
                }
                out.push((i, i - 1, i - h));
            }
            if x < w - 1 && y < h - 1 {
                proof {
                    lemma_flat_inverse(cfg, x as int, y as int);
                    lemma_flat_idx_range(cfg, x + 1, y as int);
                }
                out.push((i, i + 1, i + h));
            }
            proof {
                assert(out@ =~= spec_faces_upto(cfg, i + 1));
            }
            i = i + 1;
        }
        out
    }
}

/// Computes the next generation of the flat cell range `start..end` from
/// the snapshot of the whole grid.
pub fn step_range(snap: &Vec<Particle>, config: &SimConfig, start: usize, end: usize) -> (r: Vec<
    Particle,
>)
    requires
        config.wf(),
        grid_wf(snap@, *config),
        start <= end <= snap@.len(),
    ensures
        r@ == spec_step_range(snap@, *config, start as int, end as int),
{
    proof {
        lemma_grid_wf_heights(snap@, *config);
    }
    let mut out: Vec<Particle> = Vec::new();
    proof {
        assert(out@ =~= spec_step_range(snap@, *config, start as int, start as int));
    }
    let mut i: usize = start;
    while i < end
        invariant
            config.wf(),
            grid_wf(snap@, *config),
            heights_bounded(snap@, *config),
            start <= i <= end <= snap@.len(),
            out@ == spec_step_range(snap@, *config, start as int, i as int),
        decreases end - i,
    {
        proof {
            lemma_flat_decomp(*config, i as int);
        }
        let mut p = snap[i];
        p.update(snap, config);
        out.push(p);
        proof {
            assert(out@ =~= spec_step_range(snap@, *config, start as int, i + 1));
        }
        i = i + 1;
    }
    out
}

/// Runs [`step_range`] on every given range in parallel and collects the
/// results in input order.
///
/// Relies on rayon's `par_iter().map(..).collect()`: an indexed parallel
/// iterator applies the closure to every element exactly once and collects
/// the results in the order of the input, so the output is the sequence of
/// `step_range` results of the given ranges.
#[verifier::external_body]
fn par_step_ranges(snap: &Vec<Particle>, config: &SimConfig, ranges: &Vec<(usize, usize)>) -> (r:
    Vec<Vec<Particle>>)
    requires
        config.wf(),
        grid_wf(snap@, *config),
        forall|j: int|
            0 <= j < ranges@.len() ==> (#[trigger] ranges@[j]).0 <= ranges@[j].1 <= snap@.len(),
    ensures
        r@.len() == ranges@.len(),
        forall|j: int|
            0 <= j < ranges@.len() ==> (#[trigger] r@[j])@ == spec_step_range(
                snap@,
                *config,
                ranges@[j].0 as int,
                ranges@[j].1 as int,
            ),
{
    ranges.par_iter().map(|range| step_range(snap, config, range.0, range.1)).collect()
}

} // verus!
