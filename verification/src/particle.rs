//! A single grid cell: its physical state, its behavior tag, and the
//! per-variant update rule.
//!
//! The update reads only a snapshot of the previous generation.  A fluid
//! cell follows a damped spring pulling its height toward the mean height
//! of its in-bounds neighbors; an oscillator follows a self-advancing
//! fixed-point sine; a solid cell is frozen; an absorbing boundary cell
//! copies the plain neighbor mean.

use crate::config::SimConfig;
use crate::fixed::{
    clamp_i64, div_floor, lemma_div_floor_bound, lemma_sin_bounds, sin_fp, spec_clamp, spec_sin,
    FP_ONE, TWO_PI_FP,
};
use vstd::prelude::*;

verus! {

/// The behavior tag of a cell.
#[derive(Clone, Copy, Debug, PartialEq, Eq, Structural)]
pub enum ParticleType {
    /// Ordinary water: damped-spring neighbor averaging.
    Fluid,
    /// A cell swinging in a sine wave; the payload is the current phase in
    /// milliradians, kept within `[0, TWO_PI_FP)`.
    Oszillator(i64),
    /// A reflective border: the height is frozen but still read by
    /// neighboring cells.
    Solid,
    /// An absorbing border simulating an open ocean edge.
    Infinity,
}

/// An oscillator phase is kept within one full turn.
pub open spec fn type_wf(t: ParticleType) -> bool {
    match t {
        ParticleType::Oszillator(phase) => 0 <= phase < TWO_PI_FP,
        _ => true,
    }
}

/// One grid cell.  `pos_x` and `pos_z` are the fixed world coordinates of
/// the cell, `pos_y` is the simulated height; all three are fixed-point
/// values scaled by [`FP_ONE`].
#[derive(Clone, Copy, Debug, PartialEq, Eq, Structural)]
pub struct Particle {
    /// Fixed world coordinate along the grid columns.
    pub pos_x: i64,
    /// The simulated height, the sole quantity the update rule evolves.
    pub pos_y: i64,
    /// Fixed world coordinate along the grid rows.
    pub pos_z: i64,
    /// Vertical velocity of a fluid cell.
    pub vel: i64,
    /// Vertical acceleration a fluid cell computed in its last update.
    pub acc: i64,
    /// Column of the cell in the grid; equal to its container position.
    pub index_x: usize,
    /// Row of the cell in the grid; equal to its container position.
    pub index_y: usize,
    /// The behavior tag dispatching the update rule.
    pub particle_type: ParticleType,
}

/// The state bounds every cell of a well-formed grid satisfies.
pub open spec fn particle_wf(cfg: SimConfig, p: Particle) -> bool {
    &&& -cfg.height_limit <= p.pos_y <= cfg.height_limit
    &&& -cfg.vel_limit <= p.vel <= cfg.vel_limit
    &&& -cfg.acc_limit <= p.acc <= cfg.acc_limit
    &&& type_wf(p.particle_type)
}

/// Whether `(x, y)` addresses a cell of the grid.
pub open spec fn in_grid(cfg: SimConfig, x: int, y: int) -> bool {
    0 <= x < cfg.width && 0 <= y < cfg.height
}

/// The flat, column-major index of cell `(x, y)`: column `x` occupies the
/// slots `x * height .. (x + 1) * height`.
pub open spec fn flat_idx(cfg: SimConfig, x: int, y: int) -> int {
    x * cfg.height + y
}

/// Every height of the snapshot lies within the height clamp.
pub open spec fn heights_bounded(snap: Seq<Particle>, cfg: SimConfig) -> bool {
    forall|i: int|
        0 <= i < snap.len() ==> -cfg.height_limit <= #[trigger] snap[i].pos_y <= cfg.height_limit
}

/// A cell of the grid has a flat index inside the grid buffer.
pub proof fn lemma_flat_idx_range(cfg: SimConfig, x: int, y: int)
    requires
        cfg.wf(),
        in_grid(cfg, x, y),
    ensures
        0 <= flat_idx(cfg, x, y) < cfg.spec_cell_count(),
{
    assert(0 <= x * cfg.height + y < cfg.width * cfg.height) by (nonlinear_arith)
        requires
            0 <= x < cfg.width,
            0 <= y < cfg.height,
    ;
}

/// Column offset of the `k`-th entry of the 3x3 block, `k` in `0..9`.
pub open spec fn off_x(k: int) -> int {
    k / 3 - 1
}

/// Row offset of the `k`-th entry of the 3x3 block, `k` in `0..9`.
pub open spec fn off_y(k: int) -> int {
    k % 3 - 1
}

/// The height the `k`-th entry of the 3x3 block around `(x, y)` contributes:
/// the snapshot height when the entry is in the grid, zero otherwise.
pub open spec fn block_term_height(
    snap: Seq<Particle>,
    cfg: SimConfig,
    x: int,
    y: int,
    k: int,
) -> int {
    if in_grid(cfg, x + off_x(k), y + off_y(k)) {
        snap[flat_idx(cfg, x + off_x(k), y + off_y(k))].pos_y as int
    } else {
        0
    }
}

/// Whether the `k`-th entry of the 3x3 block around `(x, y)` is in the grid.
pub open spec fn block_term_count(cfg: SimConfig, x: int, y: int, k: int) -> int {
    if in_grid(cfg, x + off_x(k), y + off_y(k)) {
        1
    } else {
        0
    }
}

/// Sum of the heights of the first `k` entries of the 3x3 block.
pub open spec fn block_sum_upto(
    snap: Seq<Particle>,
    cfg: SimConfig,
    x: int,
    y: int,
    k: int,
) -> int
    decreases k,
{
    if k <= 0 {
        0
    } else {
        block_sum_upto(snap, cfg, x, y, k - 1) + block_term_height(snap, cfg, x, y, k - 1)
    }
}

/// Number of in-grid cells among the first `k` entries of the 3x3 block.
pub open spec fn block_count_upto(cfg: SimConfig, x: int, y: int, k: int) -> int
    decreases k,
{
    if k <= 0 {
        0
    } else {
        block_count_upto(cfg, x, y, k - 1) + block_term_count(cfg, x, y, k - 1)
    }
}

/// Sum of the snapshot heights of all in-grid cells of the 3x3 block
/// centered on `(x, y)`, the center included.
pub open spec fn block_sum(snap: Seq<Particle>, cfg: SimConfig, x: int, y: int) -> int {
    block_sum_upto(snap, cfg, x, y, 9)
}

/// Number of in-grid cells of the 3x3 block centered on `(x, y)`, the
/// center included.
pub open spec fn block_count(cfg: SimConfig, x: int, y: int) -> int {
    block_count_upto(cfg, x, y, 9)
}

/// The neighbor average of cell `(x, y)` with own height `own`: the sum of
/// the in-grid heights of the 3x3 block minus the own height, divided by
/// the number of in-grid cells minus one (floor division).
pub open spec fn neighbor_average(
    snap: Seq<Particle>,
    cfg: SimConfig,
    x: int,
    y: int,
    own: int,
) -> int {
    (block_sum(snap, cfg, x, y) - own) / (block_count(cfg, x, y) - 1)
}

/// Whether `(x, y)` touches the grid perimeter.
pub open spec fn is_perimeter(cfg: SimConfig, x: int, y: int) -> bool {
    x == 0 || x == cfg.width - 1 || y == 0 || y == cfg.height - 1
}

/// Whether `(x, y)` is one of the four grid corners.
pub open spec fn is_corner(cfg: SimConfig, x: int, y: int) -> bool {
    (x == 0 || x == cfg.width - 1) && (y == 0 || y == cfg.height - 1)
}

/// Partial block sums and counts are bounded by the number of entries seen:
/// at most `k` cells, their sum at most `count` heights of full magnitude.
pub proof fn lemma_block_upto_bounds(snap: Seq<Particle>, cfg: SimConfig, x: int, y: int, k: int)
    requires
        cfg.wf(),
        snap.len() == cfg.spec_cell_count(),
        heights_bounded(snap, cfg),
        0 <= k <= 9,
    ensures
        0 <= block_count_upto(cfg, x, y, k) <= k,
        -(block_count_upto(cfg, x, y, k) * cfg.height_limit) <= block_sum_upto(snap, cfg, x, y, k)
            <= block_count_upto(cfg, x, y, k) * cfg.height_limit,
    decreases k,
{
    if k == 0 {
        assert(0 * cfg.height_limit == 0) by (nonlinear_arith);
    } else {
        lemma_block_upto_bounds(snap, cfg, x, y, k - 1);
        let c = block_count_upto(cfg, x, y, k - 1);
        if in_grid(cfg, x + off_x(k - 1), y + off_y(k - 1)) {
            lemma_flat_idx_range(cfg, x + off_x(k - 1), y + off_y(k - 1));
            assert((c + 1) * cfg.height_limit == c * cfg.height_limit + cfg.height_limit)
                by (nonlinear_arith);
        }
    }
}

/// The center entry of the block is entry 4, and it contributes the cell's
/// own snapshot height.  Excluding it, the partial sums stay within the
/// remaining count times the height clamp.
proof fn lemma_block_upto_self_excluded(snap: Seq<Particle>, cfg: SimConfig, x: int, y: int, k: int)
    requires
        cfg.wf(),
        snap.len() == cfg.spec_cell_count(),
        heights_bounded(snap, cfg),
        in_grid(cfg, x, y),
        0 <= k <= 9,
    ensures
        ({
            let own = snap[flat_idx(cfg, x, y)].pos_y as int;
            let selfc: int = if k > 4 {
                1
            } else {
                0
            };
            let rest = block_count_upto(cfg, x, y, k) - selfc;
            -(rest * cfg.height_limit) <= block_sum_upto(snap, cfg, x, y, k) - selfc * own <= rest
                * cfg.height_limit
        }),
    decreases k,
{
    lemma_block_upto_bounds(snap, cfg, x, y, k);
    if k == 0 {
        assert(0 * cfg.height_limit == 0) by (nonlinear_arith);
    } else {
        lemma_block_upto_self_excluded(snap, cfg, x, y, k - 1);
        let own = snap[flat_idx(cfg, x, y)].pos_y as int;
        let selfc_prev: int = if k - 1 > 4 {
            1
        } else {
            0
        };
        let rest_prev = block_count_upto(cfg, x, y, k - 1) - selfc_prev;
        if k - 1 == 4 {
            assert(off_x(4) == 0 && off_y(4) == 0);
            assert(block_term_height(snap, cfg, x, y, 4) == own);
            assert(1 * own == own) by (nonlinear_arith);
        } else {
            if in_grid(cfg, x + off_x(k - 1), y + off_y(k - 1)) {
                lemma_flat_idx_range(cfg, x + off_x(k - 1), y + off_y(k - 1));
                assert((rest_prev + 1) * cfg.height_limit == rest_prev * cfg.height_limit
                    + cfg.height_limit) by (nonlinear_arith);
            }
        }
    }
}

/// Effective neighbor divisor: interior cells average over 8 neighbors,
/// edge cells over 5, corner cells over 3.
pub proof fn lemma_effective_neighbor_divisor(cfg: SimConfig, x: int, y: int)
    requires
        cfg.wf(),
        in_grid(cfg, x, y),
    ensures
        is_corner(cfg, x, y) ==> block_count(cfg, x, y) - 1 == 3,
        is_perimeter(cfg, x, y) && !is_corner(cfg, x, y) ==> block_count(cfg, x, y) - 1 == 5,
        !is_perimeter(cfg, x, y) ==> block_count(cfg, x, y) - 1 == 8,
        4 <= block_count(cfg, x, y) <= 9,
{
    reveal_with_fuel(block_count_upto, 10);
}

/// The neighbor average of an in-grid cell, taken with any own height
/// within the height clamp, stays within twice the height clamp.
pub proof fn lemma_neighbor_average_bounds(
    snap: Seq<Particle>,
    cfg: SimConfig,
    x: int,
    y: int,
    own: int,
)
    requires
        cfg.wf(),
        snap.len() == cfg.spec_cell_count(),
        heights_bounded(snap, cfg),
        in_grid(cfg, x, y),
        -cfg.height_limit <= own <= cfg.height_limit,
    ensures
        -2 * cfg.height_limit <= neighbor_average(snap, cfg, x, y, own) <= 2 * cfg.height_limit,
{
    lemma_block_upto_bounds(snap, cfg, x, y, 9);
    lemma_effective_neighbor_divisor(cfg, x, y);
    let h = cfg.height_limit as int;
    let c = block_count(cfg, x, y);
    let num = block_sum(snap, cfg, x, y) - own;
    assert(-((c + 1) * h) <= num <= (c + 1) * h) by (nonlinear_arith)
        requires
            -(c * h) <= block_sum(snap, cfg, x, y) <= c * h,
            -h <= own <= h,
            num == block_sum(snap, cfg, x, y) - own,
    ;
    assert((c + 1) * h <= (2 * h) * (c - 1)) by (nonlinear_arith)
        requires
            4 <= c,
            0 <= h,
    ;
    lemma_div_floor_bound(num, c - 1, 2 * h);
}

/// When the own height is the cell's snapshot height, the neighbor average
/// is the floor mean of the in-grid neighbors alone, and so stays within
/// the height clamp.
pub proof fn lemma_neighbor_average_tight(snap: Seq<Particle>, cfg: SimConfig, x: int, y: int)
    requires
        cfg.wf(),
        snap.len() == cfg.spec_cell_count(),
        heights_bounded(snap, cfg),
        in_grid(cfg, x, y),
    ensures
        -cfg.height_limit <= neighbor_average(
            snap,
            cfg,
            x,
            y,
            snap[flat_idx(cfg, x, y)].pos_y as int,
        ) <= cfg.height_limit,
{
    lemma_block_upto_self_excluded(snap, cfg, x, y, 9);
    lemma_effective_neighbor_divisor(cfg, x, y);
    let h = cfg.height_limit as int;
    let c = block_count(cfg, x, y);
    let own = snap[flat_idx(cfg, x, y)].pos_y as int;
    let num = block_sum(snap, cfg, x, y) - own;
    assert(-((c - 1) * h) <= num <= (c - 1) * h);
    assert((c - 1) * h == h * (c - 1)) by (nonlinear_arith);
    lemma_div_floor_bound(num, c - 1, h);
}

/// The acceleration a fluid cell computes: the spring term toward the
/// neighbor mean, damped and clamped.
pub open spec fn spec_fluid_acc(snap: Seq<Particle>, cfg: SimConfig, p: Particle) -> int {
    let avg = neighbor_average(snap, cfg, p.index_x as int, p.index_y as int, p.pos_y as int);
    let raw = avg - p.pos_y - p.vel / cfg.sustainability;
    spec_clamp(raw, -cfg.acc_limit as int, cfg.acc_limit as int) * cfg.damping / (FP_ONE as int)
}

/// The velocity of a fluid cell after one update.
pub open spec fn spec_fluid_vel(snap: Seq<Particle>, cfg: SimConfig, p: Particle) -> int {
    spec_clamp(
        p.vel + spec_fluid_acc(snap, cfg, p),
        -cfg.vel_limit as int,
        cfg.vel_limit as int,
    )
}

/// The height of a fluid cell after one update.
pub open spec fn spec_fluid_y(snap: Seq<Particle>, cfg: SimConfig, p: Particle) -> int {
    spec_clamp(
        p.pos_y + spec_fluid_vel(snap, cfg, p),
        -cfg.height_limit as int,
        cfg.height_limit as int,
    )
}

/// The phase of an oscillator after one update: advanced by the configured
/// speed and wrapped to one full turn.
pub open spec fn spec_osc_next_phase(cfg: SimConfig, phase: int) -> int {
    if phase + cfg.osz_speed >= TWO_PI_FP {
        phase + cfg.osz_speed - TWO_PI_FP
    } else {
        phase + cfg.osz_speed
    }
}

/// The height of an oscillator at a given phase: the fixed-point sine
/// scaled to the height clamp.
pub open spec fn spec_osc_height(cfg: SimConfig, phase: int) -> int {
    spec_sin(phase) * cfg.height_limit / (FP_ONE as int)
}

/// The cell that one update writes, given the snapshot of the previous
/// generation: the update rule of the engine, dispatched on the behavior
/// tag.  Position and grid indices never change; a solid cell does not
/// change at all.
pub open spec fn spec_updated(snap: Seq<Particle>, cfg: SimConfig, p: Particle) -> Particle {
    match p.particle_type {
        ParticleType::Fluid => Particle {
            pos_y: spec_fluid_y(snap, cfg, p) as i64,
            vel: spec_fluid_vel(snap, cfg, p) as i64,
            acc: spec_fluid_acc(snap, cfg, p) as i64,
            ..p
        },
        ParticleType::Oszillator(phase) => {
            let next = spec_osc_next_phase(cfg, phase as int);
            Particle {
                pos_y: spec_osc_height(cfg, next) as i64,
                particle_type: ParticleType::Oszillator(next as i64),
                ..p
            }
        },
        ParticleType::Solid => p,
        ParticleType::Infinity => Particle {
            pos_y: neighbor_average(
                snap,
                cfg,
                p.index_x as int,
                p.index_y as int,
                p.pos_y as int,
            ) as i64,
            ..p
        },
    }
}

impl Particle {
    /// A fresh cell: everything zero, behavior [`ParticleType::Fluid`].
    pub fn new() -> (p: Particle)
        ensures
            p == (Particle {
                pos_x: 0i64,
                pos_y: 0i64,
                pos_z: 0i64,
                vel: 0i64,
                acc: 0i64,
                index_x: 0usize,
                index_y: 0usize,
                particle_type: ParticleType::Fluid,
            }),
    {
        Particle {
            pos_x: 0,
            pos_y: 0,
            pos_z: 0,
            vel: 0,
            acc: 0,
            index_x: 0,
            index_y: 0,
            particle_type: ParticleType::Fluid,
        }
    }

    /// The floor mean of the in-bounds neighbors of this cell, read from
    /// the previous-generation snapshot; the cell's own height is excluded
    /// from the mean.
    #[verifier::loop_isolation(false)]
    pub fn get_neighbors_average(&self, grid_old: &Vec<Particle>, config: &SimConfig) -> (r: i64)
        requires
            config.wf(),
            grid_old@.len() == config.spec_cell_count(),
            heights_bounded(grid_old@, *config),
            in_grid(*config, self.index_x as int, self.index_y as int),
            -config.height_limit <= self.pos_y <= config.height_limit,
        ensures
            r == neighbor_average(
                grid_old@,
                *config,
                self.index_x as int,
                self.index_y as int,
                self.pos_y as int,
            ),
    {
        let ghost snap = grid_old@;
        let ghost xg = self.index_x as int;
        let ghost yg = self.index_y as int;
        let mut sum: i64 = 0;
        let mut count: i64 = 0;
        for k in 0..9usize
            invariant
                sum == block_sum_upto(snap, *config, xg, yg, k as int),
                count == block_count_upto(*config, xg, yg, k as int),
                0 <= count <= k,
                -(count * config.height_limit) <= sum <= count * config.height_limit,
        {
            let dx: usize = k / 3;
            let dy: usize = k % 3;
            let xs: usize = self.index_x + dx;
            let ys: usize = self.index_y + dy;
            if 1 <= xs && xs <= config.width && 1 <= ys && ys <= config.height {
                proof {
                    lemma_flat_idx_range(*config, xg + off_x(k as int), yg + off_y(k as int));
                    assert((xs - 1) * config.height <= 100000000) by (nonlinear_arith)
                        requires
                            1 <= xs <= 10001,
                            0 < config.height <= 10000,
                    ;
                }
                let idx: usize = (xs - 1) * config.height + (ys - 1);
                let h = grid_old[idx].pos_y;
                proof {
                    assert((count + 1) * config.height_limit == count * config.height_limit
                        + config.height_limit) by (nonlinear_arith);
                    assert(count * config.height_limit <= 9000000000) by (nonlinear_arith)
                        requires
                            0 <= count <= 9,
                            0 <= config.height_limit <= 1000000000,
                    ;
                }
                sum = sum + h;
                count = count + 1;
            }
        }
        proof {
            lemma_effective_neighbor_divisor(*config, xg, yg);
            assert(-(9 * config.height_limit) <= sum <= 9 * config.height_limit)
                by (nonlinear_arith)
                requires
                    -(count * config.height_limit) <= sum <= count * config.height_limit,
                    0 <= count <= 9,
                    0 <= config.height_limit,
            ;
        }
        div_floor(sum - self.pos_y, count - 1)
    }

    /// Rewrites this cell from the previous-generation snapshot, following
    /// the update rule of its behavior tag.
    pub fn update(&mut self, grid_old: &Vec<Particle>, config: &SimConfig)
        requires
            config.wf(),
            grid_old@.len() == config.spec_cell_count(),
            heights_bounded(grid_old@, *config),
            in_grid(*config, old(self).index_x as int, old(self).index_y as int),
            particle_wf(*config, *old(self)),
        ensures
            *final(self) == spec_updated(grid_old@, *config, *old(self)),
    {
        match self.particle_type {
            ParticleType::Fluid => {
                let avg = self.get_neighbors_average(grid_old, config);
                proof {
                    lemma_neighbor_average_bounds(
                        grid_old@,
                        *config,
                        self.index_x as int,
                        self.index_y as int,
                        self.pos_y as int,
                    );
                    assert(-(config.vel_limit * config.sustainability) <= self.vel <= config.vel_limit
                        * config.sustainability) by (nonlinear_arith)
                        requires
                            1 <= config.sustainability,
                            0 <= config.vel_limit,
                            -config.vel_limit <= self.vel <= config.vel_limit,
                    ;
                    lemma_div_floor_bound(
                        self.vel as int,
                        config.sustainability as int,
                        config.vel_limit as int,
                    );
                }
                let vd = div_floor(self.vel, config.sustainability);
                let raw = avg - self.pos_y - vd;
                let a1 = clamp_i64(raw, -config.acc_limit, config.acc_limit);
                proof {
                    assert(-(config.acc_limit * FP_ONE) <= a1 * config.damping <= config.acc_limit
                        * FP_ONE) by (nonlinear_arith)
                        requires
                            -config.acc_limit <= a1 <= config.acc_limit,
                            0 <= config.damping <= FP_ONE,
                            0 <= config.acc_limit,
                    ;
                    lemma_div_floor_bound(
                        a1 as int * config.damping as int,
                        FP_ONE as int,
                        config.acc_limit as int,
                    );
                }
                let a2 = div_floor(a1 * config.damping, FP_ONE);
                let v = clamp_i64(self.vel + a2, -config.vel_limit, config.vel_limit);
                let y = clamp_i64(self.pos_y + v, -config.height_limit, config.height_limit);
                self.acc = a2;
                self.vel = v;
                self.pos_y = y;
            },
            ParticleType::Oszillator(phase) => {
                let stepped: i64 = phase + config.osz_speed;
                let next: i64 = if stepped >= TWO_PI_FP {
                    stepped - TWO_PI_FP
                } else {
                    stepped
                };
                let s = sin_fp(next);
                proof {
                    assert(-(config.height_limit * FP_ONE) <= s * config.height_limit
                        <= config.height_limit * FP_ONE) by (nonlinear_arith)
                        requires
                            -FP_ONE <= s <= FP_ONE,
                            0 <= config.height_limit,
                    ;
                    lemma_div_floor_bound(
                        s as int * config.height_limit as int,
                        FP_ONE as int,
                        config.height_limit as int,
                    );
                }
                let y = div_floor(s * config.height_limit, FP_ONE);
                self.pos_y = y;
                self.particle_type = ParticleType::Oszillator(next);
            },
            ParticleType::Solid => {},
            ParticleType::Infinity => {
                let avg = self.get_neighbors_average(grid_old, config);
                proof {
                    lemma_neighbor_average_bounds(
                        grid_old@,
                        *config,
                        self.index_x as int,
                        self.index_y as int,
                        self.pos_y as int,
                    );
                }
                self.pos_y = avg;
            },
        }
    }
}

/// One update keeps every cell of a well-formed grid within its bounds;
/// the fixed fields of the cell never change, and a solid cell does not
/// change at all.  The own height of the cell must be its snapshot height,
/// as it is whenever the engine updates a whole generation.
pub proof fn lemma_updated_wf(snap: Seq<Particle>, cfg: SimConfig, p: Particle)
    requires
        cfg.wf(),
        snap.len() == cfg.spec_cell_count(),
        heights_bounded(snap, cfg),
        in_grid(cfg, p.index_x as int, p.index_y as int),
        particle_wf(cfg, p),
        p.pos_y == snap[flat_idx(cfg, p.index_x as int, p.index_y as int)].pos_y,
    ensures
        particle_wf(cfg, spec_updated(snap, cfg, p)),
        spec_updated(snap, cfg, p).pos_x == p.pos_x,
        spec_updated(snap, cfg, p).pos_z == p.pos_z,
        spec_updated(snap, cfg, p).index_x == p.index_x,
        spec_updated(snap, cfg, p).index_y == p.index_y,
        p.particle_type is Solid ==> spec_updated(snap, cfg, p) == p,
{
    let x = p.index_x as int;
    let y = p.index_y as int;
    match p.particle_type {
        ParticleType::Fluid => {
            lemma_neighbor_average_bounds(snap, cfg, x, y, p.pos_y as int);
            let avg = neighbor_average(snap, cfg, x, y, p.pos_y as int);
            let raw = avg - p.pos_y - p.vel / cfg.sustainability;
            let a1 = spec_clamp(raw, -cfg.acc_limit as int, cfg.acc_limit as int);
            assert(-(cfg.acc_limit * FP_ONE) <= a1 * cfg.damping <= cfg.acc_limit * FP_ONE)
                by (nonlinear_arith)
                requires
                    -cfg.acc_limit <= a1 <= cfg.acc_limit,
                    0 <= cfg.damping <= FP_ONE,
                    0 <= cfg.acc_limit,
            ;
            lemma_div_floor_bound(a1 * cfg.damping, FP_ONE as int, cfg.acc_limit as int);
        },
        ParticleType::Oszillator(phase) => {
            let next = spec_osc_next_phase(cfg, phase as int);
            lemma_sin_bounds(next);
            assert(-(cfg.height_limit * FP_ONE) <= spec_sin(next) * cfg.height_limit
                <= cfg.height_limit * FP_ONE) by (nonlinear_arith)
                requires
                    -FP_ONE <= spec_sin(next) <= FP_ONE,
                    0 <= cfg.height_limit,
            ;
            lemma_div_floor_bound(
                spec_sin(next) * cfg.height_limit,
                FP_ONE as int,
                cfg.height_limit as int,
            );
        },
        ParticleType::Solid => {},
        ParticleType::Infinity => {
            lemma_neighbor_average_tight(snap, cfg, x, y);
        },
    }
}

} // verus!
