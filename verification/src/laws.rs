//! The global laws of the simulation, proved once for every
//! configuration, grid and step count.

use crate::config::SimConfig;
use crate::fixed::{lemma_div_floor_bound, lemma_sin_bounds, spec_sin, FP_ONE, TWO_PI_FP};
use crate::particle::{
    block_count, block_sum_upto, flat_idx, in_grid, lemma_effective_neighbor_divisor,
    lemma_flat_idx_range, lemma_neighbor_average_tight, neighbor_average, off_x, off_y,
    particle_wf, spec_fluid_acc, spec_osc_height, spec_osc_next_phase, spec_updated, Particle,
    ParticleType,
};
use crate::wave_simulation::{
    cell, grid_wf, lemma_flat_decomp, lemma_flat_inverse, lemma_grid_wf_heights,
    lemma_step_preserves_grid_wf, spec_step,
};
use vstd::arithmetic::div_mod::{
    lemma_add_mod_noop, lemma_basic_div, lemma_mod_bound, lemma_mod_sub_multiples_vanish,
    lemma_small_mod,
};
use vstd::prelude::*;

verus! {

/// The grid after `n` whole steps.
pub open spec fn spec_step_n(s: Seq<Particle>, cfg: SimConfig, n: nat) -> Seq<Particle>
    decreases n,
{
    if n == 0 {
        s
    } else {
        spec_step(spec_step_n(s, cfg, (n - 1) as nat), cfg)
    }
}

/// Any number of steps keeps the grid well formed.
pub proof fn lemma_step_n_preserves_grid_wf(s: Seq<Particle>, cfg: SimConfig, n: nat)
    requires
        cfg.wf(),
        grid_wf(s, cfg),
    ensures
        grid_wf(spec_step_n(s, cfg, n), cfg),
    decreases n,
{
    if n > 0 {
        lemma_step_n_preserves_grid_wf(s, cfg, (n - 1) as nat);
        lemma_step_preserves_grid_wf(spec_step_n(s, cfg, (n - 1) as nat), cfg);
    }
}

/// After a step, every cell's height lies within the height clamp and
/// every cell's velocity within the velocity clamp.
pub proof fn lemma_step_bounds(s: Seq<Particle>, cfg: SimConfig)
    requires
        cfg.wf(),
        grid_wf(s, cfg),
    ensures
        forall|i: int|
            0 <= i < spec_step(s, cfg).len() ==> -cfg.height_limit <= (#[trigger] spec_step(
                s,
                cfg,
            )[i]).pos_y <= cfg.height_limit && -cfg.vel_limit <= spec_step(s, cfg)[i].vel
                <= cfg.vel_limit,
{
    lemma_step_preserves_grid_wf(s, cfg);
    assert forall|i: int|
        0 <= i < spec_step(s, cfg).len() implies -cfg.height_limit <= (#[trigger] spec_step(
        s,
        cfg,
    )[i]).pos_y <= cfg.height_limit && -cfg.vel_limit <= spec_step(s, cfg)[i].vel
        <= cfg.vel_limit by {
        assert(particle_wf(cfg, spec_step(s, cfg)[i]));
    }
}

/// Every partial block sum over a grid of zero heights is zero.
proof fn lemma_block_sum_upto_zero(s: Seq<Particle>, cfg: SimConfig, x: int, y: int, k: int)
    requires
        cfg.wf(),
        s.len() == cfg.spec_cell_count(),
        forall|i: int| 0 <= i < s.len() ==> (#[trigger] s[i]).pos_y == 0,
        0 <= k <= 9,
    ensures
        block_sum_upto(s, cfg, x, y, k) == 0,
    decreases k,
{
    if k > 0 {
        lemma_block_sum_upto_zero(s, cfg, x, y, k - 1);
        if in_grid(cfg, x + off_x(k - 1), y + off_y(k - 1)) {
            lemma_flat_idx_range(
                cfg,
                x + off_x(k - 1),
                y + off_y(k - 1),
            );
        }
    }
}

/// A flat grid is a fixed point: when every cell is fluid and at rest,
/// any number of steps leaves the grid unchanged.
pub proof fn lemma_flat_grid_fixed_point(s: Seq<Particle>, cfg: SimConfig, n: nat)
    requires
        cfg.wf(),
        grid_wf(s, cfg),
        forall|i: int|
            0 <= i < s.len() ==> (#[trigger] s[i]).particle_type == ParticleType::Fluid
                && s[i].pos_y == 0 && s[i].vel == 0 && s[i].acc == 0,
    ensures
        spec_step_n(s, cfg, n) == s,
    decreases n,
{
    if n > 0 {
        lemma_flat_grid_fixed_point(s, cfg, (n - 1) as nat);
        assert forall|i: int| 0 <= i < s.len() implies #[trigger] spec_step(s, cfg)[i] == s[i] by {
            let p = s[i];
            let x = p.index_x as int;
            let y = p.index_y as int;
            lemma_flat_decomp(cfg, i);
            lemma_block_sum_upto_zero(s, cfg, x, y, 9);
            lemma_effective_neighbor_divisor(cfg, x, y);
            lemma_basic_div(0, block_count(cfg, x, y) - 1);
            lemma_basic_div(0, cfg.sustainability as int);
            assert(neighbor_average(s, cfg, x, y, 0) == 0);
            assert(spec_fluid_acc(s, cfg, p) == 0) by {
                assert(0 * cfg.damping == 0) by (nonlinear_arith);
                lemma_basic_div(0, FP_ONE as int);
            }
        }
        assert(spec_step(s, cfg) =~= s);
    }
}

/// A solid cell is frozen: any number of steps leaves the whole cell,
/// its height included, unchanged.
pub proof fn lemma_solid_frozen(s: Seq<Particle>, cfg: SimConfig, x: int, y: int, n: nat)
    requires
        cfg.wf(),
        grid_wf(s, cfg),
        in_grid(cfg, x, y),
        cell(s, cfg, x, y).particle_type == ParticleType::Solid,
    ensures
        cell(spec_step_n(s, cfg, n), cfg, x, y) == cell(s, cfg, x, y),
    decreases n,
{
    lemma_flat_inverse(cfg, x, y);
    if n > 0 {
        lemma_solid_frozen(s, cfg, x, y, (n - 1) as nat);
        lemma_step_n_preserves_grid_wf(s, cfg, (n - 1) as nat);
        let prev = spec_step_n(s, cfg, (n - 1) as nat);
        assert(cell(spec_step(prev, cfg), cfg, x, y) == spec_updated(
            prev,
            cfg,
            prev[flat_idx(cfg, x, y)],
        ));
    }
}

/// The phase an oscillator holds after `n` steps from a starting phase.
pub open spec fn osc_phase_after(cfg: SimConfig, phase0: int, n: nat) -> int
    decreases n,
{
    if n == 0 {
        phase0
    } else {
        spec_osc_next_phase(cfg, osc_phase_after(cfg, phase0, (n - 1) as nat))
    }
}

/// The iterated phase advance is plain modular arithmetic: after `n`
/// steps from phase zero the phase is `n` times the oscillator speed,
/// wrapped to one full turn.
pub proof fn lemma_osc_phase_closed_form(cfg: SimConfig, n: nat)
    requires
        cfg.wf(),
    ensures
        osc_phase_after(cfg, 0, n) == (n * cfg.osz_speed) % (TWO_PI_FP as int),
    decreases n,
{
    let t = TWO_PI_FP as int;
    if n == 0 {
        lemma_basic_div(0, t);
        assert(0 * cfg.osz_speed == 0) by (nonlinear_arith);
        assert((0int) % t == 0) by {
            lemma_small_mod(0nat, t as nat);
        }
    } else {
        lemma_osc_phase_closed_form(cfg, (n - 1) as nat);
        let prev = osc_phase_after(cfg, 0, (n - 1) as nat);
        lemma_mod_bound((n - 1) as int * cfg.osz_speed, t);
        let stepped = prev + cfg.osz_speed;
        assert(osc_phase_after(cfg, 0, n) == if stepped >= t {
            stepped - t
        } else {
            stepped
        });
        assert(osc_phase_after(cfg, 0, n) == stepped % t) by {
            if stepped >= t {
                lemma_mod_sub_multiples_vanish(stepped, t);
                lemma_small_mod((stepped - t) as nat, t as nat);
            } else {
                lemma_small_mod(stepped as nat, t as nat);
            }
        }
        lemma_add_mod_noop((n - 1) as int * cfg.osz_speed, cfg.osz_speed as int, t);
        lemma_small_mod(cfg.osz_speed as nat, t as nat);
        assert((n - 1) as int * cfg.osz_speed + cfg.osz_speed == n * cfg.osz_speed)
            by (nonlinear_arith);
    }
}

/// An oscillator follows its own sine alone: after `n` steps its phase is
/// the starting phase advanced `n` times, and for `n > 0` its height is
/// the fixed-point sine of that phase scaled to the height clamp --
/// independent of every neighbor.
pub proof fn lemma_oscillator_follows_sine(
    s: Seq<Particle>,
    cfg: SimConfig,
    x: int,
    y: int,
    phase0: i64,
    n: nat,
)
    requires
        cfg.wf(),
        grid_wf(s, cfg),
        in_grid(cfg, x, y),
        cell(s, cfg, x, y).particle_type == ParticleType::Oszillator(phase0),
    ensures
        cell(spec_step_n(s, cfg, n), cfg, x, y).particle_type == ParticleType::Oszillator(
            osc_phase_after(cfg, phase0 as int, n) as i64,
        ),
        n > 0 ==> cell(spec_step_n(s, cfg, n), cfg, x, y).pos_y == spec_osc_height(
            cfg,
            osc_phase_after(cfg, phase0 as int, n),
        ),
        0 <= osc_phase_after(cfg, phase0 as int, n) < TWO_PI_FP,
    decreases n,
{
    lemma_flat_inverse(cfg, x, y);
    if n == 0 {
        assert(particle_wf(cfg, s[flat_idx(cfg, x, y)]));
    } else {
        lemma_oscillator_follows_sine(s, cfg, x, y, phase0, (n - 1) as nat);
        lemma_step_n_preserves_grid_wf(s, cfg, (n - 1) as nat);
        let prev = spec_step_n(s, cfg, (n - 1) as nat);
        let pc = prev[flat_idx(cfg, x, y)];
        assert(cell(spec_step(prev, cfg), cfg, x, y) == spec_updated(prev, cfg, pc));
        let ph_prev = osc_phase_after(cfg, phase0 as int, (n - 1) as nat);
        let ph = spec_osc_next_phase(cfg, ph_prev);
        lemma_sin_bounds(ph);
        assert(-(cfg.height_limit * FP_ONE) <= spec_sin(ph)
            * cfg.height_limit <= cfg.height_limit * FP_ONE) by (nonlinear_arith)
            requires
                -FP_ONE <= spec_sin(ph) <= FP_ONE,
                0 <= cfg.height_limit,
        ;
        lemma_div_floor_bound(
            spec_sin(ph) * cfg.height_limit,
            FP_ONE as int,
            cfg.height_limit as int,
        );
    }
}

/// An absorbing boundary cell tracks the mean: after one step its height
/// is exactly the floor mean of its in-bounds neighbors read from the
/// pre-step snapshot.
pub proof fn lemma_infinity_tracks_mean(s: Seq<Particle>, cfg: SimConfig, x: int, y: int)
    requires
        cfg.wf(),
        grid_wf(s, cfg),
        in_grid(cfg, x, y),
        cell(s, cfg, x, y).particle_type == ParticleType::Infinity,
    ensures
        cell(spec_step(s, cfg), cfg, x, y).pos_y == neighbor_average(
            s,
            cfg,
            x,
            y,
            cell(s, cfg, x, y).pos_y as int,
        ),
{
    lemma_flat_inverse(cfg, x, y);
    lemma_grid_wf_heights(s, cfg);
    lemma_neighbor_average_tight(s, cfg, x, y);
    assert(cell(spec_step(s, cfg), cfg, x, y) == spec_updated(s, cfg, s[flat_idx(cfg, x, y)]));
}

} // verus!
