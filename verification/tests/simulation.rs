use wave_sim::config::{ConfigError, SimConfig};
use wave_sim::particle::{Particle, ParticleType};
use wave_sim::wave_simulation::WaveSimulation;

fn candidate_3x3() -> SimConfig {
    SimConfig {
        width: 3,
        height: 3,
        grid_scale: 10,
        acc_limit: 1000000,
        vel_limit: 1000000,
        height_limit: 2000,
        damping: 995,
        sustainability: 100,
        osz_speed: 200,
    }
}

fn sim_3x3() -> WaveSimulation {
    WaveSimulation::new(SimConfig::new(candidate_3x3()).unwrap())
}

#[test]
fn config_accepts_valid_candidate() {
    let cfg = SimConfig::new(candidate_3x3()).unwrap();
    assert_eq!(cfg.width, 3);
    assert_eq!(cfg.height, 3);
    assert_eq!(cfg.damping, 995);
    assert_eq!(cfg.sustainability, 100);
}

#[test]
fn config_rejects_small_grid() {
    let mut c = candidate_3x3();
    c.width = 2;
    assert_eq!(SimConfig::new(c), Err(ConfigError::GridTooSmall));
}

#[test]
fn config_rejects_large_grid() {
    let mut c = candidate_3x3();
    c.height = 20000;
    assert_eq!(SimConfig::new(c), Err(ConfigError::GridTooLarge));
}

#[test]
fn config_rejects_bad_grid_scale() {
    let mut c = candidate_3x3();
    c.grid_scale = -1;
    assert_eq!(SimConfig::new(c), Err(ConfigError::BadGridScale));
}

#[test]
fn config_rejects_negative_limit() {
    let mut c = candidate_3x3();
    c.acc_limit = -5;
    assert_eq!(SimConfig::new(c), Err(ConfigError::NegativeLimit));
}

#[test]
fn config_rejects_oversized_limit() {
    let mut c = candidate_3x3();
    c.vel_limit = 2000000000;
    assert_eq!(SimConfig::new(c), Err(ConfigError::LimitTooLarge));
}

#[test]
fn config_rejects_bad_damping() {
    let mut c = candidate_3x3();
    c.damping = 1001;
    assert_eq!(SimConfig::new(c), Err(ConfigError::BadDamping));
}

#[test]
fn config_rejects_bad_sustainability() {
    let mut c = candidate_3x3();
    c.sustainability = 0;
    assert_eq!(SimConfig::new(c), Err(ConfigError::BadSustainability));
}

#[test]
fn config_rejects_bad_oscillator_speed() {
    let mut c = candidate_3x3();
    c.osz_speed = 6284;
    assert_eq!(SimConfig::new(c), Err(ConfigError::BadOscillatorSpeed));
}

#[test]
fn config_reports_first_failing_check() {
    let mut c = candidate_3x3();
    c.width = 1;
    c.damping = -3;
    assert_eq!(SimConfig::new(c), Err(ConfigError::GridTooSmall));
}

#[test]
fn config_error_messages_are_distinct() {
    let a = ConfigError::GridTooSmall.message();
    let b = ConfigError::BadDamping.message();
    assert!(!a.is_empty() && !b.is_empty());
    assert_ne!(a, b);
}

#[test]
fn particle_new_is_fluid_at_rest() {
    let p = Particle::new();
    assert_eq!(p.pos_y, 0);
    assert_eq!(p.vel, 0);
    assert_eq!(p.acc, 0);
    assert_eq!(p.particle_type, ParticleType::Fluid);
}

#[test]
fn new_grid_world_positions_are_centered() {
    let sim = sim_3x3();
    let pos = sim.positions();
    assert_eq!(pos.len(), 9);
    // column 0 sits left of the center, column 1 on it, column 2 right of it
    assert_eq!(pos[0].0, -3334);
    assert_eq!(pos[4].0, 0);
    assert_eq!(pos[8].0, 3333);
    // rows follow the same spacing along the other axis
    assert_eq!(pos[0].2, -3334);
    assert_eq!(pos[4].2, 0);
    assert_eq!(pos[8].2, 3333);
    // every fresh cell is at height zero
    assert!(pos.iter().all(|p| p.1 == 0));
}

#[test]
fn flat_grid_is_a_fixed_point() {
    let mut sim = sim_3x3();
    let before = sim.particles.clone();
    for _ in 0..5 {
        sim.update();
    }
    assert_eq!(sim.particles, before);
}

#[test]
fn center_spike_follows_clamp_and_damp_formula() {
    // heights [[0,0,0],[0,1000,0],[0,0,0]]: the center's neighbor average
    // is 0, so its raw acceleration is -1000, damped to -995.
    let mut sim = sim_3x3();
    sim.apply_brush(1, 1, 0, 1000);
    sim.update();
    let center = sim.particles[4];
    assert_eq!(center.acc, -995);
    assert_eq!(center.vel, -995);
    assert_eq!(center.pos_y, 5);
}

#[test]
fn effective_divisor_is_three_at_corners_and_five_at_edges() {
    // same spike: a corner averages the spike over 3 neighbors, an edge
    // over 5, and the damped acceleration shows the divisor.
    let mut sim = sim_3x3();
    sim.apply_brush(1, 1, 0, 1000);
    sim.update();
    let corner = sim.particles[0];
    assert_eq!(corner.acc, (1000 / 3) * 995 / 1000); // 333 damped to 331
    assert_eq!(corner.pos_y, 331);
    let edge = sim.particles[1];
    assert_eq!(edge.acc, (1000 / 5) * 995 / 1000); // 200 damped to 199
    assert_eq!(edge.pos_y, 199);
}

#[test]
fn effective_divisor_is_eight_in_the_interior() {
    // all cells at 1000 except the center at 0: the center averages
    // 8000 over 8 neighbors.
    let mut sim = sim_3x3();
    sim.apply_brush(1, 1, 1, 1000);
    sim.apply_brush(1, 1, 0, 0);
    let avg = sim.particles[4].get_neighbors_average(&sim.particles, &sim.config);
    assert_eq!(avg, 1000);
    sim.update();
    assert_eq!(sim.particles[4].pos_y, 995);
}

#[test]
fn acceleration_clamp_bounds_the_spring() {
    let mut c = candidate_3x3();
    c.acc_limit = 100;
    let mut sim = WaveSimulation::new(SimConfig::new(c).unwrap());
    sim.apply_brush(1, 1, 0, 1000);
    sim.update();
    let center = sim.particles[4];
    // raw acceleration -1000 clamps to -100; damping floors -99.5 to -100
    assert_eq!(center.acc, -100);
    assert_eq!(center.vel, -100);
    assert_eq!(center.pos_y, 900);
}

#[test]
fn velocity_clamp_bounds_the_fall() {
    let mut c = candidate_3x3();
    c.vel_limit = 50;
    let mut sim = WaveSimulation::new(SimConfig::new(c).unwrap());
    sim.apply_brush(1, 1, 0, 1000);
    sim.update();
    let center = sim.particles[4];
    assert_eq!(center.vel, -50);
    assert_eq!(center.pos_y, 950);
}

#[test]
fn heights_and_velocities_stay_within_limits() {
    let mut sim = sim_3x3();
    sim.apply_brush(1, 1, 1, 2000);
    sim.apply_brush(1, 1, 0, -2000);
    for _ in 0..50 {
        sim.update();
        for p in sim.particles.iter() {
            assert!(-2000 <= p.pos_y && p.pos_y <= 2000);
            assert!(-1000000 <= p.vel && p.vel <= 1000000);
        }
    }
}

#[test]
fn oscillator_follows_its_sine_and_ignores_neighbors() {
    let mut quiet = sim_3x3();
    quiet.set_oscillator(1, 1);
    let mut noisy = sim_3x3();
    noisy.set_oscillator(1, 1);
    noisy.apply_brush(0, 0, 0, 1700);
    noisy.apply_brush(2, 2, 0, -1900);
    quiet.update();
    noisy.update();
    // phase advances to 200 mrad; the fixed-point sine of 200 is 200,
    // scaled to the height limit 2000 that is a height of 400.
    assert_eq!(quiet.particles[4].particle_type, ParticleType::Oszillator(200));
    assert_eq!(quiet.particles[4].pos_y, 400);
    assert_eq!(noisy.particles[4].pos_y, 400);
    for _ in 0..99 {
        quiet.update();
        noisy.update();
        assert_eq!(quiet.particles[4].pos_y, noisy.particles[4].pos_y);
    }
    // after 100 steps the phase has wrapped: 100 * 200 mod 6284 = 1148
    assert_eq!(
        quiet.particles[4].particle_type,
        ParticleType::Oszillator((100i64 * 200).rem_euclid(6284))
    );
}

#[test]
fn oscillator_peaks_at_the_height_limit() {
    // a quarter turn from phase 0 is reached after 8 steps of 200 mrad:
    // phase 1600 is close to the peak of the sine arch.
    let mut sim = sim_3x3();
    sim.set_oscillator(1, 1);
    let mut peak: i64 = 0;
    for _ in 0..32 {
        sim.update();
        peak = peak.max(sim.particles[4].pos_y);
        assert!(sim.particles[4].pos_y.abs() <= 2000);
    }
    assert!(peak >= 1990);
}

#[test]
fn solid_cells_are_frozen() {
    let mut sim = sim_3x3();
    sim.apply_brush(1, 1, 1, 800);
    sim.set_borders(ParticleType::Solid);
    let frozen: Vec<Particle> = sim
        .particles
        .iter()
        .filter(|p| p.particle_type == ParticleType::Solid)
        .cloned()
        .collect();
    assert_eq!(frozen.len(), 8);
    for _ in 0..10 {
        sim.update();
    }
    let after: Vec<Particle> = sim
        .particles
        .iter()
        .filter(|p| p.particle_type == ParticleType::Solid)
        .cloned()
        .collect();
    assert_eq!(frozen, after);
}

#[test]
fn infinity_cell_takes_the_mean_of_the_snapshot() {
    let mut sim = sim_3x3();
    sim.apply_brush(1, 1, 0, 900);
    sim.set_borders(ParticleType::Infinity);
    sim.update();
    // corner (0,0) averages its three neighbors of the pre-step snapshot:
    // (0,1), (1,0) at 0 and (1,1) at 900.
    assert_eq!(sim.particles[0].pos_y, 300);
    // edge (0,1) averages five neighbors, one of them the 900 spike.
    assert_eq!(sim.particles[1].pos_y, 180);
}

#[test]
fn set_borders_marks_exactly_the_perimeter() {
    let candidate = SimConfig {
        width: 5,
        height: 5,
        ..candidate_3x3()
    };
    let mut sim = WaveSimulation::new(SimConfig::new(candidate).unwrap());
    let before = sim.particles.clone();
    sim.set_borders(ParticleType::Infinity);
    let mut perimeter = 0;
    let mut interior = 0;
    for (i, p) in sim.particles.iter().enumerate() {
        let x = i / 5;
        let y = i % 5;
        if x == 0 || x == 4 || y == 0 || y == 4 {
            perimeter += 1;
            assert_eq!(p.particle_type, ParticleType::Infinity);
            let mut expected = before[i];
            expected.particle_type = ParticleType::Infinity;
            assert_eq!(*p, expected);
        } else {
            interior += 1;
            assert_eq!(*p, before[i]);
        }
    }
    assert_eq!(perimeter, 16);
    assert_eq!(interior, 9);
}

#[test]
fn reset_oscillators_clears_the_interior_only() {
    let mut sim = sim_3x3();
    sim.set_oscillator(1, 1);
    sim.set_borders(ParticleType::Infinity);
    sim.reset_oscillators();
    for (i, p) in sim.particles.iter().enumerate() {
        let x = i / 3;
        let y = i % 3;
        if x == 0 || x == 2 || y == 0 || y == 2 {
            assert_eq!(p.particle_type, ParticleType::Infinity);
        } else {
            assert_eq!(p.particle_type, ParticleType::Fluid);
        }
    }
}

#[test]
fn apply_brush_touches_exactly_its_square() {
    let candidate = SimConfig {
        width: 200,
        height: 200,
        ..candidate_3x3()
    };
    let mut sim = WaveSimulation::new(SimConfig::new(candidate).unwrap());
    sim.apply_brush(10, 10, 2, 777);
    let mut touched = 0;
    for (i, p) in sim.particles.iter().enumerate() {
        let x = i / 200;
        let y = i % 200;
        if (8..=12).contains(&x) && (8..=12).contains(&y) {
            touched += 1;
            assert_eq!(p.pos_y, 777);
            assert_eq!(p.particle_type, ParticleType::Fluid);
        } else {
            assert_eq!(p.pos_y, 0);
        }
    }
    assert_eq!(touched, 25);
}

#[test]
fn scheduler_is_deterministic_across_partition_counts() {
    let build = || {
        let candidate = SimConfig {
            width: 8,
            height: 5,
            ..candidate_3x3()
        };
        let mut sim = WaveSimulation::new(SimConfig::new(candidate).unwrap());
        sim.apply_brush(2, 2, 1, 1500);
        sim.apply_brush(5, 2, 2, -900);
        sim.set_oscillator(4, 3);
        sim.set_borders(ParticleType::Infinity);
        sim
    };
    let mut one = build();
    let mut many = build();
    let mut all = build();
    for _ in 0..20 {
        one.update_with_partitions(1);
        many.update_with_partitions(3);
        all.update_with_partitions(8);
    }
    assert_eq!(one.particles, many.particles);
    assert_eq!(one.particles, all.particles);
}

#[test]
fn update_with_partitions_really_steps_the_grid() {
    let mut sequentialish = sim_3x3();
    sequentialish.apply_brush(1, 1, 0, 1000);
    sequentialish.update_with_partitions(2);
    assert_eq!(sequentialish.particles[4].pos_y, 5);
    assert_eq!(sequentialish.particles[0].pos_y, 331);
}

#[test]
fn face_indices_cover_the_interior_quads() {
    let sim = sim_3x3();
    let faces = sim.face_indices();
    assert_eq!(faces.len(), 8);
    // cell (0,0) opens the first quad toward (0,1) and (1,0)
    assert_eq!(faces[0], (0, 1, 3));
    // cell (1,1) closes one quad and opens another
    assert!(faces.contains(&(4, 3, 1)));
    assert!(faces.contains(&(4, 5, 7)));
    // every vertex index addresses a cell
    assert!(faces.iter().all(|f| f.0 < 9 && f.1 < 9 && f.2 < 9));
}
