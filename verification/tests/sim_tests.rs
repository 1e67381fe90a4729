use fluid_sim::kernels::divergence_pass;
use fluid_sim::sim::{SetupError, SimParams, SimulationLoop};

const FX: i32 = 65536;

fn demo_params() -> SimParams {
    SimParams {
        timestep: FX,
        viscosity: FX / 2,
        diffusion_iters: 30,
        pressure_iters: 40,
        force_scale: 7 * FX,
        force_radius: FX / 24,
    }
}

fn mass(samples: &[i32]) -> i64 {
    samples.iter().map(|&v| v as i64).sum()
}

#[test]
fn create_rejects_out_of_range_dimensions() {
    assert_eq!(SimulationLoop::create(2, 64, 64, 64, demo_params()).err(), Some(SetupError::SetupFailure));
    assert_eq!(SimulationLoop::create(64, 64, 64, 9000, demo_params()).err(), Some(SetupError::SetupFailure));
}

#[test]
fn create_rejects_a_degenerate_impulse_radius() {
    let mut p = demo_params();
    p.force_radius = 0;
    assert_eq!(SimulationLoop::create(64, 64, 64, 64, p).err(), Some(SetupError::SetupFailure));
}

#[test]
fn create_rejects_coefficients_that_underflow() {
    let mut p = demo_params();
    // A vanishing timestep drives the diffusion denominator to zero in
    // the fixed-point encoding.
    p.timestep = 0;
    assert_eq!(SimulationLoop::create(64, 64, 64, 64, p).err(), Some(SetupError::SetupFailure));
}

#[test]
fn create_resolves_exact_solver_coefficients() {
    let s = SimulationLoop::create(64, 64, 64, 64, demo_params()).unwrap();
    // texel = 1/64; alpha = 1 / (texel^2 * 0.5 * 1.0) = 8192.
    assert_eq!(s.config.diffusion_alpha, (8192 * FX, 8192 * FX));
    // beta = 1 / (alpha + 4), truncated in fixed point.
    assert_eq!(s.config.diffusion_beta, (7, 7));
    // pressure alpha = -1 / texel^2 = -4096.
    assert_eq!(s.config.pressure_alpha, (-4096 * FX, -4096 * FX));
    assert_eq!(s.config.pressure_beta, (FX / 4, FX / 4));
}

#[test]
fn create_seeds_zero_velocity_and_a_dye_blob() {
    let s = SimulationLoop::create(16, 16, 64, 64, demo_params()).unwrap();
    assert!(s.velocity.read().data.iter().all(|&v| v == 0));
    assert!(s.pressure.read().data.iter().all(|&v| v == 0));
    assert!(s.dye.read().data.iter().any(|&v| v != 0));
    assert_eq!(s.prev_pointer, (0, FX));
    assert_eq!(s.prev_input_time, None);
    assert_eq!(s.prev_frame_time, None);
}

#[test]
fn step_updates_frame_bookkeeping() {
    let mut s = SimulationLoop::create(8, 8, 8, 8, demo_params()).unwrap();
    s.step((300, 400), 17);
    assert_eq!(s.prev_pointer, (300, 400));
    assert_eq!(s.prev_frame_time, Some(17));
    // The pointer moved, so the input timestamp was taken.
    assert_eq!(s.prev_input_time, Some(17));
    s.step((300, 400), 18);
    // Unchanged pointer: the input timestamp is kept.
    assert_eq!(s.prev_input_time, Some(17));
    assert_eq!(s.prev_frame_time, Some(18));
}

#[test]
fn still_pointer_never_injects_an_impulse() {
    let mut s = SimulationLoop::create(16, 16, 16, 16, demo_params()).unwrap();
    // First step: the pointer moves, but no previous input sample
    // exists, so gating suppresses it.
    s.step((FX / 2, FX / 2), 1);
    assert!(s.velocity.read().data.iter().all(|&v| v == 0));
    // Second step, identical pointer: gated out, velocity untouched.
    s.step((FX / 2, FX / 2), 2);
    assert!(s.velocity.read().data.iter().all(|&v| v == 0));
}

#[test]
fn moving_pointer_with_fresh_input_injects_an_impulse() {
    let mut s = SimulationLoop::create(16, 16, 16, 16, demo_params()).unwrap();
    s.step((FX / 2, FX / 2), 1);
    // The position changed last frame (input time 1, frame time 1), and
    // changes again now, landing on the centre of texel (8, 10): the
    // impulse passes gating.
    s.step((21 * FX / 32, 17 * FX / 32), 2);
    assert!(s.velocity.read().data.iter().any(|&v| v != 0));
}

#[test]
fn step_at_rest_conserves_dye_mass_and_divergence() {
    let mut s = SimulationLoop::create(64, 64, 64, 64, demo_params()).unwrap();
    let mass_before = mass(&s.dye.read().data);
    assert!(mass_before > 0);
    // One frame with no pointer motion: zero velocity advects the dye
    // nowhere, and the dye field comes through bit-identical.
    let dye_before = s.dye.read().data.clone();
    s.step(s.prev_pointer, 5);
    assert_eq!(s.dye.read().data, dye_before);
    assert_eq!(mass(&s.dye.read().data), mass_before);
    // The velocity field is still exactly zero, so its divergence is
    // exactly zero after the projection.
    assert!(s.velocity.read().data.iter().all(|&v| v == 0));
    let div = divergence_pass(s.velocity.read());
    assert!(div.iter().all(|&v| v == 0));
    // The display shows the advected dye field.
    assert_eq!(s.compositor.display, s.dye.read().data);
}
