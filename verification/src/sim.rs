//! The per-frame solver: state, setup, and the fixed-order step.
//!
//! A [`SimulationLoop`] owns the whole simulation state exclusively — the
//! double-buffered velocity, dye and pressure fields, the static
//! boundary-offsets field, one scratch field, and the compositor — and
//! is driven by an external frame scheduler that calls [`SimulationLoop::step`]
//! once per frame with the current pointer sample and timestamp.  A step
//! runs to completion synchronously: velocity boundary, self-advection,
//! dye advection, gated impulse injection, diffusion by Jacobi
//! relaxation, divergence, the pressure solve, boundary re-application,
//! gradient subtraction, and the composite of the dye field to the
//! display.  The contract of `step` pins every field's contents to the
//! composition of the pass specifications in `kernels`.

use vstd::prelude::*;

use crate::compositor::Compositor;
use crate::field::ArrayView;
use crate::field::DoubleBufferedField;
use crate::field::FieldBuffer;
use crate::field::FilterMode;
use crate::field::PixelFormat;
use crate::field::SamplingParams;
use crate::field::WrapMode;
use crate::fixed::FX_ONE;
use crate::fixed::clamp32;
use crate::fixed::clamp_to_i32;
use crate::fixed::fx_div;
use crate::fixed::fx_div_s;
use crate::fixed::fx_mul;
use crate::fixed::fx_mul_s;
use crate::kernels::advect_seq;
use crate::kernels::advect_pass;
use crate::kernels::boundary_seq;
use crate::kernels::boundary_pass;
use crate::kernels::divergence_seq;
use crate::kernels::divergence_pass;
use crate::kernels::dye_seq;
use crate::kernels::gradient_seq;
use crate::kernels::gradient_pass;
use crate::kernels::jacobi_iters;
use crate::kernels::jacobi_pass;
use crate::kernels::jacobi_seq;
use crate::kernels::make_boundary_offsets;
use crate::kernels::make_initial_dye;
use crate::kernels::offsets_seq;
use crate::kernels::splat_seq;
use crate::kernels::splat_pass;
use crate::kernels::zero_grid;
use crate::kernels::zero_seq;

verus! {

/// Setup could not complete; no frame is ever scheduled.
#[derive(Clone, Copy, PartialEq, Eq, Structural, Debug)]
pub enum SetupError {
    SetupFailure,
}

/// The externally tunable configuration of the solver.
#[derive(Clone, Copy, PartialEq, Eq, Structural, Debug)]
pub struct SimParams {
    /// Timestep per frame, fixed point.
    pub timestep: i32,
    /// Viscosity of the diffusion step, fixed point.
    pub viscosity: i32,
    /// Number of Jacobi relaxation steps of the diffusion solve.
    pub diffusion_iters: usize,
    /// Number of boundary-plus-Jacobi rounds of the pressure solve.
    pub pressure_iters: usize,
    /// Scale applied to the pointer motion when injecting an impulse.
    pub force_scale: i32,
    /// Falloff radius of an injected impulse, fixed point, in `(0, 1]`.
    pub force_radius: i32,
}

/// The configuration together with the per-axis solver coefficients
/// resolved once at setup.
#[derive(Clone, Copy, PartialEq, Eq, Debug)]
pub struct SimConfig {
    pub params: SimParams,
    pub diffusion_alpha: (i32, i32),
    pub diffusion_beta: (i32, i32),
    pub pressure_alpha: (i32, i32),
    pub pressure_beta: (i32, i32),
}

/// The size of one texel along an axis of `n` texels, fixed point.
pub open spec fn texel_fx_s(n: int) -> i32
    recommends
        4 <= n <= 8192,
{
    (65536int / n) as i32
}

/// The denominator `texel^2 * viscosity * timestep` of the diffusion
/// coefficient along an axis; zero when the encoding underflows.
pub open spec fn diff_denom_s(n: int, viscosity: i32, timestep: i32) -> i32 {
    fx_mul_s(fx_mul_s(texel_fx_s(n), texel_fx_s(n)), fx_mul_s(viscosity, timestep))
}

/// The diffusion Jacobi coefficient `alpha` along an axis.
pub open spec fn diff_alpha_s(n: int, viscosity: i32, timestep: i32) -> i32 {
    fx_div_s(65536i32, diff_denom_s(n, viscosity, timestep))
}

/// The denominator `alpha + 4` of the diffusion coefficient `beta`.
pub open spec fn beta_denom_s(alpha: i32) -> i32 {
    clamp32(alpha as int + 262144) as i32
}

/// The diffusion Jacobi coefficient `beta` along an axis.
pub open spec fn diff_beta_s(n: int, viscosity: i32, timestep: i32) -> i32 {
    fx_div_s(65536i32, beta_denom_s(diff_alpha_s(n, viscosity, timestep)))
}

/// The denominator `texel^2` of the pressure coefficient; zero when the
/// encoding underflows.
pub open spec fn pressure_denom_s(n: int) -> i32 {
    fx_mul_s(texel_fx_s(n), texel_fx_s(n))
}

/// The pressure Jacobi coefficient `alpha` along an axis.
pub open spec fn pressure_alpha_s(n: int) -> i32 {
    fx_div_s(-65536i32, pressure_denom_s(n))
}

/// What setup accepts: grid edges in range, an impulse radius in
/// `(0, 1]`, and solver coefficients that survive the fixed-point
/// encoding with nonzero denominators.
pub open spec fn setup_ok(sim_w: int, sim_h: int, dye_w: int, dye_h: int, p: SimParams) -> bool {
    &&& 4 <= sim_w <= 8192
    &&& 4 <= sim_h <= 8192
    &&& 4 <= dye_w <= 8192
    &&& 4 <= dye_h <= 8192
    &&& 0 < p.force_radius <= 65536
    &&& diff_denom_s(sim_w, p.viscosity, p.timestep) != 0
    &&& diff_denom_s(sim_h, p.viscosity, p.timestep) != 0
    &&& beta_denom_s(diff_alpha_s(sim_w, p.viscosity, p.timestep)) != 0
    &&& beta_denom_s(diff_alpha_s(sim_h, p.viscosity, p.timestep)) != 0
    &&& pressure_denom_s(sim_w) != 0
    &&& pressure_denom_s(sim_h) != 0
}

/// The whole simulation state, owned and mutated by `step` exclusively.
pub struct SimulationLoop {
    pub config: SimConfig,
    /// The velocity field, double buffered, two channels.
    pub velocity: DoubleBufferedField,
    /// The displayed dye field, double buffered, four channels.
    pub dye: DoubleBufferedField,
    /// The pressure scratch pair for the Jacobi pressure solve.
    pub pressure: DoubleBufferedField,
    /// Static per-edge reflection coefficients, computed once at setup.
    pub boundary_offsets: FieldBuffer,
    /// One scratch field, overwritten each use, never swapped.
    pub temp: FieldBuffer,
    /// An all-zero field used to clear others by copy.
    pub blank: FieldBuffer,
    pub compositor: Compositor,
    /// The pointer position sampled at the previous step.
    pub prev_pointer: (i32, i32),
    /// When the pointer position last changed.
    pub prev_input_time: Option<u64>,
    /// When the previous frame was rendered.
    pub prev_frame_time: Option<u64>,
}

/// The simulation grid width.
pub open spec fn sim_w(s: SimulationLoop) -> int {
    s.velocity.first.width as int
}

/// The simulation grid height.
pub open spec fn sim_h(s: SimulationLoop) -> int {
    s.velocity.first.height as int
}

/// The dye grid width.
pub open spec fn dye_w(s: SimulationLoop) -> int {
    s.dye.first.width as int
}

/// The dye grid height.
pub open spec fn dye_h(s: SimulationLoop) -> int {
    s.dye.first.height as int
}

impl SimulationLoop {
    /// Everything `step` relies on: well-formed fields of consistent
    /// shapes, the static offsets field holding the standard reflection
    /// coefficients, an all-zero clear field, and a pointer sample
    /// inside the unit square.
    pub open spec fn wf(self) -> bool {
        &&& self.velocity.wf()
        &&& self.dye.wf()
        &&& self.pressure.wf()
        &&& self.boundary_offsets.wf()
        &&& self.temp.wf()
        &&& self.blank.wf()
        &&& self.compositor.wf()
        &&& self.velocity.first.format == PixelFormat::Rg
        &&& self.pressure.first.format == PixelFormat::Rg
        &&& self.dye.first.format == PixelFormat::Rgba
        &&& self.boundary_offsets.format == PixelFormat::Rg
        &&& self.temp.format == PixelFormat::Rg
        &&& self.blank.format == PixelFormat::Rg
        &&& self.pressure.first.width == self.velocity.first.width
        &&& self.pressure.first.height == self.velocity.first.height
        &&& self.boundary_offsets.width == self.velocity.first.width
        &&& self.boundary_offsets.height == self.velocity.first.height
        &&& self.temp.width == self.velocity.first.width
        &&& self.temp.height == self.velocity.first.height
        &&& self.blank.width == self.velocity.first.width
        &&& self.blank.height == self.velocity.first.height
        &&& self.compositor.display_width == self.dye.first.width
        &&& self.compositor.display_height == self.dye.first.height
        &&& self.boundary_offsets.data@ == offsets_seq(sim_w(self), sim_h(self))
        &&& self.blank.data@ == zero_seq(sim_w(self), sim_h(self), 2)
        &&& 0 < self.config.params.force_radius <= 65536
        &&& 0 <= self.prev_pointer.0 <= 65536
        &&& 0 <= self.prev_pointer.1 <= 65536
    }

    /// Allocate every field at fixed resolutions, resolve the solver
    /// coefficients, seed the dye blob, and compute the static
    /// boundary-offsets field.  Fails fast, before any frame is
    /// scheduled, when a dimension is out of range or a coefficient
    /// denominator vanishes in the fixed-point encoding.
    pub fn create(
        sim_width: usize,
        sim_height: usize,
        dye_width: usize,
        dye_height: usize,
        params: SimParams,
    ) -> (r: Result<SimulationLoop, SetupError>)
        ensures
            r is Ok <==> setup_ok(
                sim_width as int,
                sim_height as int,
                dye_width as int,
                dye_height as int,
                params,
            ),
            r matches Err(e) ==> e == SetupError::SetupFailure,
            r matches Ok(s) ==> {
                &&& s.wf()
                &&& sim_w(s) == sim_width
                &&& sim_h(s) == sim_height
                &&& dye_w(s) == dye_width
                &&& dye_h(s) == dye_height
                &&& s.config.params == params
                &&& s.config.diffusion_alpha == (
                    diff_alpha_s(sim_width as int, params.viscosity, params.timestep),
                    diff_alpha_s(sim_height as int, params.viscosity, params.timestep),
                )
                &&& s.config.diffusion_beta == (
                    diff_beta_s(sim_width as int, params.viscosity, params.timestep),
                    diff_beta_s(sim_height as int, params.viscosity, params.timestep),
                )
                &&& s.config.pressure_alpha == (
                    pressure_alpha_s(sim_width as int),
                    pressure_alpha_s(sim_height as int),
                )
                &&& s.config.pressure_beta == (16384i32, 16384i32)
                &&& s.velocity.read_spec().data@ == zero_seq(sim_width as int, sim_height as int, 2)
                &&& s.velocity.write_spec().data@ == zero_seq(
                    sim_width as int,
                    sim_height as int,
                    2,
                )
                &&& s.dye.read_spec().data@ == dye_seq(dye_width as int, dye_height as int)
                &&& s.pressure.read_spec().data@ == zero_seq(sim_width as int, sim_height as int, 2)
                &&& s.temp.data@ == zero_seq(sim_width as int, sim_height as int, 2)
                &&& s.compositor.display@ == zero_seq(dye_width as int, dye_height as int, 4)
                &&& s.prev_pointer == (0i32, 65536i32)
                &&& s.prev_input_time is None
                &&& s.prev_frame_time is None
            },
    {
        if sim_width < 4 || sim_width > 8192 || sim_height < 4 || sim_height > 8192 || dye_width
            < 4 || dye_width > 8192 || dye_height < 4 || dye_height > 8192 {
            return Err(SetupError::SetupFailure);
        }
        if params.force_radius <= 0 || params.force_radius > 65536 {
            return Err(SetupError::SetupFailure);
        }
        let tx = texel_fx(sim_width);
        let ty = texel_fx(sim_height);
        let visc_dt = fx_mul(params.viscosity, params.timestep);
        let denom_x = fx_mul(fx_mul(tx, tx), visc_dt);
        let denom_y = fx_mul(fx_mul(ty, ty), visc_dt);
        if denom_x == 0 || denom_y == 0 {
            return Err(SetupError::SetupFailure);
        }
        let alpha_x = fx_div(65536, denom_x);
        let alpha_y = fx_div(65536, denom_y);
        let beta_denom_x = clamp_to_i32(alpha_x as i64 + 262144);
        let beta_denom_y = clamp_to_i32(alpha_y as i64 + 262144);
        if beta_denom_x == 0 || beta_denom_y == 0 {
            return Err(SetupError::SetupFailure);
        }
        let beta_x = fx_div(65536, beta_denom_x);
        let beta_y = fx_div(65536, beta_denom_y);
        let pressure_denom_x = fx_mul(tx, tx);
        let pressure_denom_y = fx_mul(ty, ty);
        if pressure_denom_x == 0 || pressure_denom_y == 0 {
            return Err(SetupError::SetupFailure);
        }
        let pressure_alpha_x = fx_div(-65536, pressure_denom_x);
        let pressure_alpha_y = fx_div(-65536, pressure_denom_y);
        let config = SimConfig {
            params,
            diffusion_alpha: (alpha_x, alpha_y),
            diffusion_beta: (beta_x, beta_y),
            pressure_alpha: (pressure_alpha_x, pressure_alpha_y),
            pressure_beta: (16384, 16384),
        };
        let sampling = SamplingParams { filter: FilterMode::Nearest, wrap: WrapMode::ClampToEdge };
        let offsets_data = make_boundary_offsets(sim_width, sim_height);
        let boundary_offsets = FieldBuffer::create(
            0,
            sim_width,
            sim_height,
            PixelFormat::Rg,
            Some(ArrayView::create(offsets_data.as_slice())),
            sampling,
        );
        let zero_rg = zero_grid(sim_width, sim_height, 2);
        let temp = FieldBuffer::create(
            1,
            sim_width,
            sim_height,
            PixelFormat::Rg,
            Some(ArrayView::create(zero_rg.as_slice())),
            sampling,
        );
        let blank = FieldBuffer::create(
            2,
            sim_width,
            sim_height,
            PixelFormat::Rg,
            Some(ArrayView::create(zero_rg.as_slice())),
            sampling,
        );
        let velocity = DoubleBufferedField::create(
            FieldBuffer::create(
                3,
                sim_width,
                sim_height,
                PixelFormat::Rg,
                Some(ArrayView::create(zero_rg.as_slice())),
                sampling,
            ),
            FieldBuffer::create(
                4,
                sim_width,
                sim_height,
                PixelFormat::Rg,
                Some(ArrayView::create(zero_rg.as_slice())),
                sampling,
            ),
        );
        let pressure = DoubleBufferedField::create(
            FieldBuffer::create(
                5,
                sim_width,
                sim_height,
                PixelFormat::Rg,
                Some(ArrayView::create(zero_rg.as_slice())),
                sampling,
            ),
            FieldBuffer::create(
                6,
                sim_width,
                sim_height,
                PixelFormat::Rg,
                Some(ArrayView::create(zero_rg.as_slice())),
                sampling,
            ),
        );
        let dye_data = make_initial_dye(dye_width, dye_height);
        let zero_rgba = zero_grid(dye_width, dye_height, 4);
        let dye = DoubleBufferedField::create(
            FieldBuffer::create(
                7,
                dye_width,
                dye_height,
                PixelFormat::Rgba,
                Some(ArrayView::create(dye_data.as_slice())),
                sampling,
            ),
            FieldBuffer::create(
                8,
                dye_width,
                dye_height,
                PixelFormat::Rgba,
                Some(ArrayView::create(zero_rgba.as_slice())),
                sampling,
            ),
        );
        let compositor = Compositor::create(dye_width, dye_height);
        Ok(
            SimulationLoop {
                config,
                velocity,
                dye,
                pressure,
                boundary_offsets,
                temp,
                blank,
                compositor,
                prev_pointer: (0, 65536),
                prev_input_time: None,
                prev_frame_time: None,
            },
        )
    }
}

/// Whether an impulse is injected this frame: the pointer moved, and
/// the input sample is not older than the previously rendered frame, so
/// a stale sample is never replayed after a dropped frame.
pub open spec fn gate_open(s: SimulationLoop, pointer: (i32, i32)) -> bool {
    &&& pointer != s.prev_pointer
    &&& s.prev_input_time is Some
    &&& s.prev_frame_time is Some
    &&& s.prev_input_time->0 >= s.prev_frame_time->0
}

/// The impulse force vector: the pointer motion since the previous
/// frame, scaled by the configured force scale.
pub open spec fn impulse_force(s: SimulationLoop, pointer: (i32, i32)) -> (i32, i32) {
    (
        fx_mul_s(s.config.params.force_scale, (pointer.0 - s.prev_pointer.0) as i32),
        fx_mul_s(s.config.params.force_scale, (pointer.1 - s.prev_pointer.1) as i32),
    )
}

/// The velocity field after its boundary pass and self-advection.
pub open spec fn velocity_after_advect(s: SimulationLoop) -> Seq<i32> {
    let w = sim_w(s);
    let h = sim_h(s);
    let v1 = boundary_seq(s.velocity.read_spec().data@, offsets_seq(w, h), w, h, -65536i32);
    advect_seq(v1, w, h, 2, v1, w, h, s.config.params.timestep)
}

/// The dye field after advection through the just-advected velocity.
pub open spec fn dye_after_advect(s: SimulationLoop) -> Seq<i32> {
    advect_seq(
        s.dye.read_spec().data@,
        dye_w(s),
        dye_h(s),
        4,
        velocity_after_advect(s),
        sim_w(s),
        sim_h(s),
        s.config.params.timestep,
    )
}

/// The velocity field after the gated impulse stage: unchanged unless
/// gating lets the impulse through.
pub open spec fn velocity_after_impulse(s: SimulationLoop, pointer: (i32, i32)) -> Seq<i32> {
    if gate_open(s, pointer) {
        splat_seq(
            velocity_after_advect(s),
            sim_w(s),
            sim_h(s),
            pointer.0,
            pointer.1,
            impulse_force(s, pointer),
            s.config.params.force_radius,
        )
    } else {
        velocity_after_advect(s)
    }
}

/// The velocity field after diffusion: the configured number of Jacobi
/// steps from an explicitly cleared field, against the pre-diffusion
/// velocity captured in the scratch field.
pub open spec fn velocity_after_diffusion(s: SimulationLoop, pointer: (i32, i32)) -> Seq<i32> {
    jacobi_iters(
        s.config.params.diffusion_iters as nat,
        zero_seq(sim_w(s), sim_h(s), 2),
        velocity_after_impulse(s, pointer),
        sim_w(s),
        sim_h(s),
        s.config.diffusion_alpha,
        s.config.diffusion_beta,
    )
}

/// The divergence of the diffused velocity, held in the scratch field.
pub open spec fn divergence_after(s: SimulationLoop, pointer: (i32, i32)) -> Seq<i32> {
    divergence_seq(velocity_after_diffusion(s, pointer), sim_w(s), sim_h(s))
}

/// One round of the pressure solve: a Neumann boundary pass, then one
/// Jacobi step against the divergence field.
pub open spec fn pressure_round(
    p: Seq<i32>,
    div: Seq<i32>,
    w: int,
    h: int,
    alpha: (i32, i32),
    beta: (i32, i32),
) -> Seq<i32> {
    jacobi_seq(boundary_seq(p, offsets_seq(w, h), w, h, 65536i32), div, w, h, alpha, beta)
}

/// `n` rounds of the pressure solve from the initial guess `p0`.
pub open spec fn pressure_rounds(
    n: nat,
    p0: Seq<i32>,
    div: Seq<i32>,
    w: int,
    h: int,
    alpha: (i32, i32),
    beta: (i32, i32),
) -> Seq<i32>
    decreases n,
{
    if n == 0 {
        p0
    } else {
        pressure_round(
            pressure_rounds((n - 1) as nat, p0, div, w, h, alpha, beta),
            div,
            w,
            h,
            alpha,
            beta,
        )
    }
}

/// The pressure field after the solve: the configured number of rounds
/// from an explicitly cleared field.
pub open spec fn pressure_after(s: SimulationLoop, pointer: (i32, i32)) -> Seq<i32> {
    pressure_rounds(
        s.config.params.pressure_iters as nat,
        zero_seq(sim_w(s), sim_h(s), 2),
        divergence_after(s, pointer),
        sim_w(s),
        sim_h(s),
        s.config.pressure_alpha,
        s.config.pressure_beta,
    )
}

/// The velocity field after boundary re-application, just before the
/// pressure gradient is subtracted.
pub open spec fn velocity_before_project(s: SimulationLoop, pointer: (i32, i32)) -> Seq<i32> {
    boundary_seq(
        velocity_after_diffusion(s, pointer),
        offsets_seq(sim_w(s), sim_h(s)),
        sim_w(s),
        sim_h(s),
        -65536i32,
    )
}

/// The velocity field a step leaves behind: projected toward
/// divergence-free by subtracting the solved pressure gradient.
pub open spec fn velocity_final(s: SimulationLoop, pointer: (i32, i32)) -> Seq<i32> {
    gradient_seq(
        velocity_before_project(s, pointer),
        pressure_after(s, pointer),
        sim_w(s),
        sim_h(s),
    )
}

/// If the pointer position is identical across two consecutive steps,
/// the impulse stage leaves the velocity field bit-identical to what
/// self-advection produced: nothing is injected.
pub proof fn lemma_impulse_gating_identity(s: SimulationLoop, pointer: (i32, i32))
    requires
        pointer == s.prev_pointer,
    ensures
        velocity_after_impulse(s, pointer) == velocity_after_advect(s),
{
}

/// The pressure solve from an all-zero guess against an all-zero
/// divergence field stays all zero, for any number of rounds.
pub proof fn lemma_pressure_rounds_of_zero(
    n: nat,
    w: int,
    h: int,
    alpha: (i32, i32),
    beta: (i32, i32),
)
    requires
        crate::grid::dims_ok(w, h, 2),
    ensures
        pressure_rounds(n, zero_seq(w, h, 2), zero_seq(w, h, 2), w, h, alpha, beta) == zero_seq(
            w,
            h,
            2,
        ),
    decreases n,
{
    if n > 0 {
        lemma_pressure_rounds_of_zero((n - 1) as nat, w, h, alpha, beta);
        crate::kernels::lemma_boundary_of_zero(offsets_seq(w, h), w, h, 65536i32);
        crate::kernels::lemma_jacobi_step_of_zero(w, h, alpha, beta);
    }
}

/// A step at rest: with an all-zero velocity field and an unmoved
/// pointer, a step carries the dye field through bit-identical — its
/// total mass is exactly conserved — and leaves the velocity all zero,
/// whose divergence is exactly zero after the projection.
pub proof fn lemma_step_at_rest(s: SimulationLoop, pointer: (i32, i32))
    requires
        s.wf(),
        s.velocity.read_spec().data@ == zero_seq(sim_w(s), sim_h(s), 2),
        pointer == s.prev_pointer,
    ensures
        dye_after_advect(s) == s.dye.read_spec().data@,
        velocity_final(s, pointer) == zero_seq(sim_w(s), sim_h(s), 2),
        pressure_after(s, pointer) == zero_seq(sim_w(s), sim_h(s), 2),
        divergence_seq(velocity_final(s, pointer), sim_w(s), sim_h(s)) == zero_seq(
            sim_w(s),
            sim_h(s),
            2,
        ),
{
    let w = sim_w(s);
    let h = sim_h(s);
    let z = zero_seq(w, h, 2);
    crate::kernels::lemma_boundary_of_zero(offsets_seq(w, h), w, h, -65536i32);
    crate::kernels::lemma_advect_zero_velocity(z, w, h, 2, w, h, s.config.params.timestep);
    assert(velocity_after_advect(s) == z);
    crate::kernels::lemma_advect_zero_velocity(
        s.dye.read_spec().data@,
        dye_w(s),
        dye_h(s),
        4,
        w,
        h,
        s.config.params.timestep,
    );
    lemma_impulse_gating_identity(s, pointer);
    crate::kernels::lemma_jacobi_zero_fixed_point(
        s.config.params.diffusion_iters as nat,
        w,
        h,
        s.config.diffusion_alpha,
        s.config.diffusion_beta,
    );
    assert(velocity_after_diffusion(s, pointer) == z);
    crate::kernels::lemma_divergence_of_zero(w, h);
    assert(divergence_after(s, pointer) == z);
    lemma_pressure_rounds_of_zero(
        s.config.params.pressure_iters as nat,
        w,
        h,
        s.config.pressure_alpha,
        s.config.pressure_beta,
    );
    assert(pressure_after(s, pointer) == z);
    assert(velocity_before_project(s, pointer) == z);
    crate::kernels::lemma_gradient_of_zero(w, h);
    assert(velocity_final(s, pointer) == z);
}

impl SimulationLoop {
    /// Execute one frame: the fixed-order pass sequence over the whole
    /// state, ending with the dye field composited to the display.  The
    /// pointer sample must be normalized to the unit square; `now` is
    /// the frame timestamp from the external scheduler.
    #[verifier::rlimit(100)]
    pub fn step(&mut self, pointer: (i32, i32), now: u64)
        requires
            old(self).wf(),
            0 <= pointer.0 <= 65536,
            0 <= pointer.1 <= 65536,
        ensures
            final(self).wf(),
            sim_w(*final(self)) == sim_w(*old(self)),
            sim_h(*final(self)) == sim_h(*old(self)),
            dye_w(*final(self)) == dye_w(*old(self)),
            dye_h(*final(self)) == dye_h(*old(self)),
            final(self).config == old(self).config,
            final(self).boundary_offsets == old(self).boundary_offsets,
            final(self).blank == old(self).blank,
            final(self).velocity.read_spec().data@ == velocity_final(*old(self), pointer),
            final(self).velocity.write_spec().data@ == velocity_before_project(
                *old(self),
                pointer,
            ),
            final(self).dye.read_spec().data@ == dye_after_advect(*old(self)),
            final(self).dye.write_spec().data@ == old(self).dye.read_spec().data@,
            final(self).pressure.read_spec().data@ == pressure_after(*old(self), pointer),
            final(self).temp.data@ == divergence_after(*old(self), pointer),
            final(self).compositor.display@ == dye_after_advect(*old(self)),
            final(self).prev_pointer == pointer,
            final(self).prev_frame_time == Some(now),
            final(self).prev_input_time == (if pointer != old(self).prev_pointer {
                Some(now)
            } else {
                old(self).prev_input_time
            }),
    {
        let ghost s0 = *self;
        let ghost w = sim_w(s0);
        let ghost h = sim_h(s0);
        let dt = self.config.params.timestep;

        // Velocity boundary.
        let out = boundary_pass(self.velocity.read(), &self.boundary_offsets, -FX_ONE);
        commit_pass(&self.compositor, &mut self.velocity, out);
        let ghost v1 = boundary_seq(s0.velocity.read_spec().data@, offsets_seq(w, h), w, h, -65536i32);
        proof {
            assert(self.velocity.read_spec().data@ == v1);
        }

        // Self-advection of velocity.
        let out = advect_pass(self.velocity.read(), self.velocity.read(), dt);
        commit_pass(&self.compositor, &mut self.velocity, out);
        proof {
            assert(self.velocity.read_spec().data@ == velocity_after_advect(s0));
        }

        // Dye advection through the advected velocity.
        let out = advect_pass(self.dye.read(), self.velocity.read(), dt);
        commit_pass(&self.compositor, &mut self.dye, out);
        proof {
            assert(self.dye.read_spec().data@ == dye_after_advect(s0));
            assert(self.dye.write_spec().data@ == s0.dye.read_spec().data@);
        }

        // Gated impulse injection.
        let pos_changed = pointer.0 != self.prev_pointer.0 || pointer.1 != self.prev_pointer.1;
        let gate = pos_changed && (match (self.prev_input_time, self.prev_frame_time) {
            (Some(input_t), Some(frame_t)) => input_t >= frame_t,
            _ => false,
        });
        proof {
            assert(gate == gate_open(s0, pointer));
        }
        if gate {
            let fx_x = fx_mul(self.config.params.force_scale, pointer.0 - self.prev_pointer.0);
            let fx_y = fx_mul(self.config.params.force_scale, pointer.1 - self.prev_pointer.1);
            let out = splat_pass(
                self.velocity.read(),
                pointer.0,
                pointer.1,
                (fx_x, fx_y),
                self.config.params.force_radius,
            );
            commit_pass(&self.compositor, &mut self.velocity, out);
        }
        if pos_changed {
            self.prev_input_time = Some(now);
        }
        self.prev_pointer = pointer;
        proof {
            assert(self.velocity.read_spec().data@ == velocity_after_impulse(s0, pointer));
        }

        // Diffusion: capture the pre-diffusion velocity, clear the
        // field, then relax.
        let copy_res = self.temp.copy_from(self.velocity.read());
        proof {
            assert(copy_res is Ok);
        }
        let clear_res = self.velocity.read_mut().copy_from(&self.blank);
        proof {
            assert(clear_res is Ok);
            assert(self.velocity.read_spec().data@ == zero_seq(w, h, 2));
            assert(self.temp.data@ == velocity_after_impulse(s0, pointer));
        }
        let ghost dstate = *self;
        let n_d = self.config.params.diffusion_iters;
        let mut it: usize = 0;
        while it < n_d
            invariant
                self.wf(),
                it <= n_d,
                n_d == dstate.config.params.diffusion_iters,
                self.config == dstate.config,
                self.dye == dstate.dye,
                self.pressure == dstate.pressure,
                self.boundary_offsets == dstate.boundary_offsets,
                self.temp == dstate.temp,
                self.blank == dstate.blank,
                self.compositor == dstate.compositor,
                self.prev_pointer == dstate.prev_pointer,
                self.prev_input_time == dstate.prev_input_time,
                self.prev_frame_time == dstate.prev_frame_time,
                self.velocity.first.width == dstate.velocity.first.width,
                self.velocity.first.height == dstate.velocity.first.height,
                sim_w(dstate) == sim_w(*self),
                sim_h(dstate) == sim_h(*self),
                self.velocity.read_spec().data@ == jacobi_iters(
                    it as nat,
                    dstate.velocity.read_spec().data@,
                    dstate.temp.data@,
                    sim_w(dstate),
                    sim_h(dstate),
                    dstate.config.diffusion_alpha,
                    dstate.config.diffusion_beta,
                ),
            decreases n_d - it,
        {
            let out = jacobi_pass(
                self.velocity.read(),
                &self.temp,
                self.config.diffusion_alpha,
                self.config.diffusion_beta,
            );
            commit_pass(&self.compositor, &mut self.velocity, out);
            proof {
                assert(jacobi_iters(
                    (it + 1) as nat,
                    dstate.velocity.read_spec().data@,
                    dstate.temp.data@,
                    sim_w(dstate),
                    sim_h(dstate),
                    dstate.config.diffusion_alpha,
                    dstate.config.diffusion_beta,
                ) == jacobi_seq(
                    jacobi_iters(
                        it as nat,
                        dstate.velocity.read_spec().data@,
                        dstate.temp.data@,
                        sim_w(dstate),
                        sim_h(dstate),
                        dstate.config.diffusion_alpha,
                        dstate.config.diffusion_beta,
                    ),
                    dstate.temp.data@,
                    sim_w(dstate),
                    sim_h(dstate),
                    dstate.config.diffusion_alpha,
                    dstate.config.diffusion_beta,
                ));
            }
            it = it + 1;
        }
        proof {
            assert(self.velocity.read_spec().data@ == velocity_after_diffusion(s0, pointer));
        }

        // Divergence of the diffused velocity, into the scratch field.
        let out = divergence_pass(self.velocity.read());
        self.compositor.blit(&mut self.temp, out);
        proof {
            assert(self.temp.data@ == divergence_after(s0, pointer));
        }

        // Pressure solve from a cleared field.
        let pclear_res = self.pressure.read_mut().copy_from(&self.blank);
        proof {
            assert(pclear_res is Ok);
            assert(self.pressure.read_spec().data@ == zero_seq(w, h, 2));
        }
        let ghost pstate = *self;
        let n_p = self.config.params.pressure_iters;
        let mut it: usize = 0;
        while it < n_p
            invariant
                self.wf(),
                it <= n_p,
                n_p == pstate.config.params.pressure_iters,
                self.config == pstate.config,
                self.dye == pstate.dye,
                self.velocity == pstate.velocity,
                self.boundary_offsets == pstate.boundary_offsets,
                self.temp == pstate.temp,
                self.blank == pstate.blank,
                self.compositor == pstate.compositor,
                self.prev_pointer == pstate.prev_pointer,
                self.prev_input_time == pstate.prev_input_time,
                self.prev_frame_time == pstate.prev_frame_time,
                self.pressure.first.width == pstate.pressure.first.width,
                self.pressure.first.height == pstate.pressure.first.height,
                sim_w(pstate) == sim_w(*self),
                sim_h(pstate) == sim_h(*self),
                self.pressure.read_spec().data@ == pressure_rounds(
                    it as nat,
                    pstate.pressure.read_spec().data@,
                    pstate.temp.data@,
                    sim_w(pstate),
                    sim_h(pstate),
                    pstate.config.pressure_alpha,
                    pstate.config.pressure_beta,
                ),
            decreases n_p - it,
        {
            let out = boundary_pass(self.pressure.read(), &self.boundary_offsets, FX_ONE);
            commit_pass(&self.compositor, &mut self.pressure, out);
            let out = jacobi_pass(
                self.pressure.read(),
                &self.temp,
                self.config.pressure_alpha,
                self.config.pressure_beta,
            );
            commit_pass(&self.compositor, &mut self.pressure, out);
            proof {
                assert(pressure_rounds(
                    (it + 1) as nat,
                    pstate.pressure.read_spec().data@,
                    pstate.temp.data@,
                    sim_w(pstate),
                    sim_h(pstate),
                    pstate.config.pressure_alpha,
                    pstate.config.pressure_beta,
                ) == pressure_round(
                    pressure_rounds(
                        it as nat,
                        pstate.pressure.read_spec().data@,
                        pstate.temp.data@,
                        sim_w(pstate),
                        sim_h(pstate),
                        pstate.config.pressure_alpha,
                        pstate.config.pressure_beta,
                    ),
                    pstate.temp.data@,
                    sim_w(pstate),
                    sim_h(pstate),
                    pstate.config.pressure_alpha,
                    pstate.config.pressure_beta,
                ));
            }
            it = it + 1;
        }
        proof {
            assert(self.pressure.read_spec().data@ == pressure_after(s0, pointer));
        }

        // Re-apply the velocity boundary.
        let out = boundary_pass(self.velocity.read(), &self.boundary_offsets, -FX_ONE);
        commit_pass(&self.compositor, &mut self.velocity, out);
        proof {
            assert(self.velocity.read_spec().data@ == velocity_before_project(s0, pointer));
        }

        // Gradient subtraction.
        let out = gradient_pass(self.velocity.read(), self.pressure.read());
        commit_pass(&self.compositor, &mut self.velocity, out);
        proof {
            assert(self.velocity.read_spec().data@ == velocity_final(s0, pointer));
            assert(self.velocity.write_spec().data@ == velocity_before_project(s0, pointer));
        }

        // Composite the dye field to the display.
        let image = copy_contents(&self.dye.read().data);
        self.compositor.blit_display(image);

        self.prev_frame_time = Some(now);
    }
}

/// Commit one pass output: blit it over the write-role field through
/// the compositor, then swap the roles, so the output becomes readable.
fn commit_pass(compositor: &Compositor, field: &mut DoubleBufferedField, out: Vec<i32>)
    requires
        old(field).wf(),
        out@.len() == old(field).first.data@.len(),
    ensures
        final(field).wf(),
        final(field).read_spec().data@ == out@,
        final(field).write_spec().data@ == old(field).read_spec().data@,
        final(field).first.width == old(field).first.width,
        final(field).first.height == old(field).first.height,
        final(field).first.format == old(field).first.format,
        final(field).first.sampling == old(field).first.sampling,
        final(field).parity == !old(field).parity,
{
    compositor.blit(field.write_mut(), out);
    field.swap();
}

/// Copy a grid's samples.
fn copy_contents(v: &Vec<i32>) -> (r: Vec<i32>)
    ensures
        r@ == v@,
{
    let r = v.clone();
    proof {
        assert(r@ =~= v@);
    }
    r
}

/// The size of one texel along an axis of `n` texels, fixed point.
fn texel_fx(n: usize) -> (r: i32)
    requires
        4 <= n <= 8192,
    ensures
        r == texel_fx_s(n as int),
{
    proof {
        vstd::arithmetic::div_mod::lemma_div_nonincreasing(65536, n as int);
        vstd::arithmetic::div_mod::lemma_div_pos_is_pos(65536, n as int);
    }
    (65536u64 / n as u64) as i32
}

} // verus!
