use fluid_sim::field::{ArrayView, FieldBuffer, FilterMode, PixelFormat, SamplingParams, WrapMode};
use fluid_sim::fixed::{clamp_to_i32, fx_div, fx_mul, isqrt64, tdiv64};
use fluid_sim::kernels::{
    advect_pass, boundary_pass, divergence_pass, gradient_pass, jacobi_pass, make_boundary_offsets,
    make_initial_dye, splat_pass, zero_grid,
};

const FX: i32 = 65536;

fn sampling() -> SamplingParams {
    SamplingParams { filter: FilterMode::Nearest, wrap: WrapMode::ClampToEdge }
}

fn rg_field(id: u32, w: usize, h: usize, data: &[i32]) -> FieldBuffer {
    FieldBuffer::create(id, w, h, PixelFormat::Rg, Some(ArrayView::create(data)), sampling())
}

fn rgba_field(id: u32, w: usize, h: usize, data: &[i32]) -> FieldBuffer {
    FieldBuffer::create(id, w, h, PixelFormat::Rgba, Some(ArrayView::create(data)), sampling())
}

fn idx(w: usize, cc: usize, r: usize, c: usize, k: usize) -> usize {
    (r * w + c) * cc + k
}

#[test]
fn fixed_point_products_truncate_toward_zero() {
    assert_eq!(fx_mul(FX, FX), FX);
    assert_eq!(fx_mul(2 * FX, 3 * FX), 6 * FX);
    assert_eq!(fx_mul(-3 * FX, FX / 2), -3 * FX / 2);
    assert_eq!(fx_mul(3, 3), 0);
    assert_eq!(fx_mul(-1, 3), 0);
    assert_eq!(fx_div(FX, 2 * FX), FX / 2);
    assert_eq!(fx_div(-FX, 2 * FX), -FX / 2);
    assert_eq!(tdiv64(-7, 2), -3);
    assert_eq!(clamp_to_i32(1 << 40), i32::MAX);
    assert_eq!(clamp_to_i32(-(1 << 40)), i32::MIN);
}

#[test]
fn integer_square_root_is_exact() {
    assert_eq!(isqrt64(0), 0);
    assert_eq!(isqrt64(1), 1);
    assert_eq!(isqrt64(15), 3);
    assert_eq!(isqrt64(16), 4);
    assert_eq!(isqrt64(1 << 52), 1 << 26);
    assert_eq!(isqrt64(u64::MAX), (1 << 32) - 1);
}

#[test]
fn boundary_offsets_mark_the_four_edges() {
    let o = make_boundary_offsets(6, 4);
    assert_eq!(o.len(), 6 * 4 * 2);
    // Interior texel: both channels zero.
    assert_eq!(o[idx(6, 2, 2, 3, 0)], 0);
    assert_eq!(o[idx(6, 2, 2, 3, 1)], 0);
    // Left and right columns.
    assert_eq!(o[idx(6, 2, 2, 0, 0)], FX);
    assert_eq!(o[idx(6, 2, 2, 5, 0)], -FX);
    // Bottom and top rows.
    assert_eq!(o[idx(6, 2, 0, 3, 1)], FX);
    assert_eq!(o[idx(6, 2, 3, 3, 1)], -FX);
    // A corner marks both channels.
    assert_eq!(o[idx(6, 2, 0, 0, 0)], FX);
    assert_eq!(o[idx(6, 2, 0, 0, 1)], FX);
}

#[test]
fn boundary_pass_leaves_interior_unchanged_and_reflects_edges() {
    let w = 6;
    let h = 6;
    let mut data = vec![0i32; w * h * 2];
    for r in 1..h - 1 {
        for c in 1..w - 1 {
            data[idx(w, 2, r, c, 0)] = 300;
            data[idx(w, 2, r, c, 1)] = -500;
        }
    }
    let field = rg_field(0, w, h, &data);
    let offsets = rg_field(1, w, h, &make_boundary_offsets(w, h));
    let out = boundary_pass(&field, &offsets, -FX);
    for r in 1..h - 1 {
        for c in 1..w - 1 {
            assert_eq!(out[idx(w, 2, r, c, 0)], 300);
            assert_eq!(out[idx(w, 2, r, c, 1)], -500);
        }
    }
    // Left edge, interior row: reflects its right neighbour, negated.
    assert_eq!(out[idx(w, 2, 2, 0, 0)], -300);
    assert_eq!(out[idx(w, 2, 2, 0, 1)], 500);
    // Bottom edge, interior column: reflects the row above, negated.
    assert_eq!(out[idx(w, 2, 0, 3, 0)], -300);
    assert_eq!(out[idx(w, 2, 0, 3, 1)], 500);
}

#[test]
fn jacobi_zero_fields_stay_zero() {
    let w = 8;
    let h = 8;
    let b = rg_field(1, w, h, &zero_grid(w, h, 2));
    let mut x = rg_field(0, w, h, &zero_grid(w, h, 2));
    for _ in 0..5 {
        let out = jacobi_pass(&x, &b, (123456, -98765), (16384, 16384));
        assert!(out.iter().all(|&v| v == 0));
        x.data = out;
    }
}

#[test]
fn jacobi_averages_neighbours() {
    let w = 4;
    let h = 4;
    // Every sample one: four neighbours sum to four, beta of a quarter
    // brings the result back to one; the source term is zero.
    let x = rg_field(0, w, h, &vec![FX; w * h * 2]);
    let b = rg_field(1, w, h, &zero_grid(w, h, 2));
    let out = jacobi_pass(&x, &b, (-4 * FX, -4 * FX), (FX / 4, FX / 4));
    assert!(out.iter().all(|&v| v == FX));
}

#[test]
fn divergence_of_linear_flow_is_constant() {
    let w = 4;
    let h = 4;
    let mut data = vec![0i32; w * h * 2];
    for r in 0..h {
        for c in 0..w {
            data[idx(w, 2, r, c, 0)] = (c as i32) * 1000;
        }
    }
    let vel = rg_field(0, w, h, &data);
    let out = divergence_pass(&vel);
    // Interior texel: (u_right - u_left) * w / 2.
    assert_eq!(out[idx(w, 2, 1, 1, 0)], 2000 * 4 / 2);
    assert_eq!(out[idx(w, 2, 1, 1, 1)], 2000 * 4 / 2);
}

#[test]
fn gradient_subtraction_removes_linear_pressure_slope() {
    let w = 4;
    let h = 4;
    let mut p = vec![0i32; w * h * 2];
    for r in 0..h {
        for c in 0..w {
            p[idx(w, 2, r, c, 0)] = (c as i32) * 1000;
        }
    }
    let vel = rg_field(0, w, h, &vec![10000i32; w * h * 2]);
    let pressure = rg_field(1, w, h, &p);
    let out = gradient_pass(&vel, &pressure);
    // Interior texel: u minus (p_right - p_left) * w / 2.
    assert_eq!(out[idx(w, 2, 1, 1, 0)], 10000 - 2000 * 4 / 2);
    // The second channel sees a flat pressure channel: unchanged.
    assert_eq!(out[idx(w, 2, 1, 1, 1)], 10000);
}

#[test]
fn splat_adds_force_scaled_by_falloff() {
    let w = 4;
    let h = 4;
    let vel = rg_field(0, w, h, &zero_grid(w, h, 2));
    let out = splat_pass(&vel, FX / 2, FX / 2, (FX, 0), FX);
    // Texel (1, 1) sits at normalized (3/8, 3/8): displacement 1/8 per
    // axis, squared distance 2/64 of the unit square, radius one.
    let dx: i64 = 24576 - 32768;
    let d2 = (dx * dx + dx * dx) as u64;
    let fall = 65536 - (d2 * 65536 / ((FX as u64) * (FX as u64))) as i64;
    let expected = (65536 * fall / 65536) as i32;
    assert_eq!(out[idx(w, 2, 1, 1, 0)], expected);
    assert_eq!(out[idx(w, 2, 1, 1, 1)], 0);
}

#[test]
fn splat_far_from_pointer_changes_nothing() {
    let w = 8;
    let h = 8;
    let vel = rg_field(0, w, h, &vec![777i32; w * h * 2]);
    // Radius far smaller than the distance to any texel centre.
    let out = splat_pass(&vel, 0, 0, (FX, FX), 1);
    assert_eq!(out, vec![777i32; w * h * 2]);
}

#[test]
fn advection_through_zero_velocity_is_identity() {
    let w = 6;
    let h = 5;
    let data: Vec<i32> = (0..(w * h * 4) as i32).map(|i| i * 37 - 1000).collect();
    let dye = rgba_field(0, w, h, &data);
    let vel = rg_field(1, w, h, &zero_grid(w, h, 2));
    let out = advect_pass(&dye, &vel, FX);
    assert_eq!(out, data);
}

#[test]
fn advection_shifts_by_whole_texels() {
    let w = 4;
    let h = 4;
    let mut data = vec![0i32; w * h * 2];
    for r in 0..h {
        for c in 0..w {
            data[idx(w, 2, r, c, 0)] = (10 * c + r) as i32;
            data[idx(w, 2, r, c, 1)] = -((10 * c + r) as i32);
        }
    }
    let src = rg_field(0, w, h, &data);
    // Uniform velocity of one domain unit per unit time along x, a
    // quarter timestep: the back-trace lands exactly one texel left.
    let vel = rg_field(1, w, h, &vec![FX, 0].repeat(w * h));
    let out = advect_pass(&src, &vel, FX / 4);
    for r in 0..h {
        for c in 0..w {
            let cs = if c == 0 { 0 } else { c - 1 };
            assert_eq!(out[idx(w, 2, r, c, 0)], data[idx(w, 2, r, cs, 0)]);
            assert_eq!(out[idx(w, 2, r, c, 1)], data[idx(w, 2, r, cs, 1)]);
        }
    }
}

#[test]
fn advection_samples_velocity_across_resolutions() {
    // An 8x8 dye grid advected through a 4x4 velocity grid: each dye
    // texel reads the nearest velocity texel at its normalized position.
    let w = 8;
    let h = 8;
    let data: Vec<i32> = (0..(w * h * 4) as i32).collect();
    let dye = rgba_field(0, w, h, &data);
    let vel = rg_field(1, 4, 4, &zero_grid(4, 4, 2));
    let out = advect_pass(&dye, &vel, FX);
    assert_eq!(out, data);
}

#[test]
fn initial_dye_is_a_centred_ramped_blob() {
    let w = 64;
    let h = 64;
    let dye = make_initial_dye(w, h);
    // Centre: full green ramp, full blue, full alpha, no red.
    assert_eq!(dye[idx(w, 4, 32, 32, 0)], 0);
    assert_eq!(dye[idx(w, 4, 32, 32, 1)], FX);
    assert_eq!(dye[idx(w, 4, 32, 32, 2)], FX);
    assert_eq!(dye[idx(w, 4, 32, 32, 3)], FX);
    // A corner lies outside the blob: alpha only.
    assert_eq!(dye[idx(w, 4, 0, 0, 0)], 0);
    assert_eq!(dye[idx(w, 4, 0, 0, 1)], 0);
    assert_eq!(dye[idx(w, 4, 0, 0, 2)], 0);
    assert_eq!(dye[idx(w, 4, 0, 0, 3)], FX);
    // Half-way to the blob edge the ramp is at one half.
    assert_eq!(dye[idx(w, 4, 32, 40, 1)], FX / 2);
    assert_eq!(dye[idx(w, 4, 32, 40, 2)], FX);
}
