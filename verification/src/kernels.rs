//! The pure grid transforms the solver's shader passes compute.
//!
//! Each pass of the per-frame pipeline — boundary reflection, Jacobi
//! relaxation, semi-Lagrangian advection, impulse injection, divergence
//! and pressure-gradient subtraction — is a pointwise stencil over one or
//! two input grids.  Every stencil has a cell-level specification, a
//! sequence-level specification built from it, and an executable pass
//! whose output is proved equal to that sequence.  Neighbour addresses
//! clamp to the domain edge, matching clamp-to-edge sampling.

use vstd::prelude::*;

use crate::fixed::clamp32;
use crate::fixed::clamp_to_i32;
use crate::fixed::fx_mul;
use crate::fixed::fx_mul_s;
use crate::fixed::fx_one;
use crate::fixed::lemma_fx_mul_zero;
use crate::fixed::sdiv;
use crate::fixed::tdiv64;
use crate::field::FieldBuffer;
use crate::field::PixelFormat;
use crate::grid::CellRule;
use crate::grid::cell;
use crate::grid::chan_of;
use crate::grid::clamp_idx;
use crate::grid::col_of;
use crate::grid::dims_ok;
use crate::grid::flat_idx;
use crate::grid::grid_len;
use crate::grid::grid_map;
use crate::grid::lemma_flat_idx;
use crate::grid::row_of;

verus! {

/// Read one sample of a grid held in a vector.
fn read_cell(g: &Vec<i32>, w: usize, h: usize, cc: usize, r: usize, c: usize, k: usize) -> (v: i32)
    requires
        dims_ok(w as int, h as int, cc as int),
        g@.len() == grid_len(w as int, h as int, cc as int),
        r < h,
        c < w,
        k < cc,
    ensures
        v == cell(g@, w as int, cc as int, r as int, c as int, k as int),
{
    proof {
        lemma_flat_idx(w as int, h as int, cc as int, r as int, c as int, k as int);
        assert(0 <= r as int * w as int && r as int * w as int <= 0x4000000 && (r as int * w as int
            + c as int) * cc as int <= 0x10000000) by (nonlinear_arith)
            requires
                r < h <= 8192,
                c < w <= 8192,
                k < cc <= 4,
        ;
    }
    g[(r * w + c) * cc + k]
}

/// A row or column index moved by one step of the given sign, clamped to
/// the grid edge.
fn step_idx(i: usize, sign: i32, n: usize) -> (r: usize)
    requires
        1 <= n,
        i < n,
    ensures
        r as int == clamp_idx(i as int + crate::fixed::sgn(sign as int), n as int),
        r < n,
{
    if sign > 0 {
        if i + 1 >= n {
            n - 1
        } else {
            i + 1
        }
    } else if sign < 0 {
        if i == 0 {
            0
        } else {
            i - 1
        }
    } else {
        i
    }
}

/// An all-zero grid.
pub open spec fn zero_seq(w: int, h: int, cc: int) -> Seq<i32> {
    Seq::new(grid_len(w, h, cc) as nat, |i: int| 0i32)
}

struct ZeroRule {}

impl CellRule for ZeroRule {
    closed spec fn wf(&self, w: int, h: int, cc: int) -> bool {
        true
    }

    closed spec fn spec_cell(&self, r: int, c: int, k: int) -> i32 {
        0
    }

    fn cell(&self, w: usize, h: usize, cc: usize, r: usize, c: usize, k: usize) -> (v: i32) {
        0
    }
}

/// A grid of zeros, the explicit clear used before diffusion and the
/// pressure solve.
pub fn zero_grid(w: usize, h: usize, cc: usize) -> (out: Vec<i32>)
    requires
        dims_ok(w as int, h as int, cc as int),
    ensures
        out@ == zero_seq(w as int, h as int, cc as int),
{
    let rule = ZeroRule {};
    let out = grid_map(&rule, w, h, cc);
    proof {
        assert(out@ =~= zero_seq(w as int, h as int, cc as int));
    }
    out
}

/// One sample of the boundary pass: interior texels (offset zero) pass
/// through; edge texels take the neighbour selected by the offsets
/// field, scaled by `scale`.
pub open spec fn boundary_cell_s(
    f: Seq<i32>,
    o: Seq<i32>,
    w: int,
    h: int,
    scale: i32,
    r: int,
    c: int,
    k: int,
) -> i32 {
    let ox = cell(o, w, 2, r, c, 0);
    let oy = cell(o, w, 2, r, c, 1);
    if ox == 0 && oy == 0 {
        cell(f, w, 2, r, c, k)
    } else {
        let nr = clamp_idx(r + crate::fixed::sgn(oy as int), h);
        let nc = clamp_idx(c + crate::fixed::sgn(ox as int), w);
        fx_mul_s(scale, cell(f, w, 2, nr, nc, k))
    }
}

/// The boundary pass over a whole grid.
pub open spec fn boundary_seq(f: Seq<i32>, o: Seq<i32>, w: int, h: int, scale: i32) -> Seq<i32> {
    Seq::new(
        grid_len(w, h, 2) as nat,
        |i: int| boundary_cell_s(f, o, w, h, scale, row_of(i, w, 2), col_of(i, w, 2), chan_of(i, w, 2)),
    )
}

struct BoundaryRule<'a> {
    w: usize,
    h: usize,
    field: &'a Vec<i32>,
    offsets: &'a Vec<i32>,
    scale: i32,
}

impl<'a> CellRule for BoundaryRule<'a> {
    closed spec fn wf(&self, w: int, h: int, cc: int) -> bool {
        &&& self.w as int == w
        &&& self.h as int == h
        &&& cc == 2
        &&& self.field@.len() == grid_len(w, h, 2)
        &&& self.offsets@.len() == grid_len(w, h, 2)
    }

    closed spec fn spec_cell(&self, r: int, c: int, k: int) -> i32 {
        boundary_cell_s(self.field@, self.offsets@, self.w as int, self.h as int, self.scale, r, c, k)
    }

    fn cell(&self, w: usize, h: usize, cc: usize, r: usize, c: usize, k: usize) -> (v: i32) {
        let ox = read_cell(self.offsets, w, h, 2, r, c, 0);
        let oy = read_cell(self.offsets, w, h, 2, r, c, 1);
        if ox == 0 && oy == 0 {
            read_cell(self.field, w, h, 2, r, c, k)
        } else {
            let nr = step_idx(r, oy, h);
            let nc = step_idx(c, ox, w);
            fx_mul(self.scale, read_cell(self.field, w, h, 2, nr, nc, k))
        }
    }
}

/// Apply the boundary pass to `field`, reflecting with `scale` along the
/// offsets field.
pub fn boundary_pass(field: &FieldBuffer, offsets: &FieldBuffer, scale: i32) -> (out: Vec<i32>)
    requires
        field.wf(),
        offsets.wf(),
        field.format == PixelFormat::Rg,
        offsets.format == PixelFormat::Rg,
        field.width == offsets.width,
        field.height == offsets.height,
    ensures
        out@ == boundary_seq(
            field.data@,
            offsets.data@,
            field.width as int,
            field.height as int,
            scale,
        ),
{
    let rule = BoundaryRule {
        w: field.width,
        h: field.height,
        field: &field.data,
        offsets: &offsets.data,
        scale,
    };
    let out = grid_map(&rule, field.width, field.height, 2);
    proof {
        assert(out@ =~= boundary_seq(
            field.data@,
            offsets.data@,
            field.width as int,
            field.height as int,
            scale,
        ));
    }
    out
}

/// One sample of a Jacobi relaxation step with per-axis coefficients:
/// the four neighbour samples plus `alpha` times the source sample,
/// saturated, then scaled by `beta`.
pub open spec fn jacobi_cell_s(
    x: Seq<i32>,
    b: Seq<i32>,
    w: int,
    h: int,
    alpha: (i32, i32),
    beta: (i32, i32),
    r: int,
    c: int,
    k: int,
) -> i32 {
    let ak = if k == 0 {
        alpha.0
    } else {
        alpha.1
    };
    let bk = if k == 0 {
        beta.0
    } else {
        beta.1
    };
    let xl = cell(x, w, 2, r, clamp_idx(c - 1, w), k);
    let xr = cell(x, w, 2, r, clamp_idx(c + 1, w), k);
    let xb = cell(x, w, 2, clamp_idx(r - 1, h), c, k);
    let xt = cell(x, w, 2, clamp_idx(r + 1, h), c, k);
    let s = xl as int + xr as int + xb as int + xt as int + fx_mul_s(ak, cell(b, w, 2, r, c, k)) as int;
    fx_mul_s(clamp32(s) as i32, bk)
}

/// One Jacobi relaxation step over a whole grid.
pub open spec fn jacobi_seq(
    x: Seq<i32>,
    b: Seq<i32>,
    w: int,
    h: int,
    alpha: (i32, i32),
    beta: (i32, i32),
) -> Seq<i32> {
    Seq::new(
        grid_len(w, h, 2) as nat,
        |i: int| jacobi_cell_s(x, b, w, h, alpha, beta, row_of(i, w, 2), col_of(i, w, 2), chan_of(i, w, 2)),
    )
}

/// `n` Jacobi relaxation steps from the initial guess `x0` against the
/// fixed source grid `b`.
pub open spec fn jacobi_iters(
    n: nat,
    x0: Seq<i32>,
    b: Seq<i32>,
    w: int,
    h: int,
    alpha: (i32, i32),
    beta: (i32, i32),
) -> Seq<i32>
    decreases n,
{
    if n == 0 {
        x0
    } else {
        jacobi_seq(jacobi_iters((n - 1) as nat, x0, b, w, h, alpha, beta), b, w, h, alpha, beta)
    }
}

struct JacobiRule<'a> {
    w: usize,
    h: usize,
    x: &'a Vec<i32>,
    b: &'a Vec<i32>,
    alpha: (i32, i32),
    beta: (i32, i32),
}

impl<'a> CellRule for JacobiRule<'a> {
    closed spec fn wf(&self, w: int, h: int, cc: int) -> bool {
        &&& self.w as int == w
        &&& self.h as int == h
        &&& cc == 2
        &&& self.x@.len() == grid_len(w, h, 2)
        &&& self.b@.len() == grid_len(w, h, 2)
    }

    closed spec fn spec_cell(&self, r: int, c: int, k: int) -> i32 {
        jacobi_cell_s(self.x@, self.b@, self.w as int, self.h as int, self.alpha, self.beta, r, c, k)
    }

    fn cell(&self, w: usize, h: usize, cc: usize, r: usize, c: usize, k: usize) -> (v: i32) {
        let ak = if k == 0 {
            self.alpha.0
        } else {
            self.alpha.1
        };
        let bk = if k == 0 {
            self.beta.0
        } else {
            self.beta.1
        };
        let cl = step_idx(c, -1, w);
        let cr = step_idx(c, 1, w);
        let rb = step_idx(r, -1, h);
        let rt = step_idx(r, 1, h);
        let xl = read_cell(self.x, w, h, 2, r, cl, k);
        let xr = read_cell(self.x, w, h, 2, r, cr, k);
        let xb = read_cell(self.x, w, h, 2, rb, c, k);
        let xt = read_cell(self.x, w, h, 2, rt, c, k);
        let bc = read_cell(self.b, w, h, 2, r, c, k);
        let s = xl as i64 + xr as i64 + xb as i64 + xt as i64 + fx_mul(ak, bc) as i64;
        fx_mul(clamp_to_i32(s), bk)
    }
}

/// One Jacobi relaxation step: `x` is the current iterate, `b` the fixed
/// source grid of the equation.
pub fn jacobi_pass(x: &FieldBuffer, b: &FieldBuffer, alpha: (i32, i32), beta: (i32, i32)) -> (out:
    Vec<i32>)
    requires
        x.wf(),
        b.wf(),
        x.format == PixelFormat::Rg,
        b.format == PixelFormat::Rg,
        x.width == b.width,
        x.height == b.height,
    ensures
        out@ == jacobi_seq(x.data@, b.data@, x.width as int, x.height as int, alpha, beta),
{
    let rule = JacobiRule { w: x.width, h: x.height, x: &x.data, b: &b.data, alpha, beta };
    let out = grid_map(&rule, x.width, x.height, 2);
    proof {
        assert(out@ =~= jacobi_seq(x.data@, b.data@, x.width as int, x.height as int, alpha, beta));
    }
    out
}

/// One Jacobi step on all-zero data yields all-zero data.
pub proof fn lemma_jacobi_step_of_zero(w: int, h: int, alpha: (i32, i32), beta: (i32, i32))
    requires
        dims_ok(w, h, 2),
    ensures
        jacobi_seq(zero_seq(w, h, 2), zero_seq(w, h, 2), w, h, alpha, beta) == zero_seq(w, h, 2),
{
    let z = zero_seq(w, h, 2);
    assert forall|i: int| 0 <= i < grid_len(w, h, 2) implies jacobi_seq(z, z, w, h, alpha, beta)[i]
        == 0i32 by {
        let r = row_of(i, w, 2);
        let c = col_of(i, w, 2);
        let k = chan_of(i, w, 2);
        lemma_cell_in_bounds(i, w, h, 2);
        lemma_flat_idx(w, h, 2, r, clamp_idx(c - 1, w), k);
        lemma_flat_idx(w, h, 2, r, clamp_idx(c + 1, w), k);
        lemma_flat_idx(w, h, 2, clamp_idx(r - 1, h), c, k);
        lemma_flat_idx(w, h, 2, clamp_idx(r + 1, h), c, k);
        lemma_flat_idx(w, h, 2, r, c, k);
        let ak = if k == 0 {
            alpha.0
        } else {
            alpha.1
        };
        let bk = if k == 0 {
            beta.0
        } else {
            beta.1
        };
        lemma_fx_mul_zero(ak);
        lemma_fx_mul_zero(bk);
        assert(jacobi_cell_s(z, z, w, h, alpha, beta, r, c, k) == 0i32);
    }
    assert(jacobi_seq(z, z, w, h, alpha, beta) =~= z);
}

/// Jacobi relaxation is at a fixed point on all-zero data: any number of
/// steps from an all-zero guess against an all-zero source leaves every
/// sample zero.
pub proof fn lemma_jacobi_zero_fixed_point(
    n: nat,
    w: int,
    h: int,
    alpha: (i32, i32),
    beta: (i32, i32),
)
    requires
        dims_ok(w, h, 2),
    ensures
        jacobi_iters(n, zero_seq(w, h, 2), zero_seq(w, h, 2), w, h, alpha, beta) == zero_seq(w, h, 2),
    decreases n,
{
    if n == 0 {
    } else {
        lemma_jacobi_zero_fixed_point((n - 1) as nat, w, h, alpha, beta);
        lemma_jacobi_step_of_zero(w, h, alpha, beta);
    }
}

/// The boundary pass maps an all-zero field to an all-zero field,
/// whatever the offsets and the scale: reflected zeros stay zero.
pub proof fn lemma_boundary_of_zero(o: Seq<i32>, w: int, h: int, scale: i32)
    requires
        dims_ok(w, h, 2),
        o.len() == grid_len(w, h, 2),
    ensures
        boundary_seq(zero_seq(w, h, 2), o, w, h, scale) == zero_seq(w, h, 2),
{
    let z = zero_seq(w, h, 2);
    assert forall|i: int| 0 <= i < grid_len(w, h, 2) implies boundary_seq(z, o, w, h, scale)[i]
        == 0i32 by {
        let r = row_of(i, w, 2);
        let c = col_of(i, w, 2);
        let k = chan_of(i, w, 2);
        lemma_cell_in_bounds(i, w, h, 2);
        lemma_flat_idx(w, h, 2, r, c, k);
        let ox = cell(o, w, 2, r, c, 0);
        let oy = cell(o, w, 2, r, c, 1);
        if !(ox == 0 && oy == 0) {
            lemma_flat_idx(
                w,
                h,
                2,
                clamp_idx(r + crate::fixed::sgn(oy as int), h),
                clamp_idx(c + crate::fixed::sgn(ox as int), w),
                k,
            );
            lemma_fx_mul_zero(scale);
        }
    }
    assert(boundary_seq(z, o, w, h, scale) =~= z);
}

/// The divergence of an all-zero velocity field is all zero.
pub proof fn lemma_divergence_of_zero(w: int, h: int)
    requires
        dims_ok(w, h, 2),
    ensures
        divergence_seq(zero_seq(w, h, 2), w, h) == zero_seq(w, h, 2),
{
    let z = zero_seq(w, h, 2);
    assert forall|i: int| 0 <= i < grid_len(w, h, 2) implies divergence_seq(z, w, h)[i] == 0i32 by {
        let r = row_of(i, w, 2);
        let c = col_of(i, w, 2);
        let k = chan_of(i, w, 2);
        lemma_cell_in_bounds(i, w, h, 2);
        lemma_flat_idx(w, h, 2, r, clamp_idx(c - 1, w), 0);
        lemma_flat_idx(w, h, 2, r, clamp_idx(c + 1, w), 0);
        lemma_flat_idx(w, h, 2, clamp_idx(r - 1, h), c, 1);
        lemma_flat_idx(w, h, 2, clamp_idx(r + 1, h), c, 1);
        assert(0 * w == 0 && 0 * h == 0) by (nonlinear_arith);
        vstd::arithmetic::div_mod::lemma_div_of0(2);
        assert(divergence_cell_s(z, w, h, r, c, k) == 0i32);
    }
    assert(divergence_seq(z, w, h) =~= z);
}

/// Gradient subtraction of an all-zero pressure field from an all-zero
/// velocity field yields an all-zero field.
pub proof fn lemma_gradient_of_zero(w: int, h: int)
    requires
        dims_ok(w, h, 2),
    ensures
        gradient_seq(zero_seq(w, h, 2), zero_seq(w, h, 2), w, h) == zero_seq(w, h, 2),
{
    let z = zero_seq(w, h, 2);
    assert forall|i: int| 0 <= i < grid_len(w, h, 2) implies gradient_seq(z, z, w, h)[i]
        == 0i32 by {
        let r = row_of(i, w, 2);
        let c = col_of(i, w, 2);
        let k = chan_of(i, w, 2);
        lemma_cell_in_bounds(i, w, h, 2);
        lemma_flat_idx(w, h, 2, r, clamp_idx(c - 1, w), 0);
        lemma_flat_idx(w, h, 2, r, clamp_idx(c + 1, w), 0);
        lemma_flat_idx(w, h, 2, clamp_idx(r - 1, h), c, 1);
        lemma_flat_idx(w, h, 2, clamp_idx(r + 1, h), c, 1);
        lemma_flat_idx(w, h, 2, r, c, k);
        assert(0 * w == 0 && 0 * h == 0) by (nonlinear_arith);
        vstd::arithmetic::div_mod::lemma_div_of0(2);
        assert(gradient_cell_s(z, z, w, h, r, c, k) == 0i32);
    }
    assert(gradient_seq(z, z, w, h) =~= z);
}

/// Truncating division undoes an exact multiple.
proof fn lemma_sdiv_mul_exact(a: int, d: int)
    requires
        0 < d,
    ensures
        sdiv(a * d, d) == a,
{
    if a >= 0 {
        vstd::arithmetic::div_mod::lemma_div_by_multiple(a, d);
        assert(a * d >= 0) by (nonlinear_arith)
            requires
                a >= 0,
                d > 0,
        ;
    } else {
        assert(-(a * d) == (-a) * d && a * d < 0) by (nonlinear_arith)
            requires
                a < 0,
                d > 0,
        ;
        vstd::arithmetic::div_mod::lemma_div_by_multiple(-a, d);
    }
}

/// Advection through an all-zero velocity field is the identity: the
/// back-trace lands exactly on each texel's own centre.
pub proof fn lemma_advect_zero_velocity(src: Seq<i32>, w: int, h: int, cc: int, vw: int, vh: int, dt: i32)
    requires
        dims_ok(w, h, cc),
        dims_ok(vw, vh, 2),
        src.len() == grid_len(w, h, cc),
    ensures
        advect_seq(src, w, h, cc, zero_seq(vw, vh, 2), vw, vh, dt) == src,
{
    let z = zero_seq(vw, vh, 2);
    assert forall|i: int| 0 <= i < grid_len(w, h, cc) implies advect_seq(src, w, h, cc, z, vw, vh, dt)[i]
        == src[i] by {
        let r = row_of(i, w, cc);
        let c = col_of(i, w, cc);
        let k = chan_of(i, w, cc);
        lemma_cell_in_bounds(i, w, h, cc);
        lemma_nearest_idx(r, h, vh);
        lemma_nearest_idx(c, w, vw);
        let vr = ((2 * r + 1) * vh) / (2 * h);
        let vc = ((2 * c + 1) * vw) / (2 * w);
        lemma_flat_idx(vw, vh, 2, vr, vc, 0);
        lemma_flat_idx(vw, vh, 2, vr, vc, 1);
        lemma_fx_mul_zero(dt);
        assert(0 * w == 0 && 0 * h == 0) by (nonlinear_arith);
        assert(0 <= c * 65536 <= (w - 1) * 65536 && 0 <= r * 65536 <= (h - 1) * 65536) by (
        nonlinear_arith)
            requires
                0 <= c < w,
                0 <= r < h,
        ;
        let xf = c * 65536;
        let yf = r * 65536;
        vstd::arithmetic::div_mod::lemma_div_by_multiple(c, 65536);
        vstd::arithmetic::div_mod::lemma_div_by_multiple(r, 65536);
        vstd::arithmetic::div_mod::lemma_mod_multiples_basic(c, 65536);
        vstd::arithmetic::div_mod::lemma_mod_multiples_basic(r, 65536);
        assert(xf / 65536 == c && xf % 65536 == 0 && yf / 65536 == r && yf % 65536 == 0);
        let j1 = if c + 1 < w {
            c + 1
        } else {
            w - 1
        };
        let i1 = if r + 1 < h {
            r + 1
        } else {
            h - 1
        };
        lemma_flat_idx(w, h, cc, r, c, k);
        lemma_flat_idx(w, h, cc, r, j1, k);
        lemma_flat_idx(w, h, cc, i1, c, k);
        lemma_flat_idx(w, h, cc, i1, j1, k);
        let s00 = cell(src, w, cc, r, c, k);
        let s01 = cell(src, w, cc, r, j1, k);
        let s10 = cell(src, w, cc, i1, c, k);
        let s11 = cell(src, w, cc, i1, j1, k);
        assert(s01 * 0 == 0 && s11 * 0 == 0) by (nonlinear_arith);
        lemma_sdiv_mul_exact(s00 as int, 65536);
        lemma_sdiv_mul_exact(s10 as int, 65536);
        let row0 = sdiv(s00 * 65536 + s01 * 0, 65536);
        let row1 = sdiv(s10 * 65536 + s11 * 0, 65536);
        assert(row0 == s00 as int && row1 == s10 as int);
        assert(row0 * 0 == 0 && row1 * 0 == 0) by (nonlinear_arith);
        lemma_sdiv_mul_exact(row0, 65536);
        assert(advect_cell_s(src, w, h, cc, z, vw, vh, dt, r, c, k) == src[i]);
    }
    assert(advect_seq(src, w, h, cc, z, vw, vh, dt) =~= src);
}

/// A flat index of a grid decomposes into a triple inside the grid.
proof fn lemma_cell_in_bounds(i: int, w: int, h: int, cc: int)
    requires
        dims_ok(w, h, cc),
        0 <= i < grid_len(w, h, cc),
    ensures
        0 <= row_of(i, w, cc) < h,
        0 <= col_of(i, w, cc) < w,
        0 <= chan_of(i, w, cc) < cc,
        flat_idx(w, cc, row_of(i, w, cc), col_of(i, w, cc), chan_of(i, w, cc)) == i,
{
    let d = w * cc;
    assert(1 <= d <= w * cc && w * h * cc == h * d) by (nonlinear_arith)
        requires
            1 <= w && 1 <= cc && 1 <= h,
            d == w * cc,
    ;
    vstd::arithmetic::div_mod::lemma_fundamental_div_mod(i, d);
    vstd::arithmetic::div_mod::lemma_mod_division_less_than_divisor(i, d);
    vstd::arithmetic::div_mod::lemma_div_pos_is_pos(i, d);
    let q = i / d;
    let rem = i % d;
    assert(q < h) by {
        if q >= h {
            assert(q * d >= h * d) by (nonlinear_arith)
                requires
                    q >= h,
                    d >= 1,
            ;
        }
    }
    vstd::arithmetic::div_mod::lemma_fundamental_div_mod(rem, cc);
    vstd::arithmetic::div_mod::lemma_mod_division_less_than_divisor(rem, cc);
    vstd::arithmetic::div_mod::lemma_div_pos_is_pos(rem, cc);
    let q2 = rem / cc;
    assert(q2 < w) by {
        if q2 >= w {
            assert(q2 * cc >= w * cc) by (nonlinear_arith)
                requires
                    q2 >= w,
                    cc >= 1,
            ;
        }
    }
    assert((q * w + q2) * cc + rem % cc == i) by (nonlinear_arith)
        requires
            i == q * d + rem,
            d == w * cc,
            rem == q2 * cc + rem % cc,
    ;
}

/// The boundary pass with the standard boundary-offsets field leaves
/// every interior texel unchanged; only edge texels can differ, and
/// those take their reflected neighbour scaled by `scale`.
pub proof fn lemma_boundary_pass_interior(f: Seq<i32>, w: int, h: int, scale: i32)
    requires
        dims_ok(w, h, 2),
        f.len() == grid_len(w, h, 2),
    ensures
        forall|r: int, c: int, k: int|
            1 <= r < h - 1 && 1 <= c < w - 1 && 0 <= k < 2 ==> cell(
                boundary_seq(f, offsets_seq(w, h), w, h, scale),
                w,
                2,
                r,
                c,
                k,
            ) == cell(f, w, 2, r, c, k),
        forall|r: int, c: int, k: int|
            0 <= r < h && 0 <= c < w && 0 <= k < 2 && cell(
                boundary_seq(f, offsets_seq(w, h), w, h, scale),
                w,
                2,
                r,
                c,
                k,
            ) != cell(f, w, 2, r, c, k) ==> (r == 0 || r == h - 1 || c == 0 || c == w - 1),
{
    let o = offsets_seq(w, h);
    let out = boundary_seq(f, o, w, h, scale);
    assert forall|r: int, c: int, k: int|
        1 <= r < h - 1 && 1 <= c < w - 1 && 0 <= k < 2 implies cell(out, w, 2, r, c, k) == cell(
        f,
        w,
        2,
        r,
        c,
        k,
    ) by {
        lemma_flat_idx(w, h, 2, r, c, k);
        lemma_flat_idx(w, h, 2, r, c, 0);
        lemma_flat_idx(w, h, 2, r, c, 1);
        let i = flat_idx(w, 2, r, c, k);
        lemma_cell_in_bounds(i, w, h, 2);
        assert(cell(o, w, 2, r, c, 0) == 0i32);
        assert(cell(o, w, 2, r, c, 1) == 0i32);
    }
}

/// One sample of the static boundary-offsets field: the first channel
/// points inward across the left and right edges, the second across the
/// bottom and top edges; interior texels are zero.
pub open spec fn offsets_cell_s(w: int, h: int, r: int, c: int, k: int) -> i32 {
    if k == 0 {
        if c == 0 {
            65536i32
        } else if c == w - 1 {
            (-65536i32)
        } else {
            0i32
        }
    } else {
        if r == 0 {
            65536i32
        } else if r == h - 1 {
            (-65536i32)
        } else {
            0i32
        }
    }
}

/// The static boundary-offsets field.
pub open spec fn offsets_seq(w: int, h: int) -> Seq<i32> {
    Seq::new(
        grid_len(w, h, 2) as nat,
        |i: int| offsets_cell_s(w, h, row_of(i, w, 2), col_of(i, w, 2), chan_of(i, w, 2)),
    )
}

struct OffsetsRule {
    w: usize,
    h: usize,
}

impl CellRule for OffsetsRule {
    closed spec fn wf(&self, w: int, h: int, cc: int) -> bool {
        &&& self.w as int == w
        &&& self.h as int == h
        &&& cc == 2
    }

    closed spec fn spec_cell(&self, r: int, c: int, k: int) -> i32 {
        offsets_cell_s(self.w as int, self.h as int, r, c, k)
    }

    fn cell(&self, w: usize, h: usize, cc: usize, r: usize, c: usize, k: usize) -> (v: i32) {
        if k == 0 {
            if c == 0 {
                65536
            } else if c == w - 1 {
                -65536
            } else {
                0
            }
        } else {
            if r == 0 {
                65536
            } else if r == h - 1 {
                -65536
            } else {
                0
            }
        }
    }
}

/// One sample of the divergence pass: the central difference of the
/// velocity components, halved, written to both channels of the scratch
/// target.
pub open spec fn divergence_cell_s(v: Seq<i32>, w: int, h: int, r: int, c: int, k: int) -> i32 {
    let ul = cell(v, w, 2, r, clamp_idx(c - 1, w), 0);
    let ur = cell(v, w, 2, r, clamp_idx(c + 1, w), 0);
    let vb = cell(v, w, 2, clamp_idx(r - 1, h), c, 1);
    let vt = cell(v, w, 2, clamp_idx(r + 1, h), c, 1);
    clamp32(sdiv((ur - ul) * w + (vt - vb) * h, 2)) as i32
}

/// The divergence pass over a whole grid.
pub open spec fn divergence_seq(v: Seq<i32>, w: int, h: int) -> Seq<i32> {
    Seq::new(
        grid_len(w, h, 2) as nat,
        |i: int| divergence_cell_s(v, w, h, row_of(i, w, 2), col_of(i, w, 2), chan_of(i, w, 2)),
    )
}

struct DivergenceRule<'a> {
    w: usize,
    h: usize,
    vel: &'a Vec<i32>,
}

impl<'a> CellRule for DivergenceRule<'a> {
    closed spec fn wf(&self, w: int, h: int, cc: int) -> bool {
        &&& self.w as int == w
        &&& self.h as int == h
        &&& cc == 2
        &&& self.vel@.len() == grid_len(w, h, 2)
    }

    closed spec fn spec_cell(&self, r: int, c: int, k: int) -> i32 {
        divergence_cell_s(self.vel@, self.w as int, self.h as int, r, c, k)
    }

    fn cell(&self, w: usize, h: usize, cc: usize, r: usize, c: usize, k: usize) -> (v: i32) {
        let cl = step_idx(c, -1, w);
        let cr = step_idx(c, 1, w);
        let rb = step_idx(r, -1, h);
        let rt = step_idx(r, 1, h);
        let ul = read_cell(self.vel, w, h, 2, r, cl, 0);
        let ur = read_cell(self.vel, w, h, 2, r, cr, 0);
        let vb = read_cell(self.vel, w, h, 2, rb, c, 1);
        let vt = read_cell(self.vel, w, h, 2, rt, c, 1);
        proof {
            lemma_diff_times_dim(ur as int, ul as int, w as int);
            lemma_diff_times_dim(vt as int, vb as int, h as int);
        }
        let n = (ur as i64 - ul as i64) * (w as i64) + (vt as i64 - vb as i64) * (h as i64);
        clamp_to_i32(tdiv64(n, 2))
    }
}

/// Compute the divergence of a velocity field into a scratch grid.
pub fn divergence_pass(vel: &FieldBuffer) -> (out: Vec<i32>)
    requires
        vel.wf(),
        vel.format == PixelFormat::Rg,
    ensures
        out@ == divergence_seq(vel.data@, vel.width as int, vel.height as int),
{
    let rule = DivergenceRule { w: vel.width, h: vel.height, vel: &vel.data };
    let out = grid_map(&rule, vel.width, vel.height, 2);
    proof {
        assert(out@ =~= divergence_seq(vel.data@, vel.width as int, vel.height as int));
    }
    out
}

/// One sample of the gradient-subtraction pass: the velocity component
/// minus the halved central difference of the pressure field along the
/// component's axis.
pub open spec fn gradient_cell_s(
    v: Seq<i32>,
    p: Seq<i32>,
    w: int,
    h: int,
    r: int,
    c: int,
    k: int,
) -> i32 {
    let g = if k == 0 {
        let pl = cell(p, w, 2, r, clamp_idx(c - 1, w), 0);
        let pr = cell(p, w, 2, r, clamp_idx(c + 1, w), 0);
        clamp32(sdiv((pr - pl) * w, 2))
    } else {
        let pb = cell(p, w, 2, clamp_idx(r - 1, h), c, 1);
        let pt = cell(p, w, 2, clamp_idx(r + 1, h), c, 1);
        clamp32(sdiv((pt - pb) * h, 2))
    };
    clamp32(cell(v, w, 2, r, c, k) - g) as i32
}

/// The gradient-subtraction pass over a whole grid.
pub open spec fn gradient_seq(v: Seq<i32>, p: Seq<i32>, w: int, h: int) -> Seq<i32> {
    Seq::new(
        grid_len(w, h, 2) as nat,
        |i: int| gradient_cell_s(v, p, w, h, row_of(i, w, 2), col_of(i, w, 2), chan_of(i, w, 2)),
    )
}

struct GradientRule<'a> {
    w: usize,
    h: usize,
    vel: &'a Vec<i32>,
    pressure: &'a Vec<i32>,
}

impl<'a> CellRule for GradientRule<'a> {
    closed spec fn wf(&self, w: int, h: int, cc: int) -> bool {
        &&& self.w as int == w
        &&& self.h as int == h
        &&& cc == 2
        &&& self.vel@.len() == grid_len(w, h, 2)
        &&& self.pressure@.len() == grid_len(w, h, 2)
    }

    closed spec fn spec_cell(&self, r: int, c: int, k: int) -> i32 {
        gradient_cell_s(self.vel@, self.pressure@, self.w as int, self.h as int, r, c, k)
    }

    fn cell(&self, w: usize, h: usize, cc: usize, r: usize, c: usize, k: usize) -> (v: i32) {
        let g = if k == 0 {
            let cl = step_idx(c, -1, w);
            let cr = step_idx(c, 1, w);
            let pl = read_cell(self.pressure, w, h, 2, r, cl, 0);
            let pr = read_cell(self.pressure, w, h, 2, r, cr, 0);
            proof {
                lemma_diff_times_dim(pr as int, pl as int, w as int);
            }
            clamp_to_i32(tdiv64((pr as i64 - pl as i64) * (w as i64), 2))
        } else {
            let rb = step_idx(r, -1, h);
            let rt = step_idx(r, 1, h);
            let pb = read_cell(self.pressure, w, h, 2, rb, c, 1);
            let pt = read_cell(self.pressure, w, h, 2, rt, c, 1);
            proof {
                lemma_diff_times_dim(pt as int, pb as int, h as int);
            }
            clamp_to_i32(tdiv64((pt as i64 - pb as i64) * (h as i64), 2))
        };
        let vc = read_cell(self.vel, w, h, 2, r, c, k);
        clamp_to_i32(vc as i64 - g as i64)
    }
}

/// Project a velocity field toward divergence-free by subtracting the
/// pressure gradient.
pub fn gradient_pass(vel: &FieldBuffer, pressure: &FieldBuffer) -> (out: Vec<i32>)
    requires
        vel.wf(),
        pressure.wf(),
        vel.format == PixelFormat::Rg,
        pressure.format == PixelFormat::Rg,
        vel.width == pressure.width,
        vel.height == pressure.height,
    ensures
        out@ == gradient_seq(vel.data@, pressure.data@, vel.width as int, vel.height as int),
{
    let rule = GradientRule { w: vel.width, h: vel.height, vel: &vel.data, pressure: &pressure.data };
    let out = grid_map(&rule, vel.width, vel.height, 2);
    proof {
        assert(out@ =~= gradient_seq(vel.data@, pressure.data@, vel.width as int, vel.height as int));
    }
    out
}

/// A displacement from the pointer, saturated to four texture lengths;
/// past that distance the impulse falloff is zero anyway.
pub open spec fn clamp_disp(v: int) -> int {
    if v < -262144 {
        -262144
    } else if v > 262144 {
        262144
    } else {
        v
    }
}

/// One sample of the impulse pass: the force vector, weighted by a
/// falloff that is one at the pointer and reaches zero at `radius`, is
/// added to the velocity sample.
pub open spec fn splat_cell_s(
    v: Seq<i32>,
    w: int,
    h: int,
    px: i32,
    py: i32,
    force: (i32, i32),
    radius: i32,
    r: int,
    c: int,
    k: int,
) -> i32 {
    let xn = ((2 * c + 1) * fx_one()) / (2 * w);
    let yn = ((2 * r + 1) * fx_one()) / (2 * h);
    let dx = clamp_disp(xn - px);
    let dy = clamp_disp(yn - py);
    let d2 = dx * dx + dy * dy;
    let r2 = radius * radius;
    let fall = if d2 < r2 {
        fx_one() - (d2 * fx_one()) / r2
    } else {
        0
    };
    let fk = if k == 0 {
        force.0
    } else {
        force.1
    };
    clamp32(cell(v, w, 2, r, c, k) + sdiv(fk * fall, fx_one())) as i32
}

/// The impulse pass over a whole grid.
pub open spec fn splat_seq(
    v: Seq<i32>,
    w: int,
    h: int,
    px: i32,
    py: i32,
    force: (i32, i32),
    radius: i32,
) -> Seq<i32> {
    Seq::new(
        grid_len(w, h, 2) as nat,
        |i: int| splat_cell_s(v, w, h, px, py, force, radius, row_of(i, w, 2), col_of(i, w, 2), chan_of(i, w, 2)),
    )
}

struct SplatRule<'a> {
    w: usize,
    h: usize,
    vel: &'a Vec<i32>,
    px: i32,
    py: i32,
    force: (i32, i32),
    radius: i32,
}

impl<'a> CellRule for SplatRule<'a> {
    closed spec fn wf(&self, w: int, h: int, cc: int) -> bool {
        &&& self.w as int == w
        &&& self.h as int == h
        &&& cc == 2
        &&& self.vel@.len() == grid_len(w, h, 2)
        &&& 0 < self.radius <= 65536
    }

    closed spec fn spec_cell(&self, r: int, c: int, k: int) -> i32 {
        splat_cell_s(
            self.vel@,
            self.w as int,
            self.h as int,
            self.px,
            self.py,
            self.force,
            self.radius,
            r,
            c,
            k,
        )
    }

    fn cell(&self, w: usize, h: usize, cc: usize, r: usize, c: usize, k: usize) -> (v: i32) {
        proof {
            lemma_center_coord_bound(c as int, w as int);
            lemma_center_coord_bound(r as int, h as int);
        }
        let xn = (((2 * (c as u64) + 1) * 65536) / (2 * (w as u64))) as i64;
        let yn = (((2 * (r as u64) + 1) * 65536) / (2 * (h as u64))) as i64;
        let dx = clamp_disp_exec(xn - self.px as i64);
        let dy = clamp_disp_exec(yn - self.py as i64);
        proof {
            assert(0 <= dx as int * dx as int <= 0x10_0000_0000 && 0 <= dy as int * dy as int
                <= 0x10_0000_0000) by (nonlinear_arith)
                requires
                    -262144 <= dx <= 262144,
                    -262144 <= dy <= 262144,
            ;
            assert(0 < self.radius as int * self.radius as int <= 0x1_0000_0000) by (
            nonlinear_arith)
                requires
                    0 < self.radius <= 65536,
            ;
        }
        let d2 = dx * dx + dy * dy;
        let r2 = self.radius as i64 * self.radius as i64;
        let fall: i64 = if d2 < r2 {
            proof {
                vstd::arithmetic::div_mod::lemma_div_pos_is_pos(d2 as int * 65536, r2 as int);
                vstd::arithmetic::div_mod::lemma_div_is_ordered(
                    d2 as int * 65536,
                    r2 as int * 65536,
                    r2 as int,
                );
                vstd::arithmetic::div_mod::lemma_div_by_multiple(65536, r2 as int);
                assert(d2 as int * 65536 <= r2 as int * 65536) by (nonlinear_arith)
                    requires
                        0 <= d2 <= r2,
                ;
                assert(r2 as int * 65536 == 65536 * (r2 as int)) by (nonlinear_arith);
            }
            65536 - ((d2 as u64 * 65536) / (r2 as u64)) as i64
        } else {
            0
        };
        let fk = if k == 0 {
            self.force.0
        } else {
            self.force.1
        };
        let vc = read_cell(self.vel, w, h, 2, r, c, k);
        proof {
            assert(-0x1_0000_0000_0000 <= fk as int * fall as int <= 0x1_0000_0000_0000) by (
            nonlinear_arith)
                requires
                    i32::MIN <= fk <= i32::MAX,
                    0 <= fall <= 65536,
            ;
        }
        let add = tdiv64(fk as i64 * fall, 65536);
        clamp_to_i32(vc as i64 + add)
    }
}

/// A difference of two samples times a grid edge stays far inside the
/// 64-bit range.
proof fn lemma_diff_times_dim(a: int, b: int, n: int)
    requires
        i32::MIN <= a <= i32::MAX,
        i32::MIN <= b <= i32::MAX,
        1 <= n <= 8192,
    ensures
        -0x2000_0000_0000_0000 < (a - b) * n < 0x2000_0000_0000_0000,
{
    assert(-0x2000_0000_0000_0000 < (a - b) * n < 0x2000_0000_0000_0000) by (nonlinear_arith)
        requires
            -0x1_0000_0000 <= a - b <= 0x1_0000_0000,
            1 <= n <= 8192,
    ;
}

/// The texel-centre coordinate is inside the unit square.
proof fn lemma_center_coord_bound(c: int, w: int)
    requires
        0 <= c < w,
        1 <= w <= 8192,
    ensures
        0 <= ((2 * c + 1) * 65536) / (2 * w) <= 65536,
{
    vstd::arithmetic::div_mod::lemma_div_pos_is_pos((2 * c + 1) * 65536, 2 * w);
    vstd::arithmetic::div_mod::lemma_div_is_ordered((2 * c + 1) * 65536, 2 * w * 65536, 2 * w);
    vstd::arithmetic::div_mod::lemma_div_by_multiple(65536, 2 * w);
    assert((2 * c + 1) * 65536 <= 2 * w * 65536) by (nonlinear_arith)
        requires
            0 <= c < w,
    ;
    assert(2 * w * 65536 == 65536 * (2 * w)) by (nonlinear_arith);
}

/// Saturate a displacement, keeping the exact spec form.
fn clamp_disp_exec(v: i64) -> (r: i64)
    ensures
        r as int == clamp_disp(v as int),
        -262144 <= r <= 262144,
{
    if v < -262144 {
        -262144
    } else if v > 262144 {
        262144
    } else {
        v
    }
}

/// Inject an impulse force into a velocity field at the pointer
/// position, with the given force vector and falloff radius.
pub fn splat_pass(vel: &FieldBuffer, px: i32, py: i32, force: (i32, i32), radius: i32) -> (out: Vec<
    i32,
>)
    requires
        vel.wf(),
        vel.format == PixelFormat::Rg,
        0 < radius <= 65536,
    ensures
        out@ == splat_seq(vel.data@, vel.width as int, vel.height as int, px, py, force, radius),
{
    let rule = SplatRule {
        w: vel.width,
        h: vel.height,
        vel: &vel.data,
        px,
        py,
        force,
        radius,
    };
    let out = grid_map(&rule, vel.width, vel.height, 2);
    proof {
        assert(out@ =~= splat_seq(
            vel.data@,
            vel.width as int,
            vel.height as int,
            px,
            py,
            force,
            radius,
        ));
    }
    out
}

/// A quotient by a positive divisor of a magnitude-bounded numerator is
/// magnitude-bounded.
proof fn lemma_sdiv_magnitude(n: int, d: int, bound: int)
    requires
        0 < d,
        0 <= bound,
        crate::fixed::iabs(n) <= bound * d,
    ensures
        -bound <= sdiv(n, d) <= bound,
{
    vstd::arithmetic::div_mod::lemma_div_is_ordered(crate::fixed::iabs(n), bound * d, d);
    vstd::arithmetic::div_mod::lemma_div_by_multiple(bound, d);
    vstd::arithmetic::div_mod::lemma_div_pos_is_pos(crate::fixed::iabs(n), d);
}

/// A sample times a bilinear weight stays far inside the 64-bit range.
proof fn lemma_sample_weight(s: int, t: int)
    requires
        i32::MIN <= s <= i32::MAX,
        0 <= t <= 65536,
    ensures
        -0x8000_0000_0000 <= s * t <= 0x8000_0000_0000,
{
    assert(-0x8000_0000_0000 <= s * t <= 0x8000_0000_0000) by (nonlinear_arith)
        requires
            -0x8000_0000 <= s <= 0x8000_0000,
            0 <= t <= 65536,
    ;
}

/// The nearest source texel of a normalized coordinate is inside the
/// source grid.
proof fn lemma_nearest_idx(r: int, h: int, vh: int)
    requires
        0 <= r < h,
        1 <= h <= 8192,
        1 <= vh <= 8192,
    ensures
        0 <= ((2 * r + 1) * vh) / (2 * h) < vh,
        (2 * r + 1) * vh <= 0x8000000,
{
    assert((2 * r + 1) * vh < (2 * h) * vh && (2 * r + 1) * vh <= 0x8000000 && 0 <= (2 * r + 1)
        * vh) by (nonlinear_arith)
        requires
            0 <= r < h,
            1 <= h <= 8192,
            1 <= vh <= 8192,
    ;
    vstd::arithmetic::div_mod::lemma_multiply_divide_lt((2 * r + 1) * vh, 2 * h, vh);
    vstd::arithmetic::div_mod::lemma_div_pos_is_pos((2 * r + 1) * vh, 2 * h);
}

/// The weighted pair `a * (65536 - t) + b * t` of one bilinear step.
fn weighted_pair(a: i64, b: i64, t: i64) -> (r: i64)
    requires
        -0x1_0000_0000 <= a <= 0x1_0000_0000,
        -0x1_0000_0000 <= b <= 0x1_0000_0000,
        0 <= t <= 65536,
    ensures
        r as int == a as int * (65536 - t as int) + b as int * t as int,
        -0x2_0000_0000_0000 <= r as int <= 0x2_0000_0000_0000,
        (i32::MIN <= a <= i32::MAX && i32::MIN <= b <= i32::MAX) ==> -0x1_0000_0000_0000 <= r as int
            <= 0x1_0000_0000_0000,
{
    proof {
        assert(-0x1_0000_0000_0000 <= a as int * (65536 - t as int) <= 0x1_0000_0000_0000
            && -0x1_0000_0000_0000 <= b as int * t as int <= 0x1_0000_0000_0000) by (
        nonlinear_arith)
            requires
                -0x1_0000_0000 <= a <= 0x1_0000_0000,
                -0x1_0000_0000 <= b <= 0x1_0000_0000,
                0 <= t <= 65536,
        ;
        if i32::MIN <= a <= i32::MAX && i32::MIN <= b <= i32::MAX {
            assert(-0x8000_0000_0000 <= a as int * (65536 - t as int) <= 0x8000_0000_0000
                && -0x8000_0000_0000 <= b as int * t as int <= 0x8000_0000_0000) by (
            nonlinear_arith)
                requires
                    -0x8000_0000 <= a <= 0x8000_0000,
                    -0x8000_0000 <= b <= 0x8000_0000,
                    0 <= t <= 65536,
            ;
        }
    }
    a * (65536 - t) + b * t
}

/// A bilinear sample of a grid at a fixed-point texel position, clamped
/// to the edge.
pub open spec fn bilerp_s(src: Seq<i32>, w: int, h: int, cc: int, xf: int, yf: int, k: int) -> i32 {
    let j0 = xf / 65536;
    let fxw = xf % 65536;
    let j1 = if j0 + 1 < w {
        j0 + 1
    } else {
        w - 1
    };
    let i0 = yf / 65536;
    let fyw = yf % 65536;
    let i1 = if i0 + 1 < h {
        i0 + 1
    } else {
        h - 1
    };
    let s00 = cell(src, w, cc, i0, j0, k);
    let s01 = cell(src, w, cc, i0, j1, k);
    let s10 = cell(src, w, cc, i1, j0, k);
    let s11 = cell(src, w, cc, i1, j1, k);
    let row0 = sdiv(s00 * (65536 - fxw) + s01 * fxw, 65536);
    let row1 = sdiv(s10 * (65536 - fxw) + s11 * fxw, 65536);
    clamp32(sdiv(row0 * (65536 - fyw) + row1 * fyw, 65536)) as i32
}

/// Compute a bilinear sample of a grid at a fixed-point texel position.
fn bilerp(src: &Vec<i32>, w: usize, h: usize, cc: usize, xf: i64, yf: i64, k: usize) -> (v: i32)
    requires
        dims_ok(w as int, h as int, cc as int),
        src@.len() == grid_len(w as int, h as int, cc as int),
        0 <= xf <= (w as int - 1) * 65536,
        0 <= yf <= (h as int - 1) * 65536,
        k < cc,
    ensures
        v == bilerp_s(src@, w as int, h as int, cc as int, xf as int, yf as int, k as int),
{
    proof {
        vstd::arithmetic::div_mod::lemma_div_is_ordered(xf as int, (w as int - 1) * 65536, 65536);
        vstd::arithmetic::div_mod::lemma_div_by_multiple(w as int - 1, 65536);
        vstd::arithmetic::div_mod::lemma_div_pos_is_pos(xf as int, 65536);
        vstd::arithmetic::div_mod::lemma_div_is_ordered(yf as int, (h as int - 1) * 65536, 65536);
        vstd::arithmetic::div_mod::lemma_div_by_multiple(h as int - 1, 65536);
        vstd::arithmetic::div_mod::lemma_div_pos_is_pos(yf as int, 65536);
        vstd::arithmetic::div_mod::lemma_mod_division_less_than_divisor(xf as int, 65536);
        vstd::arithmetic::div_mod::lemma_mod_division_less_than_divisor(yf as int, 65536);
    }
    let j0 = ((xf as u64) / 65536) as usize;
    let fxw = ((xf as u64) % 65536) as i64;
    let j1 = if j0 + 1 < w {
        j0 + 1
    } else {
        w - 1
    };
    let i0 = ((yf as u64) / 65536) as usize;
    let fyw = ((yf as u64) % 65536) as i64;
    let i1 = if i0 + 1 < h {
        i0 + 1
    } else {
        h - 1
    };
    let s00 = read_cell(src, w, h, cc, i0, j0, k);
    let s01 = read_cell(src, w, h, cc, i0, j1, k);
    let s10 = read_cell(src, w, h, cc, i1, j0, k);
    let s11 = read_cell(src, w, h, cc, i1, j1, k);
    let n0 = weighted_pair(s00 as i64, s01 as i64, fxw);
    let n1 = weighted_pair(s10 as i64, s11 as i64, fxw);
    let row0 = tdiv64(n0, 65536);
    let row1 = tdiv64(n1, 65536);
    proof {
        lemma_sdiv_magnitude(n0 as int, 65536, 0x1_0000_0000);
        lemma_sdiv_magnitude(n1 as int, 65536, 0x1_0000_0000);
        assert(-0x1_0000_0000 <= row0 as int <= 0x1_0000_0000);
        assert(-0x1_0000_0000 <= row1 as int <= 0x1_0000_0000);
    }
    let nf = weighted_pair(row0, row1, fyw);
    clamp_to_i32(tdiv64(nf, 65536))
}

/// One sample of the semi-Lagrangian advection pass: the texel is traced
/// back along the velocity sampled at its position, and the source grid
/// is sampled there bilinearly, clamped to the edge.
pub open spec fn advect_cell_s(
    src: Seq<i32>,
    w: int,
    h: int,
    cc: int,
    vel: Seq<i32>,
    vw: int,
    vh: int,
    dt: i32,
    r: int,
    c: int,
    k: int,
) -> i32 {
    let vr = ((2 * r + 1) * vh) / (2 * h);
    let vc = ((2 * c + 1) * vw) / (2 * w);
    let u = cell(vel, vw, 2, vr, vc, 0);
    let v = cell(vel, vw, 2, vr, vc, 1);
    let xf = crate::fixed::clamp_range(c * 65536 - fx_mul_s(dt, u) * w, 0, (w - 1) * 65536);
    let yf = crate::fixed::clamp_range(r * 65536 - fx_mul_s(dt, v) * h, 0, (h - 1) * 65536);
    bilerp_s(src, w, h, cc, xf, yf, k)
}

/// The advection pass over a whole grid.
pub open spec fn advect_seq(
    src: Seq<i32>,
    w: int,
    h: int,
    cc: int,
    vel: Seq<i32>,
    vw: int,
    vh: int,
    dt: i32,
) -> Seq<i32> {
    Seq::new(
        grid_len(w, h, cc) as nat,
        |i: int| advect_cell_s(src, w, h, cc, vel, vw, vh, dt, row_of(i, w, cc), col_of(i, w, cc), chan_of(i, w, cc)),
    )
}

struct AdvectRule<'a> {
    w: usize,
    h: usize,
    cc: usize,
    src: &'a Vec<i32>,
    vw: usize,
    vh: usize,
    vel: &'a Vec<i32>,
    dt: i32,
}

impl<'a> CellRule for AdvectRule<'a> {
    closed spec fn wf(&self, w: int, h: int, cc: int) -> bool {
        &&& self.w as int == w
        &&& self.h as int == h
        &&& self.cc as int == cc
        &&& self.src@.len() == grid_len(w, h, cc)
        &&& dims_ok(self.vw as int, self.vh as int, 2)
        &&& self.vel@.len() == grid_len(self.vw as int, self.vh as int, 2)
    }

    closed spec fn spec_cell(&self, r: int, c: int, k: int) -> i32 {
        advect_cell_s(
            self.src@,
            self.w as int,
            self.h as int,
            self.cc as int,
            self.vel@,
            self.vw as int,
            self.vh as int,
            self.dt,
            r,
            c,
            k,
        )
    }

    fn cell(&self, w: usize, h: usize, cc: usize, r: usize, c: usize, k: usize) -> (v: i32) {
        let vw = self.vw;
        let vh = self.vh;
        proof {
            lemma_nearest_idx(r as int, h as int, vh as int);
            lemma_nearest_idx(c as int, w as int, vw as int);
        }
        let vr = ((2 * r + 1) * vh) / (2 * h);
        let vc = ((2 * c + 1) * vw) / (2 * w);
        let u = read_cell(self.vel, vw, vh, 2, vr, vc, 0);
        let v = read_cell(self.vel, vw, vh, 2, vr, vc, 1);
        let du = fx_mul(self.dt, u);
        let dv = fx_mul(self.dt, v);
        proof {
            lemma_diff_times_dim(du as int, 0, w as int);
            lemma_diff_times_dim(dv as int, 0, h as int);
        }
        let bx = (c as i64) * 65536 - (du as i64) * (w as i64);
        let by = (r as i64) * 65536 - (dv as i64) * (h as i64);
        let hix = ((w - 1) as i64) * 65536;
        let hiy = ((h - 1) as i64) * 65536;
        let xf: i64 = if bx < 0 {
            0
        } else if bx > hix {
            hix
        } else {
            bx
        };
        let yf: i64 = if by < 0 {
            0
        } else if by > hiy {
            hiy
        } else {
            by
        };
        bilerp(self.src, w, h, cc, xf, yf, k)
    }
}

/// Advect `src` through the velocity field `vel` by one timestep.  The
/// source and the velocity grid may differ in resolution; the velocity
/// is looked up at the nearest texel of the destination position.
pub fn advect_pass(src: &FieldBuffer, vel: &FieldBuffer, dt: i32) -> (out: Vec<i32>)
    requires
        src.wf(),
        vel.wf(),
        vel.format == PixelFormat::Rg,
    ensures
        out@ == advect_seq(
            src.data@,
            src.width as int,
            src.height as int,
            src.format.channels_s(),
            vel.data@,
            vel.width as int,
            vel.height as int,
            dt,
        ),
{
    let cc = src.format.channels();
    let rule = AdvectRule {
        w: src.width,
        h: src.height,
        cc,
        src: &src.data,
        vw: vel.width,
        vh: vel.height,
        vel: &vel.data,
        dt,
    };
    let out = grid_map(&rule, src.width, src.height, cc);
    proof {
        assert(out@ =~= advect_seq(
            src.data@,
            src.width as int,
            src.height as int,
            src.format.channels_s(),
            vel.data@,
            vel.width as int,
            vel.height as int,
            dt,
        ));
    }
    out
}

/// One sample of the initial dye field: a centred circular blob whose
/// green channel ramps linearly from one at the centre to zero at the
/// blob edge, with full blue and alpha inside the blob.
pub open spec fn dye_cell_s(w: int, h: int, r: int, c: int, k: int) -> i32 {
    let dr = r - h / 2;
    let dc = c - w / 2;
    let rad = ((if w <= h {
        w
    } else {
        h
    }) / 4) * 65536;
    let dist = crate::fixed::isqrt_s((dr * dr + dc * dc) * 0x1_0000_0000);
    if k == 1 {
        if dist < rad {
            (((rad - dist) * 65536) / rad) as i32
        } else {
            0i32
        }
    } else if k == 2 {
        if dist < rad {
            65536i32
        } else {
            0i32
        }
    } else if k == 3 {
        65536i32
    } else {
        0i32
    }
}

/// The initial dye field over a whole grid.
pub open spec fn dye_seq(w: int, h: int) -> Seq<i32> {
    Seq::new(
        grid_len(w, h, 4) as nat,
        |i: int| dye_cell_s(w, h, row_of(i, w, 4), col_of(i, w, 4), chan_of(i, w, 4)),
    )
}

struct DyeRule {
    w: usize,
    h: usize,
}

impl CellRule for DyeRule {
    closed spec fn wf(&self, w: int, h: int, cc: int) -> bool {
        &&& self.w as int == w
        &&& self.h as int == h
        &&& cc == 4
        &&& w >= 4
        &&& h >= 4
    }

    closed spec fn spec_cell(&self, r: int, c: int, k: int) -> i32 {
        dye_cell_s(self.w as int, self.h as int, r, c, k)
    }

    fn cell(&self, w: usize, h: usize, cc: usize, r: usize, c: usize, k: usize) -> (v: i32) {
        let dr = r as i64 - (h / 2) as i64;
        let dc = c as i64 - (w / 2) as i64;
        proof {
            assert(0 <= dr * dr <= 0x4000000 && 0 <= dc * dc <= 0x4000000) by (nonlinear_arith)
                requires
                    -8192 <= dr <= 8192,
                    -8192 <= dc <= 8192,
            ;
        }
        let d2 = (dr * dr + dc * dc) as u64;
        let n = d2 * 0x1_0000_0000;
        let dist_u = crate::fixed::isqrt64(n);
        proof {
            assert(dist_u as int * dist_u as int <= n as int);
            assert(dist_u as int <= 0x4000_0000) by {
                if dist_u as int > 0x4000_0000 {
                    assert(dist_u as int * dist_u as int > 0x1000_0000_0000_0000) by (
                    nonlinear_arith)
                        requires
                            dist_u as int > 0x4000_0000,
                    ;
                }
            }
        }
        let dist = dist_u as i64;
        let min_dim = if w <= h {
            w
        } else {
            h
        };
        let rad = ((min_dim / 4) as i64) * 65536;
        if k == 1 {
            if dist < rad {
                proof {
                    vstd::arithmetic::div_mod::lemma_div_is_ordered(
                        (rad - dist) as int * 65536,
                        rad as int * 65536,
                        rad as int,
                    );
                    vstd::arithmetic::div_mod::lemma_div_by_multiple(65536, rad as int);
                    vstd::arithmetic::div_mod::lemma_div_pos_is_pos(
                        (rad - dist) as int * 65536,
                        rad as int,
                    );
                    assert((rad as int - dist as int) * 65536 <= rad as int * 65536 && rad as int
                        * 65536 == 65536 * (rad as int)) by (nonlinear_arith)
                        requires
                            0 <= dist,
                            dist < rad,
                    ;
                }
                ((((rad - dist) as u64) * 65536) / (rad as u64)) as i32
            } else {
                0
            }
        } else if k == 2 {
            if dist < rad {
                65536
            } else {
                0
            }
        } else if k == 3 {
            65536
        } else {
            0
        }
    }
}

/// Build the initial dye field: a centred circular blob of radius a
/// quarter of the smaller grid edge, ramping linearly to zero at its
/// boundary.
pub fn make_initial_dye(w: usize, h: usize) -> (out: Vec<i32>)
    requires
        dims_ok(w as int, h as int, 4),
        w >= 4,
        h >= 4,
    ensures
        out@ == dye_seq(w as int, h as int),
{
    let rule = DyeRule { w, h };
    let out = grid_map(&rule, w, h, 4);
    proof {
        assert(out@ =~= dye_seq(w as int, h as int));
    }
    out
}

/// Build the static per-edge reflection-coefficient field, computed once
/// at setup and never mutated.
pub fn make_boundary_offsets(w: usize, h: usize) -> (out: Vec<i32>)
    requires
        dims_ok(w as int, h as int, 2),
    ensures
        out@ == offsets_seq(w as int, h as int),
{
    let rule = OffsetsRule { w, h };
    let out = grid_map(&rule, w, h, 2);
    proof {
        assert(out@ =~= offsets_seq(w as int, h as int));
    }
    out
}

} // verus!
