//! Flat grids of fixed-point samples, and the one loop that fills them.
//!
//! A grid of `w`-by-`h` texels with `cc` channels is stored row-major as a
//! `Vec<i32>` of length `w * h * cc`; texel `(r, c)` keeps its channels at
//! consecutive indices starting at `(r * w + c) * cc`.  Every pass of the
//! solver is a pointwise rule, one output sample per `(row, column,
//! channel)` triple; such a rule implements [`CellRule`] and is run by
//! [`grid_map`], whose postcondition pins each output sample to the rule's
//! own specification.

use vstd::prelude::*;

use vstd::arithmetic::div_mod::lemma_fundamental_div_mod_converse_div;
use vstd::arithmetic::div_mod::lemma_fundamental_div_mod_converse_mod;

verus! {

/// Largest grid edge the library accepts; keeps all index and stencil
/// arithmetic inside 64 bits.
pub const MAX_DIM: usize = 8192;

/// Dimensions a grid may have: bounded edges, one to four channels.
pub open spec fn dims_ok(w: int, h: int, cc: int) -> bool {
    &&& 1 <= w <= MAX_DIM as int
    &&& 1 <= h <= MAX_DIM as int
    &&& 1 <= cc <= 4
}

/// Number of samples in a grid.
pub open spec fn grid_len(w: int, h: int, cc: int) -> int {
    w * h * cc
}

/// Flat index of channel `k` of texel `(r, c)`.
pub open spec fn flat_idx(w: int, cc: int, r: int, c: int, k: int) -> int {
    (r * w + c) * cc + k
}

/// Row encoded in flat index `i`.
pub open spec fn row_of(i: int, w: int, cc: int) -> int {
    i / (w * cc)
}

/// Column encoded in flat index `i`.
pub open spec fn col_of(i: int, w: int, cc: int) -> int {
    (i % (w * cc)) / cc
}

/// Channel encoded in flat index `i`.
pub open spec fn chan_of(i: int, w: int, cc: int) -> int {
    (i % (w * cc)) % cc
}

/// Sample at channel `k` of texel `(r, c)` of a grid's contents.
pub open spec fn cell(s: Seq<i32>, w: int, cc: int, r: int, c: int, k: int) -> i32 {
    s[flat_idx(w, cc, r, c, k)]
}

/// An index clamped into `[0, n)`, the clamp-to-edge address rule every
/// stencil uses at the domain border.
pub open spec fn clamp_idx(i: int, n: int) -> int
    recommends
        n >= 1,
{
    if i < 0 {
        0
    } else if i >= n {
        n - 1
    } else {
        i
    }
}

/// A flat index is inside the grid, and decomposes back into its triple.
pub proof fn lemma_flat_idx(w: int, h: int, cc: int, r: int, c: int, k: int)
    requires
        dims_ok(w, h, cc),
        0 <= r < h,
        0 <= c < w,
        0 <= k < cc,
    ensures
        0 <= flat_idx(w, cc, r, c, k) < grid_len(w, h, cc),
        row_of(flat_idx(w, cc, r, c, k), w, cc) == r,
        col_of(flat_idx(w, cc, r, c, k), w, cc) == c,
        chan_of(flat_idx(w, cc, r, c, k), w, cc) == k,
{
    let i = flat_idx(w, cc, r, c, k);
    let rem = c * cc + k;
    assert((r * w + c) * cc + k == r * (w * cc) + (c * cc + k)) by (nonlinear_arith);
    assert(0 <= c * cc + k && c * cc + k < w * cc) by (nonlinear_arith)
        requires
            1 <= cc,
            0 <= c < w,
            0 <= k < cc,
    ;
    assert(0 <= r * (w * cc) && r * (w * cc) + (w * cc) <= h * (w * cc)) by (nonlinear_arith)
        requires
            1 <= w && 1 <= cc,
            0 <= r < h,
    ;
    assert(h * (w * cc) == w * h * cc) by (nonlinear_arith);
    lemma_fundamental_div_mod_converse_div(i, w * cc, r, rem);
    lemma_fundamental_div_mod_converse_mod(i, w * cc, r, rem);
    lemma_fundamental_div_mod_converse_div(rem, cc, c, k);
    lemma_fundamental_div_mod_converse_mod(rem, cc, c, k);
}

/// A pointwise rule: one fixed-point sample for each (row, column,
/// channel) triple of the output grid.
pub trait CellRule {
    /// The inputs the rule reads are consistent with an output of the
    /// given dimensions.
    spec fn wf(&self, w: int, h: int, cc: int) -> bool;

    /// The sample the rule produces at `(r, c, k)`.
    spec fn spec_cell(&self, r: int, c: int, k: int) -> i32;

    /// Compute the sample at `(r, c, k)`.
    fn cell(&self, w: usize, h: usize, cc: usize, r: usize, c: usize, k: usize) -> (v: i32)
        requires
            self.wf(w as int, h as int, cc as int),
            dims_ok(w as int, h as int, cc as int),
            r < h,
            c < w,
            k < cc,
        ensures
            v == self.spec_cell(r as int, c as int, k as int),
    ;
}

/// The grid a rule produces, as a sequence.
pub open spec fn grid_seq<R: CellRule>(rule: &R, w: int, h: int, cc: int) -> Seq<i32> {
    Seq::new(
        grid_len(w, h, cc) as nat,
        |i: int| rule.spec_cell(row_of(i, w, cc), col_of(i, w, cc), chan_of(i, w, cc)),
    )
}

/// Run a pointwise rule over a whole grid.
pub fn grid_map<R: CellRule>(rule: &R, w: usize, h: usize, cc: usize) -> (out: Vec<i32>)
    requires
        rule.wf(w as int, h as int, cc as int),
        dims_ok(w as int, h as int, cc as int),
    ensures
        out@.len() == grid_len(w as int, h as int, cc as int),
        out@ == grid_seq(rule, w as int, h as int, cc as int),
        forall|r: int, c: int, k: int|
            0 <= r < h && 0 <= c < w && 0 <= k < cc ==> cell(
                out@,
                w as int,
                cc as int,
                r,
                c,
                k,
            ) == rule.spec_cell(r, c, k),
{
    let ghost wi = w as int;
    let ghost hi = h as int;
    let ghost cci = cc as int;
    let ghost target = grid_seq(rule, wi, hi, cci);
    let mut out: Vec<i32> = Vec::new();
    let mut r: usize = 0;
    while r < h
        invariant
            rule.wf(wi, hi, cci),
            dims_ok(wi, hi, cci),
            w == wi && h == hi && cc == cci,
            r <= h,
            target == grid_seq(rule, wi, hi, cci),
            out@.len() == r as int * wi * cci,
            forall|i: int| 0 <= i < out@.len() ==> out@[i] == target[i],
        decreases h - r,
    {
        let mut c: usize = 0;
        while c < w
            invariant
                rule.wf(wi, hi, cci),
                dims_ok(wi, hi, cci),
                w == wi && h == hi && cc == cci,
                r < h,
                c <= w,
                target == grid_seq(rule, wi, hi, cci),
                out@.len() == (r as int * wi + c as int) * cci,
                forall|i: int| 0 <= i < out@.len() ==> out@[i] == target[i],
            decreases w - c,
        {
            let mut k: usize = 0;
            while k < cc
                invariant
                    rule.wf(wi, hi, cci),
                    dims_ok(wi, hi, cci),
                    w == wi && h == hi && cc == cci,
                    r < h,
                    c < w,
                    k <= cc,
                    target == grid_seq(rule, wi, hi, cci),
                    out@.len() == (r as int * wi + c as int) * cci + k as int,
                    forall|i: int| 0 <= i < out@.len() ==> out@[i] == target[i],
                decreases cc - k,
            {
                let v = rule.cell(w, h, cc, r, c, k);
                proof {
                    lemma_flat_idx(wi, hi, cci, r as int, c as int, k as int);
                    assert(out@.len() == flat_idx(wi, cci, r as int, c as int, k as int));
                    assert(target[out@.len() as int] == v);
                }
                out.push(v);
                k = k + 1;
            }
            proof {
                assert((r as int * wi + c as int) * cci + cci == (r as int * wi + (c as int + 1))
                    * cci) by (nonlinear_arith);
            }
            c = c + 1;
        }
        proof {
            assert((r as int * wi + wi) * cci == (r as int + 1) * wi * cci && (r as int + 1) * wi
                * cci == ((r as int + 1) * wi + 0) * cci) by (nonlinear_arith);
        }
        r = r + 1;
    }
    proof {
        assert(out@.len() == grid_len(wi, hi, cci)) by (nonlinear_arith)
            requires
                out@.len() == h as int * wi * cci,
                wi == w as int && hi == h as int && cci == cc as int,
        ;
        assert(out@ =~= target);
        assert forall|r2: int, c2: int, k2: int|
            0 <= r2 < h && 0 <= c2 < w && 0 <= k2 < cc implies cell(
            out@,
            wi,
            cci,
            r2,
            c2,
            k2,
        ) == rule.spec_cell(r2, c2, k2) by {
            lemma_flat_idx(wi, hi, cci, r2, c2, k2);
        }
    }
    out
}

} // verus!
