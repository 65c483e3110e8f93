//! 3x3 homogeneous matrices over the fixed-point scalar, with product,
//! determinant, adjugate and inverse, each pinned to an exact spec.

use vstd::prelude::*;

verus! {

use crate::fixed::{
    Fx, FX_SCALE, sadd, ssub, smul, sdiv, lemma_smul_one, lemma_smul_zero, lemma_sadd_zero,
};

/// A 3x3 matrix in row-major order: `mRC` is the entry at row `R`,
/// column `C`.
#[derive(Clone, Copy, Debug, PartialEq, Eq, Structural)]
pub struct Mat3 {
    pub m00: Fx,
    pub m01: Fx,
    pub m02: Fx,
    pub m10: Fx,
    pub m11: Fx,
    pub m12: Fx,
    pub m20: Fx,
    pub m21: Fx,
    pub m22: Fx,
}

/// The identity matrix.
pub open spec fn spec_mat_identity() -> Mat3 {
    Mat3 {
        m00: Fx { bits: FX_SCALE },
        m01: Fx { bits: 0 },
        m02: Fx { bits: 0 },
        m10: Fx { bits: 0 },
        m11: Fx { bits: FX_SCALE },
        m12: Fx { bits: 0 },
        m20: Fx { bits: 0 },
        m21: Fx { bits: 0 },
        m22: Fx { bits: FX_SCALE },
    }
}

/// One entry of a matrix product: the dot product of a row of `a` with a
/// column of `b`, accumulated left to right.
pub open spec fn spec_dot3(x0: Fx, x1: Fx, x2: Fx, y0: Fx, y1: Fx, y2: Fx) -> Fx {
    sadd(sadd(smul(x0, y0), smul(x1, y1)), smul(x2, y2))
}

/// The matrix product `a * b` in fixed-point arithmetic.
pub open spec fn spec_mat_mul(a: Mat3, b: Mat3) -> Mat3 {
    Mat3 {
        m00: spec_dot3(a.m00, a.m01, a.m02, b.m00, b.m10, b.m20),
        m01: spec_dot3(a.m00, a.m01, a.m02, b.m01, b.m11, b.m21),
        m02: spec_dot3(a.m00, a.m01, a.m02, b.m02, b.m12, b.m22),
        m10: spec_dot3(a.m10, a.m11, a.m12, b.m00, b.m10, b.m20),
        m11: spec_dot3(a.m10, a.m11, a.m12, b.m01, b.m11, b.m21),
        m12: spec_dot3(a.m10, a.m11, a.m12, b.m02, b.m12, b.m22),
        m20: spec_dot3(a.m20, a.m21, a.m22, b.m00, b.m10, b.m20),
        m21: spec_dot3(a.m20, a.m21, a.m22, b.m01, b.m11, b.m21),
        m22: spec_dot3(a.m20, a.m21, a.m22, b.m02, b.m12, b.m22),
    }
}

/// A 2x2 minor: `x0 * y1 - x1 * y0`.
pub open spec fn spec_minor(x0: Fx, y1: Fx, x1: Fx, y0: Fx) -> Fx {
    ssub(smul(x0, y1), smul(x1, y0))
}

/// The determinant, expanded along the first row.
pub open spec fn spec_mat_det(m: Mat3) -> Fx {
    sadd(
        ssub(
            smul(m.m00, spec_minor(m.m11, m.m22, m.m12, m.m21)),
            smul(m.m01, spec_minor(m.m10, m.m22, m.m12, m.m20)),
        ),
        smul(m.m02, spec_minor(m.m10, m.m21, m.m11, m.m20)),
    )
}

/// The adjugate (transposed cofactor matrix).
pub open spec fn spec_mat_adjugate(m: Mat3) -> Mat3 {
    Mat3 {
        m00: spec_minor(m.m11, m.m22, m.m12, m.m21),
        m01: spec_minor(m.m02, m.m21, m.m01, m.m22),
        m02: spec_minor(m.m01, m.m12, m.m02, m.m11),
        m10: spec_minor(m.m12, m.m20, m.m10, m.m22),
        m11: spec_minor(m.m00, m.m22, m.m02, m.m20),
        m12: spec_minor(m.m02, m.m10, m.m00, m.m12),
        m20: spec_minor(m.m10, m.m21, m.m11, m.m20),
        m21: spec_minor(m.m01, m.m20, m.m00, m.m21),
        m22: spec_minor(m.m00, m.m11, m.m01, m.m10),
    }
}

/// The inverse: every adjugate entry divided by the determinant.
pub open spec fn spec_mat_inverse(m: Mat3) -> Mat3 {
    let adj = spec_mat_adjugate(m);
    let det = spec_mat_det(m);
    Mat3 {
        m00: sdiv(adj.m00, det),
        m01: sdiv(adj.m01, det),
        m02: sdiv(adj.m02, det),
        m10: sdiv(adj.m10, det),
        m11: sdiv(adj.m11, det),
        m12: sdiv(adj.m12, det),
        m20: sdiv(adj.m20, det),
        m21: sdiv(adj.m21, det),
        m22: sdiv(adj.m22, det),
    }
}

impl Mat3 {
    /// The matrix with the given rows.
    #[allow(clippy::too_many_arguments)]
    pub fn new(
        m00: Fx,
        m01: Fx,
        m02: Fx,
        m10: Fx,
        m11: Fx,
        m12: Fx,
        m20: Fx,
        m21: Fx,
        m22: Fx,
    ) -> (r: Mat3)
        ensures
            r == (Mat3 { m00, m01, m02, m10, m11, m12, m20, m21, m22 }),
    {
        Mat3 { m00, m01, m02, m10, m11, m12, m20, m21, m22 }
    }

    pub fn identity() -> (r: Mat3)
        ensures
            r == spec_mat_identity(),
    {
        let one = Fx::one();
        let zero = Fx::zero();
        Mat3 {
            m00: one,
            m01: zero,
            m02: zero,
            m10: zero,
            m11: one,
            m12: zero,
            m20: zero,
            m21: zero,
            m22: one,
        }
    }

    /// The matrix product `self * o`.
    pub fn mat_mul(&self, o: &Mat3) -> (r: Mat3)
        ensures
            r == spec_mat_mul(*self, *o),
    {
        Mat3 {
            m00: dot3(self.m00, self.m01, self.m02, o.m00, o.m10, o.m20),
            m01: dot3(self.m00, self.m01, self.m02, o.m01, o.m11, o.m21),
            m02: dot3(self.m00, self.m01, self.m02, o.m02, o.m12, o.m22),
            m10: dot3(self.m10, self.m11, self.m12, o.m00, o.m10, o.m20),
            m11: dot3(self.m10, self.m11, self.m12, o.m01, o.m11, o.m21),
            m12: dot3(self.m10, self.m11, self.m12, o.m02, o.m12, o.m22),
            m20: dot3(self.m20, self.m21, self.m22, o.m00, o.m10, o.m20),
            m21: dot3(self.m20, self.m21, self.m22, o.m01, o.m11, o.m21),
            m22: dot3(self.m20, self.m21, self.m22, o.m02, o.m12, o.m22),
        }
    }

    /// The determinant of `self`.
    pub fn det(&self) -> (r: Fx)
        ensures
            r == spec_mat_det(*self),
    {
        let c0 = minor(self.m11, self.m22, self.m12, self.m21);
        let c1 = minor(self.m10, self.m22, self.m12, self.m20);
        let c2 = minor(self.m10, self.m21, self.m11, self.m20);
        self.m00.fx_mul(c0).fx_sub(self.m01.fx_mul(c1)).fx_add(self.m02.fx_mul(c2))
    }

    /// The inverse of `self`, or `None` when the fixed-point determinant
    /// is zero.
    pub fn inverse(&self) -> (r: Option<Mat3>)
        ensures
            spec_mat_det(*self).bits == 0 <==> r is None,
            r is Some ==> r->Some_0 == spec_mat_inverse(*self),
    {
        let det = self.det();
        if det.bits == 0 {
            None
        } else {
            Some(
                Mat3 {
                    m00: minor(self.m11, self.m22, self.m12, self.m21).fx_div(det),
                    m01: minor(self.m02, self.m21, self.m01, self.m22).fx_div(det),
                    m02: minor(self.m01, self.m12, self.m02, self.m11).fx_div(det),
                    m10: minor(self.m12, self.m20, self.m10, self.m22).fx_div(det),
                    m11: minor(self.m00, self.m22, self.m02, self.m20).fx_div(det),
                    m12: minor(self.m02, self.m10, self.m00, self.m12).fx_div(det),
                    m20: minor(self.m10, self.m21, self.m11, self.m20).fx_div(det),
                    m21: minor(self.m01, self.m20, self.m00, self.m21).fx_div(det),
                    m22: minor(self.m00, self.m11, self.m01, self.m10).fx_div(det),
                },
            )
        }
    }
}

/// One entry of a matrix product, accumulated left to right.
fn dot3(x0: Fx, x1: Fx, x2: Fx, y0: Fx, y1: Fx, y2: Fx) -> (r: Fx)
    ensures
        r == spec_dot3(x0, x1, x2, y0, y1, y2),
{
    x0.fx_mul(y0).fx_add(x1.fx_mul(y1)).fx_add(x2.fx_mul(y2))
}

/// A 2x2 minor.
fn minor(x0: Fx, y1: Fx, x1: Fx, y0: Fx) -> (r: Fx)
    ensures
        r == spec_minor(x0, y1, x1, y0),
{
    x0.fx_mul(y1).fx_sub(x1.fx_mul(y0))
}

/// The identity matrix is exactly neutral for the fixed-point product, on
/// both sides: no rounding or saturation occurs.
pub proof fn lemma_mat_mul_identity(m: Mat3)
    ensures
        spec_mat_mul(spec_mat_identity(), m) == m,
        spec_mat_mul(m, spec_mat_identity()) == m,
{
    lemma_smul_one(m.m00);
    lemma_smul_one(m.m01);
    lemma_smul_one(m.m02);
    lemma_smul_one(m.m10);
    lemma_smul_one(m.m11);
    lemma_smul_one(m.m12);
    lemma_smul_one(m.m20);
    lemma_smul_one(m.m21);
    lemma_smul_one(m.m22);
    lemma_smul_zero(m.m00);
    lemma_smul_zero(m.m01);
    lemma_smul_zero(m.m02);
    lemma_smul_zero(m.m10);
    lemma_smul_zero(m.m11);
    lemma_smul_zero(m.m12);
    lemma_smul_zero(m.m20);
    lemma_smul_zero(m.m21);
    lemma_smul_zero(m.m22);
    lemma_sadd_zero(m.m00);
    lemma_sadd_zero(m.m01);
    lemma_sadd_zero(m.m02);
    lemma_sadd_zero(m.m10);
    lemma_sadd_zero(m.m11);
    lemma_sadd_zero(m.m12);
    lemma_sadd_zero(m.m20);
    lemma_sadd_zero(m.m21);
    lemma_sadd_zero(m.m22);
    lemma_sadd_zero(Fx { bits: 0 });
}

} // verus!
