//! Planar mappings: a 3x3 homogeneous matrix tagged with a
//! degree-of-freedom kind, with parameterization, composition, inversion,
//! point warping and extent computation.

use vstd::prelude::*;

verus! {

use crate::error::WarpError;
use crate::fixed::{Fx, FX_SCALE, sadd, ssub, smul, sdiv, smin, smax};
use crate::kind::TransformationType;
use crate::mat::{Mat3, spec_mat_identity, spec_mat_mul, spec_mat_det, spec_mat_inverse};

/// The guard placed under a homogeneous coordinate before dividing by it,
/// about 1e-8 on the fixed-point grid.
pub const FX_HOMOGENEOUS_GUARD: i64 = 43;

/// A planar mapping: a 3x3 fixed-point matrix in homogeneous form and the
/// intended degree-of-freedom class.  The tag narrows what `get_params`
/// reports but never restricts the matrix itself.
#[derive(Clone, Copy, Debug, PartialEq, Eq, Structural)]
pub struct Mapping {
    pub mat: Mat3,
    pub kind: TransformationType,
}

/// The translation matrix `[[1, 0, dx], [0, 1, dy], [0, 0, 1]]`.
pub open spec fn spec_translation(dx: Fx, dy: Fx) -> Mat3 {
    Mat3 {
        m00: Fx { bits: FX_SCALE },
        m01: Fx { bits: 0 },
        m02: dx,
        m10: Fx { bits: 0 },
        m11: Fx { bits: FX_SCALE },
        m12: dy,
        m20: Fx { bits: 0 },
        m21: Fx { bits: 0 },
        m22: Fx { bits: FX_SCALE },
    }
}

/// The mapping built from a parameter vector of valid length:
/// `[]` is the identity, `[dx, dy]` a translation, six parameters an
/// affine map and eight a projective map, with the `a` and `e` diagonal
/// entries stored as the parameter plus one.
pub open spec fn spec_from_params(p: Seq<Fx>) -> Mapping {
    let one = Fx { bits: FX_SCALE };
    let zero = Fx { bits: 0 };
    if p.len() == 0 {
        Mapping { mat: spec_mat_identity(), kind: TransformationType::Identity }
    } else if p.len() == 2 {
        Mapping { mat: spec_translation(p[0], p[1]), kind: TransformationType::Translational }
    } else if p.len() == 6 {
        Mapping {
            mat: Mat3 {
                m00: sadd(p[0], one),
                m01: p[2],
                m02: p[4],
                m10: p[1],
                m11: sadd(p[3], one),
                m12: p[5],
                m20: zero,
                m21: zero,
                m22: one,
            },
            kind: TransformationType::Affine,
        }
    } else {
        Mapping {
            mat: Mat3 {
                m00: sadd(p[0], one),
                m01: p[2],
                m02: p[4],
                m10: p[1],
                m11: sadd(p[3], one),
                m12: p[5],
                m20: p[6],
                m21: p[7],
                m22: one,
            },
            kind: TransformationType::Projective,
        }
    }
}

/// The stronger of two kinds: more parameters win, and on a tie a named
/// kind beats the `Unknown` sentinel, so `Unknown` never survives a race
/// against a named kind.
pub open spec fn spec_stronger_kind(
    a: TransformationType,
    b: TransformationType,
) -> TransformationType {
    if b.spec_num_params() > a.spec_num_params() || (a == TransformationType::Unknown && b
        != TransformationType::Unknown) {
        b
    } else {
        a
    }
}

/// The kind with the most parameters among an ordered triple, folded from
/// the left; `Unknown` results only when all three are `Unknown`.
pub open spec fn spec_combine_kind(
    l: TransformationType,
    m: TransformationType,
    r: TransformationType,
) -> TransformationType {
    spec_stronger_kind(spec_stronger_kind(l, m), r)
}

/// Composition `lhs * self * rhs`, an absent operand standing for the
/// identity matrix with the `Unknown` kind.
pub open spec fn spec_transform(m: Mapping, lhs: Option<Mapping>, rhs: Option<Mapping>) -> Mapping {
    let lm = if lhs is Some {
        lhs->Some_0.mat
    } else {
        spec_mat_identity()
    };
    let lk = if lhs is Some {
        lhs->Some_0.kind
    } else {
        TransformationType::Unknown
    };
    let rm = if rhs is Some {
        rhs->Some_0.mat
    } else {
        spec_mat_identity()
    };
    let rk = if rhs is Some {
        rhs->Some_0.kind
    } else {
        TransformationType::Unknown
    };
    Mapping {
        mat: spec_mat_mul(spec_mat_mul(lm, m.mat), rm),
        kind: spec_combine_kind(lk, m.kind, rk),
    }
}

/// The inverse matrix under the same kind tag.
pub open spec fn spec_inverse_mapping(m: Mapping) -> Mapping {
    Mapping { mat: spec_mat_inverse(m.mat), kind: m.kind }
}

/// Where the matrix sends one point: lift to homogeneous coordinates,
/// apply the matrix, then divide by the homogeneous coordinate, guarded
/// from below by `FX_HOMOGENEOUS_GUARD`.
pub open spec fn spec_warp_point_mat(m: Mat3, p: (Fx, Fx)) -> (Fx, Fx) {
    let xh = sadd(sadd(smul(m.m00, p.0), smul(m.m01, p.1)), m.m02);
    let yh = sadd(sadd(smul(m.m10, p.0), smul(m.m11, p.1)), m.m12);
    let dh = sadd(sadd(smul(m.m20, p.0), smul(m.m21, p.1)), m.m22);
    let d = smax(dh, Fx { bits: FX_HOMOGENEOUS_GUARD });
    (sdiv(xh, d), sdiv(yh, d))
}

/// Where the mapping sends one point; a mapping tagged `Identity`
/// returns its input unchanged, whatever its matrix holds.
pub open spec fn spec_warp_point(m: Mapping, p: (Fx, Fx)) -> (Fx, Fx) {
    if m.kind == TransformationType::Identity {
        p
    } else {
        spec_warp_point_mat(m.mat, p)
    }
}

/// The four corners `(0, 0), (w, 0), (w, h), (0, h)` of a `(w, h)` sized
/// rectangle, as fixed-point points.
pub open spec fn spec_corner_points(w: usize, h: usize) -> Seq<(Fx, Fx)> {
    let zero = Fx { bits: 0 };
    let wf = crate::fixed::s_of_int(w as int);
    let hf = crate::fixed::s_of_int(h as int);
    seq![(zero, zero), (wf, zero), (wf, hf), (zero, hf)]
}

/// The corners of a `(w, h)` rectangle warped by the inverse mapping.
pub open spec fn spec_corners(m: Mapping, w: usize, h: usize) -> Seq<(Fx, Fx)> {
    spec_corner_points(w, h).map_values(|p: (Fx, Fx)| spec_warp_point(spec_inverse_mapping(m), p))
}

/// The axis-aligned bounds of the warped corners:
/// `((min_x, min_y), (max_x, max_y))`.
pub open spec fn spec_extent(m: Mapping, w: usize, h: usize) -> ((Fx, Fx), (Fx, Fx)) {
    let c = spec_corners(m, w, h);
    (
        (
            smin(smin(smin(c[0].0, c[1].0), c[2].0), c[3].0),
            smin(smin(smin(c[0].1, c[1].1), c[2].1), c[3].1),
        ),
        (
            smax(smax(smax(c[0].0, c[1].0), c[2].0), c[3].0),
            smax(smax(smax(c[0].1, c[1].1), c[2].1), c[3].1),
        ),
    )
}

/// The running bounds over the first `k + 1` map/size pairs, the shorter
/// list cycling.
pub open spec fn spec_extent_fold(
    maps: Seq<Mapping>,
    sizes: Seq<(usize, usize)>,
    k: int,
) -> ((Fx, Fx), (Fx, Fx))
    decreases k,
{
    let e = spec_extent(
        maps[k % maps.len() as int],
        sizes[k % sizes.len() as int].0,
        sizes[k % sizes.len() as int].1,
    );
    if k <= 0 {
        e
    } else {
        let prev = spec_extent_fold(maps, sizes, k - 1);
        (
            (smin(prev.0.0, e.0.0), smin(prev.0.1, e.0.1)),
            (smax(prev.1.0, e.1.0), smax(prev.1.1, e.1.1)),
        )
    }
}

/// The accumulated absolute warps: one mapping per frame, anchored at an
/// initial identity, each further entry the previous one composed with
/// the next pairwise mapping on the right.
pub open spec fn spec_accumulate(maps: Seq<Mapping>) -> Seq<Mapping>
    decreases maps.len(),
{
    let anchor = Mapping { mat: spec_mat_identity(), kind: TransformationType::Identity };
    if maps.len() == 0 {
        seq![spec_transform(anchor, None, Some(anchor))]
    } else {
        let prev = spec_accumulate(maps.drop_last());
        prev.push(spec_transform(prev.last(), None, Some(maps.last())))
    }
}

impl Mapping {
    /// Return a Mapping object based on its 3x3 matrix.
    pub fn from_matrix(mat: Mat3, kind: TransformationType) -> (r: Mapping)
        ensures
            r == (Mapping { mat, kind }),
    {
        Mapping { mat, kind }
    }

    /// Given a list of transform parameters, return the Mapping that would
    /// transform a source point to its destination.  The kind of mapping
    /// depends on the number of parameters; any other length is refused.
    pub fn from_params(params: Vec<Fx>) -> (r: Result<Mapping, WarpError>)
        ensures
            r is Ok <==> (params@.len() == 0 || params@.len() == 2 || params@.len() == 6
                || params@.len() == 8),
            r is Ok ==> r->Ok_0 == spec_from_params(params@),
            r is Err ==> r->Err_0 == WarpError::InvalidParameterCount,
    {
        let n = params.len();
        if n == 0 {
            Ok(Mapping { mat: Mat3::identity(), kind: TransformationType::Identity })
        } else if n == 2 {
            let one = Fx::one();
            let zero = Fx::zero();
            let mat = Mat3::new(one, zero, params[0], zero, one, params[1], zero, zero, one);
            Ok(Mapping { mat, kind: TransformationType::Translational })
        } else if n == 6 {
            let one = Fx::one();
            let zero = Fx::zero();
            let mat = Mat3::new(
                params[0].fx_add(one),
                params[2],
                params[4],
                params[1],
                params[3].fx_add(one),
                params[5],
                zero,
                zero,
                one,
            );
            Ok(Mapping { mat, kind: TransformationType::Affine })
        } else if n == 8 {
            let one = Fx::one();
            let mat = Mat3::new(
                params[0].fx_add(one),
                params[2],
                params[4],
                params[1],
                params[3].fx_add(one),
                params[5],
                params[6],
                params[7],
                one,
            );
            Ok(Mapping { mat, kind: TransformationType::Projective })
        } else {
            Err(WarpError::InvalidParameterCount)
        }
    }

    /// Return a purely scaling (affine) Mapping, built the way the
    /// six-parameter constructor builds it from `x - 1` and `y - 1`.
    pub fn scale(x: Fx, y: Fx) -> (r: Mapping)
        ensures
            r == spec_from_params(
                seq![
                    ssub(x, Fx { bits: FX_SCALE }),
                    Fx { bits: 0 },
                    Fx { bits: 0 },
                    ssub(y, Fx { bits: FX_SCALE }),
                    Fx { bits: 0 },
                    Fx { bits: 0 },
                ],
            ),
    {
        let one = Fx::one();
        let zero = Fx::zero();
        let mut params: Vec<Fx> = Vec::new();
        params.push(x.fx_sub(one));
        params.push(zero);
        params.push(zero);
        params.push(y.fx_sub(one));
        params.push(zero);
        params.push(zero);
        let r = Self::from_params(params);
        match r {
            Ok(m) => m,
            Err(_) => Mapping { mat: Mat3::identity(), kind: TransformationType::Identity },
        }
    }

    /// Return a purely translational Mapping.
    pub fn shift(x: Fx, y: Fx) -> (r: Mapping)
        ensures
            r.mat == spec_translation(x, y),
            r.kind == TransformationType::Translational,
    {
        let one = Fx::one();
        let zero = Fx::zero();
        let mat = Mat3::new(one, zero, x, zero, one, y, zero, zero, one);
        Mapping { mat, kind: TransformationType::Translational }
    }

    /// Return an identity Mapping.
    pub fn identity() -> (r: Mapping)
        ensures
            r.mat == spec_mat_identity(),
            r.kind == TransformationType::Identity,
    {
        Mapping { mat: Mat3::identity(), kind: TransformationType::Identity }
    }

    /// Warp a set of points using the mapping.  A mapping tagged
    /// `Identity` returns the points unchanged.
    pub fn warp_points(&self, points: &Vec<(Fx, Fx)>) -> (r: Vec<(Fx, Fx)>)
        ensures
            r@.len() == points@.len(),
            forall|i: int|
                0 <= i < points@.len() ==> r@[i] == spec_warp_point(*self, points@[i]),
    {
        let n = points.len();
        let mut out: Vec<(Fx, Fx)> = Vec::new();
        if matches!(self.kind, TransformationType::Identity) {
            let mut i: usize = 0;
            while i < n
                invariant
                    n == points@.len(),
                    0 <= i <= n,
                    out@.len() == i as int,
                    self.kind == TransformationType::Identity,
                    forall|j: int| 0 <= j < i as int ==> out@[j] == spec_warp_point(*self, points@[j]),
                decreases n - i,
            {
                out.push(points[i]);
                i += 1;
            }
            out
        } else {
            let mut i: usize = 0;
            while i < n
                invariant
                    n == points@.len(),
                    0 <= i <= n,
                    out@.len() == i as int,
                    self.kind != TransformationType::Identity,
                    forall|j: int| 0 <= j < i as int ==> out@[j] == spec_warp_point(*self, points@[j]),
                decreases n - i,
            {
                out.push(warp_one(&self.mat, points[i]));
                i += 1;
            }
            out
        }
    }

    /// Compose with other mappings from left or right.  The resulting
    /// mapping carries the most general kind of all the inputs; an absent
    /// operand contributes the `Unknown` sentinel, which loses every
    /// tie-break against a named kind.
    pub fn transform(&self, lhs: Option<Mapping>, rhs: Option<Mapping>) -> (r: Mapping)
        ensures
            r == spec_transform(*self, lhs, rhs),
    {
        let (lhs_mat, lhs_kind) = match lhs {
            Some(m) => (m.mat, m.kind),
            None => (Mat3::identity(), TransformationType::Unknown),
        };
        let (rhs_mat, rhs_kind) = match rhs {
            Some(m) => (m.mat, m.kind),
            None => (Mat3::identity(), TransformationType::Unknown),
        };
        let mat = lhs_mat.mat_mul(&self.mat).mat_mul(&rhs_mat);
        let mut best = lhs_kind;
        if self.kind.num_params() > best.num_params() || (matches!(
            best,
            TransformationType::Unknown,
        ) && !matches!(self.kind, TransformationType::Unknown)) {
            best = self.kind;
        }
        if rhs_kind.num_params() > best.num_params() || (matches!(
            best,
            TransformationType::Unknown,
        ) && !matches!(rhs_kind, TransformationType::Unknown)) {
            best = rhs_kind;
        }
        Mapping { mat, kind: best }
    }

    /// Invert the mapping by creating a new mapping with the inverse
    /// matrix, keeping the kind.  A matrix whose fixed-point determinant
    /// is zero is refused as singular: any nonzero determinant on the
    /// fixed-point grid already exceeds the magnitude a float pipeline
    /// would treat as singular.
    pub fn inverse(&self) -> (r: Result<Mapping, WarpError>)
        ensures
            r is Ok <==> spec_mat_det(self.mat).bits != 0,
            r is Ok ==> r->Ok_0 == spec_inverse_mapping(*self),
            r is Err ==> r->Err_0 == WarpError::SingularMatrix,
    {
        match self.mat.inverse() {
            Some(inv) => Ok(Mapping { mat: inv, kind: self.kind }),
            None => Err(WarpError::SingularMatrix),
        }
    }

    /// Get the location of the corners of an image of size `(w, h)` once
    /// warped with the inverse of `self`.
    pub fn corners(&self, size: (usize, usize)) -> (r: Result<Vec<(Fx, Fx)>, WarpError>)
        ensures
            r is Ok <==> spec_mat_det(self.mat).bits != 0,
            r is Ok ==> r->Ok_0@ == spec_corners(*self, size.0, size.1),
            r is Err ==> r->Err_0 == WarpError::SingularMatrix,
    {
        let inv = match self.inverse() {
            Ok(m) => m,
            Err(e) => {
                return Err(e);
            },
        };
        let zero = Fx::zero();
        let wf = Fx::from_usize(size.0);
        let hf = Fx::from_usize(size.1);
        let mut pts: Vec<(Fx, Fx)> = Vec::new();
        pts.push((zero, zero));
        pts.push((wf, zero));
        pts.push((wf, hf));
        pts.push((zero, hf));
        let r = inv.warp_points(&pts);
        proof {
            assert(pts@ =~= spec_corner_points(size.0, size.1));
            assert(r@ =~= spec_corners(*self, size.0, size.1));
        }
        Ok(r)
    }

    /// The per-axis minimum and maximum over the warped corners:
    /// `((min_x, min_y), (max_x, max_y))`.
    pub fn extent(&self, size: (usize, usize)) -> (r: Result<((Fx, Fx), (Fx, Fx)), WarpError>)
        ensures
            r is Ok <==> spec_mat_det(self.mat).bits != 0,
            r is Ok ==> r->Ok_0 == spec_extent(*self, size.0, size.1),
            r is Err ==> r->Err_0 == WarpError::SingularMatrix,
    {
        let c = match self.corners(size) {
            Ok(c) => c,
            Err(e) => {
                return Err(e);
            },
        };
        let min_x = c[0].0.fx_min(c[1].0).fx_min(c[2].0).fx_min(c[3].0);
        let min_y = c[0].1.fx_min(c[1].1).fx_min(c[2].1).fx_min(c[3].1);
        let max_x = c[0].0.fx_max(c[1].0).fx_max(c[2].0).fx_max(c[3].0);
        let max_y = c[0].1.fx_max(c[1].1).fx_max(c[2].1).fx_max(c[3].1);
        Ok(((min_x, min_y), (max_x, max_y)))
    }

    /// Get the maximum extent of a collection of warps and their sizes,
    /// the shorter of the two lists cycling, and the translational offset
    /// mapping to the overall minimum corner.
    pub fn maximum_extent(maps: &Vec<Mapping>, sizes: &Vec<(usize, usize)>) -> (r: Result<
        ((Fx, Fx), Mapping),
        WarpError,
    >)
        requires
            maps@.len() >= 1,
            sizes@.len() >= 1,
        ensures
            r is Ok <==> (forall|i: int|
                0 <= i < maps@.len() ==> spec_mat_det(#[trigger] maps@[i].mat).bits != 0),
            r is Err ==> r->Err_0 == WarpError::SingularMatrix,
            r is Ok ==> ({
                let n = if maps@.len() >= sizes@.len() {
                    maps@.len() as int
                } else {
                    sizes@.len() as int
                };
                let bounds = spec_extent_fold(maps@, sizes@, n - 1);
                r->Ok_0.0 == (ssub(bounds.1.0, bounds.0.0), ssub(bounds.1.1, bounds.0.1))
                    && r->Ok_0.1.mat == spec_translation(bounds.0.0, bounds.0.1)
                    && r->Ok_0.1.kind == TransformationType::Translational
            }),
    {
        let n = if maps.len() >= sizes.len() {
            maps.len()
        } else {
            sizes.len()
        };
        let first = match maps[0].extent(sizes[0]) {
            Ok(e) => e,
            Err(e) => {
                proof {
                    assert(0int % maps@.len() as int == 0) by {
                        vstd::arithmetic::div_mod::lemma_small_mod(0nat, maps@.len() as nat);
                    }
                }
                return Err(e);
            },
        };
        let mut min_x = first.0.0;
        let mut min_y = first.0.1;
        let mut max_x = first.1.0;
        let mut max_y = first.1.1;
        let mut k: usize = 1;
        proof {
            vstd::arithmetic::div_mod::lemma_small_mod(0nat, maps@.len() as nat);
            vstd::arithmetic::div_mod::lemma_small_mod(0nat, sizes@.len() as nat);
        }
        while k < n
            invariant
                maps@.len() >= 1,
                sizes@.len() >= 1,
                n == if maps@.len() >= sizes@.len() {
                    maps@.len()
                } else {
                    sizes@.len()
                },
                1 <= k <= n,
                forall|j: int|
                    0 <= j < k as int ==> spec_mat_det(
                        #[trigger] maps@[j % maps@.len() as int].mat,
                    ).bits != 0,
                ((min_x, min_y), (max_x, max_y)) == spec_extent_fold(maps@, sizes@, k - 1),
            decreases n - k,
        {
            let mi = k % maps.len();
            let si = k % sizes.len();
            let e = match maps[mi].extent(sizes[si]) {
                Ok(e) => e,
                Err(e) => {
                    return Err(e);
                },
            };
            min_x = min_x.fx_min(e.0.0);
            min_y = min_y.fx_min(e.0.1);
            max_x = max_x.fx_max(e.1.0);
            max_y = max_y.fx_max(e.1.1);
            k += 1;
        }
        proof {
            assert forall|i: int| 0 <= i < maps@.len() implies spec_mat_det(
                #[trigger] maps@[i].mat,
            ).bits != 0 by {
                assert(maps@.len() as int <= n as int);
                vstd::arithmetic::div_mod::lemma_small_mod(i as nat, maps@.len() as nat);
                assert(maps@[i % maps@.len() as int] == maps@[i]);
            }
        }
        let extent = (max_x.fx_sub(min_x), max_y.fx_sub(min_y));
        let offset = Self::shift(min_x, min_y);
        Ok((extent, offset))
    }

    /// Compose/accumulate all pairwise mappings together, anchored at an
    /// initial identity, so each entry is the absolute warp of one frame.
    pub fn accumulate(mappings: Vec<Mapping>) -> (r: Vec<Mapping>)
        ensures
            r@ == spec_accumulate(mappings@),
            r@.len() == mappings@.len() + 1,
            r@[0].mat == spec_mat_identity(),
            r@[0].kind == TransformationType::Identity,
            forall|k: int|
                0 <= k < mappings@.len() ==> r@[k + 1] == spec_transform(
                    r@[k],
                    None,
                    Some(mappings@[k]),
                ),
    {
        let anchor = Self::identity();
        let first = anchor.transform(None, Some(Self::identity()));
        proof {
            crate::mat::lemma_mat_mul_identity(spec_mat_identity());
        }
        let mut out: Vec<Mapping> = Vec::new();
        let mut acc = first;
        out.push(first);
        let n = mappings.len();
        let mut i: usize = 0;
        proof {
            assert(out@ =~= spec_accumulate(mappings@.take(0)));
            assert(mappings@.take(0) =~= Seq::<Mapping>::empty());
        }
        while i < n
            invariant
                n == mappings@.len(),
                0 <= i <= n,
                out@.len() == i + 1,
                out@ == spec_accumulate(mappings@.take(i as int)),
                acc == out@[i as int],
            decreases n - i,
        {
            acc = acc.transform(None, Some(mappings[i]));
            out.push(acc);
            i += 1;
            proof {
                let t = mappings@.take(i as int);
                assert(t.drop_last() =~= mappings@.take(i - 1));
                assert(t.last() == mappings@[i - 1]);
                assert(out@ =~= spec_accumulate(t));
            }
        }
        proof {
            assert(mappings@.take(n as int) =~= mappings@);
            lemma_accumulate_shape(mappings@);
        }
        out
    }

    /// Apply a correction from the left so that the `wrt` mapping becomes
    /// the identity.
    pub fn with_respect_to(mappings: Vec<Mapping>, wrt_map: Mapping) -> (r: Result<
        Vec<Mapping>,
        WarpError,
    >)
        ensures
            r is Ok <==> spec_mat_det(wrt_map.mat).bits != 0,
            r is Err ==> r->Err_0 == WarpError::SingularMatrix,
            r is Ok ==> ({
                &&& r->Ok_0@.len() == mappings@.len()
                &&& forall|k: int|
                    0 <= k < mappings@.len() ==> r->Ok_0@[k] == spec_transform(
                        mappings@[k],
                        Some(spec_inverse_mapping(wrt_map)),
                        None,
                    )
            }),
    {
        let inv = match wrt_map.inverse() {
            Ok(m) => m,
            Err(e) => {
                return Err(e);
            },
        };
        let n = mappings.len();
        let mut out: Vec<Mapping> = Vec::new();
        let mut i: usize = 0;
        while i < n
            invariant
                n == mappings@.len(),
                0 <= i <= n,
                inv == spec_inverse_mapping(wrt_map),
                out@.len() == i as int,
                forall|k: int|
                    0 <= k < i as int ==> out@[k] == spec_transform(
                        mappings@[k],
                        Some(spec_inverse_mapping(wrt_map)),
                        None,
                    ),
            decreases n - i,
        {
            out.push(mappings[i].transform(Some(inv), None));
            i += 1;
        }
        Ok(out)
    }

    /// Rescale the mapping, keeping its kind intact, so that it works on
    /// coordinates `scale` times larger along both axes: compose with the
    /// enlargement on the left and the reduction on the right.
    pub fn rescale(&self, scale: Fx) -> (r: Mapping)
        ensures
            r.mat == spec_transform(
                *self,
                Some(Self::spec_scale_mapping(scale)),
                Some(Self::spec_scale_mapping(sdiv(Fx { bits: FX_SCALE }, scale))),
            ).mat,
            r.kind == self.kind,
    {
        let one = Fx::one();
        let inv_scale = one.fx_div(scale);
        let lhs = Self::scale(scale, scale);
        let rhs = Self::scale(inv_scale, inv_scale);
        let t = self.transform(Some(lhs), Some(rhs));
        Mapping { mat: t.mat, kind: self.kind }
    }

    /// The scaling mapping produced by `scale(s, s)`.
    pub open spec fn spec_scale_mapping(s: Fx) -> Mapping {
        spec_from_params(
            seq![
                ssub(s, Fx { bits: FX_SCALE }),
                Fx { bits: 0 },
                Fx { bits: 0 },
                ssub(s, Fx { bits: FX_SCALE }),
                Fx { bits: 0 },
                Fx { bits: 0 },
            ],
        )
    }

    /// The parameters reported for the mapping's kind, after dividing the
    /// whole matrix by its bottom-right entry.
    pub open spec fn spec_get_params(m: Mapping) -> Seq<Fx> {
        let one = Fx { bits: FX_SCALE };
        let w = m.mat.m22;
        match m.kind {
            TransformationType::Identity => Seq::<Fx>::empty(),
            TransformationType::Translational => seq![sdiv(m.mat.m02, w), sdiv(m.mat.m12, w)],
            _ => {
                let base = seq![
                    ssub(sdiv(m.mat.m00, w), one),
                    sdiv(m.mat.m10, w),
                    sdiv(m.mat.m01, w),
                    ssub(sdiv(m.mat.m11, w), one),
                    sdiv(m.mat.m02, w),
                    sdiv(m.mat.m12, w),
                ];
                if m.kind == TransformationType::Projective {
                    base + seq![sdiv(m.mat.m20, w), sdiv(m.mat.m21, w)]
                } else {
                    base
                }
            },
        }
    }

    /// The full eight-parameter projective form, regardless of kind.
    pub open spec fn spec_get_params_full(m: Mapping) -> Seq<Fx> {
        let one = Fx { bits: FX_SCALE };
        let w = m.mat.m22;
        seq![
            ssub(sdiv(m.mat.m00, w), one),
            sdiv(m.mat.m10, w),
            sdiv(m.mat.m01, w),
            ssub(sdiv(m.mat.m11, w), one),
            sdiv(m.mat.m02, w),
            sdiv(m.mat.m12, w),
            sdiv(m.mat.m20, w),
            sdiv(m.mat.m21, w),
        ]
    }

    /// Get the minimum number of parameters that describe the Mapping, in
    /// the same slot order the parameter constructor accepts.
    pub fn get_params(&self) -> (r: Vec<Fx>)
        requires
            self.kind != TransformationType::Unknown,
        ensures
            r@ == Self::spec_get_params(*self),
    {
        let one = Fx::one();
        let w = self.mat.m22;
        let mut out: Vec<Fx> = Vec::new();
        match self.kind {
            TransformationType::Identity => {},
            TransformationType::Translational => {
                out.push(self.mat.m02.fx_div(w));
                out.push(self.mat.m12.fx_div(w));
            },
            _ => {
                out.push(self.mat.m00.fx_div(w).fx_sub(one));
                out.push(self.mat.m10.fx_div(w));
                out.push(self.mat.m01.fx_div(w));
                out.push(self.mat.m11.fx_div(w).fx_sub(one));
                out.push(self.mat.m02.fx_div(w));
                out.push(self.mat.m12.fx_div(w));
                if matches!(self.kind, TransformationType::Projective) {
                    out.push(self.mat.m20.fx_div(w));
                    out.push(self.mat.m21.fx_div(w));
                }
            },
        }
        proof {
            assert(out@ =~= Self::spec_get_params(*self));
        }
        out
    }

    /// Get all eight parameters of the Mapping, over-parameterized for
    /// everything but a projective warp.
    pub fn get_params_full(&self) -> (r: Vec<Fx>)
        ensures
            r@ == Self::spec_get_params_full(*self),
            r@.len() == 8,
    {
        let one = Fx::one();
        let w = self.mat.m22;
        let mut out: Vec<Fx> = Vec::new();
        out.push(self.mat.m00.fx_div(w).fx_sub(one));
        out.push(self.mat.m10.fx_div(w));
        out.push(self.mat.m01.fx_div(w));
        out.push(self.mat.m11.fx_div(w).fx_sub(one));
        out.push(self.mat.m02.fx_div(w));
        out.push(self.mat.m12.fx_div(w));
        out.push(self.mat.m20.fx_div(w));
        out.push(self.mat.m21.fx_div(w));
        proof {
            assert(out@ =~= Self::spec_get_params_full(*self));
        }
        out
    }

    /// The matrix of the mapping.
    pub fn mat_getter(&self) -> (r: Mat3)
        ensures
            r == self.mat,
    {
        self.mat
    }

    /// Replace the matrix of the mapping.
    pub fn mat_setter(&mut self, mat: Mat3)
        ensures
            final(self).mat == mat,
            final(self).kind == old(self).kind,
    {
        self.mat = mat;
    }

    /// The kind of the mapping, as its spelled name.
    pub fn kind_getter(&self) -> (s: String)
        ensures
            s@ == self.kind.spec_name(),
    {
        self.kind.kind_to_string()
    }

    /// Replace the kind of the mapping by its spelled name; a spelling
    /// that names no kind is refused and changes nothing.
    pub fn kind_setter(&mut self, kind: &str) -> (r: Result<(), WarpError>)
        ensures
            r is Ok <==> crate::kind::spec_kind_from_chars(kind@) is Some,
            r is Ok ==> final(self).kind == crate::kind::spec_kind_from_chars(kind@)->Some_0
                && final(self).mat == old(self).mat,
            r is Err ==> *final(self) == *old(self) && r->Err_0 == WarpError::InvalidKindName,
    {
        match TransformationType::kind_from_string(kind) {
            Some(k) => {
                self.kind = k;
                Ok(())
            },
            None => Err(WarpError::InvalidKindName),
        }
    }
}

/// Apply the matrix to one point in homogeneous form.
fn warp_one(m: &Mat3, p: (Fx, Fx)) -> (r: (Fx, Fx))
    ensures
        r == spec_warp_point_mat(*m, p),
{
    let xh = m.m00.fx_mul(p.0).fx_add(m.m01.fx_mul(p.1)).fx_add(m.m02);
    let yh = m.m10.fx_mul(p.0).fx_add(m.m11.fx_mul(p.1)).fx_add(m.m12);
    let dh = m.m20.fx_mul(p.0).fx_add(m.m21.fx_mul(p.1)).fx_add(m.m22);
    let d = dh.fx_max(Fx::new(FX_HOMOGENEOUS_GUARD));
    (xh.fx_div(d), yh.fx_div(d))
}

/// The accumulated sequence is one longer than its input, starts at the
/// identity anchor, and steps by right-composition.
#[verifier::rlimit(50)]
pub proof fn lemma_accumulate_shape(maps: Seq<Mapping>)
    ensures
        spec_accumulate(maps).len() == maps.len() + 1,
        spec_accumulate(maps)[0].mat == spec_mat_identity(),
        spec_accumulate(maps)[0].kind == TransformationType::Identity,
        forall|k: int|
            0 <= k < maps.len() ==> spec_accumulate(maps)[k + 1] == spec_transform(
                spec_accumulate(maps)[k],
                None,
                Some(maps[k]),
            ),
    decreases maps.len(),
{
    crate::mat::lemma_mat_mul_identity(spec_mat_identity());
    if maps.len() == 0 {
    } else {
        lemma_accumulate_shape(maps.drop_last());
        let prev = spec_accumulate(maps.drop_last());
        assert forall|k: int|
            0 <= k < maps.len() implies spec_accumulate(maps)[k + 1] == spec_transform(
            spec_accumulate(maps)[k],
            None,
            Some(maps[k]),
        ) by {
            if k < maps.len() - 1 {
                assert(maps.drop_last()[k] == maps[k]);
            }
        }
    }
}

} // verus!
