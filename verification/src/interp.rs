//! Time interpolation of mapping parameters: piecewise linear between two
//! knots, natural cubic spline beyond, evaluated per parameter channel in
//! fixed-point arithmetic with an exact spec for every step.

use vstd::prelude::*;

verus! {

use crate::error::WarpError;
use crate::fixed::{Fx, ratio_bits, sadd, ssub, smul, sdiv};
use crate::mat::spec_mat_det;
use crate::warps::{Mapping, spec_from_params, spec_accumulate, spec_inverse_mapping, spec_transform};

/// Knot sequences must be strictly increasing.
pub open spec fn spec_strictly_increasing(ts: Seq<Fx>) -> bool {
    forall|i: int| 0 <= i < ts.len() - 1 ==> (#[trigger] ts[i].bits) < ts[i + 1].bits
}

/// The spacing between knot `i` and knot `i + 1`.
pub open spec fn spec_h(ts: Seq<Fx>, i: int) -> Fx {
    ssub(ts[i + 1], ts[i])
}

/// The right-hand side of the natural-spline system at interior knot `i`:
/// six times the difference of the adjacent divided differences.
pub open spec fn spec_spline_rhs(ts: Seq<Fx>, ys: Seq<Fx>, i: int) -> Fx {
    let six = Fx { bits: 0x6_0000_0000 };
    smul(
        six,
        ssub(
            sdiv(ssub(ys[i + 1], ys[i]), spec_h(ts, i)),
            sdiv(ssub(ys[i], ys[i - 1]), spec_h(ts, i - 1)),
        ),
    )
}

/// The forward sweep of the tridiagonal solve: `(mu_i, z_i)` at interior
/// knot `i`, with `(0, 0)` at the left boundary.
pub open spec fn spec_spline_fwd(ts: Seq<Fx>, ys: Seq<Fx>, i: int) -> (Fx, Fx)
    decreases i,
{
    let zero = Fx { bits: 0 };
    let two = Fx { bits: 0x2_0000_0000 };
    if i <= 0 {
        (zero, zero)
    } else {
        let prev = spec_spline_fwd(ts, ys, i - 1);
        let l = ssub(
            smul(two, sadd(spec_h(ts, i - 1), spec_h(ts, i))),
            smul(spec_h(ts, i - 1), prev.0),
        );
        (
            sdiv(spec_h(ts, i), l),
            sdiv(ssub(spec_spline_rhs(ts, ys, i), smul(spec_h(ts, i - 1), prev.1)), l),
        )
    }
}

/// The second derivative of the natural spline at knot `i`, by back
/// substitution; zero at both boundaries.
pub open spec fn spec_spline_m(ts: Seq<Fx>, ys: Seq<Fx>, n: int, i: int) -> Fx
    decreases n - i,
{
    let zero = Fx { bits: 0 };
    if i <= 0 || i >= n - 1 {
        zero
    } else {
        let fwd = spec_spline_fwd(ts, ys, i);
        ssub(fwd.1, smul(fwd.0, spec_spline_m(ts, ys, n, i + 1)))
    }
}

/// The segment that `q` falls in, scanned from knot `j` downward: the
/// largest index at or below `j` whose knot is at or below `q`, or zero.
pub open spec fn spec_segment_from(ts: Seq<Fx>, q: Fx, j: int) -> int
    decreases j,
{
    if j <= 0 {
        0
    } else if ts[j].bits <= q.bits {
        j
    } else {
        spec_segment_from(ts, q, j - 1)
    }
}

/// The segment of `q` among `n` knots: at most `n - 2`, so that the
/// segment always has a right endpoint.
pub open spec fn spec_segment(ts: Seq<Fx>, q: Fx, n: int) -> int {
    spec_segment_from(ts, q, n - 2)
}

/// Piecewise linear interpolation of `q` on the segment `j`.
pub open spec fn spec_linear_eval(ts: Seq<Fx>, ys: Seq<Fx>, q: Fx, j: int) -> Fx {
    sadd(ys[j], smul(ssub(q, ts[j]), sdiv(ssub(ys[j + 1], ys[j]), spec_h(ts, j))))
}

/// Natural-spline evaluation of `q` on the segment `j`, from the knot
/// values and the second derivatives `m_j`, `m_j1` at the segment's ends.
pub open spec fn spec_spline_eval(
    ts: Seq<Fx>,
    ys: Seq<Fx>,
    q: Fx,
    j: int,
    m_j: Fx,
    m_j1: Fx,
) -> Fx {
    let six = Fx { bits: 0x6_0000_0000 };
    let h = spec_h(ts, j);
    let a = sdiv(ssub(ts[j + 1], q), h);
    let b = sdiv(ssub(q, ts[j]), h);
    let linear_part = sadd(smul(a, ys[j]), smul(b, ys[j + 1]));
    let h2_over_6 = sdiv(smul(h, h), six);
    let curve_a = smul(ssub(smul(smul(a, a), a), a), m_j);
    let curve_b = smul(ssub(smul(smul(b, b), b), b), m_j1);
    sadd(linear_part, smul(sadd(curve_a, curve_b), h2_over_6))
}

/// One interpolated value: linear between two knots, natural spline
/// beyond.
pub open spec fn spec_interp_value(ts: Seq<Fx>, ys: Seq<Fx>, q: Fx) -> Fx {
    let n = ts.len() as int;
    let j = spec_segment(ts, q, n);
    if n > 2 {
        spec_spline_eval(ts, ys, q, j, spec_spline_m(ts, ys, n, j), spec_spline_m(ts, ys, n, j + 1))
    } else {
        spec_linear_eval(ts, ys, q, j)
    }
}

/// Find the segment of `q`: scan from the next-to-last knot down to the
/// first knot at or below `q`.
fn find_segment(ts: &Vec<Fx>, q: Fx) -> (j: usize)
    requires
        ts@.len() >= 2,
    ensures
        j as int == spec_segment(ts@, q, ts@.len() as int),
        j as int <= ts@.len() - 2,
{
    let mut j: usize = ts.len() - 2;
    while j > 0 && ts[j].bits > q.bits
        invariant
            ts@.len() >= 2,
            0 <= j <= ts@.len() - 2,
            spec_segment_from(ts@, q, j as int) == spec_segment(ts@, q, ts@.len() as int),
        decreases j,
    {
        j -= 1;
    }
    j
}

/// The second derivatives of the natural cubic spline through
/// `(ts[i], ys[i])`: zero at the two boundary knots, the tridiagonal
/// system solved by one forward sweep and one back substitution between.
fn spline_second_derivs(ts: &Vec<Fx>, ys: &Vec<Fx>) -> (ms: Vec<Fx>)
    requires
        ts@.len() == ys@.len(),
        ts@.len() >= 3,
    ensures
        ms@.len() == ts@.len(),
        forall|i: int|
            0 <= i < ts@.len() ==> ms@[i] == spec_spline_m(ts@, ys@, ts@.len() as int, i),
{
    let n = ts.len();
    let two = Fx { bits: 0x2_0000_0000 };
    let six = Fx { bits: 0x6_0000_0000 };
    let zero = Fx { bits: 0 };
    let mut mu: Vec<Fx> = Vec::new();
    let mut zz: Vec<Fx> = Vec::new();
    mu.push(zero);
    zz.push(zero);
    let mut i: usize = 1;
    while i < n - 1
        invariant
            n == ts@.len(),
            n == ys@.len(),
            n >= 3,
            1 <= i <= n - 1,
            two == (Fx { bits: 0x2_0000_0000 }),
            six == (Fx { bits: 0x6_0000_0000 }),
            mu@.len() == i as int,
            zz@.len() == i as int,
            forall|k: int|
                0 <= k < i as int ==> (#[trigger] mu@[k], #[trigger] zz@[k]) == spec_spline_fwd(
                    ts@,
                    ys@,
                    k,
                ),
        decreases n - i,
    {
        let h_prev = ts[i].fx_sub(ts[i - 1]);
        let h_cur = ts[i + 1].fx_sub(ts[i]);
        let d1 = ys[i + 1].fx_sub(ys[i]);
        let d0 = ys[i].fx_sub(ys[i - 1]);
        let q1 = d1.fx_div(h_cur);
        let q0 = d0.fx_div(h_prev);
        let rhs = six.fx_mul(q1.fx_sub(q0));
        let sum_h = h_prev.fx_add(h_cur);
        let l = two.fx_mul(sum_h).fx_sub(h_prev.fx_mul(mu[i - 1]));
        let mu_i = h_cur.fx_div(l);
        let z_i = rhs.fx_sub(h_prev.fx_mul(zz[i - 1])).fx_div(l);
        proof {
            let ii = i as int;
            assert((mu@[ii - 1], zz@[ii - 1]) == spec_spline_fwd(ts@, ys@, ii - 1));
            let prev = spec_spline_fwd(ts@, ys@, ii - 1);
            assert(h_prev == spec_h(ts@, ii - 1));
            assert(h_cur == spec_h(ts@, ii));
            assert(d1 == ssub(ys@[ii + 1], ys@[ii]));
            assert(d0 == ssub(ys@[ii], ys@[ii - 1]));
            assert(q1 == sdiv(ssub(ys@[ii + 1], ys@[ii]), spec_h(ts@, ii)));
            assert(q0 == sdiv(ssub(ys@[ii], ys@[ii - 1]), spec_h(ts@, ii - 1)));
            assert(rhs == spec_spline_rhs(ts@, ys@, ii));
            assert(sum_h == sadd(spec_h(ts@, ii - 1), spec_h(ts@, ii)));
            assert(l == ssub(
                smul(Fx { bits: 0x2_0000_0000 }, sadd(spec_h(ts@, ii - 1), spec_h(ts@, ii))),
                smul(spec_h(ts@, ii - 1), prev.0),
            ));
            assert((mu_i, z_i) == spec_spline_fwd(ts@, ys@, ii));
        }
        mu.push(mu_i);
        zz.push(z_i);
        i += 1;
    }
    let mut ms: Vec<Fx> = Vec::new();
    let mut k: usize = 0;
    while k < n
        invariant
            n == ts@.len(),
            0 <= k <= n,
            ms@.len() == k as int,
            forall|t: int| 0 <= t < k as int ==> ms@[t] == zero,
            zero == (Fx { bits: 0 }),
        decreases n - k,
    {
        ms.push(zero);
        k += 1;
    }
    proof {
        assert(spec_spline_m(ts@, ys@, n as int, 0) == zero);
        assert(spec_spline_m(ts@, ys@, n as int, n - 1) == zero);
        assert forall|t: int| t >= n - 1 || t <= 0 implies spec_spline_m(ts@, ys@, n as int, t)
            == zero by {}
    }
    let mut i2: usize = n - 1;
    while i2 > 1
        invariant
            n == ts@.len(),
            n == ys@.len(),
            n >= 3,
            1 <= i2 <= n - 1,
            ms@.len() == n,
            mu@.len() == n - 1,
            zz@.len() == n - 1,
            forall|k2: int|
                0 <= k2 < n - 1 ==> (#[trigger] mu@[k2], #[trigger] zz@[k2]) == spec_spline_fwd(
                    ts@,
                    ys@,
                    k2,
                ),
            forall|t: int|
                i2 as int <= t < n ==> #[trigger] ms@[t] == spec_spline_m(ts@, ys@, n as int, t),
            forall|t: int| 0 <= t < i2 as int ==> #[trigger] ms@[t] == (Fx { bits: 0 }),
        decreases i2,
    {
        let i3 = i2 - 1;
        let m_i = zz[i3].fx_sub(mu[i3].fx_mul(ms[i3 + 1]));
        ms[i3] = m_i;
        proof {
            assert(ms@[i3 as int] == spec_spline_m(ts@, ys@, n as int, i3 as int));
        }
        i2 = i3;
    }
    proof {
        assert(ms@[0] == spec_spline_m(ts@, ys@, n as int, 0));
    }
    ms
}

/// Interpolate one channel at one query point: linear between two knots,
/// natural spline beyond.
pub fn interp_channel(ts: &Vec<Fx>, ys: &Vec<Fx>, ms: &Vec<Fx>, q: Fx) -> (r: Fx)
    requires
        ts@.len() == ys@.len(),
        ts@.len() >= 2,
        ts@.len() > 2 ==> (ms@.len() == ts@.len() && forall|i: int|
            0 <= i < ts@.len() ==> ms@[i] == spec_spline_m(ts@, ys@, ts@.len() as int, i)),
    ensures
        r == spec_interp_value(ts@, ys@, q),
{
    let n = ts.len();
    let j = find_segment(ts, q);
    let h = ts[j + 1].fx_sub(ts[j]);
    if n > 2 {
        let six = Fx { bits: 0x6_0000_0000 };
        let a = ts[j + 1].fx_sub(q).fx_div(h);
        let b = q.fx_sub(ts[j]).fx_div(h);
        let linear_part = a.fx_mul(ys[j]).fx_add(b.fx_mul(ys[j + 1]));
        let h2_over_6 = h.fx_mul(h).fx_div(six);
        let curve_a = a.fx_mul(a).fx_mul(a).fx_sub(a).fx_mul(ms[j]);
        let curve_b = b.fx_mul(b).fx_mul(b).fx_sub(b).fx_mul(ms[j + 1]);
        linear_part.fx_add(curve_a.fx_add(curve_b).fx_mul(h2_over_6))
    } else {
        ys[j].fx_add(q.fx_sub(ts[j]).fx_mul(ys[j + 1].fx_sub(ys[j]).fx_div(h)))
    }
}

/// Whether the knots are strictly increasing, checked pair by pair.
fn check_strictly_increasing(ts: &Vec<Fx>) -> (b: bool)
    ensures
        b == spec_strictly_increasing(ts@),
{
    let n = ts.len();
    if n < 2 {
        return true;
    }
    let mut i: usize = 0;
    while i < n - 1
        invariant
            n == ts@.len(),
            n >= 2,
            0 <= i <= n - 1,
            forall|j: int| 0 <= j < i as int ==> (#[trigger] ts@[j].bits) < ts@[j + 1].bits,
        decreases n - i,
    {
        if ts[i].bits >= ts[i + 1].bits {
            return false;
        }
        i += 1;
    }
    true
}

/// One parameter channel: the `c`-th full parameter of each mapping.
pub open spec fn spec_param_col(maps: Seq<Mapping>, c: int) -> Seq<Fx> {
    maps.map_values(|m: Mapping| Mapping::spec_get_params_full(m)[c])
}

/// All eight interpolated parameters at one query point.
pub open spec fn spec_interp_params(ts: Seq<Fx>, maps: Seq<Mapping>, q: Fx) -> Seq<Fx> {
    Seq::new(8, |c: int| spec_interp_value(ts, spec_param_col(maps, c), q))
}

/// The mapping interpolated at one query point: the eight interpolated
/// parameters rebuilt into a projective mapping.
pub open spec fn spec_interp_mapping(ts: Seq<Fx>, maps: Seq<Mapping>, q: Fx) -> Mapping {
    spec_from_params(spec_interp_params(ts, maps, q))
}

/// `ms` holds the spline second derivatives for `(ts, ys)` whenever there
/// are more than two knots.
pub open spec fn spec_ms_ok(ts: Seq<Fx>, ys: Seq<Fx>, ms: Seq<Fx>) -> bool {
    ts.len() > 2 ==> (ms.len() == ts.len() && forall|i: int|
        0 <= i < ts.len() ==> ms[i] == spec_spline_m(ts, ys, ts.len() as int, i))
}

/// The knots `0, 1/(n-1), ..., 1` that a sequence of `n` mappings is
/// interpolated over.
pub open spec fn spec_linspace01(n: int) -> Seq<Fx> {
    Seq::new(
        if n >= 0 {
            n as nat
        } else {
            0
        },
        |k: int|
            if n <= 1 {
                Fx { bits: 0 }
            } else {
                Fx { bits: ratio_bits(k, n - 1) as i64 }
            },
    )
}

/// The `c`-th full parameter of every mapping, in order.
fn param_col(maps: &Vec<Mapping>, c: usize) -> (col: Vec<Fx>)
    requires
        c < 8,
    ensures
        col@ == spec_param_col(maps@, c as int),
{
    let n = maps.len();
    let mut col: Vec<Fx> = Vec::new();
    let mut k: usize = 0;
    while k < n
        invariant
            n == maps@.len(),
            c < 8,
            0 <= k <= n,
            col@.len() == k as int,
            forall|j: int|
                0 <= j < k as int ==> col@[j] == Mapping::spec_get_params_full(maps@[j])[c as int],
        decreases n - k,
    {
        let row = maps[k].get_params_full();
        col.push(row[c]);
        k += 1;
    }
    proof {
        assert(col@ =~= spec_param_col(maps@, c as int));
    }
    col
}

/// An element-for-element copy of a mapping sequence.
fn copy_mappings(maps: &Vec<Mapping>) -> (r: Vec<Mapping>)
    ensures
        r@ == maps@,
{
    let n = maps.len();
    let mut r: Vec<Mapping> = Vec::new();
    let mut k: usize = 0;
    while k < n
        invariant
            n == maps@.len(),
            0 <= k <= n,
            r@.len() == k as int,
            forall|j: int| 0 <= j < k as int ==> r@[j] == maps@[j],
        decreases n - k,
    {
        r.push(maps[k]);
        k += 1;
    }
    proof {
        assert(r@ =~= maps@);
    }
    r
}

/// The knots `0, 1/(n-1), ..., 1`.
fn linspace01(n: usize) -> (ts: Vec<Fx>)
    requires
        n <= i64::MAX,
    ensures
        ts@ == spec_linspace01(n as int),
{
    let mut ts: Vec<Fx> = Vec::new();
    let mut k: usize = 0;
    while k < n
        invariant
            n <= i64::MAX,
            0 <= k <= n,
            ts@.len() == k as int,
            forall|j: int| 0 <= j < k as int ==> ts@[j] == spec_linspace01(n as int)[j],
        decreases n - k,
    {
        if n <= 1 {
            ts.push(Fx { bits: 0 });
        } else {
            let v = Fx::from_ratio(k as i64, (n - 1) as i64);
            ts.push(v);
        }
        k += 1;
    }
    proof {
        assert(ts@ =~= spec_linspace01(n as int));
    }
    ts
}

impl Mapping {
    /// Interpolate a list of Mappings and query multiple points: a natural
    /// cubic spline of the full parameter vectors when more than two
    /// mappings are known, piecewise linear otherwise.  A query outside
    /// the knot range evaluates the nearest boundary segment.  Fewer than
    /// two mappings, or knots out of order, are refused.
    #[verifier::rlimit(50)]
    pub fn interpolate_array(ts: Vec<Fx>, maps: Vec<Mapping>, query: Vec<Fx>) -> (r: Result<
        Vec<Mapping>,
        WarpError,
    >)
        requires
            ts@.len() == maps@.len(),
        ensures
            r is Ok <==> (maps@.len() >= 2 && spec_strictly_increasing(ts@)),
            r is Err ==> r->Err_0 == WarpError::InterpolationDomainError,
            r is Ok ==> ({
                &&& r->Ok_0@.len() == query@.len()
                &&& forall|qi: int|
                    0 <= qi < query@.len() ==> r->Ok_0@[qi] == spec_interp_mapping(
                        ts@,
                        maps@,
                        query@[qi],
                    )
            }),
    {
        let n = maps.len();
        if n < 2 {
            return Err(WarpError::InterpolationDomainError);
        }
        if !check_strictly_increasing(&ts) {
            return Err(WarpError::InterpolationDomainError);
        }
        let mut cols: Vec<Vec<Fx>> = Vec::new();
        let mut ms_all: Vec<Vec<Fx>> = Vec::new();
        let mut c: usize = 0;
        while c < 8
            invariant
                n == ts@.len(),
                n == maps@.len(),
                n >= 2,
                0 <= c <= 8,
                cols@.len() == c as int,
                ms_all@.len() == c as int,
                forall|cc: int| 0 <= cc < c as int ==> (#[trigger] cols@[cc])@ == spec_param_col(maps@, cc),
                forall|cc: int|
                    0 <= cc < c as int ==> spec_ms_ok(ts@, (#[trigger] cols@[cc])@, ms_all@[cc]@),
            decreases 8 - c,
        {
            let col = param_col(&maps, c);
            if n > 2 {
                let ms = spline_second_derivs(&ts, &col);
                ms_all.push(ms);
            } else {
                ms_all.push(Vec::new());
            }
            cols.push(col);
            c += 1;
        }
        let nq = query.len();
        let mut out: Vec<Mapping> = Vec::new();
        let mut qi: usize = 0;
        while qi < nq
            invariant
                n == ts@.len(),
                n == maps@.len(),
                n >= 2,
                nq == query@.len(),
                0 <= qi <= nq,
                cols@.len() == 8,
                ms_all@.len() == 8,
                forall|cc: int| 0 <= cc < 8 ==> (#[trigger] cols@[cc])@ == spec_param_col(maps@, cc),
                forall|cc: int|
                    0 <= cc < 8 ==> spec_ms_ok(ts@, (#[trigger] cols@[cc])@, ms_all@[cc]@),
                out@.len() == qi as int,
                forall|j: int|
                    0 <= j < qi as int ==> out@[j] == spec_interp_mapping(ts@, maps@, query@[j]),
            decreases nq - qi,
        {
            let q = query[qi];
            let mut params: Vec<Fx> = Vec::new();
            let mut cc: usize = 0;
            while cc < 8
                invariant
                    n == ts@.len(),
                    n == maps@.len(),
                    n >= 2,
                    0 <= cc <= 8,
                    cols@.len() == 8,
                    ms_all@.len() == 8,
                    forall|c2: int|
                        0 <= c2 < 8 ==> (#[trigger] cols@[c2])@ == spec_param_col(maps@, c2),
                    forall|c2: int|
                        0 <= c2 < 8 ==> spec_ms_ok(ts@, (#[trigger] cols@[c2])@, ms_all@[c2]@),
                    params@.len() == cc as int,
                    forall|c2: int|
                        0 <= c2 < cc as int ==> params@[c2] == spec_interp_value(
                            ts@,
                            spec_param_col(maps@, c2),
                            q,
                        ),
                decreases 8 - cc,
            {
                let col = &cols[cc];
                proof {
                    assert(col@.len() == maps@.len());
                }
                params.push(interp_channel(&ts, col, &ms_all[cc], q));
                cc += 1;
            }
            proof {
                assert(params@ =~= spec_interp_params(ts@, maps@, q));
            }
            let m = match Mapping::from_params(params) {
                Ok(m) => m,
                Err(_) => {
                    proof {
                        assert(false);
                    }
                    Mapping::identity()
                },
            };
            out.push(m);
            qi += 1;
        }
        Ok(out)
    }

    /// Interpolate a list of Mappings and query a single point.
    pub fn interpolate_scalar(ts: Vec<Fx>, maps: Vec<Mapping>, query: Fx) -> (r: Result<
        Mapping,
        WarpError,
    >)
        requires
            ts@.len() == maps@.len(),
        ensures
            r is Ok <==> (maps@.len() >= 2 && spec_strictly_increasing(ts@)),
            r is Err ==> r->Err_0 == WarpError::InterpolationDomainError,
            r is Ok ==> r->Ok_0 == spec_interp_mapping(ts@, maps@, query),
    {
        let mut qv: Vec<Fx> = Vec::new();
        qv.push(query);
        match Self::interpolate_array(ts, maps, qv) {
            Ok(v) => Ok(v[0]),
            Err(e) => Err(e),
        }
    }

    /// Apply a correction so that the warp interpolated at the normalized
    /// position `wrt_idx` in `[0, 1]` becomes the identity.
    pub fn with_respect_to_idx(mappings: Vec<Mapping>, wrt_idx: Fx) -> (r: Result<
        Vec<Mapping>,
        WarpError,
    >)
        requires
            mappings@.len() <= i64::MAX,
        ensures
            ({
                let n = mappings@.len() as int;
                let knots = spec_linspace01(n);
                let wrt = spec_interp_mapping(knots, mappings@, wrt_idx);
                &&& (r is Ok <==> (n >= 2 && spec_strictly_increasing(knots) && spec_mat_det(
                    wrt.mat,
                ).bits != 0))
                &&& (r is Err ==> r->Err_0 == (if n < 2 || !spec_strictly_increasing(knots) {
                    WarpError::InterpolationDomainError
                } else {
                    WarpError::SingularMatrix
                }))
                &&& (r is Ok ==> ({
                    &&& r->Ok_0@.len() == n
                    &&& forall|k: int|
                        0 <= k < n ==> r->Ok_0@[k] == spec_transform(
                            mappings@[k],
                            Some(spec_inverse_mapping(wrt)),
                            None,
                        )
                }))
            }),
    {
        let knots = linspace01(mappings.len());
        let copy = copy_mappings(&mappings);
        let wrt = match Self::interpolate_scalar(knots, copy, wrt_idx) {
            Ok(m) => m,
            Err(e) => {
                return Err(e);
            },
        };
        Self::with_respect_to(mappings, wrt)
    }

    /// Compose/accumulate all pairwise mappings together, then correct the
    /// result so that the accumulated warp interpolated at the normalized
    /// position `wrt_idx` becomes the identity.
    #[verifier::rlimit(100)]
    pub fn accumulate_wrt_idx(mappings: Vec<Mapping>, wrt_idx: Fx) -> (r: Result<
        Vec<Mapping>,
        WarpError,
    >)
        requires
            mappings@.len() + 1 <= i64::MAX,
        ensures
            ({
                let acc = spec_accumulate(mappings@);
                let knots = spec_linspace01(acc.len() as int);
                let wrt = spec_interp_mapping(knots, acc, wrt_idx);
                &&& (r is Ok <==> (acc.len() >= 2 && spec_strictly_increasing(knots)
                    && spec_mat_det(wrt.mat).bits != 0))
                &&& (r is Err ==> r->Err_0 == (if acc.len() < 2 || !spec_strictly_increasing(
                    knots,
                ) {
                    WarpError::InterpolationDomainError
                } else {
                    WarpError::SingularMatrix
                }))
                &&& (r is Ok ==> ({
                    &&& r->Ok_0@.len() == acc.len()
                    &&& forall|k: int|
                        0 <= k < acc.len() ==> r->Ok_0@[k] == spec_transform(
                            acc[k],
                            Some(spec_inverse_mapping(wrt)),
                            None,
                        )
                }))
            }),
    {
        let acc = Self::accumulate(mappings);
        proof {
            crate::warps::lemma_accumulate_shape(mappings@);
        }
        Self::with_respect_to_idx(acc, wrt_idx)
    }
}

} // verus!
