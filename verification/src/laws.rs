//! The library's laws: properties that relate several operations, stated
//! over the same spec functions the operations' contracts use, and proved
//! once and for all.

use vstd::prelude::*;

verus! {

use crate::fixed::{
    Fx, FX_SCALE, sadd, ssub, smul, sdiv, lemma_smul_one, lemma_smul_zero, lemma_sadd_zero,
    lemma_sdiv_one, lemma_sdiv_self,
};
use crate::kind::TransformationType;
use crate::fixed::sfloor;
use crate::resample::{
    Array3F, spec_kernel_post_replaced, spec_cell_replaced, spec_dst_points, spec_zeros,
    spec_sampled_pixel, spec_sample_at, spec_bilinear_chan, spec_in_range,
};
use crate::fixed::sneg;
use crate::mat::{Mat3, spec_mat_identity, spec_mat_mul, spec_mat_det, spec_mat_inverse,
    lemma_mat_mul_identity};
use crate::fixed::lemma_sdiv_zero;
use crate::interp::{
    spec_strictly_increasing, spec_segment, spec_segment_from, spec_h, spec_spline_m,
    spec_spline_eval, spec_interp_value, spec_interp_mapping, spec_interp_params, spec_param_col,
};
use crate::warps::{
    Mapping, spec_transform, spec_translation, spec_from_params, spec_inverse_mapping,
    spec_warp_point, spec_warp_point_mat, spec_accumulate,
};

/// Composing with two absent operands changes nothing at all: the matrix
/// is kept exactly, and the absent operands' `Unknown` sentinel loses the
/// kind race against every named kind, so the kind is kept too.
pub proof fn lemma_transform_absent_is_identity(m: Mapping)
    ensures
        spec_transform(m, None, None) == m,
{
    lemma_mat_mul_identity(m.mat);
    lemma_mat_mul_identity(spec_mat_mul(spec_mat_identity(), m.mat));
}

/// A translation built by `shift` or the two-parameter constructor.
pub open spec fn spec_is_translation(m: Mapping) -> bool {
    &&& m.mat == spec_translation(m.mat.m02, m.mat.m12)
    &&& m.kind == TransformationType::Translational
}

/// The determinant of a translation matrix is exactly one, and its
/// inverse is exactly the opposite translation: no rounding occurs.
pub proof fn lemma_translation_inverse(dx: Fx, dy: Fx)
    requires
        dx.bits > i64::MIN,
        dy.bits > i64::MIN,
    ensures
        spec_mat_det(spec_translation(dx, dy)) == (Fx { bits: FX_SCALE }),
        spec_mat_inverse(spec_translation(dx, dy)) == spec_translation(
            Fx { bits: (-dx.bits) as i64 },
            Fx { bits: (-dy.bits) as i64 },
        ),
{
    let one = Fx { bits: FX_SCALE };
    let zero = Fx { bits: 0 };
    lemma_smul_one(one);
    lemma_smul_one(dx);
    lemma_smul_one(dy);
    lemma_smul_zero(dx);
    lemma_smul_zero(dy);
    lemma_smul_zero(one);
    lemma_smul_zero(zero);
    lemma_sadd_zero(one);
    lemma_sadd_zero(zero);
    lemma_sdiv_one(one);
    lemma_sdiv_one(zero);
    lemma_sdiv_one(Fx { bits: (-dx.bits) as i64 });
    lemma_sdiv_one(Fx { bits: (-dy.bits) as i64 });
    assert(ssub(zero, dx) == (Fx { bits: (-dx.bits) as i64 }));
    assert(ssub(zero, dy) == (Fx { bits: (-dy.bits) as i64 }));
}

/// Inverting a translation twice gives back exactly the mapping it
/// started from.
pub proof fn lemma_translation_inverse_involution(m: Mapping)
    requires
        spec_is_translation(m),
        m.mat.m02.bits > i64::MIN,
        m.mat.m12.bits > i64::MIN,
    ensures
        spec_inverse_mapping(spec_inverse_mapping(m)) == m,
{
    let dx = m.mat.m02;
    let dy = m.mat.m12;
    lemma_translation_inverse(dx, dy);
    lemma_translation_inverse(Fx { bits: (-dx.bits) as i64 }, Fx { bits: (-dy.bits) as i64 });
}

/// Warping a point through a translation adds the offset exactly, as
/// long as nothing saturates.
pub proof fn lemma_translation_warps_by_offset(dx: Fx, dy: Fx, p: (Fx, Fx))
    requires
        i64::MIN <= p.0.bits + dx.bits <= i64::MAX,
        i64::MIN <= p.1.bits + dy.bits <= i64::MAX,
    ensures
        spec_warp_point_mat(spec_translation(dx, dy), p) == (
            Fx { bits: (p.0.bits + dx.bits) as i64 },
            Fx { bits: (p.1.bits + dy.bits) as i64 },
        ),
{
    let one = Fx { bits: FX_SCALE };
    lemma_smul_one(p.0);
    lemma_smul_one(p.1);
    lemma_smul_zero(p.0);
    lemma_smul_zero(p.1);
    lemma_sadd_zero(p.0);
    lemma_sadd_zero(p.1);
    lemma_sadd_zero(Fx { bits: 0 });
    lemma_sadd_zero(one);
    lemma_sdiv_one(Fx { bits: (p.0.bits + dx.bits) as i64 });
    lemma_sdiv_one(Fx { bits: (p.1.bits + dy.bits) as i64 });
}

/// Warping through a non-identity translation and then through its
/// inverse returns every point exactly, as long as nothing saturates.
pub proof fn lemma_translation_roundtrip(m: Mapping, p: (Fx, Fx))
    requires
        spec_is_translation(m),
        m.mat.m02.bits > i64::MIN,
        m.mat.m12.bits > i64::MIN,
        i64::MIN <= p.0.bits + m.mat.m02.bits <= i64::MAX,
        i64::MIN <= p.1.bits + m.mat.m12.bits <= i64::MAX,
    ensures
        spec_warp_point(
            spec_inverse_mapping(m),
            spec_warp_point(m, p),
        ) == p,
{
    let dx = m.mat.m02;
    let dy = m.mat.m12;
    lemma_translation_inverse(dx, dy);
    lemma_translation_warps_by_offset(dx, dy, p);
    let q = (Fx { bits: (p.0.bits + dx.bits) as i64 }, Fx { bits: (p.1.bits + dy.bits) as i64 });
    lemma_translation_warps_by_offset(Fx { bits: (-dx.bits) as i64 }, Fx { bits: (-dy.bits) as i64 }, q);
}

/// Rebuilding a mapping from its own reported parameters is lossless:
/// for two, six or eight parameters, `get_params` after `from_params`
/// returns the parameters unchanged, bit for bit, as long as the two
/// diagonal slots do not saturate when one is added to them.
pub proof fn lemma_params_roundtrip(params: Seq<Fx>)
    requires
        params.len() == 2 || params.len() == 6 || params.len() == 8,
        params.len() >= 6 ==> params[0].bits + FX_SCALE <= i64::MAX,
        params.len() >= 6 ==> params[3].bits + FX_SCALE <= i64::MAX,
    ensures
        Mapping::spec_get_params(spec_from_params(params)) == params,
{
    let one = Fx { bits: FX_SCALE };
    let m = spec_from_params(params);
    assert(m.mat.m22 == one);
    lemma_sdiv_one(m.mat.m00);
    lemma_sdiv_one(m.mat.m01);
    lemma_sdiv_one(m.mat.m02);
    lemma_sdiv_one(m.mat.m10);
    lemma_sdiv_one(m.mat.m11);
    lemma_sdiv_one(m.mat.m12);
    lemma_sdiv_one(m.mat.m20);
    lemma_sdiv_one(m.mat.m21);
    if params.len() == 2 {
        assert(Mapping::spec_get_params(m) =~= params);
    } else {
        assert(ssub(sadd(params[0], one), one) == params[0]);
        assert(ssub(sadd(params[3], one), one) == params[3]);
        assert(Mapping::spec_get_params(m) =~= params);
    }
}

/// The eight-parameter form is also rebuilt losslessly.
pub proof fn lemma_params_full_roundtrip(params: Seq<Fx>)
    requires
        params.len() == 8,
        params[0].bits + FX_SCALE <= i64::MAX,
        params[3].bits + FX_SCALE <= i64::MAX,
    ensures
        Mapping::spec_get_params_full(spec_from_params(params)) == params,
{
    let one = Fx { bits: FX_SCALE };
    let m = spec_from_params(params);
    assert(m.mat.m22 == one);
    lemma_sdiv_one(m.mat.m00);
    lemma_sdiv_one(m.mat.m01);
    lemma_sdiv_one(m.mat.m02);
    lemma_sdiv_one(m.mat.m10);
    lemma_sdiv_one(m.mat.m11);
    lemma_sdiv_one(m.mat.m12);
    lemma_sdiv_one(m.mat.m20);
    lemma_sdiv_one(m.mat.m21);
    assert(ssub(sadd(params[0], one), one) == params[0]);
    assert(ssub(sadd(params[3], one), one) == params[3]);
    assert(Mapping::spec_get_params_full(m) =~= params);
}

/// The left-to-right composition of the first `k` mappings' matrices.
pub open spec fn spec_compose_prefix(maps: Seq<Mapping>, k: int) -> Mat3
    decreases k,
{
    if k <= 0 {
        spec_mat_identity()
    } else {
        spec_mat_mul(spec_compose_prefix(maps, k - 1), maps[k - 1].mat)
    }
}

/// Entry `k` of the accumulated sequence carries exactly the
/// left-to-right composition of the first `k` pairwise mappings, with
/// the identity at entry zero.
pub proof fn lemma_accumulate_is_prefix_composition(maps: Seq<Mapping>, k: int)
    requires
        0 <= k <= maps.len(),
    ensures
        spec_accumulate(maps)[k].mat == spec_compose_prefix(maps, k),
    decreases k,
{
    crate::warps::lemma_accumulate_shape(maps);
    if k == 0 {
    } else {
        lemma_accumulate_is_prefix_composition(maps, k - 1);
        let prev = spec_accumulate(maps)[k - 1];
        assert(spec_accumulate(maps)[k] == spec_transform(prev, None, Some(maps[k - 1])));
        lemma_mat_mul_identity(prev.mat);
    }
}

/// A strictly increasing knot sequence increases across any gap.
pub proof fn lemma_increasing_apart(ts: Seq<Fx>, i: int, j: int)
    requires
        spec_strictly_increasing(ts),
        0 <= i < j < ts.len(),
    ensures
        ts[i].bits < ts[j].bits,
    decreases j - i,
{
    if j == i + 1 {
    } else {
        lemma_increasing_apart(ts, i, j - 1);
    }
}

/// Scanning down from `j >= i` finds exactly segment `i` when the query
/// is the knot `ts[i]`.
proof fn lemma_segment_from_at_knot(ts: Seq<Fx>, i: int, j: int)
    requires
        spec_strictly_increasing(ts),
        0 <= i <= j < ts.len(),
    ensures
        spec_segment_from(ts, ts[i], j) == i,
    decreases j - i,
{
    if j == i {
    } else {
        lemma_increasing_apart(ts, i, j);
        lemma_segment_from_at_knot(ts, i, j - 1);
    }
}

/// Interpolating with more than two knots returns the knot value exactly
/// when queried at a knot: the natural spline interpolates its knots.
pub proof fn lemma_interp_value_at_knot(ts: Seq<Fx>, ys: Seq<Fx>, i: int)
    requires
        spec_strictly_increasing(ts),
        ts.len() == ys.len(),
        ts.len() > 2,
        0 <= i < ts.len(),
    ensures
        spec_interp_value(ts, ys, ts[i]) == ys[i],
{
    let one = Fx { bits: FX_SCALE };
    let zero = Fx { bits: 0 };
    let n = ts.len() as int;
    let q = ts[i];
    let j = if i < n - 1 {
        i
    } else {
        n - 2
    };
    if i < n - 1 {
        lemma_segment_from_at_knot(ts, i, n - 2);
    } else {
        assert(ts[n - 2].bits < ts[n - 1].bits);
        assert(spec_segment_from(ts, q, n - 2) == n - 2);
    }
    assert(spec_segment(ts, q, n) == j);
    let h = spec_h(ts, j);
    assert(ts[j].bits < ts[j + 1].bits);
    assert(h.bits > 0);
    let m_j = spec_spline_m(ts, ys, n, j);
    let m_j1 = spec_spline_m(ts, ys, n, j + 1);
    let a = sdiv(ssub(ts[j + 1], q), h);
    let b = sdiv(ssub(q, ts[j]), h);
    lemma_smul_one(one);
    lemma_smul_zero(zero);
    lemma_smul_zero(m_j);
    lemma_smul_zero(m_j1);
    lemma_sadd_zero(zero);
    if i < n - 1 {
        assert(ssub(ts[j + 1], q) == h);
        assert(ssub(q, ts[j]) == zero);
        lemma_sdiv_self(h);
        lemma_sdiv_zero(h);
        assert(a == one && b == zero);
        lemma_smul_one(ys[j]);
        lemma_smul_zero(ys[j + 1]);
        lemma_sadd_zero(ys[j]);
        assert(ssub(smul(smul(a, a), a), a) == zero);
        assert(ssub(smul(smul(b, b), b), b) == zero);
        let h2_over_6 = sdiv(smul(h, h), Fx { bits: 0x6_0000_0000 });
        lemma_smul_zero(h2_over_6);
        assert(spec_spline_eval(ts, ys, q, j, m_j, m_j1) == ys[i]);
    } else {
        assert(ssub(q, ts[j]) == h);
        assert(ssub(ts[j + 1], q) == zero);
        lemma_sdiv_self(h);
        lemma_sdiv_zero(h);
        assert(b == one && a == zero);
        lemma_smul_one(ys[j + 1]);
        lemma_smul_zero(ys[j]);
        lemma_sadd_zero(ys[j + 1]);
        assert(ssub(smul(smul(a, a), a), a) == zero);
        assert(ssub(smul(smul(b, b), b), b) == zero);
        let h2_over_6 = sdiv(smul(h, h), Fx { bits: 0x6_0000_0000 });
        lemma_smul_zero(h2_over_6);
        assert(spec_spline_eval(ts, ys, q, j, m_j, m_j1) == ys[i]);
    }
}

/// Interpolating a family of mappings at one of its own knots gives a
/// mapping with exactly the full parameters of the mapping at that knot,
/// whenever those parameters' diagonal slots do not saturate.
pub proof fn lemma_interpolation_hits_knot(ts: Seq<Fx>, maps: Seq<Mapping>, i: int)
    requires
        ts.len() == maps.len(),
        maps.len() > 2,
        spec_strictly_increasing(ts),
        0 <= i < ts.len(),
        Mapping::spec_get_params_full(maps[i])[0].bits + FX_SCALE <= i64::MAX,
        Mapping::spec_get_params_full(maps[i])[3].bits + FX_SCALE <= i64::MAX,
    ensures
        Mapping::spec_get_params_full(spec_interp_mapping(ts, maps, ts[i]))
            == Mapping::spec_get_params_full(maps[i]),
{
    let row = Mapping::spec_get_params_full(maps[i]);
    assert forall|c: int| 0 <= c < 8 implies spec_interp_value(
        ts,
        spec_param_col(maps, c),
        ts[i],
    ) == row[c] by {
        lemma_interp_value_at_knot(ts, spec_param_col(maps, c), i);
    }
    assert(spec_interp_params(ts, maps, ts[i]) =~= row);
    lemma_params_full_roundtrip(row);
}

/// Resampling with the identity mapping, no background, the full grid and
/// an output of the source's own shape copies the source exactly and
/// marks every cell valid.
#[verifier::rlimit(100)]
pub proof fn lemma_identity_resample(
    m: Mapping,
    data: Array3F,
    old_out: Seq<Fx>,
    new_out: Seq<Fx>,
    old_valid: Seq<bool>,
    new_valid: Seq<bool>,
)
    requires
        m.kind == TransformationType::Identity,
        data.wf(),
        data.h < 0x80000000,
        data.w < 0x80000000,
        old_out.len() == data.h * data.w * data.c,
        new_out.len() == old_out.len(),
        new_valid.len() == data.h * data.w,
        spec_kernel_post_replaced(
            m,
            data,
            None,
            None,
            data.h as int,
            data.w as int,
            data.c as int,
            old_out,
            new_out,
            old_valid,
            new_valid,
        ),
    ensures
        new_out == data.data@,
        forall|k: int| 0 <= k < new_valid.len() ==> new_valid[k] == true,
{
    let h = data.h as int;
    let w = data.w as int;
    let c = data.c as int;
    let sc = FX_SCALE as int;
    let pts = spec_dst_points(None, h, w);
    assert(pts.len() == h * w);
    assert forall|k: int| 0 <= k < h * w implies (new_valid[k] == true && new_out.subrange(
        k * c,
        k * c + c,
    ) =~= data.data@.subrange(k * c, k * c + c)) by {
        assert(spec_cell_replaced(
            m,
            data,
            None,
            c,
            old_out,
            new_out,
            new_valid,
            pts[k],
            k,
        ));
        assert(w > 0) by (nonlinear_arith)
            requires
                0 <= k < h * w,
                h >= 0,
                w >= 0,
        ;
        let px = k % w;
        let py = k / w;
        vstd::arithmetic::div_mod::lemma_fundamental_div_mod(k, w);
        vstd::arithmetic::div_mod::lemma_mod_bound(k, w);
        assert(0 <= px < w);
        assert(py < h) by (nonlinear_arith)
            requires
                k < h * w,
                k == w * py + px,
                0 <= px < w,
                w > 0,
        ;
        assert(py >= 0) by (nonlinear_arith)
            requires
                k >= 0,
                k == w * py + px,
                0 <= px < w,
                w > 0,
        ;
        let x = crate::fixed::s_of_int(px);
        let y = crate::fixed::s_of_int(py);
        assert(pts[k] == (x, y));
        assert(spec_warp_point(m, pts[k]) == (x, y));
        // nothing saturates: every coordinate and bound stays well inside i64
        assert(0 <= px * sc <= (w - 1) * sc && (w - 1) * sc + sc == w * sc && 0 <= w * sc
            < 0x8000000000000000 && 0 <= py * sc <= (h - 1) * sc && (h - 1) * sc + sc == h * sc
            && 0 <= h * sc < 0x8000000000000000) by (nonlinear_arith)
            requires
                sc == 0x100000000,
                0 <= px < w,
                0 <= py < h,
                w < 0x80000000,
                h < 0x80000000,
        ;
        assert(x.bits == px * sc);
        assert(y.bits == py * sc);
        let one = Fx { bits: FX_SCALE };
        let zero = Fx { bits: 0 };
        let pad = zero;
        let lo = sneg(pad);
        assert(lo.bits == 0);
        let hx = sadd(ssub(crate::fixed::s_of_int(w), one), pad);
        let hy = sadd(ssub(crate::fixed::s_of_int(h), one), pad);
        assert(hx.bits == (w - 1) * sc && hy.bits == (h - 1) * sc);
        assert(spec_in_range(data, pad, x, y));
        assert(new_valid[k] == true);
        // the sampled pixel is exactly the source pixel
        let bkg_seq = spec_zeros(c);
        let sampled = spec_sampled_pixel(data, bkg_seq, x, y);
        assert forall|ch: int| 0 <= ch < c implies sampled[ch] == data.spec_at(py, px, ch) by {
            vstd::arithmetic::div_mod::lemma_div_multiples_vanish(px, sc);
            vstd::arithmetic::div_mod::lemma_div_multiples_vanish(py, sc);
            vstd::arithmetic::mul::lemma_mul_is_commutative(px, sc);
            vstd::arithmetic::mul::lemma_mul_is_commutative(py, sc);
            assert(sfloor(x) == px && sfloor(y) == py);
            let wr = ssub(x, crate::fixed::s_of_int(px));
            let wb = ssub(y, crate::fixed::s_of_int(py));
            assert(wr == zero && wb == zero);
            let wl = ssub(one, wr);
            let wt = ssub(one, wb);
            assert(wl == one && wt == one);
            let tl = spec_sample_at(data, bkg_seq, px, py, ch);
            let tr = spec_sample_at(data, bkg_seq, px + 1, py, ch);
            let bl = spec_sample_at(data, bkg_seq, px, py + 1, ch);
            let br = spec_sample_at(data, bkg_seq, px + 1, py + 1, ch);
            assert(tl == data.spec_at(py, px, ch));
            lemma_smul_one(one);
            lemma_smul_one(tl);
            lemma_smul_zero(one);
            lemma_smul_zero(tr);
            lemma_smul_zero(bl);
            lemma_smul_zero(br);
            lemma_sadd_zero(smul(smul(wt, wl), tl));
            lemma_sadd_zero(sadd(smul(smul(wt, wl), tl), zero));
            lemma_sadd_zero(sadd(sadd(smul(smul(wt, wl), tl), zero), zero));
            assert(spec_bilinear_chan(data, bkg_seq, x, y, ch) == tl);
        }
        // replace semantics hands the sampled pixel through unchanged
        assert(sampled.len() == c);
        assert(0 <= k * c && k * c + c <= h * w * c) by (nonlinear_arith)
            requires
                0 <= k < h * w,
                c >= 0,
        ;
        let old_pix = old_out.subrange(k * c, k * c + c);
        let new_pix = new_out.subrange(k * c, k * c + c);
        assert(new_pix =~= sampled);
        // the sampled pixel is the source's cell k
        assert(py * w + px == k) by (nonlinear_arith)
            requires
                k == w * py + px,
        ;
        assert forall|ch: int| 0 <= ch < c implies new_pix[ch] == data.data@[k * c + ch] by {
            assert(data.spec_at(py, px, ch) == data.data@[(py * w + px) * c + ch]);
        }
        assert(new_pix =~= data.data@.subrange(k * c, k * c + c));
    }
    assert forall|idx: int| 0 <= idx < new_out.len() implies new_out[idx] == data.data@[idx] by {
        assert(c > 0) by (nonlinear_arith)
            requires
                0 <= idx < h * w * c,
                h >= 0,
                w >= 0,
        ;
        let k = idx / c;
        let ch = idx % c;
        vstd::arithmetic::div_mod::lemma_fundamental_div_mod(idx, c);
        vstd::arithmetic::div_mod::lemma_mod_bound(idx, c);
        assert(0 <= ch < c);
        assert(0 <= k < h * w) by (nonlinear_arith)
            requires
                0 <= idx < h * w * c,
                idx == c * k + ch,
                0 <= ch < c,
                c > 0,
        ;
        assert(k * c + ch == idx) by (nonlinear_arith)
            requires
                idx == c * k + ch,
        ;
        assert(0 <= k * c && k * c + c <= h * w * c) by (nonlinear_arith)
            requires
                0 <= k < h * w,
                c >= 0,
        ;
        assert(new_valid[k] == true && new_out.subrange(k * c, k * c + c)
            =~= data.data@.subrange(k * c, k * c + c));
        assert(new_out.subrange(k * c, k * c + c)[ch] == new_out[idx]);
    }
    assert(new_out =~= data.data@);
}

} // verus!
