use warps::{Fx, Mapping, Mat3, TransformationType, WarpError};

fn fx(v: f64) -> Fx {
    Fx::new((v * 4294967296.0_f64).round() as i64)
}

fn tof(x: Fx) -> f64 {
    (x.bits as f64) / 4294967296.0_f64
}

fn close(a: f64, b: f64, tol: f64) -> bool {
    (a - b).abs() <= tol
}

#[test]
fn test_warp_points() {
    let map = Mapping::from_matrix(
        Mat3::new(
            fx(1.13411823),
            fx(4.38092511),
            fx(9.315785),
            fx(1.37351153),
            fx(5.27648111),
            fx(1.60252762),
            fx(7.76114426),
            fx(9.66312177),
            fx(2.61286966),
        ),
        TransformationType::Projective,
    );
    let point = vec![(fx(0.0), fx(0.0))];
    let warpd = map.warp_points(&point);
    assert!(close(tof(warpd[0].0), 3.56534624, 1e-6));
    assert!(close(tof(warpd[0].1), 0.61332092, 1e-6));
}

#[test]
fn test_transform_absent_operands_keeps_mapping() {
    let m = Mapping::shift(fx(3.5), fx(-2.25));
    let t = m.transform(None, None);
    assert_eq!(t.mat, m.mat);
    assert_eq!(t.kind, m.kind);
    let p = vec![(fx(1.0), fx(2.0))];
    let a = m.warp_points(&p);
    let b = t.warp_points(&p);
    assert_eq!(a[0], b[0]);
}

#[test]
fn test_transform_absent_operands_keeps_zero_param_kind() {
    // a zero-parameter kind ties with the absent operands' sentinel and
    // must still win the tie
    let m = Mapping::identity();
    let t = m.transform(None, None);
    assert_eq!(t.kind, TransformationType::Identity);
    assert_eq!(t.mat, m.mat);
}

#[test]
fn test_transform_unknown_only_from_all_unknown() {
    let mut u = Mapping::identity();
    u.kind = TransformationType::Unknown;
    let all_unknown = u.transform(None, None);
    assert_eq!(all_unknown.kind, TransformationType::Unknown);
    let one_named = u.transform(Some(Mapping::identity()), None);
    assert_eq!(one_named.kind, TransformationType::Identity);
}

#[test]
fn test_inverse_involution_projective() {
    let m = Mapping::from_params(vec![
        fx(0.1),
        fx(0.02),
        fx(-0.03),
        fx(0.05),
        fx(4.0),
        fx(-7.0),
        fx(0.001),
        fx(-0.002),
    ])
    .unwrap();
    let back = m.inverse().unwrap().inverse().unwrap();
    let pts = vec![(fx(0.0), fx(0.0)), (fx(10.0), fx(5.0)), (fx(-3.0), fx(8.0))];
    let a = m.warp_points(&pts);
    let b = back.warp_points(&pts);
    for k in 0..3 {
        assert!(close(tof(a[k].0), tof(b[k].0), 1e-4));
        assert!(close(tof(a[k].1), tof(b[k].1), 1e-4));
    }
}

#[test]
fn test_warp_roundtrip_projective() {
    let m = Mapping::from_params(vec![
        fx(0.1),
        fx(0.02),
        fx(-0.03),
        fx(0.05),
        fx(4.0),
        fx(-7.0),
        fx(0.001),
        fx(-0.002),
    ])
    .unwrap();
    let inv = m.inverse().unwrap();
    let pts = vec![(fx(1.5), fx(-2.5)), (fx(12.0), fx(7.0))];
    let roundtrip = inv.warp_points(&m.warp_points(&pts));
    for k in 0..2 {
        assert!(close(tof(roundtrip[k].0), tof(pts[k].0), 1e-4));
        assert!(close(tof(roundtrip[k].1), tof(pts[k].1), 1e-4));
    }
}

#[test]
fn test_params_roundtrip_translational() {
    let p = vec![fx(5.25), fx(-10.75)];
    let m = Mapping::from_params(p.clone()).unwrap();
    assert_eq!(m.kind, TransformationType::Translational);
    let q = m.get_params();
    assert_eq!(p, q);
}

#[test]
fn test_params_roundtrip_affine() {
    let p = vec![fx(0.5), fx(-0.25), fx(0.125), fx(0.75), fx(9.0), fx(-3.5)];
    let m = Mapping::from_params(p.clone()).unwrap();
    assert_eq!(m.kind, TransformationType::Affine);
    assert_eq!(p, m.get_params());
}

#[test]
fn test_params_roundtrip_projective() {
    let p = vec![
        fx(0.5),
        fx(-0.25),
        fx(0.125),
        fx(0.75),
        fx(9.0),
        fx(-3.5),
        fx(0.0625),
        fx(-0.03125),
    ];
    let m = Mapping::from_params(p.clone()).unwrap();
    assert_eq!(m.kind, TransformationType::Projective);
    assert_eq!(p, m.get_params());
    assert_eq!(p, m.get_params_full());
}

#[test]
fn test_from_params_identity() {
    let m = Mapping::from_params(vec![]).unwrap();
    assert_eq!(m.kind, TransformationType::Identity);
    assert_eq!(m.mat, Mat3::identity());
    assert_eq!(m.get_params().len(), 0);
}

#[test]
fn test_from_params_bad_length() {
    assert_eq!(
        Mapping::from_params(vec![fx(1.0), fx(2.0), fx(3.0)]),
        Err(WarpError::InvalidParameterCount)
    );
    assert_eq!(
        Mapping::from_params(vec![fx(1.0); 7]),
        Err(WarpError::InvalidParameterCount)
    );
}

#[test]
fn test_inverse_singular() {
    let zero = fx(0.0);
    let m = Mapping::from_matrix(
        Mat3::new(zero, zero, zero, zero, zero, zero, zero, zero, zero),
        TransformationType::Affine,
    );
    assert_eq!(m.inverse(), Err(WarpError::SingularMatrix));
}

#[test]
fn test_interpolate_scalar_hits_knot() {
    let ts = vec![fx(0.0), fx(1.0), fx(2.0), fx(3.0)];
    let maps = vec![
        Mapping::shift(fx(0.0), fx(0.0)),
        Mapping::shift(fx(10.0), fx(20.0)),
        Mapping::shift(fx(30.0), fx(-10.0)),
        Mapping::shift(fx(5.0), fx(5.0)),
    ];
    let at = Mapping::interpolate_scalar(ts.clone(), maps.clone(), ts[1]).unwrap();
    let got = at.get_params_full();
    let want = maps[1].get_params_full();
    for c in 0..8 {
        assert!(close(tof(got[c]), tof(want[c]), 1e-3));
    }
}

#[test]
fn test_interpolate_linear_fallback() {
    let ts = vec![fx(0.0), fx(1.0)];
    let maps = vec![Mapping::identity(), Mapping::shift(fx(10.0), fx(20.0))];
    let mid = Mapping::interpolate_scalar(ts, maps, fx(0.5)).unwrap();
    let w = mid.warp_points(&vec![(fx(0.0), fx(0.0))]);
    assert!(close(tof(w[0].0), 5.0, 1e-4));
    assert!(close(tof(w[0].1), 10.0, 1e-4));
}

#[test]
fn test_interpolate_too_few_knots() {
    let r = Mapping::interpolate_scalar(vec![fx(0.0)], vec![Mapping::identity()], fx(0.0));
    assert_eq!(r, Err(WarpError::InterpolationDomainError));
}

#[test]
fn test_interpolate_non_monotonic_knots() {
    let ts = vec![fx(0.0), fx(2.0), fx(1.0)];
    let maps = vec![Mapping::identity(), Mapping::identity(), Mapping::identity()];
    let r = Mapping::interpolate_scalar(ts, maps, fx(0.5));
    assert_eq!(r, Err(WarpError::InterpolationDomainError));
}

#[test]
fn test_accumulate_empty_is_identity() {
    let acc = Mapping::accumulate(vec![]);
    assert_eq!(acc.len(), 1);
    assert_eq!(acc[0].mat, Mat3::identity());
    assert_eq!(acc[0].kind, TransformationType::Identity);
}

#[test]
fn test_accumulate_composes_left_to_right() {
    let maps = vec![
        Mapping::shift(fx(1.0), fx(2.0)),
        Mapping::shift(fx(10.0), fx(20.0)),
        Mapping::shift(fx(100.0), fx(200.0)),
    ];
    let acc = Mapping::accumulate(maps);
    assert_eq!(acc.len(), 4);
    assert_eq!(acc[0].mat, Mat3::identity());
    let p = vec![(fx(0.0), fx(0.0))];
    let w2 = acc[2].warp_points(&p);
    assert!(close(tof(w2[0].0), 11.0, 1e-6));
    assert!(close(tof(w2[0].1), 22.0, 1e-6));
    let w3 = acc[3].warp_points(&p);
    assert!(close(tof(w3[0].0), 111.0, 1e-6));
    assert!(close(tof(w3[0].1), 222.0, 1e-6));
}

#[test]
fn test_with_respect_to_makes_wrt_identity() {
    let maps = vec![
        Mapping::shift(fx(1.0), fx(2.0)),
        Mapping::shift(fx(10.0), fx(20.0)),
    ];
    let wrt = maps[1];
    let fixed = Mapping::with_respect_to(maps, wrt).unwrap();
    let p = vec![(fx(3.0), fx(4.0))];
    let w = fixed[1].warp_points(&p);
    assert!(close(tof(w[0].0), 3.0, 1e-6));
    assert!(close(tof(w[0].1), 4.0, 1e-6));
}

#[test]
fn test_with_respect_to_idx_start() {
    let maps = vec![
        Mapping::shift(fx(0.0), fx(0.0)),
        Mapping::shift(fx(4.0), fx(6.0)),
    ];
    let fixed = Mapping::with_respect_to_idx(maps, fx(0.0)).unwrap();
    let p = vec![(fx(1.0), fx(1.0))];
    let w = fixed[0].warp_points(&p);
    assert!(close(tof(w[0].0), 1.0, 1e-4));
    assert!(close(tof(w[0].1), 1.0, 1e-4));
}

#[test]
fn test_accumulate_wrt_idx_start() {
    let maps = vec![
        Mapping::shift(fx(2.0), fx(0.0)),
        Mapping::shift(fx(2.0), fx(0.0)),
    ];
    let fixed = Mapping::accumulate_wrt_idx(maps, fx(0.0)).unwrap();
    assert_eq!(fixed.len(), 3);
    let p = vec![(fx(0.0), fx(0.0))];
    let w0 = fixed[0].warp_points(&p);
    assert!(close(tof(w0[0].0), 0.0, 1e-4));
    let w2 = fixed[2].warp_points(&p);
    assert!(close(tof(w2[0].0), 4.0, 1e-4));
}

#[test]
fn test_corners_of_shift() {
    let m = Mapping::shift(fx(10.0), fx(20.0));
    let c = m.corners((100, 50)).unwrap();
    assert!(close(tof(c[0].0), -10.0, 1e-6));
    assert!(close(tof(c[0].1), -20.0, 1e-6));
    assert!(close(tof(c[2].0), 90.0, 1e-6));
    assert!(close(tof(c[2].1), 30.0, 1e-6));
}

#[test]
fn test_extent_of_shift() {
    let m = Mapping::shift(fx(10.0), fx(20.0));
    let ((min_x, min_y), (max_x, max_y)) = m.extent((100, 50)).unwrap();
    assert!(close(tof(min_x), -10.0, 1e-6));
    assert!(close(tof(min_y), -20.0, 1e-6));
    assert!(close(tof(max_x), 90.0, 1e-6));
    assert!(close(tof(max_y), 30.0, 1e-6));
}

#[test]
fn test_maximum_extent_broadcast() {
    let maps = vec![Mapping::shift(fx(10.0), fx(20.0))];
    let sizes = vec![(100, 50), (200, 30)];
    let ((ex, ey), offset) = Mapping::maximum_extent(&maps, &sizes).unwrap();
    assert!(close(tof(ex), 200.0, 1e-6));
    assert!(close(tof(ey), 50.0, 1e-6));
    assert_eq!(offset.kind, TransformationType::Translational);
    let params = offset.get_params();
    assert!(close(tof(params[0]), -10.0, 1e-6));
    assert!(close(tof(params[1]), -20.0, 1e-6));
}

#[test]
fn test_maximum_extent_singular_map() {
    let zero = fx(0.0);
    let singular = Mapping::from_matrix(
        Mat3::new(zero, zero, zero, zero, zero, zero, zero, zero, zero),
        TransformationType::Affine,
    );
    let r = Mapping::maximum_extent(&vec![singular], &vec![(10, 10)]);
    assert_eq!(r, Err(WarpError::SingularMatrix));
}

#[test]
fn test_rescale_keeps_kind_and_scales_shift() {
    let m = Mapping::shift(fx(5.0), fx(10.0));
    let r = m.rescale(fx(2.0));
    assert_eq!(r.kind, TransformationType::Translational);
    let w = r.warp_points(&vec![(fx(0.0), fx(0.0))]);
    assert!(close(tof(w[0].0), 10.0, 1e-4));
    assert!(close(tof(w[0].1), 20.0, 1e-4));
}

#[test]
fn test_kind_num_params() {
    assert_eq!(TransformationType::Identity.num_params(), 0);
    assert_eq!(TransformationType::Translational.num_params(), 2);
    assert_eq!(TransformationType::Affine.num_params(), 6);
    assert_eq!(TransformationType::Projective.num_params(), 8);
    assert_eq!(TransformationType::Unknown.num_params(), 0);
}

#[test]
fn test_kind_strings() {
    assert_eq!(
        TransformationType::kind_from_string("Projective"),
        Some(TransformationType::Projective)
    );
    assert_eq!(TransformationType::kind_from_string("banana"), None);
    assert_eq!(
        TransformationType::Affine.kind_to_string(),
        "Affine".to_string()
    );
}

#[test]
fn test_getters_and_setters() {
    let mut m = Mapping::identity();
    assert_eq!(m.kind_getter(), "Identity".to_string());
    assert!(m.kind_setter("Translational").is_ok());
    assert_eq!(m.kind, TransformationType::Translational);
    assert_eq!(m.kind_setter("nope"), Err(WarpError::InvalidKindName));
    let mat = Mat3::new(
        fx(1.0),
        fx(0.0),
        fx(7.0),
        fx(0.0),
        fx(1.0),
        fx(8.0),
        fx(0.0),
        fx(0.0),
        fx(1.0),
    );
    m.mat_setter(mat);
    assert_eq!(m.mat_getter(), mat);
}

#[test]
fn test_transform_promotes_kind() {
    let t = Mapping::shift(fx(1.0), fx(1.0));
    let a = Mapping::from_params(vec![fx(0.1); 6]).unwrap();
    let c = t.transform(Some(a), None);
    assert_eq!(c.kind, TransformationType::Affine);
    let c2 = t.transform(None, Some(t));
    assert_eq!(c2.kind, TransformationType::Translational);
}

#[test]
fn test_interpolate_array_multiple_queries() {
    let ts = vec![fx(0.0), fx(1.0), fx(2.0)];
    let maps = vec![
        Mapping::shift(fx(0.0), fx(0.0)),
        Mapping::shift(fx(2.0), fx(2.0)),
        Mapping::shift(fx(4.0), fx(4.0)),
    ];
    let qs = vec![fx(0.0), fx(2.0)];
    let out = Mapping::interpolate_array(ts, maps.clone(), qs).unwrap();
    assert_eq!(out.len(), 2);
    let first = out[0].get_params_full();
    let want_first = maps[0].get_params_full();
    let last = out[1].get_params_full();
    let want_last = maps[2].get_params_full();
    for c in 0..8 {
        assert!(close(tof(first[c]), tof(want_first[c]), 1e-3));
        assert!(close(tof(last[c]), tof(want_last[c]), 1e-3));
    }
}

#[test]
fn test_get_params_full_of_shift() {
    let m = Mapping::shift(fx(7.0), fx(-9.0));
    let p = m.get_params_full();
    assert_eq!(p.len(), 8);
    assert!(close(tof(p[0]), 0.0, 1e-9));
    assert!(close(tof(p[4]), 7.0, 1e-9));
    assert!(close(tof(p[5]), -9.0, 1e-9));
}
