use warps::{Array3F, Fx, Mapping, Mask2, WarpError};

fn fx(v: f64) -> Fx {
    Fx::new((v * 4294967296.0_f64).round() as i64)
}

fn tof(x: Fx) -> f64 {
    (x.bits as f64) / 4294967296.0_f64
}

fn close(a: f64, b: f64, tol: f64) -> bool {
    (a - b).abs() <= tol
}

fn plane(h: usize, w: usize, c: usize, vals: Vec<f64>) -> Array3F {
    let data: Vec<Fx> = vals.into_iter().map(fx).collect();
    Array3F::from_vec(h, w, c, data).unwrap()
}

fn merge_weighted(dst: Vec<Fx>, src: Vec<Fx>) -> Vec<Fx> {
    vec![dst[0].fx_add(src[0].fx_mul(src[1])), dst[1].fx_add(src[1])]
}

#[test]
fn test_identity_resample_copies_input() {
    let vals: Vec<f64> = (0..30).map(|k| k as f64).collect();
    let data = plane(3, 5, 2, vals);
    let (out, valid) = Mapping::identity().warp_array3(&data, (3, 5), None).unwrap();
    for y in 0..3 {
        for x in 0..5 {
            assert!(valid.get(y, x));
            for ch in 0..2 {
                assert_eq!(out.get(y, x, ch), data.get(y, x, ch));
            }
        }
    }
}

#[test]
fn test_out_of_range_clears_valid_and_leaves_output() {
    let data = plane(4, 4, 1, vec![1.0; 16]);
    let m = Mapping::shift(fx(100.0), fx(100.0));
    let (out, valid) = m.warp_array3(&data, (4, 4), None).unwrap();
    for y in 0..4 {
        for x in 0..4 {
            assert!(!valid.get(y, x));
            assert_eq!(out.get(y, x, 0), fx(0.0));
        }
    }
}

#[test]
fn test_background_softening_half_blend() {
    let data = plane(4, 4, 1, vec![1.0; 16]);
    let m = Mapping::shift(fx(-0.5), fx(0.0));
    let bkg = vec![fx(0.0)];
    let (out, valid) = m.warp_array3(&data, (4, 4), Some(&bkg)).unwrap();
    for y in 0..4 {
        assert!(valid.get(y, 0));
        assert!(close(tof(out.get(y, 0, 0)), 0.5, 1e-6));
        assert!(close(tof(out.get(y, 1, 0)), 1.0, 1e-6));
    }
}

#[test]
fn test_bilinear_midpoint_blend() {
    let data = plane(1, 2, 1, vec![0.0, 1.0]);
    let m = Mapping::shift(fx(0.5), fx(0.0));
    let (out, valid) = m.warp_array3(&data, (1, 1), None).unwrap();
    assert!(valid.get(0, 0));
    assert!(close(tof(out.get(0, 0, 0)), 0.5, 1e-6));
}

#[test]
fn test_channel_depth_exceeded() {
    let data = plane(1, 1, 9, vec![0.0; 9]);
    let r = Mapping::identity().warp_array3(&data, (1, 1), None);
    assert_eq!(r, Err(WarpError::ChannelDepthExceeded));
}

#[test]
fn test_shape_mismatch_valid_mask() {
    let data = plane(2, 2, 1, vec![1.0; 4]);
    let mut out = Array3F::zeros(2, 2, 1);
    let mut valid = Mask2::new_false(3, 2);
    let r = Mapping::identity().warp_array3_into(&data, &mut out, &mut valid, None, None);
    assert_eq!(r, Err(WarpError::ShapeMismatch));
}

#[test]
fn test_shape_mismatch_background_length() {
    let data = plane(2, 2, 1, vec![1.0; 4]);
    let bkg = vec![fx(0.0), fx(0.0)];
    let r = Mapping::identity().warp_array3(&data, (2, 2), Some(&bkg));
    assert_eq!(r, Err(WarpError::ShapeMismatch));
}

#[test]
fn test_from_vec_shape_mismatch() {
    let r = Array3F::from_vec(2, 2, 1, vec![fx(0.0); 5]);
    assert_eq!(r, Err(WarpError::ShapeMismatch));
}

#[test]
fn test_points_grid_subset() {
    let data = plane(2, 2, 1, vec![10.0, 20.0, 30.0, 40.0]);
    let mut out = Array3F::zeros(2, 2, 1);
    let mut valid = Mask2::new_false(2, 2);
    let points = vec![(1usize, 0usize)];
    let r = Mapping::identity().warp_array3_into(
        &data,
        &mut out,
        &mut valid,
        Some(&points),
        None,
    );
    assert!(r.is_ok());
    // the one visited destination cell sampled source point (1, 0)
    assert_eq!(out.get(0, 0, 0), data.get(0, 1, 0));
    assert!(valid.get(0, 0));
    // the rest were never visited
    assert_eq!(out.get(1, 1, 0), fx(0.0));
    assert!(!valid.get(1, 1));
}

#[test]
fn test_panorama_weighted_accumulation() {
    // canvas of (4, 6) cells holding a value channel and a weight channel
    let mut canvas = Array3F::zeros(4, 6, 2);
    let mut valid = Mask2::new_false(4, 6);
    // two source frames, constant 1.0 and 3.0, each with unit weights
    let mut a_vals: Vec<f64> = Vec::new();
    let mut b_vals: Vec<f64> = Vec::new();
    for _ in 0..16 {
        a_vals.push(1.0);
        a_vals.push(1.0);
        b_vals.push(3.0);
        b_vals.push(1.0);
    }
    let frame_a = plane(4, 4, 2, a_vals);
    let frame_b = plane(4, 4, 2, b_vals);
    let map_a = Mapping::identity();
    let map_b = Mapping::shift(fx(-2.0), fx(0.0));
    map_a
        .warp_array3_into_func(&frame_a, &mut canvas, &mut valid, None, None, merge_weighted)
        .unwrap();
    map_b
        .warp_array3_into_func(&frame_b, &mut canvas, &mut valid, None, None, merge_weighted)
        .unwrap();
    for y in 0..4 {
        // only the first frame covers x = 0 and 1
        for x in 0..2 {
            let wsum = tof(canvas.get(y, x, 1));
            assert!(close(wsum, 1.0, 1e-6));
            assert!(close(tof(canvas.get(y, x, 0)) / wsum, 1.0, 1e-6));
        }
        // both frames cover x = 2 and 3
        for x in 2..4 {
            let wsum = tof(canvas.get(y, x, 1));
            assert!(close(wsum, 2.0, 1e-6));
            assert!(close(tof(canvas.get(y, x, 0)) / wsum, 2.0, 1e-6));
        }
        // only the second frame covers x = 4 and 5
        for x in 4..6 {
            let wsum = tof(canvas.get(y, x, 1));
            assert!(close(wsum, 1.0, 1e-6));
            assert!(close(tof(canvas.get(y, x, 0)) / wsum, 3.0, 1e-6));
        }
    }
}

#[test]
fn test_warp_shifts_content() {
    // sampling through shift(1, 0): destination x reads source x + 1
    let data = plane(1, 3, 1, vec![10.0, 20.0, 30.0]);
    let m = Mapping::shift(fx(1.0), fx(0.0));
    let (out, valid) = m.warp_array3(&data, (1, 3), None).unwrap();
    assert!(valid.get(0, 0) && valid.get(0, 1));
    assert!(!valid.get(0, 2));
    assert!(close(tof(out.get(0, 0, 0)), 20.0, 1e-6));
    assert!(close(tof(out.get(0, 1, 0)), 30.0, 1e-6));
    assert!(close(tof(out.get(0, 2, 0)), 0.0, 1e-6));
}

#[test]
fn test_array3_get_and_zeros() {
    let a = Array3F::zeros(2, 3, 2);
    assert_eq!((a.h, a.w, a.c), (2, 3, 2));
    for y in 0..2 {
        for x in 0..3 {
            for ch in 0..2 {
                assert_eq!(a.get(y, x, ch), fx(0.0));
            }
        }
    }
    let b = plane(1, 2, 2, vec![1.0, 2.0, 3.0, 4.0]);
    assert_eq!(b.get(0, 1, 0), fx(3.0));
    assert_eq!(b.get(0, 1, 1), fx(4.0));
}

#[test]
fn test_u8_plane_roundtrip() {
    let bytes: Vec<u8> = vec![0, 1, 127, 254, 255];
    let vals = warps::u8s_to_fx(&bytes);
    let back = warps::fx_to_u8s(&vals);
    assert_eq!(bytes, back);
    // clamping on the way back to bytes
    let clipped = warps::fx_to_u8s(&vec![fx(-3.0), fx(300.0), fx(1.5)]);
    assert_eq!(clipped, vec![0, 255, 1]);
}
