//! The bilinear resampling kernel: warp a source `(H, W, C)` plane into a
//! caller-owned destination buffer and validity mask, with an optional
//! background fill and subpixel edge softening, an optional reusable
//! destination-point grid, and an optional per-pixel merge function.

use vstd::prelude::*;

verus! {

use crate::error::WarpError;
use crate::fixed::{Fx, FX_SCALE, sadd, ssub, smul, sneg, sfloor, s_of_int};
use crate::warps::{Mapping, spec_warp_point};

/// The most channels a plane may have: per-pixel work stays in bounded
/// buffers, so the hot loop allocates nothing per channel.
pub const MAX_CHANNELS: usize = 8;

/// A `(h, w, c)` array of scalars, contiguous and row-major with channels
/// innermost.
#[derive(Clone, Debug, PartialEq, Eq)]
pub struct Array3F {
    pub h: usize,
    pub w: usize,
    pub c: usize,
    pub data: Vec<Fx>,
}

/// A `(h, w)` boolean mask, contiguous and row-major.
#[derive(Clone, Debug, PartialEq, Eq)]
pub struct Mask2 {
    pub h: usize,
    pub w: usize,
    pub data: Vec<bool>,
}

impl Array3F {
    /// The buffer holds exactly one scalar per cell.
    pub open spec fn wf(self) -> bool {
        self.data@.len() == self.h * self.w * self.c
    }

    /// The scalar at row `y`, column `x`, channel `ch`.
    pub open spec fn spec_at(self, y: int, x: int, ch: int) -> Fx {
        self.data@[(y * self.w + x) * self.c + ch]
    }

    /// Wrap a flat buffer as a `(h, w, c)` array; a buffer whose length
    /// is not exactly `h * w * c` is refused.
    pub fn from_vec(h: usize, w: usize, c: usize, data: Vec<Fx>) -> (r: Result<
        Array3F,
        WarpError,
    >)
        ensures
            r is Ok <==> data@.len() == h * w * c,
            r is Ok ==> r->Ok_0 == (Array3F { h, w, c, data }) && r->Ok_0.wf(),
            r is Err ==> r->Err_0 == WarpError::ShapeMismatch,
    {
        if h == 0 || w == 0 || c == 0 {
            proof {
                assert(h as int * w as int * c as int == 0) by (nonlinear_arith)
                    requires
                        h == 0 || w == 0 || c == 0,
                ;
            }
            if data.len() == 0 {
                Ok(Array3F { h, w, c, data })
            } else {
                Err(WarpError::ShapeMismatch)
            }
        } else {
            proof {
                lemma_vec_len_bound(&data);
            }
            let hw = match h.checked_mul(w) {
                Some(v) => v,
                None => {
                    proof {
                        lemma_product_ge(h as int, w as int, c as int, data@.len() as int);
                    }
                    return Err(WarpError::ShapeMismatch);
                },
            };
            let hwc = match hw.checked_mul(c) {
                Some(v) => v,
                None => {
                    proof {
                        lemma_product_ge(h as int, w as int, c as int, data@.len() as int);
                    }
                    return Err(WarpError::ShapeMismatch);
                },
            };
            if data.len() == hwc {
                Ok(Array3F { h, w, c, data })
            } else {
                Err(WarpError::ShapeMismatch)
            }
        }
    }

    /// A zero-filled `(h, w, c)` array.
    pub fn zeros(h: usize, w: usize, c: usize) -> (r: Array3F)
        requires
            h * w * c <= usize::MAX,
        ensures
            r.h == h && r.w == w && r.c == c,
            r.wf(),
            forall|i: int| 0 <= i < r.data@.len() ==> r.data@[i] == (Fx { bits: 0 }),
    {
        let n: usize = if h == 0 || w == 0 || c == 0 {
            proof {
                assert(h as int * w as int * c as int == 0) by (nonlinear_arith)
                    requires
                        h == 0 || w == 0 || c == 0,
                ;
            }
            0
        } else {
            proof {
                lemma_mul_le_product(h as int, w as int, c as int);
            }
            let hw = h * w;
            hw * c
        };
        let mut data: Vec<Fx> = Vec::new();
        let mut i: usize = 0;
        while i < n
            invariant
                0 <= i <= n,
                data@.len() == i as int,
                forall|j: int| 0 <= j < i as int ==> data@[j] == (Fx { bits: 0 }),
            decreases n - i,
        {
            data.push(Fx { bits: 0 });
            i += 1;
        }
        Array3F { h, w, c, data }
    }

    /// The scalar at row `y`, column `x`, channel `ch`.
    pub fn get(&self, y: usize, x: usize, ch: usize) -> (r: Fx)
        requires
            self.wf(),
            y < self.h,
            x < self.w,
            ch < self.c,
        ensures
            r == self.spec_at(y as int, x as int, ch as int),
    {
        proof {
            lemma_vec_len_bound(&self.data);
            lemma_idx3_bound(
                self.h as int,
                self.w as int,
                self.c as int,
                y as int,
                x as int,
                ch as int,
            );
        }
        let idx = (y * self.w + x) * self.c + ch;
        self.data[idx]
    }

    /// Replace destination cell `k` (one pixel of `c` channels) with the
    /// given values.
    fn overwrite_pixel(&mut self, k: usize, vals: &Vec<Fx>)
        requires
            old(self).wf(),
            vals@.len() == old(self).c,
            (k + 1) * old(self).c <= old(self).data@.len(),
        ensures
            final(self).h == old(self).h,
            final(self).w == old(self).w,
            final(self).c == old(self).c,
            final(self).wf(),
            final(self).data@.len() == old(self).data@.len(),
            forall|i: int|
                0 <= i < old(self).data@.len() ==> final(self).data@[i] == (if k * old(self).c
                    <= i < k * old(self).c + old(self).c {
                    vals@[i - k * old(self).c]
                } else {
                    old(self).data@[i]
                }),
    {
        let c = self.c;
        proof {
            lemma_vec_len_bound(&self.data);
            assert(k * c + c == (k + 1) * c && 0 <= k * c <= (k + 1) * c) by (nonlinear_arith)
                requires
                    k >= 0 && c >= 0,
            ;
        }
        let base = k * c;
        let mut ch: usize = 0;
        while ch < c
            invariant
                self.wf(),
                self.h == old(self).h,
                self.w == old(self).w,
                self.c == old(self).c,
                c == old(self).c,
                base == k * c,
                vals@.len() == c,
                base + c <= self.data@.len(),
                self.data@.len() <= usize::MAX,
                self.data@.len() == old(self).data@.len(),
                0 <= ch <= c,
                forall|i: int|
                    0 <= i < self.data@.len() ==> self.data@[i] == (if base <= i < base + ch as int {
                        vals@[i - base]
                    } else {
                        old(self).data@[i]
                    }),
            decreases c - ch,
        {
            self.data[base + ch] = vals[ch];
            ch += 1;
        }
    }
}

impl Mask2 {
    /// The buffer holds exactly one flag per cell.
    pub open spec fn wf(self) -> bool {
        self.data@.len() == self.h * self.w
    }

    /// A `(h, w)` mask with every flag cleared.
    pub fn new_false(h: usize, w: usize) -> (r: Mask2)
        requires
            h * w <= usize::MAX,
        ensures
            r.h == h && r.w == w,
            r.wf(),
            forall|i: int| 0 <= i < r.data@.len() ==> r.data@[i] == false,
    {
        proof {
            assert(h * w >= 0) by (nonlinear_arith);
        }
        let n = h * w;
        let mut data: Vec<bool> = Vec::new();
        let mut i: usize = 0;
        while i < n
            invariant
                0 <= i <= n,
                data@.len() == i as int,
                forall|j: int| 0 <= j < i as int ==> data@[j] == false,
            decreases n - i,
        {
            data.push(false);
            i += 1;
        }
        Mask2 { h, w, data }
    }

    /// The flag at row `y`, column `x`.
    pub fn get(&self, y: usize, x: usize) -> (r: bool)
        requires
            self.wf(),
            y < self.h,
            x < self.w,
        ensures
            r == self.data@[y * self.w + x],
    {
        proof {
            lemma_vec_len_bound(&self.data);
            assert(y * self.w + x < self.h * self.w && y * self.w >= 0) by (nonlinear_arith)
                requires
                    0 <= y < self.h && 0 <= x < self.w && self.w >= 0,
            ;
        }
        self.data[y * self.w + x]
    }

    /// Set the flag at flat cell `k`.
    fn set_flat(&mut self, k: usize, b: bool)
        requires
            k < old(self).data@.len(),
        ensures
            final(self).h == old(self).h,
            final(self).w == old(self).w,
            final(self).data@ == old(self).data@.update(k as int, b),
    {
        self.data[k] = b;
    }
}

/// The length of a vector's view fits in `usize`.
proof fn lemma_vec_len_bound<T>(v: &Vec<T>)
    ensures
        v@.len() <= usize::MAX,
{
    vstd::std_specs::vec::axiom_spec_len(v);
}

/// `(y * w + x) * c + ch` addresses inside the buffer when the indices are
/// inside their bounds.
proof fn lemma_idx3_bound(h: int, w: int, c: int, y: int, x: int, ch: int)
    requires
        0 <= y < h,
        0 <= x < w,
        0 <= ch < c,
    ensures
        0 <= (y * w + x) * c + ch < h * w * c,
        0 <= y * w + x < h * w,
        0 <= y * w,
        0 <= (y * w + x) * c,
        h * w <= h * w * c,
{
    assert(0 <= (y * w + x) * c + ch < h * w * c && 0 <= y * w + x < h * w && 0 <= y * w && 0 <= (
    y * w + x) * c && h * w <= h * w * c) by (nonlinear_arith)
        requires
            0 <= y < h,
            0 <= x < w,
            0 <= ch < c,
    ;
}

/// A product of three positive factors is at least the product of two.
proof fn lemma_mul_le_product(h: int, w: int, c: int)
    requires
        h >= 0,
        w >= 0,
        c >= 0,
    ensures
        h * w * c >= 0,
        c >= 1 ==> h * w <= h * w * c,
{
    assert(h * w * c >= 0 && (c >= 1 ==> h * w <= h * w * c)) by (nonlinear_arith)
        requires
            h >= 0,
            w >= 0,
            c >= 0,
    ;
}

/// When a partial product already exceeds `usize::MAX`, the whole product
/// exceeds any buffer length.
proof fn lemma_product_ge(h: int, w: int, c: int, len: int)
    requires
        h >= 1,
        w >= 1,
        c >= 1,
        h * w > usize::MAX || h * w * c > usize::MAX,
        len <= usize::MAX,
    ensures
        h * w * c != len,
{
    assert(h * w <= h * w * c && h * w * c >= h * w) by (nonlinear_arith)
        requires
            h >= 1 && w >= 1 && c >= 1,
    ;
}

/// A zero pixel of `c` channels.
pub open spec fn spec_zeros(c: int) -> Seq<Fx> {
    Seq::new(c as nat, |i: int| Fx { bits: 0 })
}

/// One corner sample: inside the source plane the stored value, outside
/// it the background value for that channel.
pub open spec fn spec_sample_at(data: Array3F, bkg: Seq<Fx>, cx: int, cy: int, ch: int) -> Fx {
    if cx < 0 || cx >= data.w || cy < 0 || cy >= data.h {
        bkg[ch]
    } else {
        data.spec_at(cy, cx, ch)
    }
}

/// Bilinear reconstruction of one channel at fractional coordinates
/// `(x, y)`: the four surrounding samples combined with the fractional
/// offsets as weights, accumulated left to right.
pub open spec fn spec_bilinear_chan(data: Array3F, bkg: Seq<Fx>, x: Fx, y: Fx, ch: int) -> Fx {
    let one = Fx { bits: FX_SCALE };
    let left = sfloor(x);
    let top = sfloor(y);
    let wr = ssub(x, s_of_int(left));
    let wl = ssub(one, wr);
    let wb = ssub(y, s_of_int(top));
    let wt = ssub(one, wb);
    let tl = spec_sample_at(data, bkg, left, top, ch);
    let tr = spec_sample_at(data, bkg, left + 1, top, ch);
    let bl = spec_sample_at(data, bkg, left, top + 1, ch);
    let br = spec_sample_at(data, bkg, left + 1, top + 1, ch);
    sadd(
        sadd(sadd(smul(smul(wt, wl), tl), smul(smul(wt, wr), tr)), smul(smul(wb, wl), bl)),
        smul(smul(wb, wr), br),
    )
}

/// The whole sampled pixel: one bilinear value per source channel.
pub open spec fn spec_sampled_pixel(data: Array3F, bkg: Seq<Fx>, x: Fx, y: Fx) -> Seq<Fx> {
    Seq::new(data.c as nat, |ch: int| spec_bilinear_chan(data, bkg, x, y, ch))
}

/// Whether a warped coordinate falls inside the source plane, widened by
/// `pad` on every side.
pub open spec fn spec_in_range(data: Array3F, pad: Fx, x: Fx, y: Fx) -> bool {
    let one = Fx { bits: FX_SCALE };
    let lo = sneg(pad);
    let hx = sadd(ssub(s_of_int(data.w as int), one), pad);
    let hy = sadd(ssub(s_of_int(data.h as int), one), pad);
    lo.bits <= x.bits && x.bits <= hx.bits && lo.bits <= y.bits && y.bits <= hy.bits
}

/// The destination points the kernel visits, as fixed-point pairs: the
/// given list (cut to the number of destination cells), or the full
/// row-major grid `(k mod w, k div w)`.
pub open spec fn spec_dst_points(
    points: Option<Seq<(usize, usize)>>,
    ho: int,
    wo: int,
) -> Seq<(Fx, Fx)> {
    match points {
        Some(p) => p.take(
            if p.len() <= ho * wo {
                p.len() as int
            } else {
                ho * wo
            },
        ).map_values(|q: (usize, usize)| (s_of_int(q.0 as int), s_of_int(q.1 as int))),
        None => Seq::new((ho * wo) as nat, |k: int| (s_of_int(k % wo), s_of_int(k / wo))),
    }
}

/// `out` is a value the merge function may return for `(dst, src)`.
pub open spec fn spec_merged<F: Fn(Vec<Fx>, Vec<Fx>) -> Vec<Fx>>(
    f: F,
    dst: Seq<Fx>,
    src: Seq<Fx>,
    out: Seq<Fx>,
) -> bool {
    exists|dv: Vec<Fx>, sv: Vec<Fx>, rv: Vec<Fx>|
        dv@ == dst && sv@ == src && rv@ == out && #[trigger] call_ensures(f, (dv, sv), rv)
}

/// What one destination cell looks like after the kernel: an in-range
/// cell merges the sampled pixel and is marked valid; an out-of-range
/// cell merges the background when one is present, is left untouched
/// otherwise, and is marked invalid either way.
pub open spec fn spec_cell_done<F: Fn(Vec<Fx>, Vec<Fx>) -> Vec<Fx>>(
    f: F,
    m: Mapping,
    data: Array3F,
    bkg: Option<Seq<Fx>>,
    co: int,
    old_out: Seq<Fx>,
    new_out: Seq<Fx>,
    new_valid: Seq<bool>,
    pt: (Fx, Fx),
    k: int,
) -> bool {
    let wp = spec_warp_point(m, pt);
    let pad = if bkg is Some {
        Fx { bits: FX_SCALE }
    } else {
        Fx { bits: 0 }
    };
    let bkg_seq = if bkg is Some {
        bkg->Some_0
    } else {
        spec_zeros(data.c as int)
    };
    let old_pix = old_out.subrange(k * co, k * co + co);
    let new_pix = new_out.subrange(k * co, k * co + co);
    if spec_in_range(data, pad, wp.0, wp.1) {
        &&& new_valid[k] == true
        &&& spec_merged(f, old_pix, spec_sampled_pixel(data, bkg_seq, wp.0, wp.1), new_pix)
    } else if bkg is Some {
        &&& new_valid[k] == false
        &&& spec_merged(f, old_pix, bkg_seq, new_pix)
    } else {
        &&& new_valid[k] == false
        &&& new_pix == old_pix
    }
}

/// Element-wise replacement: the source overwrites the destination on
/// their common length.
pub open spec fn spec_replace(dst: Seq<Fx>, src: Seq<Fx>) -> Seq<Fx> {
    Seq::new(dst.len(), |i: int| if i < src.len() { src[i] } else { dst[i] })
}

/// `spec_cell_done` specialized to replace semantics.
pub open spec fn spec_cell_replaced(
    m: Mapping,
    data: Array3F,
    bkg: Option<Seq<Fx>>,
    co: int,
    old_out: Seq<Fx>,
    new_out: Seq<Fx>,
    new_valid: Seq<bool>,
    pt: (Fx, Fx),
    k: int,
) -> bool {
    let wp = spec_warp_point(m, pt);
    let pad = if bkg is Some {
        Fx { bits: FX_SCALE }
    } else {
        Fx { bits: 0 }
    };
    let bkg_seq = if bkg is Some {
        bkg->Some_0
    } else {
        spec_zeros(data.c as int)
    };
    let old_pix = old_out.subrange(k * co, k * co + co);
    let new_pix = new_out.subrange(k * co, k * co + co);
    if spec_in_range(data, pad, wp.0, wp.1) {
        &&& new_valid[k] == true
        &&& new_pix == spec_replace(old_pix, spec_sampled_pixel(data, bkg_seq, wp.0, wp.1))
    } else if bkg is Some {
        &&& new_valid[k] == false
        &&& new_pix == spec_replace(old_pix, bkg_seq)
    } else {
        &&& new_valid[k] == false
        &&& new_pix == old_pix
    }
}

/// Everything the kernel promises of one run with a merge function: each
/// visited cell is done, and cells beyond the visited ones are untouched.
pub open spec fn spec_kernel_post<F: Fn(Vec<Fx>, Vec<Fx>) -> Vec<Fx>>(
    f: F,
    m: Mapping,
    data: Array3F,
    points_opt: Option<Seq<(usize, usize)>>,
    bkg: Option<Seq<Fx>>,
    ho: int,
    wo: int,
    co: int,
    old_out: Seq<Fx>,
    new_out: Seq<Fx>,
    old_valid: Seq<bool>,
    new_valid: Seq<bool>,
) -> bool {
    let pts = spec_dst_points(points_opt, ho, wo);
    &&& forall|k: int|
        0 <= k < pts.len() ==> spec_cell_done(
            f,
            m,
            data,
            bkg,
            co,
            old_out,
            new_out,
            new_valid,
            #[trigger] pts[k],
            k,
        )
    &&& forall|i: int| pts.len() * co <= i < old_out.len() ==> new_out[i] == old_out[i]
    &&& forall|i: int| pts.len() <= i < old_valid.len() ==> new_valid[i] == old_valid[i]
}

/// The same promise with replace semantics for every cell.
pub open spec fn spec_kernel_post_replaced(
    m: Mapping,
    data: Array3F,
    points_opt: Option<Seq<(usize, usize)>>,
    bkg: Option<Seq<Fx>>,
    ho: int,
    wo: int,
    co: int,
    old_out: Seq<Fx>,
    new_out: Seq<Fx>,
    old_valid: Seq<bool>,
    new_valid: Seq<bool>,
) -> bool {
    let pts = spec_dst_points(points_opt, ho, wo);
    &&& forall|k: int|
        0 <= k < pts.len() ==> spec_cell_replaced(
            m,
            data,
            bkg,
            co,
            old_out,
            new_out,
            new_valid,
            #[trigger] pts[k],
            k,
        )
    &&& forall|i: int| pts.len() * co <= i < old_out.len() ==> new_out[i] == old_out[i]
    &&& forall|i: int| pts.len() <= i < old_valid.len() ==> new_valid[i] == old_valid[i]
}

/// An element-for-element copy.
fn copy_fx_vec(v: &Vec<Fx>) -> (r: Vec<Fx>)
    ensures
        r@ == v@,
{
    let n = v.len();
    let mut r: Vec<Fx> = Vec::new();
    let mut k: usize = 0;
    while k < n
        invariant
            n == v@.len(),
            0 <= k <= n,
            r@.len() == k as int,
            forall|j: int| 0 <= j < k as int ==> r@[j] == v@[j],
        decreases n - k,
    {
        r.push(v[k]);
        k += 1;
    }
    proof {
        assert(r@ =~= v@);
    }
    r
}

/// A zero pixel of `c` channels, as a vector.
fn zeros_vec(c: usize) -> (r: Vec<Fx>)
    ensures
        r@ == spec_zeros(c as int),
{
    let mut r: Vec<Fx> = Vec::new();
    let mut k: usize = 0;
    while k < c
        invariant
            0 <= k <= c,
            r@.len() == k as int,
            forall|j: int| 0 <= j < k as int ==> r@[j] == (Fx { bits: 0 }),
        decreases c - k,
    {
        r.push(Fx { bits: 0 });
        k += 1;
    }
    proof {
        assert(r@ =~= spec_zeros(c as int));
    }
    r
}

/// The destination pixel `k` of the output buffer, as a vector.
fn read_pixel(a: &Array3F, k: usize) -> (r: Vec<Fx>)
    requires
        a.wf(),
        (k + 1) * a.c <= a.data@.len(),
    ensures
        r@ == a.data@.subrange(k as int * a.c as int, k as int * a.c as int + a.c as int),
{
    let c = a.c;
    proof {
        lemma_vec_len_bound(&a.data);
        assert(k * c + c == (k + 1) * c && 0 <= k * c <= (k + 1) * c) by (nonlinear_arith)
            requires
                k >= 0 && c >= 0,
        ;
    }
    let base = k * c;
    let mut r: Vec<Fx> = Vec::new();
    let mut ch: usize = 0;
    while ch < c
        invariant
            a.wf(),
            c == a.c,
            base == k * c,
            base + c <= a.data@.len(),
            a.data@.len() <= usize::MAX,
            0 <= ch <= c,
            r@.len() == ch as int,
            forall|j: int| 0 <= j < ch as int ==> r@[j] == a.data@[base + j],
        decreases c - ch,
    {
        r.push(a.data[base + ch]);
        ch += 1;
    }
    proof {
        assert(r@ =~= a.data@.subrange(k as int * a.c as int, k as int * a.c as int + a.c as int));
    }
    r
}

/// Replace-merge: copy the source over the destination on their common
/// length.
fn replace_vals(dst: Vec<Fx>, src: Vec<Fx>) -> (r: Vec<Fx>)
    ensures
        r@ == spec_replace(dst@, src@),
{
    let n = dst.len();
    let mut r: Vec<Fx> = Vec::new();
    let mut k: usize = 0;
    while k < n
        invariant
            n == dst@.len(),
            0 <= k <= n,
            r@.len() == k as int,
            forall|j: int|
                0 <= j < k as int ==> r@[j] == (if j < src@.len() {
                    src@[j]
                } else {
                    dst@[j]
                }),
        decreases n - k,
    {
        if k < src.len() {
            r.push(src[k]);
        } else {
            r.push(dst[k]);
        }
        k += 1;
    }
    proof {
        assert(r@ =~= spec_replace(dst@, src@));
    }
    r
}

/// One corner sample.
fn sample_corner(data: &Array3F, bkg: &Vec<Fx>, cx: i64, cy: i64, ch: usize) -> (r: Fx)
    requires
        data.wf(),
        bkg@.len() == data.c,
        ch < data.c,
    ensures
        r == spec_sample_at(*data, bkg@, cx as int, cy as int, ch as int),
{
    if cx < 0 || cy < 0 {
        bkg[ch]
    } else {
        let cxu = cx as u64;
        let cyu = cy as u64;
        if cxu >= data.w as u64 || cyu >= data.h as u64 {
            bkg[ch]
        } else {
            data.get(cyu as usize, cxu as usize, ch)
        }
    }
}

/// The floor of a fixed-point coordinate stays well inside `i64`, so the
/// next integer up exists.
proof fn lemma_floor_small(x: Fx)
    ensures
        -0x80000000 <= sfloor(x) < 0x80000000,
{
    vstd::arithmetic::div_mod::lemma_div_is_ordered(x.bits as int, i64::MAX as int, FX_SCALE as int);
    vstd::arithmetic::div_mod::lemma_div_is_ordered(i64::MIN as int, x.bits as int, FX_SCALE as int);
    assert(i64::MAX as int / (FX_SCALE as int) == 0x7fffffff);
    assert(i64::MIN as int / (FX_SCALE as int) == -0x80000000);
}

/// The full sampled pixel at fractional coordinates `(x, y)`.
fn sample_pixel(data: &Array3F, bkg: &Vec<Fx>, x: Fx, y: Fx) -> (r: Vec<Fx>)
    requires
        data.wf(),
        bkg@.len() == data.c,
    ensures
        r@ == spec_sampled_pixel(*data, bkg@, x, y),
{
    proof {
        lemma_floor_small(x);
        lemma_floor_small(y);
    }
    let left = x.fx_floor();
    let top = y.fx_floor();
    let lf = Fx::from_int(left);
    let tf = Fx::from_int(top);
    let one = Fx { bits: FX_SCALE };
    let wr = x.fx_sub(lf);
    let wl = one.fx_sub(wr);
    let wb = y.fx_sub(tf);
    let wt = one.fx_sub(wb);
    let c = data.c;
    let mut r: Vec<Fx> = Vec::new();
    let mut ch: usize = 0;
    while ch < c
        invariant
            data.wf(),
            bkg@.len() == data.c,
            c == data.c,
            left as int == sfloor(x),
            top as int == sfloor(y),
            left < 0x80000000,
            top < 0x80000000,
            wr == ssub(x, s_of_int(left as int)),
            wl == ssub(Fx { bits: FX_SCALE }, wr),
            wb == ssub(y, s_of_int(top as int)),
            wt == ssub(Fx { bits: FX_SCALE }, wb),
            0 <= ch <= c,
            r@.len() == ch as int,
            forall|j: int| 0 <= j < ch as int ==> r@[j] == spec_bilinear_chan(*data, bkg@, x, y, j),
        decreases c - ch,
    {
        let tl = sample_corner(data, bkg, left, top, ch);
        let tr = sample_corner(data, bkg, left + 1, top, ch);
        let bl = sample_corner(data, bkg, left, top + 1, ch);
        let br = sample_corner(data, bkg, left + 1, top + 1, ch);
        let v = wt.fx_mul(wl).fx_mul(tl).fx_add(wt.fx_mul(wr).fx_mul(tr)).fx_add(
            wb.fx_mul(wl).fx_mul(bl),
        ).fx_add(wb.fx_mul(wr).fx_mul(br));
        r.push(v);
        ch += 1;
    }
    proof {
        assert(r@ =~= spec_sampled_pixel(*data, bkg@, x, y));
    }
    r
}

/// Distinct destination cells occupy disjoint ranges of the flat buffer.
proof fn lemma_cell_disjoint(j: int, k: int, co: int)
    requires
        0 <= j < k,
        co >= 0,
    ensures
        j * co + co <= k * co,
        0 <= j * co,
{
    vstd::arithmetic::mul::lemma_mul_inequality(j + 1, k, co);
    assert((j + 1) * co == j * co + co) by (nonlinear_arith);
    assert(0 <= j * co) by (nonlinear_arith)
        requires
            j >= 0 && co >= 0,
    ;
}

/// Every visited cell lies inside the output buffer.
proof fn lemma_cell_in_buffer(k: int, n: int, hw: int, co: int)
    requires
        0 <= k < n,
        n <= hw,
        co >= 0,
    ensures
        (k + 1) * co <= hw * co,
        0 <= k * co,
        k * co + co == (k + 1) * co,
{
    vstd::arithmetic::mul::lemma_mul_inequality(k + 1, hw, co);
    assert(k * co + co == (k + 1) * co && 0 <= k * co) by (nonlinear_arith)
        requires
            k >= 0 && co >= 0,
    ;
}

impl Mapping {
    /// Main workhorse for warping; use directly if the output and points
    /// buffers can be reused, or if something other than simple
    /// assignment is needed.  `func` merges the freshly sampled pixel
    /// (or the background, for an out-of-range cell) into one destination
    /// pixel: it is handed the current destination values and the sample,
    /// and must return the pixel's new values, one per output channel.
    ///
    /// A background stands in for source samples at out-of-bounds
    /// corners, so it must carry one value per source channel; when the
    /// source and destination agree on depth, as they do wherever a
    /// background is put to use, that is also one value per output
    /// channel.  A background of any other length is refused as a shape
    /// mismatch.
    #[verifier::rlimit(100)]
    pub fn warp_array3_into_func<F: Fn(Vec<Fx>, Vec<Fx>) -> Vec<Fx>>(
        &self,
        data: &Array3F,
        out: &mut Array3F,
        valid: &mut Mask2,
        points: Option<&Vec<(usize, usize)>>,
        background: Option<&Vec<Fx>>,
        func: F,
    ) -> (r: Result<(), WarpError>)
        requires
            data.wf(),
            old(out).wf(),
            old(valid).wf(),
            old(out).h * old(out).w <= usize::MAX,
            forall|dv: Vec<Fx>, sv: Vec<Fx>| #[trigger] func.requires((dv, sv)),
            forall|dv: Vec<Fx>, sv: Vec<Fx>, rv: Vec<Fx>|
                #[trigger] func.ensures((dv, sv), rv) ==> rv@.len() == dv@.len(),
        ensures
            final(out).h == old(out).h,
            final(out).w == old(out).w,
            final(out).c == old(out).c,
            final(out).wf(),
            final(valid).h == old(valid).h,
            final(valid).w == old(valid).w,
            final(valid).data@.len() == old(valid).data@.len(),
            final(out).data@.len() == old(out).data@.len(),
            r is Ok <==> (data.c <= MAX_CHANNELS && old(out).c <= MAX_CHANNELS && old(valid).h
                == old(out).h && old(valid).w == old(out).w && (background is Some
                ==> background->Some_0@.len() == data.c)),
            r is Err ==> *final(out) == *old(out) && *final(valid) == *old(valid),
            r is Err ==> r->Err_0 == (if data.c > MAX_CHANNELS || old(out).c > MAX_CHANNELS {
                WarpError::ChannelDepthExceeded
            } else {
                WarpError::ShapeMismatch
            }),
            r is Ok ==> spec_kernel_post(
                func,
                *self,
                *data,
                if points is Some {
                    Some(points->Some_0@)
                } else {
                    None
                },
                if background is Some {
                    Some(background->Some_0@)
                } else {
                    None
                },
                old(out).h as int,
                old(out).w as int,
                old(out).c as int,
                old(out).data@,
                final(out).data@,
                old(valid).data@,
                final(valid).data@,
            ),
    {
        let ho = out.h;
        let wo = out.w;
        let co = out.c;
        if data.c > MAX_CHANNELS || co > MAX_CHANNELS {
            return Err(WarpError::ChannelDepthExceeded);
        }
        if valid.h != ho || valid.w != wo {
            return Err(WarpError::ShapeMismatch);
        }
        let has_bkg = matches!(background, Some(_));
        let bkg_vec: Vec<Fx> = match background {
            Some(b) => {
                if b.len() != data.c {
                    return Err(WarpError::ShapeMismatch);
                }
                copy_fx_vec(b)
            },
            None => zeros_vec(data.c),
        };
        let hw = ho * wo;
        let mut pts_fx: Vec<(Fx, Fx)> = Vec::new();
        match points {
            Some(p) => {
                let n_pts = if p.len() <= hw {
                    p.len()
                } else {
                    hw
                };
                let mut k: usize = 0;
                while k < n_pts
                    invariant
                        n_pts <= p@.len(),
                        0 <= k <= n_pts,
                        pts_fx@.len() == k as int,
                        forall|j: int|
                            0 <= j < k as int ==> pts_fx@[j] == (
                            s_of_int(p@[j].0 as int),
                            s_of_int(p@[j].1 as int),
                            ),
                    decreases n_pts - k,
                {
                    let q = p[k];
                    pts_fx.push((Fx::from_usize(q.0), Fx::from_usize(q.1)));
                    k += 1;
                }
                proof {
                    assert(pts_fx@ =~= spec_dst_points(
                        Some(p@),
                        ho as int,
                        wo as int,
                    ));
                }
            },
            None => {
                let mut k: usize = 0;
                while k < hw
                    invariant
                        hw == ho * wo,
                        0 <= k <= hw,
                        pts_fx@.len() == k as int,
                        forall|j: int|
                            0 <= j < k as int ==> pts_fx@[j] == (
                            s_of_int(j % wo as int),
                            s_of_int(j / wo as int),
                            ),
                    decreases hw - k,
                {
                    proof {
                        assert(wo != 0) by (nonlinear_arith)
                            requires
                                hw == ho * wo && 0 <= k < hw,
                        ;
                    }
                    pts_fx.push((Fx::from_usize(k % wo), Fx::from_usize(k / wo)));
                    k += 1;
                }
                proof {
                    assert(pts_fx@ =~= spec_dst_points(None, ho as int, wo as int));
                }
            },
        }
        let warpd = self.warp_points(&pts_fx);
        let one = Fx { bits: FX_SCALE };
        let zero = Fx { bits: 0 };
        let pad = if has_bkg {
            one
        } else {
            zero
        };
        let lo = pad.fx_neg();
        let hx = Fx::from_usize(data.w).fx_sub(one).fx_add(pad);
        let hy = Fx::from_usize(data.h).fx_sub(one).fx_add(pad);
        let n_pts = pts_fx.len();
        proof {
            assert(n_pts <= hw);
            lemma_vec_len_bound(&out.data);
            lemma_vec_len_bound(&valid.data);
        }
        let ghost pts_spec = pts_fx@;
        let ghost old_out_data = out.data@;
        let ghost old_valid_data = valid.data@;
        let ghost bkg_opt = if background is Some {
            Some(background->Some_0@)
        } else {
            None::<Seq<Fx>>
        };
        let mut k: usize = 0;
        while k < n_pts
            invariant
                data.wf(),
                out.wf(),
                out.h == ho && out.w == wo && out.c == co,
                valid.h == ho && valid.w == wo,
                valid.data@.len() == old_valid_data.len(),
                out.data@.len() == old_out_data.len(),
                old_valid_data.len() == ho * wo,
                old_out_data.len() == ho * wo * co,
                out.data@.len() <= usize::MAX,
                hw == ho * wo,
                n_pts == pts_spec.len(),
                n_pts <= hw,
                warpd@.len() == n_pts,
                forall|j: int|
                    0 <= j < n_pts as int ==> warpd@[j] == spec_warp_point(*self, pts_spec[j]),
                co <= MAX_CHANNELS,
                data.c <= MAX_CHANNELS,
                bkg_vec@.len() == data.c,
                has_bkg <==> bkg_opt is Some,
                bkg_opt is Some ==> bkg_opt->Some_0 == bkg_vec@,
                bkg_opt is None ==> bkg_vec@ == spec_zeros(data.c as int),
                pad == (if bkg_opt is Some {
                    Fx { bits: FX_SCALE }
                } else {
                    Fx { bits: 0 }
                }),
                lo == sneg(pad),
                hx == sadd(ssub(s_of_int(data.w as int), Fx { bits: FX_SCALE }), pad),
                hy == sadd(ssub(s_of_int(data.h as int), Fx { bits: FX_SCALE }), pad),
                forall|dv: Vec<Fx>, sv: Vec<Fx>| #[trigger] func.requires((dv, sv)),
                forall|dv: Vec<Fx>, sv: Vec<Fx>, rv: Vec<Fx>|
                    #[trigger] func.ensures((dv, sv), rv) ==> rv@.len() == dv@.len(),
                0 <= k <= n_pts,
                forall|j: int|
                    0 <= j < k as int ==> spec_cell_done(
                        func,
                        *self,
                        *data,
                        bkg_opt,
                        co as int,
                        old_out_data,
                        out.data@,
                        valid.data@,
                        #[trigger] pts_spec[j],
                        j,
                    ),
                forall|i: int|
                    k as int * co <= i < old_out_data.len() ==> out.data@[i] == old_out_data[i],
                forall|i: int|
                    k as int <= i < old_valid_data.len() ==> valid.data@[i] == old_valid_data[i],
            decreases n_pts - k,
        {
            proof {
                lemma_cell_in_buffer(k as int, n_pts as int, hw as int, co as int);
                vstd::arithmetic::mul::lemma_mul_is_associative(ho as int, wo as int, co as int);
                assert(hw * co == ho * wo * co) by (nonlinear_arith)
                    requires
                        hw == ho * wo,
                ;
            }
            let ghost out_before = out.data@;
            let ghost kk = k as int;
            let ghost cc = co as int;
            proof {
                assert(out_before.subrange(kk * cc, kk * cc + cc) =~= old_out_data.subrange(
                    kk * cc,
                    kk * cc + cc,
                ));
            }
            let (x, y) = warpd[k];
            let in_range = lo.bits <= x.bits && x.bits <= hx.bits && lo.bits <= y.bits && y.bits
                <= hy.bits;
            if in_range {
                let src = sample_pixel(data, &bkg_vec, x, y);
                let cur = read_pixel(out, k);
                let ghost srcg = src;
                let ghost curg = cur;
                let rv = func(cur, src);
                out.overwrite_pixel(k, &rv);
                valid.set_flat(k, true);
                proof {
                    assert(call_ensures(func, (curg, srcg), rv));
                    assert(rv@.len() == cc);
                    assert(out.data@.subrange(kk * cc, kk * cc + cc) =~= rv@);
                    assert(spec_merged(
                        func,
                        old_out_data.subrange(kk * cc, kk * cc + cc),
                        spec_sampled_pixel(
                            *data,
                            if bkg_opt is Some {
                                bkg_opt->Some_0
                            } else {
                                spec_zeros(data.c as int)
                            },
                            x,
                            y,
                        ),
                        out.data@.subrange(kk * cc, kk * cc + cc),
                    ));
                }
            } else {
                if has_bkg {
                    let src = copy_fx_vec(&bkg_vec);
                    let cur = read_pixel(out, k);
                    let ghost srcg = src;
                    let ghost curg = cur;
                    let rv = func(cur, src);
                    out.overwrite_pixel(k, &rv);
                    proof {
                        assert(call_ensures(func, (curg, srcg), rv));
                        assert(rv@.len() == cc);
                        assert(out.data@.subrange(kk * cc, kk * cc + cc) =~= rv@);
                        assert(spec_merged(
                            func,
                            old_out_data.subrange(kk * cc, kk * cc + cc),
                            bkg_opt->Some_0,
                            out.data@.subrange(kk * cc, kk * cc + cc),
                        ));
                    }
                } else {
                    proof {
                        assert(out.data@.subrange(kk * cc, kk * cc + cc)
                            =~= old_out_data.subrange(kk * cc, kk * cc + cc));
                    }
                }
                valid.set_flat(k, false);
            }
            proof {
                assert forall|j: int| 0 <= j < kk implies #[trigger] out.data@.subrange(
                    j * cc,
                    j * cc + cc,
                ) =~= out_before.subrange(j * cc, j * cc + cc) by {
                    lemma_cell_disjoint(j, kk, cc);
                }
                assert(spec_cell_done(
                    func,
                    *self,
                    *data,
                    bkg_opt,
                    cc,
                    old_out_data,
                    out.data@,
                    valid.data@,
                    pts_spec[kk],
                    kk,
                ));
            }
            k += 1;
        }
        Ok(())
    }

    /// Warp the source into the destination buffer with plain assignment:
    /// each visited cell is overwritten by the sampled pixel (or by the
    /// background where one is present and the warp lands out of range).
    #[verifier::rlimit(100)]
    pub fn warp_array3_into(
        &self,
        data: &Array3F,
        out: &mut Array3F,
        valid: &mut Mask2,
        points: Option<&Vec<(usize, usize)>>,
        background: Option<&Vec<Fx>>,
    ) -> (r: Result<(), WarpError>)
        requires
            data.wf(),
            old(out).wf(),
            old(valid).wf(),
            old(out).h * old(out).w <= usize::MAX,
        ensures
            final(out).h == old(out).h,
            final(out).w == old(out).w,
            final(out).c == old(out).c,
            final(out).wf(),
            final(valid).h == old(valid).h,
            final(valid).w == old(valid).w,
            final(valid).data@.len() == old(valid).data@.len(),
            final(out).data@.len() == old(out).data@.len(),
            r is Ok <==> (data.c <= MAX_CHANNELS && old(out).c <= MAX_CHANNELS && old(valid).h
                == old(out).h && old(valid).w == old(out).w && (background is Some
                ==> background->Some_0@.len() == data.c)),
            r is Err ==> *final(out) == *old(out) && *final(valid) == *old(valid),
            r is Err ==> r->Err_0 == (if data.c > MAX_CHANNELS || old(out).c > MAX_CHANNELS {
                WarpError::ChannelDepthExceeded
            } else {
                WarpError::ShapeMismatch
            }),
            r is Ok ==> spec_kernel_post_replaced(
                *self,
                *data,
                if points is Some {
                    Some(points->Some_0@)
                } else {
                    None
                },
                if background is Some {
                    Some(background->Some_0@)
                } else {
                    None
                },
                old(out).h as int,
                old(out).w as int,
                old(out).c as int,
                old(out).data@,
                final(out).data@,
                old(valid).data@,
                final(valid).data@,
            ),
    {
        let f = |dv: Vec<Fx>, sv: Vec<Fx>| -> (rv: Vec<Fx>)
            ensures
                rv@ == spec_replace(dv@, sv@),
            { replace_vals(dv, sv) };
        let r = self.warp_array3_into_func(data, out, valid, points, background, f);
        proof {
            if r is Ok {
                let pts_opt = if points is Some {
                    Some(points->Some_0@)
                } else {
                    None::<Seq<(usize, usize)>>
                };
                let bkg = if background is Some {
                    Some(background->Some_0@)
                } else {
                    None::<Seq<Fx>>
                };
                let pts = spec_dst_points(pts_opt, old(out).h as int, old(out).w as int);
                let co = old(out).c as int;
                assert forall|k: int| 0 <= k < pts.len() as int implies spec_cell_replaced(
                    *self,
                    *data,
                    bkg,
                    co,
                    old(out).data@,
                    out.data@,
                    valid.data@,
                    #[trigger] pts[k],
                    k,
                ) by {
                    assert(spec_cell_done(
                        f,
                        *self,
                        *data,
                        bkg,
                        co,
                        old(out).data@,
                        out.data@,
                        valid.data@,
                        pts[k],
                        k,
                    ));
                }
            }
        }
        r
    }

    /// Warp the source into a new buffer of shape `out_size`, returning
    /// the buffer together with the mask of cells that sampled in range.
    #[verifier::rlimit(100)]
    pub fn warp_array3(
        &self,
        data: &Array3F,
        out_size: (usize, usize),
        background: Option<&Vec<Fx>>,
    ) -> (r: Result<(Array3F, Mask2), WarpError>)
        requires
            data.wf(),
            out_size.0 * out_size.1 <= usize::MAX,
            out_size.0 * out_size.1 * data.c <= usize::MAX,
        ensures
            r is Ok <==> (data.c <= MAX_CHANNELS && (background is Some
                ==> background->Some_0@.len() == data.c)),
            r is Err ==> r->Err_0 == (if data.c > MAX_CHANNELS {
                WarpError::ChannelDepthExceeded
            } else {
                WarpError::ShapeMismatch
            }),
            r is Ok ==> ({
                let o = r->Ok_0.0;
                let v = r->Ok_0.1;
                &&& o.h == out_size.0 && o.w == out_size.1 && o.c == data.c && o.wf()
                &&& v.h == out_size.0 && v.w == out_size.1 && v.wf()
                &&& spec_kernel_post_replaced(
                    *self,
                    *data,
                    None,
                    if background is Some {
                        Some(background->Some_0@)
                    } else {
                        None
                    },
                    out_size.0 as int,
                    out_size.1 as int,
                    data.c as int,
                    spec_zeros((out_size.0 * out_size.1 * data.c) as int),
                    o.data@,
                    Seq::new((out_size.0 * out_size.1) as nat, |i: int| false),
                    v.data@,
                )
            }),
    {
        let (h, w) = out_size;
        let mut o = Array3F::zeros(h, w, data.c);
        let mut v = Mask2::new_false(h, w);
        proof {
            assert(o.data@ =~= spec_zeros((h * w * data.c) as int));
        }
        match self.warp_array3_into(data, &mut o, &mut v, None, background) {
            Ok(()) => Ok((o, v)),
            Err(e) => Err(e),
        }
    }
}

/// The byte that a fixed-point sample writes into an eight-bit plane:
/// clamped to the byte range, fractions dropped toward zero.
pub open spec fn spec_fx_to_u8(x: Fx) -> int {
    if x.bits <= 0 {
        0
    } else if x.bits >= 0xFF_0000_0000 {
        255
    } else {
        (x.bits as int) / (FX_SCALE as int)
    }
}

/// Lift an eight-bit plane onto the fixed-point grid, exactly.
pub fn u8s_to_fx(bytes: &Vec<u8>) -> (r: Vec<Fx>)
    ensures
        r@.len() == bytes@.len(),
        forall|i: int| 0 <= i < bytes@.len() ==> r@[i] == s_of_int(bytes@[i] as int),
{
    let n = bytes.len();
    let mut r: Vec<Fx> = Vec::new();
    let mut k: usize = 0;
    while k < n
        invariant
            n == bytes@.len(),
            0 <= k <= n,
            r@.len() == k as int,
            forall|i: int| 0 <= i < k as int ==> r@[i] == s_of_int(bytes@[i] as int),
        decreases n - k,
    {
        r.push(Fx::from_int(bytes[k] as i64));
        k += 1;
    }
    r
}

/// Write a fixed-point plane back to eight-bit samples, clamping each
/// value into the byte range and dropping fractions toward zero.
pub fn fx_to_u8s(vals: &Vec<Fx>) -> (r: Vec<u8>)
    ensures
        r@.len() == vals@.len(),
        forall|i: int| 0 <= i < vals@.len() ==> r@[i] as int == spec_fx_to_u8(vals@[i]),
{
    let n = vals.len();
    let mut r: Vec<u8> = Vec::new();
    let mut k: usize = 0;
    while k < n
        invariant
            n == vals@.len(),
            0 <= k <= n,
            r@.len() == k as int,
            forall|i: int| 0 <= i < k as int ==> r@[i] as int == spec_fx_to_u8(vals@[i]),
        decreases n - k,
    {
        let bits = vals[k].bits;
        let b: u8 = if bits <= 0 {
            0
        } else if bits >= 0xFF_0000_0000 {
            255
        } else {
            proof {
                assert(FX_SCALE == 0x1_0000_0000);
                vstd::arithmetic::div_mod::lemma_div_is_ordered(
                    bits as int,
                    0xFF_0000_0000,
                    FX_SCALE as int,
                );
                assert(0xFF_0000_0000int / (FX_SCALE as int) == 255);
                vstd::arithmetic::div_mod::lemma_div_is_ordered(0, bits as int, FX_SCALE as int);
            }
            ((bits as u64) / (FX_SCALE as u64)) as u8
        };
        r.push(b);
        k += 1;
    }
    r
}

} // verus!
