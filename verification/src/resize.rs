//! Mapping a source raster onto the configured target dimension: exact
//! stretch, centered crop-to-fill, or letterbox fit with a transparent
//! border. The resampling itself is the image library's; the geometry
//! around it is verified.

use vstd::prelude::*;

use crate::coordinate::Dimension;
use crate::frame::Frame;
use crate::frame::colors_of;
use crate::frame::rgba_bytes;
use crate::pixel::Color;

verus! {

/// How a source raster is mapped onto the target dimension.
#[derive(Clone, Copy, Debug, PartialEq, Eq, Structural)]
pub enum ResizeType {
    /// Scale preserving aspect ratio so the raster covers the target, and
    /// crop the excess, centered.
    Crop,
    /// Scale to exactly the target dimension, ignoring aspect ratio.
    Stretch,
    /// Scale preserving aspect ratio so the raster fits within the
    /// target; the unfilled border is transparent.
    Fill,
}

impl Default for ResizeType {
    /// The policy used until one is configured.
    fn default() -> (r: Self)
        ensures
            r is Stretch,
    {
        ResizeType::Stretch
    }
}

/// The resampling filters the image library offers.
#[derive(Clone, Copy, Debug, PartialEq, Eq, Structural)]
pub enum ResizeFilter {
    Nearest,
    Triangle,
    CatmullRom,
    Gaussian,
    Lanczos3,
}

/// A numeric tag telling the filters apart, used to index the named
/// resampling result.
pub open spec fn filter_code(f: ResizeFilter) -> int {
    match f {
        ResizeFilter::Nearest => 0,
        ResizeFilter::Triangle => 1,
        ResizeFilter::CatmullRom => 2,
        ResizeFilter::Gaussian => 3,
        ResizeFilter::Lanczos3 => 4,
    }
}

/// What the image library's resampler returns for the RGBA raster `data`
/// of dimensions `sw` x `sh`, resampled to `tw` x `th` with the filter
/// tagged `filter`: a fixed function of those arguments alone.
pub uninterp spec fn resampled(data: Seq<u8>, sw: int, sh: int, tw: int, th: int, filter: int) -> Seq<u8>;

/// Relies on `image::imageops::resize`: it resamples an RGBA raster to
/// exactly `tw` x `th` with the given filter, returning a buffer of
/// exactly four bytes per target cell, computed from the arguments
/// alone. (The smooth kernels run the platform's 32-bit float routines,
/// fixed functions of their arguments on any one build.) The resampler
/// first builds an intermediate raster of the source width by the target
/// height, so that product must fit a flat buffer as well, or the length
/// check inside the library panics.
#[verifier::external_body]
fn resample_rgba(data: &Vec<u8>, sw: u32, sh: u32, tw: u32, th: u32, filter: ResizeFilter) -> (r:
    Vec<u8>)
    requires
        data@.len() == 4 * (sw as int) * (sh as int),
        1 <= sw,
        1 <= sh,
        1 <= tw,
        1 <= th,
        4 * (tw as int) * (th as int) <= usize::MAX,
        4 * (sw as int) * (th as int) <= usize::MAX,
    ensures
        r@ == resampled(data@, sw as int, sh as int, tw as int, th as int, filter_code(filter)),
        r@.len() == 4 * (tw as int) * (th as int),
{
    let img = image::RgbaImage::from_raw(sw, sh, data.clone()).unwrap();
    let f = match filter {
        ResizeFilter::Nearest => image::imageops::FilterType::Nearest,
        ResizeFilter::Triangle => image::imageops::FilterType::Triangle,
        ResizeFilter::CatmullRom => image::imageops::FilterType::CatmullRom,
        ResizeFilter::Gaussian => image::imageops::FilterType::Gaussian,
        ResizeFilter::Lanczos3 => image::imageops::FilterType::Lanczos3,
    };
    image::imageops::resize(&img, tw, th, f).into_raw()
}

/// A dimension the resizer accepts as a target: positive, within the
/// image library's 32-bit range, and small enough for a flat RGBA buffer.
pub open spec fn dims_valid(d: Dimension) -> bool {
    &&& 1 <= d.width <= u32::MAX
    &&& 1 <= d.height <= u32::MAX
    &&& d.width * d.height <= usize::MAX
    &&& 4 * d.width * d.height <= usize::MAX
}

/// The nearest integer to `a / b` for positive `b`, halves rounded up,
/// as the image library rounds a scaled dimension.
pub open spec fn round_div(a: int, b: int) -> int {
    (2 * a + b) / (2 * b)
}

/// Rounding to nearest respects an upper bound on the quotient.
proof fn lemma_round_div_le(a: int, b: int, c: int)
    requires
        0 < b,
        0 <= a,
        0 <= c,
        a <= b * c,
    ensures
        round_div(a, b) <= c,
{
    assert(2 * b * c + b == c * (2 * b) + b) by (nonlinear_arith);
    assert(2 * a <= 2 * b * c) by (nonlinear_arith)
        requires
            a <= b * c,
    ;
    vstd::arithmetic::div_mod::lemma_div_is_ordered(2 * a + b, 2 * b * c + b, 2 * b);
    vstd::arithmetic::div_mod::lemma_fundamental_div_mod_converse_div(2 * b * c + b, 2 * b, c, b);
}

/// Rounding to nearest respects a lower bound on the quotient.
proof fn lemma_round_div_ge(a: int, b: int, c: int)
    requires
        0 < b,
        0 <= c,
        b * c <= a,
    ensures
        round_div(a, b) >= c,
{
    assert(2 * b * c + b == c * (2 * b) + b) by (nonlinear_arith);
    assert(2 * b * c <= 2 * a) by (nonlinear_arith)
        requires
            b * c <= a,
    ;
    vstd::arithmetic::div_mod::lemma_div_is_ordered(2 * b * c + b, 2 * a + b, 2 * b);
    vstd::arithmetic::div_mod::lemma_fundamental_div_mod_converse_div(2 * b * c + b, 2 * b, c, b);
}

/// The width of the largest aspect-preserving scaling of `sw` x `sh` that
/// fits inside `tw` x `th`: the free side is rounded to nearest, and
/// never below one pixel.
pub open spec fn fit_width(sw: int, sh: int, tw: int, th: int) -> int {
    if sw * th >= sh * tw {
        tw
    } else {
        vstd::math::max(1, round_div(sw * th, sh))
    }
}

/// The height that goes with `fit_width`.
pub open spec fn fit_height(sw: int, sh: int, tw: int, th: int) -> int {
    if sw * th >= sh * tw {
        vstd::math::max(1, round_div(sh * tw, sw))
    } else {
        th
    }
}

/// The width of the smallest aspect-preserving scaling of `sw` x `sh`
/// that covers `tw` x `th`, the free side rounded to nearest.
pub open spec fn cover_width(sw: int, sh: int, tw: int, th: int) -> int {
    if sw * th >= sh * tw {
        round_div(sw * th, sh)
    } else {
        tw
    }
}

/// The height that goes with `cover_width`.
pub open spec fn cover_height(sw: int, sh: int, tw: int, th: int) -> int {
    if sw * th >= sh * tw {
        th
    } else {
        round_div(sh * tw, sw)
    }
}

/// Whether the covering raster for a centered crop stays within the image
/// library's range and fits in a flat byte buffer. A wide source cropped
/// into a tall target (or the reverse) can ask for a covering raster
/// larger than either; such a configuration is rejected up front.
pub open spec fn crop_feasible(src: Dimension, dst: Dimension) -> bool {
    let cw = cover_width(src.width as int, src.height as int, dst.width as int, dst.height as int);
    let ch = cover_height(src.width as int, src.height as int, dst.width as int, dst.height as int);
    &&& cw <= u32::MAX
    &&& ch <= u32::MAX
    &&& 4 * cw * ch <= usize::MAX
}

/// Whether a resize under the given policy stays within the machine's
/// limits. Beside the output raster, the resampler itself builds an
/// intermediate raster of the source width by the target height, so that
/// product is bounded too; for the crop policy the target is the
/// covering raster.
pub open spec fn resize_feasible(src: Dimension, dst: Dimension, rtype: ResizeType) -> bool {
    let sw = src.width as int;
    let sh = src.height as int;
    let tw = dst.width as int;
    let th = dst.height as int;
    match rtype {
        ResizeType::Stretch => 4 * sw * th <= usize::MAX,
        ResizeType::Fill => 4 * sw * fit_height(sw, sh, tw, th) <= usize::MAX,
        ResizeType::Crop => crop_feasible(src, dst) && 4 * sw * cover_height(sw, sh, tw, th)
            <= usize::MAX,
    }
}

/// Decides `resize_feasible` for a source dimension, target dimension
/// and fit policy.
pub fn resize_feasible_check(src: Dimension, dst: Dimension, rtype: ResizeType) -> (r: bool)
    requires
        1 <= src.width <= u32::MAX,
        1 <= src.height <= u32::MAX,
        1 <= dst.width <= u32::MAX,
        1 <= dst.height <= u32::MAX,
    ensures
        r == resize_feasible(src, dst, rtype),
{
    proof {
        lemma_u32_products_fit(src.width as int, src.height as int, dst.width as int, dst.height as int);
    }
    match rtype {
        ResizeType::Stretch => {
            proof {
                assert(4 * (src.width as int) * (dst.height as int) <= u128::MAX)
                    by (nonlinear_arith)
                    requires
                        0 <= src.width <= 0xffff_ffffusize,
                        0 <= dst.height <= 0xffff_ffffusize,
                ;
            }
            let need = 4u128 * (src.width as u128) * (dst.height as u128);
            need <= usize::MAX as u128
        },
        ResizeType::Fill => {
            let (_fw, fh) = compute_fit(src.width, src.height, dst.width, dst.height);
            proof {
                assert(4 * (src.width as int) * (fh as int) <= u128::MAX) by (nonlinear_arith)
                    requires
                        0 <= src.width <= 0xffff_ffffusize,
                        0 <= fh <= 0xffff_ffffusize,
                ;
            }
            let need = 4u128 * (src.width as u128) * (fh as u128);
            need <= usize::MAX as u128
        },
        ResizeType::Crop => {
            let p = (src.width as u64) * (dst.height as u64);
            let q = (src.height as u64) * (dst.width as u64);
            let (cw, ch): (u64, u64) = if p >= q {
                (round_div_u64(p, src.height as u64), dst.height as u64)
            } else {
                (dst.width as u64, round_div_u64(q, src.width as u64))
            };
            if cw > 0xffff_ffffu64 || ch > 0xffff_ffffu64 {
                return false;
            }
            proof {
                assert(4 * (cw as int) * (ch as int) <= u128::MAX && 4 * (src.width as int) * (
                ch as int) <= u128::MAX) by (nonlinear_arith)
                    requires
                        0 <= cw <= 0xffff_ffffu64,
                        0 <= ch <= 0xffff_ffffu64,
                        0 <= src.width <= 0xffff_ffffusize,
                ;
            }
            let out_need = 4u128 * (cw as u128) * (ch as u128);
            let mid_need = 4u128 * (src.width as u128) * (ch as u128);
            out_need <= usize::MAX as u128 && mid_need <= usize::MAX as u128
        },
    }
}

/// The nearest integer to `a / b`, computed without overflow.
fn round_div_u64(a: u64, b: u64) -> (r: u64)
    requires
        1 <= b,
    ensures
        r == round_div(a as int, b as int),
{
    proof {
        assert(a <= b * a) by (nonlinear_arith)
            requires
                1 <= b,
                0 <= a,
        ;
        lemma_round_div_le(a as int, b as int, a as int);
    }
    let num = 2u128 * (a as u128) + (b as u128);
    let den = 2u128 * (b as u128);
    let r128 = num / den;
    r128 as u64
}

/// Products of values within the 32-bit range fit in 64 bits.
proof fn lemma_u32_products_fit(sw: int, sh: int, tw: int, th: int)
    requires
        0 <= sw <= u32::MAX,
        0 <= sh <= u32::MAX,
        0 <= tw <= u32::MAX,
        0 <= th <= u32::MAX,
    ensures
        0 <= sw * th <= u64::MAX,
        0 <= sh * tw <= u64::MAX,
        0 <= sw * sh <= u64::MAX,
        0 <= tw * th <= u64::MAX,
{
    assert(sw * th <= 0xffff_ffff * 0xffff_ffff && sw * th >= 0) by (nonlinear_arith)
        requires
            0 <= sw <= 0xffff_ffff,
            0 <= th <= 0xffff_ffff,
    ;
    assert(sh * tw <= 0xffff_ffff * 0xffff_ffff && sh * tw >= 0) by (nonlinear_arith)
        requires
            0 <= sh <= 0xffff_ffff,
            0 <= tw <= 0xffff_ffff,
    ;
    assert(sw * sh <= 0xffff_ffff * 0xffff_ffff && sw * sh >= 0) by (nonlinear_arith)
        requires
            0 <= sw <= 0xffff_ffff,
            0 <= sh <= 0xffff_ffff,
    ;
    assert(tw * th <= 0xffff_ffff * 0xffff_ffff && tw * th >= 0) by (nonlinear_arith)
        requires
            0 <= tw <= 0xffff_ffff,
            0 <= th <= 0xffff_ffff,
    ;
}

/// The fitted dimensions for the letterbox policy, with their bounds.
fn compute_fit(sw: usize, sh: usize, tw: usize, th: usize) -> (r: (usize, usize))
    requires
        1 <= sw <= u32::MAX,
        1 <= sh <= u32::MAX,
        1 <= tw <= u32::MAX,
        1 <= th <= u32::MAX,
    ensures
        r.0 == fit_width(sw as int, sh as int, tw as int, th as int),
        r.1 == fit_height(sw as int, sh as int, tw as int, th as int),
        1 <= r.0 <= tw,
        1 <= r.1 <= th,
{
    proof {
        lemma_u32_products_fit(sw as int, sh as int, tw as int, th as int);
    }
    let p = (sw as u64) * (th as u64);
    let q = (sh as u64) * (tw as u64);
    if p >= q {
        let fh64 = round_div_u64(q, sw as u64);
        proof {
            lemma_round_div_le(q as int, sw as int, th as int);
        }
        let fh = if fh64 == 0 {
            1
        } else {
            fh64 as usize
        };
        (tw, fh)
    } else {
        let fw64 = round_div_u64(p, sh as u64);
        proof {
            lemma_round_div_le(p as int, sh as int, tw as int);
        }
        let fw = if fw64 == 0 {
            1
        } else {
            fw64 as usize
        };
        (fw, th)
    }
}

/// The covering dimensions for the crop policy, with their bounds.
fn compute_cover(sw: usize, sh: usize, tw: usize, th: usize) -> (r: (usize, usize))
    requires
        1 <= sw <= u32::MAX,
        1 <= sh <= u32::MAX,
        1 <= tw <= u32::MAX,
        1 <= th <= u32::MAX,
        crop_feasible(
            (Dimension { width: sw, height: sh }),
            (Dimension { width: tw, height: th }),
        ),
    ensures
        r.0 == cover_width(sw as int, sh as int, tw as int, th as int),
        r.1 == cover_height(sw as int, sh as int, tw as int, th as int),
        tw <= r.0 <= u32::MAX,
        th <= r.1 <= u32::MAX,
        4 * r.0 * r.1 <= usize::MAX,
{
    proof {
        lemma_u32_products_fit(sw as int, sh as int, tw as int, th as int);
    }
    let p = (sw as u64) * (th as u64);
    let q = (sh as u64) * (tw as u64);
    if p >= q {
        let cw64 = round_div_u64(p, sh as u64);
        proof {
            lemma_round_div_ge(p as int, sh as int, tw as int);
        }
        (cw64 as usize, th)
    } else {
        let ch64 = round_div_u64(q, sw as u64);
        proof {
            lemma_round_div_ge(q as int, sw as int, th as int);
        }
        (tw, ch64 as usize)
    }
}

/// What the cell at flat index `k` of a centered crop holds.
spec fn crop_cell(src: Frame, x0: int, y0: int, tw: int, k: int) -> Color {
    src.cell(x0 + k % tw, y0 + k / tw)
}

/// The centered `tw` x `th` window of `src` whose top-left corner is
/// `(x0, y0)`.
fn crop_frame(src: &Frame, x0: usize, y0: usize, tw: usize, th: usize) -> (r: Frame)
    requires
        src.wf(),
        x0 + tw <= src.width,
        y0 + th <= src.height,
        1 <= tw,
        1 <= th,
    ensures
        r.wf(),
        r.width == tw,
        r.height == th,
        forall|x: int, y: int|
            0 <= x < tw && 0 <= y < th ==> #[trigger] r.cell(x, y) == src.cell(x0 + x, y0 + y),
{
    proof {
        assert(tw * th <= src.width * src.height && 4 * tw * th <= 4 * src.width * src.height)
            by (nonlinear_arith)
            requires
                0 <= tw <= src.width,
                0 <= th <= src.height,
        ;
    }
    let count = tw * th;
    let mut data: Vec<Color> = Vec::new();
    let mut k: usize = 0;
    while k < count
        invariant
            src.wf(),
            x0 + tw <= src.width,
            y0 + th <= src.height,
            1 <= tw,
            count == tw * th,
            k <= count,
            data@.len() == k,
            forall|j: int|
                0 <= j < k ==> data@[j] == crop_cell(*src, x0 as int, y0 as int, tw as int, j),
        decreases count - k,
    {
        proof {
            assert((k as int) / (tw as int) < th) by (nonlinear_arith)
                requires
                    0 <= k < tw * th,
                    0 < tw,
            ;
        }
        let x = k % tw;
        let y = k / tw;
        let c = src.get(x0 + x, y0 + y);
        data.push(c);
        k = k + 1;
    }
    let r = Frame { width: tw, height: th, data };
    proof {
        assert forall|x: int, y: int| 0 <= x < tw && 0 <= y < th implies #[trigger] r.cell(x, y)
            == src.cell(x0 + x, y0 + y) by {
            let j = y * tw + x;
            crate::frame::lemma_cell_index_in_range(tw as int, th as int, x, y);
            assert(j % (tw as int) == x && j / (tw as int) == y) by (nonlinear_arith)
                requires
                    0 <= x < tw,
                    0 <= y,
                    j == y * tw + x,
            ;
        }
    }
    r
}

/// What the cell at flat index `k` of a letterbox embedding holds.
spec fn embed_cell(inner: Frame, tw: int, x0: int, y0: int, k: int) -> Color {
    let x = k % tw;
    let y = k / tw;
    if x0 <= x < x0 + inner.width && y0 <= y < y0 + inner.height {
        inner.cell(x - x0, y - y0)
    } else {
        Color { r: 0u8, g: 0u8, b: 0u8, a: 0u8 }
    }
}

/// A `tw` x `th` frame holding `inner` with its top-left corner at
/// `(x0, y0)` and a fully transparent border everywhere else.
fn embed_frame(inner: &Frame, tw: usize, th: usize, x0: usize, y0: usize) -> (r: Frame)
    requires
        inner.wf(),
        x0 + inner.width <= tw,
        y0 + inner.height <= th,
        1 <= tw <= u32::MAX,
        1 <= th <= u32::MAX,
        tw * th <= usize::MAX,
        4 * tw * th <= usize::MAX,
    ensures
        r.wf(),
        r.width == tw,
        r.height == th,
        forall|x: int, y: int|
            x0 <= x < x0 + inner.width && y0 <= y < y0 + inner.height ==> #[trigger] r.cell(x, y)
                == inner.cell(x - x0, y - y0),
        forall|x: int, y: int|
            0 <= x < tw && 0 <= y < th && !(x0 <= x < x0 + inner.width && y0 <= y < y0
                + inner.height) ==> (#[trigger] r.cell(x, y)).a == 0,
{
    let count = tw * th;
    let mut data: Vec<Color> = Vec::new();
    let mut k: usize = 0;
    while k < count
        invariant
            inner.wf(),
            x0 + inner.width <= tw,
            y0 + inner.height <= th,
            1 <= tw,
            count == tw * th,
            k <= count,
            data@.len() == k,
            forall|j: int|
                0 <= j < k ==> data@[j] == embed_cell(*inner, tw as int, x0 as int, y0 as int, j),
        decreases count - k,
    {
        proof {
            assert((k as int) / (tw as int) < th) by (nonlinear_arith)
                requires
                    0 <= k < tw * th,
                    0 < tw,
            ;
        }
        let x = k % tw;
        let y = k / tw;
        let c = if x >= x0 && x < x0 + inner.width && y >= y0 && y < y0 + inner.height {
            inner.get(x - x0, y - y0)
        } else {
            Color::null()
        };
        data.push(c);
        k = k + 1;
    }
    let r = Frame { width: tw, height: th, data };
    proof {
        assert forall|x: int, y: int| 0 <= x < tw && 0 <= y < th implies #[trigger] r.cell(x, y)
            == embed_cell(*inner, tw as int, x0 as int, y0 as int, y * tw + x) && (y * tw + x) % (
        tw as int) == x && (y * tw + x) / (tw as int) == y by {
            crate::frame::lemma_cell_index_in_range(tw as int, th as int, x, y);
            assert((y * tw + x) % (tw as int) == x && (y * tw + x) / (tw as int) == y)
                by (nonlinear_arith)
                requires
                    0 <= x < tw,
                    0 <= y,
            ;
        }
    }
    r
}

/// What the resizer produces for a source raster, target dimension, fit
/// policy and filter, stated over the named resampling result.
pub open spec fn resize_ok(
    orig: Frame,
    dims: Dimension,
    rtype: ResizeType,
    filter: ResizeFilter,
    out: Frame,
) -> bool {
    let sw = orig.width as int;
    let sh = orig.height as int;
    let tw = dims.width as int;
    let th = dims.height as int;
    &&& out.width == dims.width
    &&& out.height == dims.height
    &&& match rtype {
        ResizeType::Stretch => out.data@ == colors_of(
            resampled(rgba_bytes(orig.data@), sw, sh, tw, th, filter_code(filter)),
        ),
        ResizeType::Fill => {
            let fw = fit_width(sw, sh, tw, th);
            let fh = fit_height(sw, sh, tw, th);
            let x0 = (tw - fw) / 2;
            let y0 = (th - fh) / 2;
            let inner = colors_of(
                resampled(rgba_bytes(orig.data@), sw, sh, fw, fh, filter_code(filter)),
            );
            &&& forall|x: int, y: int|
                x0 <= x < x0 + fw && y0 <= y < y0 + fh ==> #[trigger] out.cell(x, y) == inner[(y
                    - y0) * fw + (x - x0)]
            &&& forall|x: int, y: int|
                0 <= x < tw && 0 <= y < th && !(x0 <= x < x0 + fw && y0 <= y < y0 + fh) ==> (
                #[trigger] out.cell(x, y)).a == 0
        },
        ResizeType::Crop => {
            let cw = cover_width(sw, sh, tw, th);
            let ch = cover_height(sw, sh, tw, th);
            let x0 = (cw - tw) / 2;
            let y0 = (ch - th) / 2;
            let big = colors_of(
                resampled(rgba_bytes(orig.data@), sw, sh, cw, ch, filter_code(filter)),
            );
            forall|x: int, y: int|
                0 <= x < tw && 0 <= y < th ==> #[trigger] out.cell(x, y) == big[(y0 + y) * cw + (x0
                    + x)]
        },
    }
}

/// Resizes `src` to the target dimension under the given policy and
/// filter.
pub fn resize_frame(src: &Frame, dims: Dimension, rtype: ResizeType, filter: ResizeFilter) -> (r:
    Frame)
    requires
        src.wf(),
        1 <= src.width,
        1 <= src.height,
        dims_valid(dims),
        resize_feasible((Dimension { width: src.width, height: src.height }), dims, rtype),
    ensures
        r.wf(),
        resize_ok(*src, dims, rtype, filter, r),
{
    let bytes = src.to_rgba_bytes();
    proof {
        crate::frame::lemma_rgba_bytes_len(src.data@);
        assert(4 * (src.width * src.height) == 4 * src.width * src.height) by (nonlinear_arith);
    }
    match rtype {
        ResizeType::Stretch => {
            let out = resample_rgba(
                &bytes,
                src.width as u32,
                src.height as u32,
                dims.width as u32,
                dims.height as u32,
                filter,
            );
            Frame::from_rgba_bytes(&out, dims.width, dims.height)
        },
        ResizeType::Fill => {
            let (fw, fh) = compute_fit(src.width, src.height, dims.width, dims.height);
            proof {
                assert(4 * fw * fh <= 4 * dims.width * dims.height && fw * fh <= dims.width
                    * dims.height) by (nonlinear_arith)
                    requires
                        0 <= fw <= dims.width,
                        0 <= fh <= dims.height,
                ;
            }
            let out = resample_rgba(
                &bytes,
                src.width as u32,
                src.height as u32,
                fw as u32,
                fh as u32,
                filter,
            );
            let inner = Frame::from_rgba_bytes(&out, fw, fh);
            let x0 = (dims.width - fw) / 2;
            let y0 = (dims.height - fh) / 2;
            embed_frame(&inner, dims.width, dims.height, x0, y0)
        },
        ResizeType::Crop => {
            let (cw, ch) = compute_cover(src.width, src.height, dims.width, dims.height);
            proof {
                assert(cw * ch <= usize::MAX) by (nonlinear_arith)
                    requires
                        0 <= cw,
                        0 <= ch,
                        4 * cw * ch <= usize::MAX,
                ;
            }
            let out = resample_rgba(
                &bytes,
                src.width as u32,
                src.height as u32,
                cw as u32,
                ch as u32,
                filter,
            );
            let big = Frame::from_rgba_bytes(&out, cw, ch);
            let x0 = (cw - dims.width) / 2;
            let y0 = (ch - dims.height) / 2;
            crop_frame(&big, x0, y0, dims.width, dims.height)
        },
    }
}

} // verus!
