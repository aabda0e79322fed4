//! The bounding-box fit policy: shrink-only, aspect-preserving target sizes.

use vstd::prelude::*;

verus! {

/// Interpolation filters that a resampling step may be asked to use.
#[derive(Clone, Copy, Debug, PartialEq, Eq, Structural)]
pub enum Filter {
    RobidouxFast,
    Robidoux,
    RobidouxSharp,
    Ginseng,
    GinsengSharp,
    Lanczos,
    LanczosSharp,
    Lanczos2,
    Lanczos2Sharp,
    CubicFast,
    Cubic,
    CubicSharp,
    CatmullRom,
    Mitchell,
    CubicBSpline,
    Hermite,
    Jinc,
    Triangle,
    Linear,
    Box,
    Fastest,
}

/// When a resampling step should actually resample.
#[derive(Clone, Copy, Debug, PartialEq, Eq, Structural)]
pub enum ResampleWhen {
    SizeDiffers,
    SizeDiffersOrSharpeningRequested,
    Always,
}

/// Resampling hints that travel with a constraint. They are carried through
/// untouched; the sharpening amount is kept as the bit pattern of a
/// single-precision number so that no precision is lost on the way.
#[derive(Clone, Copy, Debug, PartialEq, Eq, Structural)]
pub struct ConstraintResamplingHints {
    pub sharpen_percent_bits: Option<u32>,
    pub down_filter: Option<Filter>,
    pub up_filter: Option<Filter>,
    pub resample_when: Option<ResampleWhen>,
}

/// A bounding-box fit policy. Either side of the box may be left open.
#[derive(Clone, Copy, Debug, PartialEq, Eq, Structural)]
pub enum Constraint {
    Within { w: Option<u32>, h: Option<u32>, hints: Option<ConstraintResamplingHints> },
}

impl Constraint {
    /// The width of the box, where it has one.
    pub open spec fn width(self) -> Option<u32> {
        match self {
            Constraint::Within { w, .. } => w,
        }
    }

    /// The height of the box, where it has one.
    pub open spec fn height(self) -> Option<u32> {
        match self {
            Constraint::Within { h, .. } => h,
        }
    }

    /// The resampling hints that the constraint carries.
    pub open spec fn hints(self) -> Option<ConstraintResamplingHints> {
        match self {
            Constraint::Within { hints, .. } => hints,
        }
    }
}

/// `b_from * a_to / a_from` rounded to the nearest integer, halves upward.
/// A zero divisor gives 0 when the numerator is 0 and is unbounded otherwise,
/// which is written here as a value above every `u32`.
pub open spec fn scaled(a_from: int, a_to: int, b_from: int) -> int {
    if a_from > 0 {
        (2 * (b_from * a_to) + a_from) / (2 * a_from)
    } else if a_to > 0 && b_from > 0 {
        u32::MAX + 1
    } else {
        0
    }
}

/// The largest value a dimension can take.
pub open spec fn saturated(v: int) -> int {
    if v > u32::MAX {
        u32::MAX as int
    } else {
        v
    }
}

/// The target width and height for a frame of `old_w` by `old_h` under a box
/// of `w` by `h`.
pub open spec fn fitted(old_w: int, old_h: int, w: Option<u32>, h: Option<u32>) -> (int, int) {
    match (w, h) {
        (Some(w), None) if w < old_w => (w as int, scaled(old_w, w as int, old_h)),
        (None, Some(h)) if h < old_h => (scaled(old_h, h as int, old_w), h as int),
        (Some(w), Some(h)) if w < old_w || h < old_h => {
            if w * old_h > old_w * h {
                (scaled(old_h, h as int, old_w), h as int)
            } else {
                (w as int, scaled(old_w, w as int, old_h))
            }
        },
        _ => (old_w, old_h),
    }
}

/// Rounding is to the nearest integer: twice the distance between the result
/// and the exact quotient never exceeds one, and a half rounds upward.
pub proof fn lemma_scaled_is_nearest(a_from: int, a_to: int, b_from: int)
    requires
        a_from > 0,
        a_to >= 0,
        b_from >= 0,
    ensures
        2 * a_from * scaled(a_from, a_to, b_from) - a_from <= 2 * (b_from * a_to),
        2 * (b_from * a_to) < 2 * a_from * scaled(a_from, a_to, b_from) + a_from,
{
    let n = 2 * (b_from * a_to) + a_from;
    let d = 2 * a_from;
    vstd::arithmetic::div_mod::lemma_fundamental_div_mod(n, d);
    vstd::arithmetic::div_mod::lemma_mod_bound(n, d);
    assert(d * (n / d) == 2 * a_from * scaled(a_from, a_to, b_from)) by (nonlinear_arith)
        requires
            d == 2 * a_from,
            n / d == scaled(a_from, a_to, b_from),
    ;
}

/// Scaling down never grows the other side.
pub proof fn lemma_scaled_shrinks(a_from: int, a_to: int, b_from: int)
    requires
        0 <= a_to <= a_from,
        b_from >= 0,
    ensures
        0 <= scaled(a_from, a_to, b_from) <= b_from,
{
    if a_from > 0 {
        lemma_scaled_is_nearest(a_from, a_to, b_from);
        let r = scaled(a_from, a_to, b_from);
        assert(b_from * a_to <= b_from * a_from) by (nonlinear_arith)
            requires
                0 <= a_to <= a_from,
                b_from >= 0,
        ;
        assert(0 <= b_from * a_to) by (nonlinear_arith)
            requires
                0 <= a_to,
                b_from >= 0,
        ;
        assert(r <= b_from) by (nonlinear_arith)
            requires
                a_from > 0,
                2 * a_from * r - a_from <= 2 * (b_from * a_to),
                b_from * a_to <= b_from * a_from,
        ;
        assert(r >= 0) by (nonlinear_arith)
            requires
                a_from > 0,
                0 <= 2 * (b_from * a_to) < 2 * a_from * r + a_from,
        ;
    }
}

/// Scales `b_from` by the ratio `a_to / a_from`, rounding to the nearest
/// integer and saturating at the largest `u32`.
pub fn scale_b_to(a_from: u32, a_to: u32, b_from: u32) -> (r: u32)
    ensures
        r as int == saturated(scaled(a_from as int, a_to as int, b_from as int)),
{
    if a_from == 0 {
        if a_to > 0 && b_from > 0 {
            u32::MAX
        } else {
            0
        }
    } else {
        assert(0 <= (b_from as int) * (a_to as int) <= 0xFFFF_FFFF * 0xFFFF_FFFF) by (nonlinear_arith)
            requires
                0 <= b_from <= 0xFFFF_FFFF,
                0 <= a_to <= 0xFFFF_FFFF,
        ;
        let product: u128 = (b_from as u128) * (a_to as u128);
        let numerator: u128 = 2 * product + (a_from as u128);
        let denominator: u128 = 2 * (a_from as u128);
        let quotient: u128 = numerator / denominator;
        if quotient > 0xFFFF_FFFF {
            u32::MAX
        } else {
            quotient as u32
        }
    }
}

/// Whichever branch of the policy applies, neither side grows.
pub proof fn lemma_fitted_shrinks(old_w: int, old_h: int, w: Option<u32>, h: Option<u32>)
    requires
        old_w >= 0,
        old_h >= 0,
    ensures
        0 <= fitted(old_w, old_h, w, h).0 <= old_w,
        0 <= fitted(old_w, old_h, w, h).1 <= old_h,
{
    match (w, h) {
        (Some(w), None) => {
            if w < old_w {
                lemma_scaled_shrinks(old_w, w as int, old_h);
            }
        },
        (None, Some(h)) => {
            if h < old_h {
                lemma_scaled_shrinks(old_h, h as int, old_w);
            }
        },
        (Some(w), Some(h)) => {
            if w < old_w || h < old_h {
                if w * old_h > old_w * h {
                    assert(h < old_h) by (nonlinear_arith)
                        requires
                            w * old_h > old_w * h,
                            w < old_w || h < old_h,
                            old_w >= 0,
                            old_h >= 0,
                            w >= 0,
                            h >= 0,
                    ;
                    lemma_scaled_shrinks(old_h, h as int, old_w);
                } else {
                    assert(w < old_w || (old_w == 0 && w == 0)) by (nonlinear_arith)
                        requires
                            w * old_h <= old_w * h,
                            w < old_w || h < old_h,
                            old_w >= 0,
                            old_h >= 0,
                            w >= 0,
                            h >= 0,
                    ;
                    if w < old_w {
                        lemma_scaled_shrinks(old_w, w as int, old_h);
                    }
                }
            }
        },
        (None, None) => {},
    }
}

/// Computes the size of a frame of `old_w` by `old_h` after it has been fitted
/// into the box that `constraint` describes, and hands the constraint's hints
/// on unchanged. A side is only ever reduced; the other side follows in
/// proportion, rounded to the nearest integer.
pub fn constrain(old_w: u32, old_h: u32, constraint: Constraint) -> (r: (
    u32,
    u32,
    Option<ConstraintResamplingHints>,
))
    ensures
        (r.0 as int, r.1 as int) == fitted(
            old_w as int,
            old_h as int,
            constraint.width(),
            constraint.height(),
        ),
        r.2 == constraint.hints(),
        r.0 <= old_w,
        r.1 <= old_h,
        constraint.height() is None && constraint.width() is Some && constraint.width().unwrap()
            < old_w ==> r.0 == constraint.width().unwrap() && r.1 as int == scaled(
            old_w as int,
            r.0 as int,
            old_h as int,
        ),
        (constraint.width() is None || constraint.width().unwrap() >= old_w) && (
        constraint.height() is None || constraint.height().unwrap() >= old_h) ==> r.0 == old_w
            && r.1 == old_h,
{
    proof {
        lemma_fitted_shrinks(old_w as int, old_h as int, constraint.width(), constraint.height());
    }
    match constraint {
        Constraint::Within { w: Some(w), h: None, hints } if w < old_w => {
            proof {
                lemma_scaled_shrinks(old_w as int, w as int, old_h as int);
            }
            (w, scale_b_to(old_w, w, old_h), hints)
        },
        Constraint::Within { w: None, h: Some(h), hints } if h < old_h => {
            proof {
                lemma_scaled_shrinks(old_h as int, h as int, old_w as int);
            }
            (scale_b_to(old_h, h, old_w), h, hints)
        },
        Constraint::Within { w: Some(w), h: Some(h), hints } if w < old_w || h < old_h => {
            assert(0 <= (w as int) * (old_h as int) <= 0xFFFF_FFFF * 0xFFFF_FFFF
                && 0 <= (old_w as int) * (h as int) <= 0xFFFF_FFFF * 0xFFFF_FFFF)
                by (nonlinear_arith)
                requires
                    0 <= w <= 0xFFFF_FFFF,
                    0 <= h <= 0xFFFF_FFFF,
                    0 <= old_w <= 0xFFFF_FFFF,
                    0 <= old_h <= 0xFFFF_FFFF,
            ;
            let box_by_frame: u64 = (w as u64) * (old_h as u64);
            let frame_by_box: u64 = (old_w as u64) * (h as u64);
            if box_by_frame > frame_by_box {
                // the box is relatively wider than the frame: height binds
                (scale_b_to(old_h, h, old_w), h, hints)
            } else {
                // width binds
                (w, scale_b_to(old_w, w, old_h), hints)
            }
        },
        Constraint::Within { hints, .. } => (old_w, old_h, hints),
    }
}

/// Exchanging width and height in both the frame and the box exchanges them
/// in the result. With a box that is open on one side this holds of every
/// frame; with a closed box, of every frame that is not empty.
pub proof fn lemma_fitted_transposed(old_w: int, old_h: int, w: Option<u32>, h: Option<u32>)
    requires
        old_w >= 0,
        old_h >= 0,
        w is None || h is None || (old_w > 0 && old_h > 0),
    ensures
        fitted(old_w, old_h, w, h).0 == fitted(old_h, old_w, h, w).1,
        fitted(old_w, old_h, w, h).1 == fitted(old_h, old_w, h, w).0,
{
    match (w, h) {
        (Some(w), Some(h)) => {
            assert(w * old_h == old_h * w && old_w * h == h * old_w) by (nonlinear_arith);
            if (w < old_w || h < old_h) && w * old_h == old_w * h {
                // neither side binds more than the other: both results land on the box
                assert(w < old_w && h < old_h) by (nonlinear_arith)
                    requires
                        w * old_h == old_w * h,
                        w < old_w || h < old_h,
                        old_w > 0,
                        old_h > 0,
                        w >= 0,
                        h >= 0,
                ;
                lemma_scaled_exact(old_w, w as int, old_h, h as int);
                lemma_scaled_exact(old_h, h as int, old_w, w as int);
            }
        },
        _ => {},
    }
}

/// Where the quotient is a whole number, rounding returns it.
pub proof fn lemma_scaled_exact(a_from: int, a_to: int, b_from: int, q: int)
    requires
        a_from > 0,
        b_from * a_to == q * a_from,
    ensures
        scaled(a_from, a_to, b_from) == q,
{
    let n = 2 * (b_from * a_to) + a_from;
    let d = 2 * a_from;
    assert(n == q * d + a_from) by (nonlinear_arith)
        requires
            n == 2 * (b_from * a_to) + a_from,
            d == 2 * a_from,
            b_from * a_to == q * a_from,
    ;
    vstd::arithmetic::div_mod::lemma_fundamental_div_mod_converse(n, d, q, a_from);
}

/// Fitting is a fixed point: a size that came out of a box passes through the
/// same box unchanged.
pub proof fn lemma_fitted_idempotent(old_w: int, old_h: int, w: Option<u32>, h: Option<u32>)
    requires
        old_w >= 0,
        old_h >= 0,
    ensures
        fitted(fitted(old_w, old_h, w, h).0, fitted(old_w, old_h, w, h).1, w, h) == fitted(
            old_w,
            old_h,
            w,
            h,
        ),
{
    lemma_fitted_shrinks(old_w, old_h, w, h);
    match (w, h) {
        (Some(w), Some(h)) => {
            if w < old_w || h < old_h {
                if w * old_h > old_w * h {
                    // height bound: the new width is at most the box's
                    let r = scaled(old_h, h as int, old_w);
                    assert(old_h > 0) by (nonlinear_arith)
                        requires
                            w * old_h > old_w * h,
                            old_w >= 0,
                            old_h >= 0,
                            h >= 0,
                    ;
                    lemma_scaled_is_nearest(old_h, h as int, old_w);
                    assert(r <= w) by (nonlinear_arith)
                        requires
                            old_h > 0,
                            2 * old_h * r - old_h <= 2 * (old_w * h),
                            w * old_h > old_w * h,
                    ;
                } else {
                    if old_w > 0 {
                        let r = scaled(old_w, w as int, old_h);
                        lemma_scaled_is_nearest(old_w, w as int, old_h);
                        assert(r <= h) by (nonlinear_arith)
                            requires
                                old_w > 0,
                                2 * old_w * r - old_w <= 2 * (old_h * w),
                                w * old_h <= old_w * h,
                        ;
                    } else {
                        assert(w == 0) by (nonlinear_arith)
                            requires
                                w * old_h <= old_w * h,
                                old_w == 0,
                                h < old_h,
                                w >= 0,
                                h >= 0,
                        ;
                    }
                }
            }
        },
        _ => {},
    }
}

} // verus!
