//! Aspect-ratio fit modes for mapping the pen area into a target rectangle.
//!
//! - [`FitMode::Fill`]: stretch to fill the target, ignoring aspect ratio.
//! - [`FitMode::Contain`]: fit the whole pen area inside the target,
//!   preserving aspect ratio (letterboxed).
//! - [`FitMode::Cover`]: cover the whole target, preserving aspect ratio
//!   (the pen area is cropped, its overflowing edges clamped to the target).
//!
//! The math is a pure function of the pen dimensions and a target rectangle.
use vstd::prelude::*;

use crate::arith::{at_least_one, at_least_zero, clamp, in_i64, tdiv};
use crate::text::{all_ascii, ascii_lower, lowercase_of, str_eq, str_to_lowercase};
use crate::arith::{lemma_tdiv_scale, lemma_div_bounds, lemma_mul_div_cancel, lemma_tdiv_monotone, lemma_tdiv_nonneg};

verus! {

/// A rectangle in the compositor's logical coordinate space.
#[derive(Debug, Clone, Copy)]
pub struct Rect {
    pub x: i64,
    pub y: i64,
    pub w: i64,
    pub h: i64,
}

/// How the pen's active area is fitted into the target rectangle.
#[derive(Debug, Clone, Copy, PartialEq, Eq, Structural)]
pub enum FitMode {
    /// Stretch to fill the target, ignoring aspect ratio.
    Fill,
    /// Fit the whole pen area inside the target, preserving aspect ratio.
    Contain,
    /// Cover the whole target, preserving aspect ratio (pen edges cropped).
    Cover,
}

impl Default for FitMode {
    fn default() -> (r: Self)
        ensures
            r == FitMode::Fill,
    {
        FitMode::Fill
    }
}

/// The rectangle as four mathematical integers `(x, y, w, h)`.
pub open spec fn rect_view(r: Rect) -> (int, int, int, int) {
    (r.x as int, r.y as int, r.w as int, r.h as int)
}

impl FitMode {
    /// Whether the target is relatively narrower than the pen area, i.e. the
    /// width is the limiting axis: `tw / th <= iw / ih`, cross-multiplied.
    pub open spec fn width_limited(in_w: int, in_h: int, tw: int, th: int) -> bool {
        tw * at_least_one(in_h) <= th * at_least_one(in_w)
    }

    /// Size `(w, h)` of the destination rectangle for a pen area of
    /// `in_w x in_h` (each raised to at least 1) and a target of `tw x th`.
    pub open spec fn extent(self, in_w: int, in_h: int, tw: int, th: int) -> (int, int) {
        let iw = at_least_one(in_w);
        let ih = at_least_one(in_h);
        let wl = Self::width_limited(in_w, in_h, tw, th);
        match self {
            FitMode::Fill => (tw, th),
            FitMode::Contain => if wl {
                (tw, tdiv(ih * tw, iw))
            } else {
                (tdiv(iw * th, ih), th)
            },
            FitMode::Cover => if wl {
                (tdiv(iw * th, ih), th)
            } else {
                (tw, tdiv(ih * tw, iw))
            },
        }
    }

    /// The destination rectangle `(x, y, w, h)`, centred on the target.
    pub open spec fn dest(self, in_w: int, in_h: int, t: Rect) -> (int, int, int, int) {
        let (ew, eh) = self.extent(in_w, in_h, t.w as int, t.h as int);
        (t.x + tdiv(t.w - ew, 2), t.y + tdiv(t.h - eh, 2), ew, eh)
    }

    /// Every intermediate value of [`FitMode::dest_rect`] fits in an `i64`
    /// (otherwise the computation would overflow).
    pub open spec fn dest_rect_defined(self, in_w: int, in_h: int, t: Rect) -> bool {
        let iw = at_least_one(in_w);
        let ih = at_least_one(in_h);
        let wl = Self::width_limited(in_w, in_h, t.w as int, t.h as int);
        let (ew, eh) = self.extent(in_w, in_h, t.w as int, t.h as int);
        &&& in_i64(t.w * ih)
        &&& in_i64(t.h * iw)
        &&& match self {
            FitMode::Fill => true,
            FitMode::Contain => if wl {
                in_i64(ih * t.w)
            } else {
                in_i64(iw * t.h)
            },
            FitMode::Cover => if wl {
                in_i64(iw * t.h)
            } else {
                in_i64(ih * t.w)
            },
        }
        &&& in_i64(t.w - ew)
        &&& in_i64(t.h - eh)
        &&& in_i64(t.x + tdiv(t.w - ew, 2))
        &&& in_i64(t.y + tdiv(t.h - eh, 2))
    }

    /// The mapped point before clamping: `d.x + x * max(d.w - 1, 0) / in_w`
    /// and likewise for `y`.
    pub open spec fn unclamped(self, x: int, y: int, in_w: int, in_h: int, t: Rect) -> (int, int) {
        let d = self.dest(in_w, in_h, t);
        (
            d.0 + tdiv(x * at_least_zero(d.2 - 1), at_least_one(in_w)),
            d.1 + tdiv(y * at_least_zero(d.3 - 1), at_least_one(in_h)),
        )
    }

    /// The point that [`FitMode::map`] returns.
    pub open spec fn mapped(self, x: int, y: int, in_w: int, in_h: int, t: Rect) -> (int, int) {
        let u = self.unclamped(x, y, in_w, in_h, t);
        (clamp(u.0, t.x as int, t.x + t.w - 1), clamp(u.1, t.y as int, t.y + t.h - 1))
    }

    /// Every intermediate value of [`FitMode::map`] fits in an `i64`, and the
    /// target is non-empty on both axes (the clamp range is not inverted).
    pub open spec fn map_defined(self, x: int, y: int, in_w: int, in_h: int, t: Rect) -> bool {
        let d = self.dest(in_w, in_h, t);
        &&& self.dest_rect_defined(in_w, in_h, t)
        &&& t.w >= 1
        &&& t.h >= 1
        &&& in_i64(t.x + t.w)
        &&& in_i64(t.y + t.h)
        &&& in_i64(d.2 - 1)
        &&& in_i64(d.3 - 1)
        &&& in_i64(x * at_least_zero(d.2 - 1))
        &&& in_i64(y * at_least_zero(d.3 - 1))
        &&& in_i64(d.0 + tdiv(x * at_least_zero(d.2 - 1), at_least_one(in_w)))
        &&& in_i64(d.1 + tdiv(y * at_least_zero(d.3 - 1), at_least_one(in_h)))
    }

    /// The effective destination rectangle that a pen area of `in_w x in_h`
    /// maps onto within target `t`, centered.
    ///
    /// For [`FitMode::Fill`] this is exactly the target. For `Contain` it is
    /// the largest aspect-preserving rectangle that fits inside the target;
    /// for `Cover`, the smallest that covers it (so it may exceed the target).
    pub fn dest_rect(&self, in_w: i64, in_h: i64, t: Rect) -> (r: Rect)
        requires
            self.dest_rect_defined(in_w as int, in_h as int, t),
        ensures
            rect_view(r) == self.dest(in_w as int, in_h as int, t),
    {
        let in_w = in_w.max(1);
        let in_h = in_h.max(1);

        // Compare pen aspect (in_w/in_h) with target aspect (t.w/t.h) via
        // cross-multiplication to stay in integer arithmetic.
        let width_limited = t.w * in_h <= t.h * in_w;
        let (ew, eh) = match self {
            FitMode::Fill => (t.w, t.h),
            // Contain shrinks to the tighter of the two axes.
            FitMode::Contain => {
                if width_limited {
                    (t.w, in_h * t.w / in_w)
                } else {
                    (in_w * t.h / in_h, t.h)
                }
            },
            // Cover grows to the looser of the two axes (opposite choice).
            FitMode::Cover => {
                if width_limited {
                    (in_w * t.h / in_h, t.h)
                } else {
                    (t.w, in_h * t.w / in_w)
                }
            },
        };

        Rect { x: t.x + (t.w - ew) / 2, y: t.y + (t.h - eh) / 2, w: ew, h: eh }
    }

    /// Map a pen point in `0..=in_*` space into the target rectangle using
    /// this fit mode, clamped to the target so the cursor never leaves it.
    pub fn map(&self, x: i64, y: i64, in_w: i64, in_h: i64, t: Rect) -> (r: (i64, i64))
        requires
            self.map_defined(x as int, y as int, in_w as int, in_h as int, t),
        ensures
            (r.0 as int, r.1 as int) == self.mapped(x as int, y as int, in_w as int, in_h as int, t),
            t.x <= r.0 < t.x + t.w,
            t.y <= r.1 < t.y + t.h,
    {
        let d = self.dest_rect(in_w, in_h, t);
        let in_w = in_w.max(1);
        let in_h = in_h.max(1);
        let out_x = d.x + x * (d.w - 1).max(0) / in_w;
        let out_y = d.y + y * (d.h - 1).max(0) / in_h;
        let lo_x = t.x;
        let hi_x = t.x + t.w - 1;
        let lo_y = t.y;
        let hi_y = t.y + t.h - 1;
        let cx = if out_x < lo_x {
            lo_x
        } else if out_x > hi_x {
            hi_x
        } else {
            out_x
        };
        let cy = if out_y < lo_y {
            lo_y
        } else if out_y > hi_y {
            hi_y
        } else {
            out_y
        };
        (cx, cy)
    }
}


/// Fill places the pen area on exactly the target rectangle.
pub proof fn lemma_fill_dest_is_target(in_w: int, in_h: int, t: Rect)
    ensures
        FitMode::Fill.dest(in_w, in_h, t) == rect_view(t),
{
}

/// Contain keeps the destination inside a target of non-negative size, with
/// the destination spanning the whole target along at least one axis.
pub proof fn lemma_contain_inside_target(in_w: int, in_h: int, t: Rect)
    requires
        t.w >= 0,
        t.h >= 0,
    ensures
        ({
            let d = FitMode::Contain.dest(in_w, in_h, t);
            &&& 0 <= d.2 <= t.w
            &&& 0 <= d.3 <= t.h
            &&& t.x <= d.0
            &&& d.0 + d.2 <= t.x + t.w
            &&& t.y <= d.1
            &&& d.1 + d.3 <= t.y + t.h
            &&& (d.2 == t.w || d.3 == t.h)
        }),
{
    let iw = at_least_one(in_w);
    let ih = at_least_one(in_h);
    let tw = t.w as int;
    let th = t.h as int;
    assert(ih * tw >= 0 && iw * th >= 0) by (nonlinear_arith)
        requires
            iw >= 1,
            ih >= 1,
            tw >= 0,
            th >= 0,
    ;
    lemma_tdiv_nonneg(ih * tw, iw);
    lemma_tdiv_nonneg(iw * th, ih);
    if FitMode::width_limited(in_w, in_h, tw, th) {
        assert(ih * tw <= th * iw) by (nonlinear_arith)
            requires
                tw * ih <= th * iw,
        ;
        lemma_div_bounds(ih * tw, th, iw);
    } else {
        assert(iw * th <= tw * ih) by (nonlinear_arith)
            requires
                tw * ih > th * iw,
        ;
        lemma_div_bounds(iw * th, tw, ih);
    }
    let d = FitMode::Contain.dest(in_w, in_h, t);
    lemma_tdiv_nonneg(tw - d.2, 2);
    lemma_tdiv_nonneg(th - d.3, 2);
}

/// Cover makes the destination cover a target of non-negative size, with the
/// destination matching the target along at least one axis.
pub proof fn lemma_cover_covers_target(in_w: int, in_h: int, t: Rect)
    requires
        t.w >= 0,
        t.h >= 0,
    ensures
        ({
            let d = FitMode::Cover.dest(in_w, in_h, t);
            &&& d.2 >= t.w
            &&& d.3 >= t.h
            &&& d.0 <= t.x
            &&& d.0 + d.2 >= t.x + t.w
            &&& d.1 <= t.y
            &&& d.1 + d.3 >= t.y + t.h
            &&& (d.2 == t.w || d.3 == t.h)
        }),
{
    let iw = at_least_one(in_w);
    let ih = at_least_one(in_h);
    let tw = t.w as int;
    let th = t.h as int;
    assert(ih * tw >= 0 && iw * th >= 0) by (nonlinear_arith)
        requires
            iw >= 1,
            ih >= 1,
            tw >= 0,
            th >= 0,
    ;
    lemma_tdiv_nonneg(ih * tw, iw);
    lemma_tdiv_nonneg(iw * th, ih);
    if FitMode::width_limited(in_w, in_h, tw, th) {
        assert(iw * th >= tw * ih) by (nonlinear_arith)
            requires
                tw * ih <= th * iw,
        ;
        lemma_div_bounds(iw * th, tw, ih);
    } else {
        assert(ih * tw >= th * iw) by (nonlinear_arith)
            requires
                tw * ih > th * iw,
        ;
        lemma_div_bounds(ih * tw, th, iw);
    }
    let d = FitMode::Cover.dest(in_w, in_h, t);
    lemma_tdiv_nonneg(d.2 - tw, 2);
    lemma_tdiv_nonneg(d.3 - th, 2);
}

/// Contain and Cover preserve the pen's aspect ratio: one side of the
/// destination equals the target's, and the other is the proportional
/// length rounded down (`in_w`/`in_h` raised to at least 1).
pub proof fn lemma_fit_preserves_aspect(mode: FitMode, in_w: int, in_h: int, t: Rect)
    requires
        mode != FitMode::Fill,
        t.w >= 0,
        t.h >= 0,
    ensures
        ({
            let d = mode.dest(in_w, in_h, t);
            let iw = at_least_one(in_w);
            let ih = at_least_one(in_h);
            ||| d.2 == t.w && d.3 * iw <= ih * t.w < (d.3 + 1) * iw
            ||| d.3 == t.h && d.2 * ih <= iw * t.h < (d.2 + 1) * ih
        }),
{
    let iw = at_least_one(in_w);
    let ih = at_least_one(in_h);
    let tw = t.w as int;
    let th = t.h as int;
    assert(ih * tw >= 0 && iw * th >= 0) by (nonlinear_arith)
        requires
            iw >= 1,
            ih >= 1,
            tw >= 0,
            th >= 0,
    ;
    lemma_tdiv_nonneg(ih * tw, iw);
    lemma_tdiv_nonneg(iw * th, ih);
    let q1 = (ih * tw) / iw;
    let q2 = (iw * th) / ih;
    assert(q1 * iw <= ih * tw < (q1 + 1) * iw) by (nonlinear_arith)
        requires
            q1 * iw <= ih * tw < q1 * iw + iw,
    ;
    assert(q2 * ih <= iw * th < (q2 + 1) * ih) by (nonlinear_arith)
        requires
            q2 * ih <= iw * th < q2 * ih + ih,
    ;
}

/// The mapped point always lies inside a non-empty target.
pub proof fn lemma_map_stays_in_target(mode: FitMode, x: int, y: int, in_w: int, in_h: int, t: Rect)
    requires
        t.w >= 1,
        t.h >= 1,
    ensures
        ({
            let p = mode.mapped(x, y, in_w, in_h, t);
            &&& t.x <= p.0 <= t.x + t.w - 1
            &&& t.y <= p.1 <= t.y + t.h - 1
        }),
{
}

/// Fill maps the pen's corners `(0, 0)` and `(in_w, in_h)` onto the target's
/// top-left and bottom-right pixels.
pub proof fn lemma_fill_maps_corners(in_w: int, in_h: int, t: Rect)
    requires
        in_w >= 1,
        in_h >= 1,
        t.w >= 1,
        t.h >= 1,
    ensures
        FitMode::Fill.mapped(0, 0, in_w, in_h, t) == (t.x as int, t.y as int),
        FitMode::Fill.mapped(in_w, in_h, in_w, in_h, t) == (t.x + t.w - 1, t.y + t.h - 1),
{
    let d = FitMode::Fill.dest(in_w, in_h, t);
    assert(d == rect_view(t));
    assert(0 * at_least_zero(t.w - 1) == 0);
    assert(0 * at_least_zero(t.h - 1) == 0);
    lemma_tdiv_nonneg(0, in_w);
    lemma_tdiv_nonneg(0, in_h);
    assert(in_w * (t.w - 1) == (t.w - 1) * in_w) by (nonlinear_arith);
    assert(in_h * (t.h - 1) == (t.h - 1) * in_h) by (nonlinear_arith);
    lemma_mul_div_cancel(t.w - 1, in_w);
    lemma_mul_div_cancel(t.h - 1, in_h);
}


/// Contain maps the pen's corners `(0, 0)` and `(in_w, in_h)` onto the
/// corners of the letterboxed destination, so the pen's whole range spans it.
pub proof fn lemma_contain_maps_corners(in_w: int, in_h: int, t: Rect)
    requires
        in_w >= 1,
        in_h >= 1,
        t.w >= 1,
        t.h >= 1,
        FitMode::Contain.dest(in_w, in_h, t).2 >= 1,
        FitMode::Contain.dest(in_w, in_h, t).3 >= 1,
    ensures
        ({
            let d = FitMode::Contain.dest(in_w, in_h, t);
            &&& FitMode::Contain.mapped(0, 0, in_w, in_h, t) == (d.0, d.1)
            &&& FitMode::Contain.mapped(in_w, in_h, in_w, in_h, t) == (d.0 + d.2 - 1, d.1 + d.3 - 1)
        }),
{
    let d = FitMode::Contain.dest(in_w, in_h, t);
    lemma_contain_inside_target(in_w, in_h, t);
    assert(0 * (d.2 - 1) == 0);
    assert(0 * (d.3 - 1) == 0);
    lemma_tdiv_nonneg(0, in_w);
    lemma_tdiv_nonneg(0, in_h);
    assert(in_w * (d.2 - 1) == (d.2 - 1) * in_w) by (nonlinear_arith);
    assert(in_h * (d.3 - 1) == (d.3 - 1) * in_h) by (nonlinear_arith);
    lemma_mul_div_cancel(d.2 - 1, in_w);
    lemma_mul_div_cancel(d.3 - 1, in_h);
}


/// The destination depends on the pen area only through its aspect ratio:
/// scaling both pen sides by the same factor gives the same rectangle.
pub proof fn lemma_dest_depends_on_aspect_only(m: FitMode, k: int, in_w: int, in_h: int, t: Rect)
    requires
        k >= 1,
        in_w >= 1,
        in_h >= 1,
    ensures
        m.dest(k * in_w, k * in_h, t) == m.dest(in_w, in_h, t),
{
    let tw = t.w as int;
    let th = t.h as int;
    assert(k * in_w >= 1 && k * in_h >= 1) by (nonlinear_arith)
        requires
            k >= 1,
            in_w >= 1,
            in_h >= 1,
    ;
    assert((tw * (k * in_h) <= th * (k * in_w)) == (tw * in_h <= th * in_w)) by (nonlinear_arith)
        requires
            k >= 1,
    ;
    assert((k * in_h) * tw == (in_h * tw) * k && k * in_w == in_w * k) by (nonlinear_arith);
    assert((k * in_w) * th == (in_w * th) * k && k * in_h == in_h * k) by (nonlinear_arith);
    lemma_tdiv_scale(in_h * tw, in_w, k);
    lemma_tdiv_scale(in_w * th, in_h, k);
}


/// Along one axis: an offset of half the destination span from a centred
/// destination start lands within 1 of the target's middle, also after
/// clamping to the target.
proof fn lemma_axis_centre(tx: int, tw: int, dw: int)
    requires
        tw >= 1,
        dw >= 0,
    ensures
        ({
            let u = tx + tdiv(tw - dw, 2) + at_least_zero(dw - 1) / 2;
            let c = clamp(u, tx, tx + tw - 1);
            &&& tx + (tw - 1) / 2 - 1 <= c <= tx + (tw - 1) / 2 + 1
        }),
{
}

/// The middle of the pen area maps within 1 of the middle of the target,
/// whatever the fit mode: every mode centres the pen area on the target.
pub proof fn lemma_pen_centre_maps_to_target_centre(m: FitMode, a: int, b: int, t: Rect)
    requires
        a >= 1,
        b >= 1,
        t.w >= 1,
        t.h >= 1,
    ensures
        ({
            let p = m.mapped(a, b, 2 * a, 2 * b, t);
            &&& t.x + (t.w - 1) / 2 - 1 <= p.0 <= t.x + (t.w - 1) / 2 + 1
            &&& t.y + (t.h - 1) / 2 - 1 <= p.1 <= t.y + (t.h - 1) / 2 + 1
        }),
{
    let d = m.dest(2 * a, 2 * b, t);
    match m {
        FitMode::Fill => {},
        FitMode::Contain => {
            lemma_contain_inside_target(2 * a, 2 * b, t);
        },
        FitMode::Cover => {
            lemma_cover_covers_target(2 * a, 2 * b, t);
        },
    }
    assert(d.2 >= 0 && d.3 >= 0);
    let kx = at_least_zero(d.2 - 1);
    let ky = at_least_zero(d.3 - 1);
    assert(a * kx == kx * a && b * ky == ky * b) by (nonlinear_arith);
    lemma_tdiv_scale(kx, 2, a);
    lemma_tdiv_scale(ky, 2, b);
    lemma_tdiv_nonneg(kx, 2);
    lemma_tdiv_nonneg(ky, 2);
    assert(2 * a == 2 * a && at_least_one(2 * a) == 2 * a);
    lemma_axis_centre(t.x as int, t.w as int, d.2);
    lemma_axis_centre(t.y as int, t.h as int, d.3);
}

/// Mapping preserves the order of pen positions along each axis.
pub proof fn lemma_map_monotone(
    mode: FitMode,
    x1: int,
    y1: int,
    x2: int,
    y2: int,
    in_w: int,
    in_h: int,
    t: Rect,
)
    requires
        x1 <= x2,
        y1 <= y2,
        t.w >= 1,
        t.h >= 1,
    ensures
        mode.mapped(x1, y1, in_w, in_h, t).0 <= mode.mapped(x2, y2, in_w, in_h, t).0,
        mode.mapped(x1, y1, in_w, in_h, t).1 <= mode.mapped(x2, y2, in_w, in_h, t).1,
{
    let d = mode.dest(in_w, in_h, t);
    let kx = at_least_zero(d.2 - 1);
    let ky = at_least_zero(d.3 - 1);
    assert(x1 * kx <= x2 * kx) by (nonlinear_arith)
        requires
            x1 <= x2,
            kx >= 0,
    ;
    assert(y1 * ky <= y2 * ky) by (nonlinear_arith)
        requires
            y1 <= y2,
            ky >= 0,
    ;
    lemma_tdiv_monotone(x1 * kx, x2 * kx, at_least_one(in_w));
    lemma_tdiv_monotone(y1 * ky, y2 * ky, at_least_one(in_h));
}


/// The canonical name of a fit mode.
pub open spec fn fit_mode_text(m: FitMode) -> Seq<char> {
    match m {
        FitMode::Fill => "fill"@,
        FitMode::Contain => "contain"@,
        FitMode::Cover => "cover"@,
    }
}

/// The fit mode that a lowercase name denotes, with the accepted aliases.
pub open spec fn fit_mode_from_lower(l: Seq<char>) -> Option<FitMode> {
    if l == "fill"@ || l == "stretch"@ {
        Some(FitMode::Fill)
    } else if l == "contain"@ || l == "fit"@ {
        Some(FitMode::Contain)
    } else if l == "cover"@ {
        Some(FitMode::Cover)
    } else {
        None
    }
}

/// The message for text that names no fit mode.
pub open spec fn fit_mode_error(s: Seq<char>) -> Seq<char> {
    "Invalid fit mode '"@ + s + "'. Valid values: fill, contain, cover"@
}

/// What parsing yields from the lowercase form `lower` of the text `s`.
pub open spec fn fit_mode_parse(lower: Seq<char>, s: Seq<char>) -> Result<FitMode, Seq<char>> {
    match fit_mode_from_lower(lower) {
        Some(m) => Ok(m),
        None => Err(fit_mode_error(s)),
    }
}

/// A parse result with the message as plain characters.
pub open spec fn fit_result_view(r: Result<FitMode, String>) -> Result<FitMode, Seq<char>> {
    match r {
        Ok(m) => Ok(m),
        Err(e) => Err(e@),
    }
}

impl FitMode {
    /// The canonical name of the mode.
    pub fn to_string(&self) -> (r: String)
        ensures
            r@ == fit_mode_text(*self),
    {
        let s = match self {
            FitMode::Fill => "fill",
            FitMode::Contain => "contain",
            FitMode::Cover => "cover",
        };
        String::from_str(s)
    }

    /// The mode named by `lower`, already in lowercase.
    pub fn from_lowercase(lower: &str) -> (r: Option<Self>)
        ensures
            r == fit_mode_from_lower(lower@),
    {
        if str_eq(lower, "fill") || str_eq(lower, "stretch") {
            Some(FitMode::Fill)
        } else if str_eq(lower, "contain") || str_eq(lower, "fit") {
            Some(FitMode::Contain)
        } else if str_eq(lower, "cover") {
            Some(FitMode::Cover)
        } else {
            None
        }
    }

    /// Parses a fit mode name, case-insensitively.
    pub fn try_from_str(s: &str) -> (r: Result<Self, String>)
        ensures
            fit_result_view(r) == fit_mode_parse(lowercase_of(s@), s@),
            all_ascii(s@) ==> fit_result_view(r) == fit_mode_parse(ascii_lower(s@), s@),
    {
        let lower = str_to_lowercase(s);
        match Self::from_lowercase(lower.as_str()) {
            Some(m) => Ok(m),
            None => {
                let mut msg = String::from_str("Invalid fit mode '");
                msg.append(s);
                msg.append("'. Valid values: fill, contain, cover");
                Err(msg)
            },
        }
    }
}

impl core::str::FromStr for FitMode {
    type Err = String;

    fn from_str(s: &str) -> (r: Result<Self, Self::Err>)
        ensures
            fit_result_view(r) == fit_mode_parse(lowercase_of(s@), s@),
            all_ascii(s@) ==> fit_result_view(r) == fit_mode_parse(ascii_lower(s@), s@),
    {
        Self::try_from_str(s)
    }
}

/// Every mode's canonical name is ASCII and lowercase, and parses back to
/// the mode.
pub proof fn lemma_fit_mode_text_roundtrip(m: FitMode)
    ensures
        all_ascii(fit_mode_text(m)),
        ascii_lower(fit_mode_text(m)) == fit_mode_text(m),
        fit_mode_parse(ascii_lower(fit_mode_text(m)), fit_mode_text(m)) == Ok::<FitMode, Seq<char>>(m),
{
    reveal_strlit("fill");
    reveal_strlit("stretch");
    reveal_strlit("contain");
    reveal_strlit("fit");
    reveal_strlit("cover");
    let t = fit_mode_text(m);
    assert(ascii_lower(t) =~= t);
    assert("fill"@[0] == 'f' && "stretch"@[0] == 's' && "contain"@[0] == 'c' && "fit"@[1] == 'i'
        && "cover"@[1] == 'o' && "contain"@[1] == 'o' && "contain"@.len() == 7 && "cover"@.len() == 5);
}

/// Every accepted spelling parses to its mode, whatever text it came from:
/// `fill` and `stretch`, `contain` and `fit`, and `cover`; no other lowercase
/// text parses.
pub proof fn lemma_fit_mode_spellings(l: Seq<char>, s: Seq<char>)
    ensures
        fit_mode_parse("fill"@, s) == Ok::<FitMode, Seq<char>>(FitMode::Fill),
        fit_mode_parse("stretch"@, s) == Ok::<FitMode, Seq<char>>(FitMode::Fill),
        fit_mode_parse("contain"@, s) == Ok::<FitMode, Seq<char>>(FitMode::Contain),
        fit_mode_parse("fit"@, s) == Ok::<FitMode, Seq<char>>(FitMode::Contain),
        fit_mode_parse("cover"@, s) == Ok::<FitMode, Seq<char>>(FitMode::Cover),
        fit_mode_parse(l, s) is Ok <==> (l == "fill"@ || l == "stretch"@ || l == "contain"@
            || l == "fit"@ || l == "cover"@),
{
    reveal_strlit("fill");
    reveal_strlit("stretch");
    reveal_strlit("contain");
    reveal_strlit("fit");
    reveal_strlit("cover");
    assert("fill"@.len() == 4 && "stretch"@.len() == 7 && "contain"@.len() == 7 && "fit"@.len() == 3
        && "cover"@.len() == 5);
    assert("stretch"@[0] == 's' && "contain"@[0] == 'c');
}

} // verus!
