//! Fit the pen area onto the whole desktop with a chosen aspect-ratio mode.
//!
//! The pen uinput device is absolute, so the compositor stretches its axis
//! range across the whole virtual desktop. To apply a [`FitMode`] we advertise
//! axes covering the full desktop bounding box (so the compositor maps them
//! 1:1) and remap incoming pen coordinates into a fitted rectangle within it.
use vstd::prelude::*;

use crate::arith::in_i64;
use crate::fit::{fit_mode_text, FitMode, Rect};
use crate::text::{push_signed_decimal, signed_decimal};

verus! {

/// Sub-pixel precision factor applied to desktop pixel coordinates: the
/// uinput axes are advertised as `desktop_size_px * SCALE`, so one axis unit
/// is 1/SCALE of a pixel.
pub const SCALE: i64 = 16;

/// Maps orientation-transformed pen coordinates into a target rectangle within
/// the virtual desktop, applying a [`FitMode`].
#[derive(Debug, Clone)]
pub struct ScreenMap {
    /// uinput ABS_X/ABS_Y maximums (virtual desktop size in scaled units).
    pub axis_x_max: i32,
    pub axis_y_max: i32,
    /// Target rectangle in scaled units, relative to the desktop's top-left.
    pub target: Rect,
    /// How the pen area is fitted into the target.
    pub fit: FitMode,
    pub label: String,
}

/// Smallest element of a non-empty sequence.
pub open spec fn min_of(s: Seq<int>) -> int
    decreases s.len(),
{
    if s.len() <= 1 {
        s[0]
    } else {
        let m = min_of(s.drop_last());
        if s.last() < m {
            s.last()
        } else {
            m
        }
    }
}

/// Largest element of a non-empty sequence.
pub open spec fn max_of(s: Seq<int>) -> int
    decreases s.len(),
{
    if s.len() <= 1 {
        s[0]
    } else {
        let m = max_of(s.drop_last());
        if s.last() > m {
            s.last()
        } else {
            m
        }
    }
}

/// Left edges of the rectangles.
pub open spec fn lefts(r: Seq<Rect>) -> Seq<int> {
    r.map_values(|q: Rect| q.x as int)
}

/// Top edges of the rectangles.
pub open spec fn tops(r: Seq<Rect>) -> Seq<int> {
    r.map_values(|q: Rect| q.y as int)
}

/// Right edges (`x + w`) of the rectangles.
pub open spec fn rights(r: Seq<Rect>) -> Seq<int> {
    r.map_values(|q: Rect| q.x + q.w)
}

/// Bottom edges (`y + h`) of the rectangles.
pub open spec fn bottoms(r: Seq<Rect>) -> Seq<int> {
    r.map_values(|q: Rect| q.y + q.h)
}

/// Width and height of the bounding box of the rectangles.
pub open spec fn desktop_size(r: Seq<Rect>) -> (int, int) {
    (max_of(rights(r)) - min_of(lefts(r)), max_of(bottoms(r)) - min_of(tops(r)))
}

/// The computation of [`compute_desktop_map`] stays within `i64`.
pub open spec fn desktop_map_defined(r: Seq<Rect>) -> bool {
    let (w, h) = desktop_size(r);
    &&& r.len() > 0
    &&& forall|i: int| 0 <= i < r.len() ==> in_i64(#[trigger] r[i].x + r[i].w) && in_i64(r[i].y + r[i].h)
    &&& in_i64(w)
    &&& in_i64(h)
    &&& in_i64(w * SCALE)
    &&& in_i64(h * SCALE)
    &&& in_i64(w * SCALE - 1)
    &&& in_i64(h * SCALE - 1)
}

/// The label of a whole-desktop map: `whole desktop WxH (MODE fit)`.
pub open spec fn desktop_label(w: int, h: int, fit: FitMode) -> Seq<char> {
    "whole desktop "@ + signed_decimal(w) + "x"@ + signed_decimal(h) + " ("@ + fit_mode_text(fit)
        + " fit)"@
}

impl ScreenMap {
    /// Map a pen coordinate in `0..=in_max` space into the target rectangle.
    pub fn map(&self, x: i32, y: i32, in_x_max: i32, in_y_max: i32) -> (r: (i32, i32))
        requires
            self.fit.map_defined(
                x as int,
                y as int,
                in_x_max as int,
                in_y_max as int,
                self.target,
            ),
        ensures
            r == ({
                let p = self.fit.mapped(
                    x as int,
                    y as int,
                    in_x_max as int,
                    in_y_max as int,
                    self.target,
                );
                (p.0 as i32, p.1 as i32)
            }),
    {
        let (out_x, out_y) = self.fit.map(
            x as i64,
            y as i64,
            in_x_max as i64,
            in_y_max as i64,
            self.target,
        );
        (out_x as i32, out_y as i32)
    }
}

/// Lowest `x`, lowest `y`, highest `x + w` and highest `y + h` over the
/// rectangles.
fn bounding_box(rects: &[Rect]) -> (r: (i64, i64, i64, i64))
    requires
        rects@.len() > 0,
        forall|i: int|
            0 <= i < rects@.len() ==> in_i64(#[trigger] rects@[i].x + rects@[i].w) && in_i64(
                rects@[i].y + rects@[i].h,
            ),
    ensures
        r.0 == min_of(lefts(rects@)),
        r.1 == min_of(tops(rects@)),
        r.2 == max_of(rights(rects@)),
        r.3 == max_of(bottoms(rects@)),
{
    let ghost s = rects@;
    let mut min_x = rects[0].x;
    let mut min_y = rects[0].y;
    let mut max_x = rects[0].x + rects[0].w;
    let mut max_y = rects[0].y + rects[0].h;
    assert(lefts(s).take(1) == seq![s[0].x as int]);
    assert(tops(s).take(1) == seq![s[0].y as int]);
    assert(rights(s).take(1) == seq![s[0].x + s[0].w]);
    assert(bottoms(s).take(1) == seq![s[0].y + s[0].h]);
    let mut i: usize = 1;
    while i < rects.len()
        invariant
            s == rects@,
            forall|j: int|
                0 <= j < s.len() ==> in_i64(#[trigger] s[j].x + s[j].w) && in_i64(s[j].y + s[j].h),
            1 <= i <= s.len(),
            min_x == min_of(lefts(s).take(i as int)),
            min_y == min_of(tops(s).take(i as int)),
            max_x == max_of(rights(s).take(i as int)),
            max_y == max_of(bottoms(s).take(i as int)),
        decreases s.len() - i,
    {
        let r = rects[i];
        assert(in_i64(s[i as int].x + s[i as int].w) && in_i64(s[i as int].y + s[i as int].h));
        assert(lefts(s).take(i + 1).drop_last() == lefts(s).take(i as int));
        assert(tops(s).take(i + 1).drop_last() == tops(s).take(i as int));
        assert(rights(s).take(i + 1).drop_last() == rights(s).take(i as int));
        assert(bottoms(s).take(i + 1).drop_last() == bottoms(s).take(i as int));
        if r.x < min_x {
            min_x = r.x;
        }
        if r.y < min_y {
            min_y = r.y;
        }
        if r.x + r.w > max_x {
            max_x = r.x + r.w;
        }
        if r.y + r.h > max_y {
            max_y = r.y + r.h;
        }
        i = i + 1;
    }
    assert(lefts(s).take(s.len() as int) == lefts(s));
    assert(tops(s).take(s.len() as int) == tops(s));
    assert(rights(s).take(s.len() as int) == rights(s));
    assert(bottoms(s).take(s.len() as int) == bottoms(s));
    (min_x, min_y, max_x, max_y)
}

/// Build a whole-desktop mapping from logical display rectangles.
///
/// The target rectangle is the full desktop bounding box; [`FitMode`] then
/// decides how the pen area sits inside it.
pub fn compute_desktop_map(rects: &[Rect], fit: FitMode) -> (m: ScreenMap)
    requires
        desktop_map_defined(rects@),
    ensures
        ({
            let (w, h) = desktop_size(rects@);
            &&& m.axis_x_max == (w * SCALE - 1) as i32
            &&& m.axis_y_max == (h * SCALE - 1) as i32
            &&& m.target == Rect { x: 0, y: 0, w: (w * SCALE) as i64, h: (h * SCALE) as i64 }
            &&& m.fit == fit
            &&& m.label@ == desktop_label(w, h, fit)
        }),
{
    let (min_x, min_y, max_x, max_y) = bounding_box(rects);
    let w = max_x - min_x;
    let h = max_y - min_y;

    let mut label = String::from_str("whole desktop ");
    push_signed_decimal(&mut label, w);
    label.append("x");
    push_signed_decimal(&mut label, h);
    label.append(" (");
    let name = fit.to_string();
    label.append(name.as_str());
    label.append(" fit)");

    ScreenMap {
        axis_x_max: (w * SCALE - 1) as i32,
        axis_y_max: (h * SCALE - 1) as i32,
        target: Rect { x: 0, y: 0, w: w * SCALE, h: h * SCALE },
        fit,
        label,
    }
}

/// The whole-desktop mapping for a fit mode, given the displays' logical
/// rectangles: none for [`FitMode::Fill`] (the pen keeps spanning the whole
/// desktop) or when no display is known.
pub fn resolve_from_rects(fit: FitMode, rects: &[Rect]) -> (r: Option<ScreenMap>)
    requires
        rects@.len() > 0 && fit != FitMode::Fill ==> desktop_map_defined(rects@),
    ensures
        r is None <==> (fit == FitMode::Fill || rects@.len() == 0),
        r matches Some(m) ==> ({
            let (w, h) = desktop_size(rects@);
            &&& m.axis_x_max == (w * SCALE - 1) as i32
            &&& m.axis_y_max == (h * SCALE - 1) as i32
            &&& m.target == Rect { x: 0, y: 0, w: (w * SCALE) as i64, h: (h * SCALE) as i64 }
            &&& m.fit == fit
            &&& m.label@ == desktop_label(w, h, fit)
        }),
{
    if fit == FitMode::Fill {
        return None;
    }
    if rects.len() == 0 {
        return None;
    }
    Some(compute_desktop_map(rects, fit))
}


/// Whether [`compute_desktop_map`] can handle these rectangles without
/// overflowing: there is at least one, and every edge and size fits.
pub fn desktop_map_fits(rects: &[Rect]) -> (r: bool)
    ensures
        r == desktop_map_defined(rects@),
{
    if rects.len() == 0 {
        return false;
    }
    let ghost s = rects@;
    let lo: i128 = i64::MIN as i128;
    let hi: i128 = i64::MAX as i128;
    let mut i: usize = 0;
    while i < rects.len()
        invariant
            s == rects@,
            i <= s.len(),
            lo == i64::MIN,
            hi == i64::MAX,
            forall|j: int| 0 <= j < i ==> in_i64(#[trigger] s[j].x + s[j].w) && in_i64(s[j].y + s[j].h),
        decreases s.len() - i,
    {
        let r = rects[i];
        let right = r.x as i128 + r.w as i128;
        let bottom = r.y as i128 + r.h as i128;
        assert(right == s[i as int].x + s[i as int].w);
        assert(bottom == s[i as int].y + s[i as int].h);
        if right < lo || right > hi || bottom < lo || bottom > hi {
            return false;
        }
        assert(in_i64(s[i as int].x + s[i as int].w) && in_i64(s[i as int].y + s[i as int].h));
        assert forall|j: int| 0 <= j < i + 1 implies in_i64(#[trigger] s[j].x + s[j].w) && in_i64(
            s[j].y + s[j].h,
        ) by {
            if j < i {
            }
        }
        i = i + 1;
    }
    assert(s.len() > 0);
    let (min_x, min_y, max_x, max_y) = bounding_box(rects);
    let w = max_x as i128 - min_x as i128;
    let h = max_y as i128 - min_y as i128;
    if w < lo || w > hi || h < lo || h > hi {
        return false;
    }
    let ws = w * 16;
    let hs = h * 16;
    ws >= lo && ws <= hi && hs >= lo && hs <= hi && ws - 1 >= lo && hs - 1 >= lo
}

/// Every element of a non-empty sequence lies between its minimum and its
/// maximum, and both are attained.
pub proof fn lemma_min_max_bounds(s: Seq<int>)
    requires
        s.len() > 0,
    ensures
        forall|i: int| 0 <= i < s.len() ==> min_of(s) <= #[trigger] s[i] <= max_of(s),
        exists|i: int| 0 <= i < s.len() && s[i] == min_of(s),
        exists|i: int| 0 <= i < s.len() && s[i] == max_of(s),
    decreases s.len(),
{
    if s.len() > 1 {
        let p = s.drop_last();
        lemma_min_max_bounds(p);
        assert forall|i: int| 0 <= i < s.len() implies min_of(s) <= #[trigger] s[i] <= max_of(s) by {
            if i < p.len() {
                assert(s[i] == p[i]);
            }
        }
        let a = choose|i: int| 0 <= i < p.len() && p[i] == min_of(p);
        let b = choose|i: int| 0 <= i < p.len() && p[i] == max_of(p);
        assert(s[a] == p[a]);
        assert(s[b] == p[b]);
        assert(s[s.len() - 1] == s.last());
    } else {
        assert(s[0] == min_of(s));
    }
}

/// The desktop bounding box contains every display rectangle of
/// non-negative size, and touches each of its four sides.
pub proof fn lemma_desktop_box_contains_rects(rects: Seq<Rect>)
    requires
        rects.len() > 0,
    ensures
        forall|i: int|
            0 <= i < rects.len() ==> min_of(lefts(rects)) <= (#[trigger] rects[i]).x && rects[i].x
                + rects[i].w <= max_of(rights(rects)) && min_of(tops(rects)) <= rects[i].y
                && rects[i].y + rects[i].h <= max_of(bottoms(rects)),
        exists|i: int| 0 <= i < rects.len() && rects[i].x == min_of(lefts(rects)),
        exists|i: int| 0 <= i < rects.len() && rects[i].y == min_of(tops(rects)),
        exists|i: int| 0 <= i < rects.len() && rects[i].x + rects[i].w == max_of(rights(rects)),
        exists|i: int| 0 <= i < rects.len() && rects[i].y + rects[i].h == max_of(bottoms(rects)),
{
    lemma_min_max_bounds(lefts(rects));
    lemma_min_max_bounds(tops(rects));
    lemma_min_max_bounds(rights(rects));
    lemma_min_max_bounds(bottoms(rects));
    assert forall|i: int| 0 <= i < rects.len() implies min_of(lefts(rects)) <= (
    #[trigger] rects[i]).x && rects[i].x + rects[i].w <= max_of(rights(rects)) && min_of(
        tops(rects),
    ) <= rects[i].y && rects[i].y + rects[i].h <= max_of(bottoms(rects)) by {
        assert(lefts(rects)[i] == rects[i].x);
        assert(tops(rects)[i] == rects[i].y);
        assert(rights(rects)[i] == rects[i].x + rects[i].w);
        assert(bottoms(rects)[i] == rects[i].y + rects[i].h);
    }
    let a = choose|i: int| 0 <= i < lefts(rects).len() && lefts(rects)[i] == min_of(lefts(rects));
    assert(rects[a].x == min_of(lefts(rects)));
    let b = choose|i: int| 0 <= i < tops(rects).len() && tops(rects)[i] == min_of(tops(rects));
    assert(rects[b].y == min_of(tops(rects)));
    let c = choose|i: int| 0 <= i < rights(rects).len() && rights(rects)[i] == max_of(rights(rects));
    assert(rects[c].x + rects[c].w == max_of(rights(rects)));
    let d = choose|i: int|
        0 <= i < bottoms(rects).len() && bottoms(rects)[i] == max_of(bottoms(rects));
    assert(rects[d].y + rects[d].h == max_of(bottoms(rects)));
}

} // verus!
