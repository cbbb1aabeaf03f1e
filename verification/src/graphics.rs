//! Drawing with clipping to the panel: single pixels, filled areas and
//! clearing, as a graphics library's draw target asks for them.

use vstd::prelude::*;

use embedded_graphics_core::geometry::{Point, Size};
use embedded_graphics_core::primitives::Rectangle;

use crate::bus::{done, lemma_sequence_step, lemma_sequence_stops, sequence, then, Action, Outcome, Script};
use crate::config::Error;
use crate::driver::{pixels_buffered_out, set_pixel_out, window_fits, window_out, Panel, ILI9225};

verus! {

/// A pixel to draw: its coordinates and its raw RGB565 colour.
#[derive(Debug, Clone, Copy, PartialEq, Eq)]
pub struct RawPixel {
    pub x: i32,
    pub y: i32,
    pub color: u16,
}

/// A rectangle of pixels: its top left corner and its size.
#[derive(Debug, Clone, Copy, PartialEq, Eq)]
pub struct Rect {
    pub x: i32,
    pub y: i32,
    pub width: u32,
    pub height: u32,
}

/// The pixel `(px, py)` lies in `r`; a rectangle of zero width or height holds none.
pub open spec fn rect_contains(r: Rect, px: int, py: int) -> bool {
    &&& r.width > 0
    &&& r.height > 0
    &&& r.x <= px < r.x + r.width
    &&& r.y <= py < r.y + r.height
}

/// The bottom right corner of a non-empty rectangle can be computed in `i32`.
pub open spec fn corners_in_range(r: Rect) -> bool {
    r.width > 0 && r.height > 0 ==> {
        &&& r.width <= i32::MAX
        &&& r.height <= i32::MAX
        &&& r.x + r.width <= i32::MAX
        &&& r.y + r.height <= i32::MAX
    }
}

/// The drawable area of a panel.
pub open spec fn screen(p: Panel) -> Rect {
    Rect { x: 0, y: 0, width: p.width, height: p.height }
}

pub open spec fn min(a: int, b: int) -> int {
    if a <= b {
        a
    } else {
        b
    }
}

pub open spec fn max(a: int, b: int) -> int {
    if a >= b {
        a
    } else {
        b
    }
}

/// The two rectangles share at least one pixel.
pub open spec fn overlapping(a: Rect, b: Rect) -> bool {
    &&& a.width > 0 && a.height > 0 && b.width > 0 && b.height > 0
    &&& max(a.x as int, b.x as int) < min(a.x + a.width, b.x + b.width)
    &&& max(a.y as int, b.y as int) < min(a.y + a.height, b.y + b.height)
}

/// The rectangle of the pixels that two overlapping rectangles share.
pub open spec fn overlap(a: Rect, b: Rect) -> Rect {
    let x = max(a.x as int, b.x as int);
    let y = max(a.y as int, b.y as int);
    Rect {
        x: x as i32,
        y: y as i32,
        width: (min(a.x + a.width, b.x + b.width) - x) as u32,
        height: (min(a.y + a.height, b.y + b.height) - y) as u32,
    }
}

/// `r` holds exactly the pixels that lie in both `a` and `b`.
pub open spec fn shares_exactly(r: Rect, a: Rect, b: Rect) -> bool {
    forall|px: int, py: int|
        #![trigger rect_contains(r, px, py)]
        rect_contains(r, px, py) <==> rect_contains(a, px, py) && rect_contains(b, px, py)
}

/// The rectangle has a non-zero width and height.
pub open spec fn nonempty(r: Rect) -> bool {
    r.width > 0 && r.height > 0
}

/// The zero-sized rectangle at the origin.
pub open spec fn zero_rect() -> Rect {
    Rect { x: 0, y: 0, width: 0, height: 0 }
}

/// What `Rectangle::intersection` returns for rectangles that share no pixel:
/// the origin's zero rectangle, except that a zero-sized rectangle whose top
/// left corner lies in the other, non-empty one comes back as it is.
pub open spec fn disjoint_result(a: Rect, b: Rect) -> Rect {
    if !nonempty(a) && nonempty(b) && rect_contains(b, a.x as int, a.y as int) {
        a
    } else if nonempty(a) && !nonempty(b) && rect_contains(a, b.x as int, b.y as int) {
        b
    } else {
        zero_rect()
    }
}

/// The part of `a` that lies in `b`, as `Rectangle::intersection` gives it.
pub open spec fn clip(a: Rect, b: Rect) -> Rect {
    if overlapping(a, b) {
        overlap(a, b)
    } else {
        disjoint_result(a, b)
    }
}

/// `Rectangle::intersection` of embedded-graphics-core: the returned
/// rectangle holds exactly the pixels that lie in both. For rectangles that
/// share no pixel it is the zero rectangle at the origin, except that a
/// zero-sized rectangle whose top left corner lies in the other, non-empty
/// one is returned as it is. The bottom right corners of non-empty
/// rectangles are computed with `i32` additions that must not overflow.
#[verifier::external_body]
fn intersection(a: Rect, b: Rect) -> (r: Rect)
    requires
        corners_in_range(a),
        corners_in_range(b),
    ensures
        shares_exactly(r, a, b),
        !overlapping(a, b) ==> r == disjoint_result(a, b),
{
    let ra = Rectangle::new(Point::new(a.x, a.y), Size::new(a.width, a.height));
    let rb = Rectangle::new(Point::new(b.x, b.y), Size::new(b.width, b.height));
    let i = ra.intersection(&rb);
    Rect { x: i.top_left.x, y: i.top_left.y, width: i.size.width, height: i.size.height }
}

/// A rectangle that holds exactly the pixels that two rectangles share is
/// their overlap when they overlap, and has zero width or height otherwise.
pub proof fn lemma_intersection_shape(a: Rect, b: Rect, r: Rect)
    requires
        shares_exactly(r, a, b),
    ensures
        overlapping(a, b) ==> r == overlap(a, b),
        !overlapping(a, b) ==> r.width == 0 || r.height == 0,
{
    if overlapping(a, b) {
        let x = max(a.x as int, b.x as int);
        let y = max(a.y as int, b.y as int);
        let ex = min(a.x + a.width, b.x + b.width);
        let ey = min(a.y + a.height, b.y + b.height);
        assert(rect_contains(r, x, y));
        assert(rect_contains(r, r.x as int, r.y as int));
        assert(rect_contains(r, r.x + r.width - 1, r.y as int));
        assert(rect_contains(r, r.x as int, r.y + r.height - 1));
        assert(rect_contains(r, ex - 1, y));
        assert(rect_contains(r, x, ey - 1));
    } else if r.width > 0 && r.height > 0 {
        assert(rect_contains(r, r.x as int, r.y as int));
    }
}

/// The result of `intersection` is `clip`.
pub proof fn lemma_intersection_is_clip(a: Rect, b: Rect, r: Rect)
    requires
        shares_exactly(r, a, b),
        !overlapping(a, b) ==> r == disjoint_result(a, b),
    ensures
        r == clip(a, b),
{
    lemma_intersection_shape(a, b, r);
}

/// The pixel `(px, py)` of a panel's coordinates is on the panel, the panel's
/// size being read as `i32`.
pub open spec fn on_screen(p: Panel, x: i32, y: i32) -> bool {
    &&& x >= 0
    &&& y >= 0
    &&& x < (p.width as i32)
    &&& y < (p.height as i32)
}

/// Drawing one pixel: set when on the panel, skipped otherwise.
pub open spec fn pixel_out<S, R, T>(p: Panel, px: RawPixel) -> Outcome<S, R, T> {
    if on_screen(p, px.x, px.y) {
        set_pixel_out(p, px.x as u16, px.y as u16, px.color)
    } else {
        done(Seq::empty())
    }
}

/// Drawing pixels one after the other, up to the first that fails.
pub open spec fn draw_out<S, R, T>(p: Panel, pixels: Seq<RawPixel>) -> Outcome<S, R, T> {
    sequence(pixels.map_values(|px: RawPixel| pixel_out::<S, R, T>(p, px)))
}

/// Each pixel on the panel has an offset address that fits 16 bits.
pub open spec fn draw_fits(p: Panel, pixels: Seq<RawPixel>) -> bool {
    forall|i: int|
        0 <= i < pixels.len() && on_screen(p, #[trigger] pixels[i].x, pixels[i].y) ==> window_fits(
            p,
            pixels[i].x as u16,
            pixels[i].y as u16,
            pixels[i].x as u16,
            pixels[i].y as u16,
        )
}

/// The `k`-th pixel of `area`, row by row from the top left corner.
pub open spec fn area_point(area: Rect, k: int) -> (int, int) {
    (area.x + k % (area.width as int), area.y + k / (area.width as int))
}

/// Of the first `n` pixels of `area`, paired in order with `colors`, the
/// colours of those that lie in `drawable`.
pub open spec fn kept_colors(area: Rect, drawable: Rect, colors: Seq<u16>, n: int) -> Seq<u16>
    decreases n,
{
    if n <= 0 {
        Seq::empty()
    } else {
        let before = kept_colors(area, drawable, colors, n - 1);
        let (px, py) = area_point(area, n - 1);
        if rect_contains(drawable, px, py) {
            before.push(colors[n - 1])
        } else {
            before
        }
    }
}

/// The colours of the pixels of `area` that lie in `drawable`, the pixels of
/// `area` being paired row by row with `colors` as far as both go.
pub open spec fn area_colors(area: Rect, drawable: Rect, colors: Seq<u16>) -> Seq<u16> {
    kept_colors(area, drawable, colors, min(area.width * area.height, colors.len() as int))
}

/// The window of a non-empty drawable area, in 16-bit coordinates.
pub open spec fn fill_window(d: Rect) -> (u16, u16, u16, u16) {
    (
        d.x as u16,
        d.y as u16,
        (d.x + ((d.width - 1) as i32)) as u16,
        (d.y + ((d.height - 1) as i32)) as u16,
    )
}

/// Filling `drawable` can be done without overflow: it is empty, or it has a
/// width and a height whose far edges and offset window fit.
pub open spec fn fill_fits(p: Panel, d: Rect) -> bool {
    ||| d.width == 0 && d.height == 0
    ||| {
        &&& d.width > 0
        &&& d.height > 0
        &&& i32::MIN <= d.x + ((d.width - 1) as i32) <= i32::MAX
        &&& i32::MIN <= d.y + ((d.height - 1) as i32) <= i32::MAX
        &&& window_fits(p, fill_window(d).0, fill_window(d).1, fill_window(d).2, fill_window(d).3)
    }
}

/// Filling the drawable part of `area`: nothing when it is empty, else its
/// window, then the colours of its pixels in transfers of up to 32 bytes.
pub open spec fn fill_out<S, R, T>(p: Panel, area: Rect, d: Rect, colors: Seq<u16>) -> Outcome<
    S,
    R,
    T,
> {
    if d.width == 0 && d.height == 0 {
        done(Seq::empty())
    } else {
        then(
            window_out(p, fill_window(d).0, fill_window(d).1, fill_window(d).2, fill_window(d).3),
            pixels_buffered_out(p, area_colors(area, d, colors)),
        )
    }
}

/// The window of the whole panel, in 16-bit coordinates.
pub open spec fn clear_window(p: Panel) -> (u16, u16) {
    (((p.width as u16) - 1) as u16, ((p.height as u16) - 1) as u16)
}

/// Clearing can be done without overflow.
pub open spec fn clear_fits(p: Panel) -> bool {
    &&& (p.width as u16) >= 1
    &&& (p.height as u16) >= 1
    &&& p.width * p.height <= u32::MAX
    &&& window_fits(p, 0, 0, clear_window(p).0, clear_window(p).1)
}

/// Clearing: the whole panel as the window, then `width * height` pixels of
/// the colour in transfers of up to 32 bytes.
pub open spec fn clear_out<S, R, T>(p: Panel, color: u16) -> Outcome<S, R, T> {
    then(
        window_out(p, 0, 0, clear_window(p).0, clear_window(p).1),
        pixels_buffered_out(p, Seq::new((p.width * p.height) as nat, |i: int| color)),
    )
}

/// The pixel `(px, py)` lies in `r`.
fn contains(r: Rect, px: i64, py: i64) -> (b: bool)
    ensures
        b == rect_contains(r, px as int, py as int),
{
    r.width > 0 && r.height > 0 && (r.x as i64) <= px && px < (r.x as i64) + (r.width as i64) && (
    r.y as i64) <= py && py < (r.y as i64) + (r.height as i64)
}

/// The colours of the pixels of `area` that lie in `drawable`.
fn collect_area_colors(area: Rect, drawable: Rect, colors: &[u16]) -> (kept: Vec<u16>)
    ensures
        kept@ == area_colors(area, drawable, colors@),
{
    assert((area.width as u64) * (area.height as u64) <= u64::MAX) by (nonlinear_arith)
        requires
            area.width <= u32::MAX,
            area.height <= u32::MAX,
    ;
    let total: u64 = (area.width as u64) * (area.height as u64);
    let available: u64 = colors.len() as u64;
    let n: u64 = if total < available {
        total
    } else {
        available
    };
    let mut kept: Vec<u16> = Vec::new();
    let mut col: u64 = 0;
    let mut row: u64 = 0;
    let mut k: u64 = 0;
    while k < n
        invariant
            total == area.width * area.height,
            n == min(total as int, colors@.len() as int),
            k <= n,
            area.width > 0 ==> k == row * area.width + col && col < area.width,
            area.width > 0 ==> row <= area.height,
            kept@ == kept_colors(area, drawable, colors@, k as int),
        decreases n - k,
    {
        assert(area.width > 0 && area.height > 0) by {
            if area.width == 0 || area.height == 0 {
                assert(total == 0) by (nonlinear_arith)
                    requires
                        total == area.width * area.height,
                        area.width == 0 || area.height == 0,
                ;
            }
        }
        assert(row < area.height) by (nonlinear_arith)
            requires
                k < total,
                total == area.width * area.height,
                k == row * area.width + col,
                area.width > 0,
        ;
        proof {
            vstd::arithmetic::div_mod::lemma_fundamental_div_mod_converse(
                k as int,
                area.width as int,
                row as int,
                col as int,
            );
        }
        let px: i64 = area.x as i64 + col as i64;
        let py: i64 = area.y as i64 + row as i64;
        if contains(drawable, px, py) {
            kept.push(colors[k as usize]);
        }
        k = k + 1;
        col = col + 1;
        if col == area.width as u64 {
            col = 0;
            row = row + 1;
            assert(k == row * area.width + col) by (nonlinear_arith)
                requires
                    k == (row - 1) * area.width + area.width,
                    col == 0,
            ;
        }
    }
    kept
}

impl ILI9225 {
    /// Draws each pixel that lies on the panel, skipping the others.
    pub fn draw_iter<S, R, T>(&self, pixels: &[RawPixel], script: &mut Script) -> (r: Result<
        (),
        Error<S, R, T>,
    >)
        requires
            draw_fits(self@, pixels@),
        ensures
            final(script)@ == old(script)@ + draw_out::<S, R, T>(self@, pixels@).actions,
            r == draw_out::<S, R, T>(self@, pixels@).result,
            r is Ok,
    {
        let ghost outs = pixels@.map_values(|px: RawPixel| pixel_out::<S, R, T>(self@, px));
        let width = self.width() as i32;
        let height = self.height() as i32;
        let n = pixels.len();
        assert(outs.take(0) =~= Seq::<Outcome<S, R, T>>::empty());
        for i in 0..n
            invariant
                n == pixels@.len(),
                width == (self@.width as i32),
                height == (self@.height as i32),
                draw_fits(self@, pixels@),
                outs == pixels@.map_values(|px: RawPixel| pixel_out::<S, R, T>(self@, px)),
                sequence(outs.take(i as int)).result is Ok,
                script@ == old(script)@ + sequence(outs.take(i as int)).actions,
        {
            proof {
                lemma_sequence_step(outs, i as int);
            }
            let px = pixels[i];
            if px.x >= 0 && px.y >= 0 && px.x < width && px.y < height {
                assert(on_screen(self@, pixels@[i as int].x, pixels@[i as int].y));
                let r = self.set_pixel(px.x as u16, px.y as u16, px.color, script);
                assert(script@ =~= old(script)@ + sequence(outs.take(i + 1)).actions);
                if r.is_err() {
                    proof {
                        lemma_sequence_stops(outs, i + 1);
                    }
                    return r;
                }
            } else {
                assert(script@ =~= old(script)@ + sequence(outs.take(i + 1)).actions);
            }
        }
        assert(outs.take(n as int) =~= outs);
        Ok(())
    }

    /// Fills the drawable part `drawable` of `area`: the pixels of `area`
    /// are paired row by row with `colors`, and those in `drawable` are sent.
    pub fn fill_drawable<S, R, T>(
        &self,
        area: Rect,
        drawable: Rect,
        colors: &[u16],
        script: &mut Script,
    ) -> (r: Result<(), Error<S, R, T>>)
        requires
            fill_fits(self@, drawable),
        ensures
            final(script)@ == old(script)@ + fill_out::<S, R, T>(self@, area, drawable, colors@).actions,
            r == fill_out::<S, R, T>(self@, area, drawable, colors@).result,
            r is Ok,
    {
        if drawable.width == 0 && drawable.height == 0 {
            assert(script@ =~= old(script)@ + Seq::<Action>::empty());
            return Ok(());
        }
        let kept = collect_area_colors(area, drawable, colors);
        let sx = drawable.x as u16;
        let sy = drawable.y as u16;
        let ex = (drawable.x + (drawable.width - 1) as i32) as u16;
        let ey = (drawable.y + (drawable.height - 1) as i32) as u16;
        self.set_pixels_buffered(sx, sy, ex, ey, kept.as_slice(), script)
    }

    /// Fills the part of `area` that lies on the panel, the pixels of `area`
    /// being paired row by row with `colors`. An area that misses the panel
    /// gives `Some(Ok(()))` with nothing to do, unless the drawable part
    /// comes back with a zero width or height but not both: then, as where its
    /// window does not fit 16 bits, the result is `None` and nothing is done.
    pub fn fill_contiguous<S, R, T>(&self, area: Rect, colors: &[u16], script: &mut Script) -> (r:
        Option<Result<(), Error<S, R, T>>>)
        requires
            corners_in_range(area),
            corners_in_range(screen(self@)),
        ensures
            r is Some <==> fill_fits(self@, clip(area, screen(self@))),
            r is Some ==> r == Some(
                fill_out::<S, R, T>(self@, area, clip(area, screen(self@)), colors@).result,
            ),
            r is Some ==> final(script)@ == old(script)@ + fill_out::<S, R, T>(
                self@,
                area,
                clip(area, screen(self@)),
                colors@,
            ).actions,
            r is None ==> final(script)@ == old(script)@,
            r is Some ==> r == Some(Ok::<(), Error<S, R, T>>(())),
    {
        let whole = Rect { x: 0, y: 0, width: self.width(), height: self.height() };
        let drawable = intersection(area, whole);
        proof {
            lemma_intersection_is_clip(area, whole, drawable);
        }
        if drawable.width == 0 && drawable.height == 0 {
            return Some(Ok(()));
        }
        if drawable.width == 0 || drawable.height == 0 {
            return None;
        }
        let far_x: i64 = drawable.x as i64 + (drawable.width - 1) as i32 as i64;
        let far_y: i64 = drawable.y as i64 + (drawable.height - 1) as i32 as i64;
        if far_x < i32::MIN as i64 || far_x > i32::MAX as i64 || far_y < i32::MIN as i64 || far_y
            > i32::MAX as i64 {
            return None;
        }
        let sx = drawable.x as u16;
        let sy = drawable.y as u16;
        let ex = far_x as i32 as u16;
        let ey = far_y as i32 as u16;
        let (dx, dy) = self.offset();
        if sx as u32 + dx as u32 > u16::MAX as u32 || sy as u32 + dy as u32 > u16::MAX as u32 || ex
            as u32 + dx as u32 > u16::MAX as u32 || ey as u32 + dy as u32 > u16::MAX as u32 {
            return None;
        }
        Some(self.fill_drawable(area, drawable, colors, script))
    }

    /// Fills the whole panel with one colour.
    pub fn clear<S, R, T>(&self, color: u16, script: &mut Script) -> (r: Result<(), Error<S, R, T>>)
        requires
            clear_fits(self@),
        ensures
            final(script)@ == old(script)@ + clear_out::<S, R, T>(self@, color).actions,
            r == clear_out::<S, R, T>(self@, color).result,
            r is Ok,
    {
        let n = (self.width() * self.height()) as usize;
        let mut colors: Vec<u16> = Vec::new();
        for i in 0..n
            invariant
                colors@ =~= Seq::new(i as nat, |j: int| color),
        {
            colors.push(color);
        }
        let ex = self.width() as u16 - 1;
        let ey = self.height() as u16 - 1;
        self.set_pixels_buffered(0, 0, ex, ey, colors.as_slice(), script)
    }
}

} // verus!
