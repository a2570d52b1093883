//! Coordinate mapper: affine interpolation between linear ranges, the
//! screen-to-plane transform, and zoom-region derivation.

use vstd::prelude::*;
use crate::fixed::{COORD_BOUND, SCALE, div4, lemma_tdiv_exact,
    lemma_tdiv_mono, tdiv, tdiv_i128};
use crate::errors::ConfigError;

verus! {

/// A pair of fixed-point scalars: a screen position or a complex-plane
/// position, depending on context.
#[derive(Clone, Copy, Debug, PartialEq, Eq, Structural)]
pub struct Pos {
    pub x: i64,
    pub y: i64,
}

/// The rectangle of the complex plane mapped onto the render grid.
#[derive(Clone, Copy, Debug, PartialEq, Eq, Structural)]
pub struct Coordinates {
    pub re_min: i64,
    pub re_max: i64,
    pub im_min: i64,
    pub im_max: i64,
}

/// Affine interpolation of `value` from `[in_min, in_max]` to
/// `[out_min, out_max]`, on the fixed-point grid.
pub open spec fn scale_spec(value: int, in_min: int, in_max: int, out_min: int, out_max: int) -> int {
    tdiv((value - in_min) * (out_max - out_min), in_max - in_min) + out_min
}

/// The interpolation hits the endpoints exactly and never leaves the output
/// interval.
pub proof fn lemma_scale_range(value: int, in_min: int, in_max: int, out_min: int, out_max: int)
    requires
        in_min < in_max,
        in_min <= value <= in_max,
    ensures
        value == in_min ==> scale_spec(value, in_min, in_max, out_min, out_max) == out_min,
        value == in_max ==> scale_spec(value, in_min, in_max, out_min, out_max) == out_max,
        out_min <= out_max ==> out_min <= scale_spec(value, in_min, in_max, out_min, out_max) <= out_max,
        out_max <= out_min ==> out_max <= scale_spec(value, in_min, in_max, out_min, out_max) <= out_min,
{
    let dv = value - in_min;
    let din = in_max - in_min;
    let dout = out_max - out_min;
    let prod = dv * dout;
    lemma_tdiv_exact(0, din);
    lemma_tdiv_exact(dout, din);
    if dout >= 0 {
        assert(0 <= dv * dout && dv * dout <= din * dout) by (nonlinear_arith)
            requires
                0 <= dv <= din,
                0 <= dout,
        ;
        lemma_tdiv_mono(0, prod, din);
        lemma_tdiv_mono(prod, din * dout, din);
    } else {
        assert(din * dout <= dv * dout && dv * dout <= 0) by (nonlinear_arith)
            requires
                0 <= dv <= din,
                dout < 0,
        ;
        lemma_tdiv_mono(din * dout, prod, din);
        lemma_tdiv_mono(prod, 0, din);
    }
    if value == in_min {
        assert(dv * dout == 0) by (nonlinear_arith)
            requires
                dv == 0,
        ;
        assert(tdiv(0, din) == 0);
    }
    if value == in_max {
        assert(dv * dout == din * dout) by (nonlinear_arith)
            requires
                dv == din,
        ;
    }
}

/// Maps `value` linearly so that `in_min` lands on `out_min` and `in_max` on
/// `out_max`; the result stays between `out_min` and `out_max`.
pub fn scale_value(value: i64, in_min: i64, in_max: i64, out_min: i64, out_max: i64) -> (r: i64)
    requires
        in_min < in_max,
        in_min <= value <= in_max,
        -COORD_BOUND <= in_min,
        in_max <= COORD_BOUND,
        -COORD_BOUND <= out_min <= COORD_BOUND,
        -COORD_BOUND <= out_max <= COORD_BOUND,
    ensures
        r as int == scale_spec(value as int, in_min as int, in_max as int, out_min as int, out_max as int),
        value == in_min ==> r == out_min,
        value == in_max ==> r == out_max,
        out_min <= out_max ==> out_min <= r <= out_max,
        out_max <= out_min ==> out_max <= r <= out_min,
{
    let dv: i64 = value - in_min;
    let din: i64 = in_max - in_min;
    let dout: i64 = out_max - out_min;
    proof {
        assert(-((din as int) * 0x200_0000_0000) <= (dv as int) * (dout as int)
            <= (din as int) * 0x200_0000_0000
            && -0x4_0000_0000_0000_0000_0000 <= (dv as int) * (dout as int)
            <= 0x4_0000_0000_0000_0000_0000) by (nonlinear_arith)
            requires
                0 <= dv as int <= din as int <= 0x200_0000_0000,
                -0x200_0000_0000 <= dout as int <= 0x200_0000_0000,
        ;
        lemma_scale_range(value as int, in_min as int, in_max as int, out_min as int, out_max as int);
    }
    let prod: i128 = (dv as i128) * (dout as i128);
    let q: i64 = tdiv_i128(prod, din);
    q + out_min
}

impl Coordinates {
    /// A viewport is well formed when both axes span a positive range and
    /// every bound sits inside the fixed-point coordinate range.
    pub open spec fn wf(self) -> bool {
        &&& -COORD_BOUND <= self.re_min
        &&& self.re_min < self.re_max
        &&& self.re_max <= COORD_BOUND
        &&& -COORD_BOUND <= self.im_min
        &&& self.im_min < self.im_max
        &&& self.im_max <= COORD_BOUND
    }

    /// Real-axis span.
    pub open spec fn dx(self) -> int {
        self.re_max - self.re_min
    }

    /// Imaginary-axis span.
    pub open spec fn dy(self) -> int {
        self.im_max - self.im_min
    }

    /// Area of the viewport rectangle.
    pub open spec fn area(self) -> int {
        self.dx() * self.dy()
    }

    /// Real part of the plane point that a screen position lands on.
    pub open spec fn plane_x(self, pos: Pos, canvas: Pos) -> int {
        scale_spec(pos.x as int, 0, canvas.x as int, self.re_min as int, self.re_max as int)
    }

    /// Imaginary part of the plane point that a screen position lands on.
    pub open spec fn plane_y(self, pos: Pos, canvas: Pos) -> int {
        scale_spec(pos.y as int, 0, canvas.y as int, self.im_min as int, self.im_max as int)
    }

    /// The viewport that a click derives: centered on the clicked plane
    /// point, half-spans of a quarter span when zooming in and of the full
    /// span when zooming out.
    pub open spec fn zoom_spec(self, pos: Pos, canvas: Pos, zoom_in: bool) -> Coordinates {
        let mx = self.plane_x(pos, canvas);
        let my = self.plane_y(pos, canvas);
        let hx = if zoom_in { tdiv(self.dx(), 4) } else { self.dx() };
        let hy = if zoom_in { tdiv(self.dy(), 4) } else { self.dy() };
        Coordinates {
            re_min: (mx - hx) as i64,
            re_max: (mx + hx) as i64,
            im_min: (my - hy) as i64,
            im_max: (my + hy) as i64,
        }
    }

    /// Room left for the derived viewport: zooming out pushes each bound at
    /// most a full span outward, zooming in at most a quarter span.
    pub open spec fn zoom_fits(self, zoom_in: bool) -> bool {
        if zoom_in {
            &&& self.dx() >= 4
            &&& self.dy() >= 4
            &&& self.re_min - tdiv(self.dx(), 4) >= -COORD_BOUND
            &&& self.re_max + tdiv(self.dx(), 4) <= COORD_BOUND
            &&& self.im_min - tdiv(self.dy(), 4) >= -COORD_BOUND
            &&& self.im_max + tdiv(self.dy(), 4) <= COORD_BOUND
        } else {
            &&& self.re_min - self.dx() >= -COORD_BOUND
            &&& self.re_max + self.dx() <= COORD_BOUND
            &&& self.im_min - self.dy() >= -COORD_BOUND
            &&& self.im_max + self.dy() <= COORD_BOUND
        }
    }

    /// Runtime form of `wf`, for callers that receive a viewport from
    /// outside the verified boundary.
    pub fn is_wf(&self) -> (r: bool)
        ensures
            r == self.wf(),
    {
        -COORD_BOUND <= self.re_min && self.re_min < self.re_max && self.re_max <= COORD_BOUND
            && -COORD_BOUND <= self.im_min && self.im_min < self.im_max && self.im_max <= COORD_BOUND
    }

    /// Builds a viewport, rejecting one that is degenerate or out of the
    /// coordinate range.
    pub fn new(re_min: i64, re_max: i64, im_min: i64, im_max: i64) -> (r: Result<Coordinates, ConfigError>)
        ensures
            ({
                let c = Coordinates { re_min, re_max, im_min, im_max };
                match r {
                    Ok(v) => v == c && c.wf(),
                    Err(e) => !c.wf() && (e == ConfigError::DegenerateViewport
                        || e == ConfigError::CoordinateOutOfRange),
                }
            }),
    {
        if re_min >= re_max || im_min >= im_max {
            Err(ConfigError::DegenerateViewport)
        } else if re_min < -COORD_BOUND || re_max > COORD_BOUND || im_min < -COORD_BOUND
            || im_max > COORD_BOUND {
            Err(ConfigError::CoordinateOutOfRange)
        } else {
            Ok(Coordinates { re_min, re_max, im_min, im_max })
        }
    }

    /// Maps a screen position on a canvas to the plane point it covers.
    pub fn screen_to_plane(&self, pos: Pos, canvas_size: Pos) -> (r: Pos)
        requires
            self.wf(),
            0 <= pos.x <= canvas_size.x,
            0 <= pos.y <= canvas_size.y,
            0 < canvas_size.x <= COORD_BOUND,
            0 < canvas_size.y <= COORD_BOUND,
        ensures
            r.x as int == self.plane_x(pos, canvas_size),
            r.y as int == self.plane_y(pos, canvas_size),
            self.re_min <= r.x <= self.re_max,
            self.im_min <= r.y <= self.im_max,
    {
        let x = scale_value(pos.x, 0, canvas_size.x, self.re_min, self.re_max);
        let y = scale_value(pos.y, 0, canvas_size.y, self.im_min, self.im_max);
        Pos { x, y }
    }

    /// Replaces the viewport by the one a click derives: the new viewport is
    /// centered on the clicked plane point, shrunk to half span per axis when
    /// zooming in and doubled per axis when zooming out.
    pub fn calc_zoom_on_pos(&mut self, pos: Pos, canvas_size: Pos, zoom_in: bool)
        requires
            old(self).wf(),
            0 <= pos.x <= canvas_size.x,
            0 <= pos.y <= canvas_size.y,
            0 < canvas_size.x <= COORD_BOUND,
            0 < canvas_size.y <= COORD_BOUND,
            old(self).zoom_fits(zoom_in),
        ensures
            *final(self) == old(self).zoom_spec(pos, canvas_size, zoom_in),
            final(self).wf(),
            final(self).re_min + final(self).re_max == 2 * old(self).plane_x(pos, canvas_size),
            final(self).im_min + final(self).im_max == 2 * old(self).plane_y(pos, canvas_size),
    {
        let mx = scale_value(pos.x, 0, canvas_size.x, self.re_min, self.re_max);
        let my = scale_value(pos.y, 0, canvas_size.y, self.im_min, self.im_max);
        let dx: i64 = self.re_max - self.re_min;
        let dy: i64 = self.im_max - self.im_min;
        let hx: i64 = if zoom_in { div4(dx) } else { dx };
        let hy: i64 = if zoom_in { div4(dy) } else { dy };
        proof {
            if zoom_in {
                lemma_tdiv_mono(4, dx as int, 4);
                lemma_tdiv_exact(1, 4);
                lemma_tdiv_mono(4, dy as int, 4);
            }
        }
        *self = Coordinates {
            re_min: mx - hx,
            re_max: mx + hx,
            im_min: my - hy,
            im_max: my + hy,
        };
    }
}

impl Default for Coordinates {
    /// The full-set view: `re` in `[-2, 1]`, `im` in `[-1, 1]`.
    fn default() -> (c: Self)
        ensures
            c.re_min == -2 * SCALE,
            c.re_max == SCALE,
            c.im_min == -SCALE,
            c.im_max == SCALE,
            c.wf(),
    {
        Coordinates {
            re_min: -2 * SCALE,
            re_max: SCALE,
            im_min: -SCALE,
            im_max: SCALE,
        }
    }
}

/// Zooming in quarters the viewport area exactly (once the spans split
/// evenly), zooming out quadruples it exactly, and either way the derived
/// viewport is centered on the clicked plane point.
pub proof fn lemma_zoom_area(v: Coordinates, pos: Pos, canvas: Pos, zoom_in: bool)
    requires
        v.wf(),
        0 <= pos.x <= canvas.x,
        0 <= pos.y <= canvas.y,
        0 < canvas.x <= COORD_BOUND,
        0 < canvas.y <= COORD_BOUND,
        v.zoom_fits(zoom_in),
        zoom_in ==> v.dx() % 4 == 0 && v.dy() % 4 == 0,
    ensures
        zoom_in ==> 4 * v.zoom_spec(pos, canvas, zoom_in).area() == v.area(),
        !zoom_in ==> v.zoom_spec(pos, canvas, zoom_in).area() == 4 * v.area(),
        v.zoom_spec(pos, canvas, zoom_in).re_min + v.zoom_spec(pos, canvas, zoom_in).re_max
            == 2 * v.plane_x(pos, canvas),
        v.zoom_spec(pos, canvas, zoom_in).im_min + v.zoom_spec(pos, canvas, zoom_in).im_max
            == 2 * v.plane_y(pos, canvas),
{
    lemma_scale_range(pos.x as int, 0, canvas.x as int, v.re_min as int, v.re_max as int);
    lemma_scale_range(pos.y as int, 0, canvas.y as int, v.im_min as int, v.im_max as int);
    let mx = v.plane_x(pos, canvas);
    let my = v.plane_y(pos, canvas);
    let z = v.zoom_spec(pos, canvas, zoom_in);
    if zoom_in {
        let kx = v.dx() / 4;
        let ky = v.dy() / 4;
        assert(v.dx() == 4 * kx);
        assert(v.dy() == 4 * ky);
        lemma_tdiv_exact(kx, 4);
        lemma_tdiv_exact(ky, 4);
        assert(z.re_min == mx - kx && z.re_max == mx + kx);
        assert(z.im_min == my - ky && z.im_max == my + ky);
        assert(4 * ((2 * kx) * (2 * ky)) == (4 * kx) * (4 * ky)) by (nonlinear_arith);
    } else {
        assert(z.dx() == 2 * v.dx() && z.dy() == 2 * v.dy());
        assert((2 * v.dx()) * (2 * v.dy()) == 4 * (v.dx() * v.dy())) by (nonlinear_arith);
    }
}

} // verus!
