//! Fitting the normalized unit square into a frame of any size, keeping its aspect
//! ratio and centring it along the other axis (letterboxing).
use vstd::prelude::*;
use crate::geometry::{Point, Polygon, UNIT};

verus! {

/// The fit of the unit square into a frame. Every length is the field divided by
/// `den`: the rendered size of the square and its offset from the frame's corner.
#[derive(Clone, Copy, Debug, PartialEq, Eq, Structural)]
pub struct ViewportTransform {
    pub den: u128,
    pub rendered_w: u128,
    pub rendered_h: u128,
    pub offset_x: u128,
    pub offset_y: u128,
}

/// Whether the source (`sw` by `sh`) is relatively wider than the frame (`fw` by `fh`).
pub open spec fn source_wider(sw: int, sh: int, fw: int, fh: int) -> bool {
    sw * fh > fw * sh
}

/// Whether `t` fits a source of `sw` by `sh` into a frame of `fw` by `fh`.
///
/// A relatively wider source takes the frame's width, its height is that width divided
/// by the source's aspect ratio, and the band above and below is split evenly; else it
/// takes the frame's height, its width is that height times the aspect ratio, and the
/// band left and right is split evenly.
pub open spec fn fits(t: ViewportTransform, sw: int, sh: int, fw: int, fh: int) -> bool {
    &&& t.den > 0
    &&& if source_wider(sw, sh, fw, fh) {
        &&& t.rendered_w == fw * t.den
        &&& t.rendered_h * sw == fw * sh * t.den
        &&& t.offset_x == 0
        &&& 2 * t.offset_y == fh * t.den - t.rendered_h
    } else {
        &&& t.rendered_h == fh * t.den
        &&& t.rendered_w * sh == fh * sw * t.den
        &&& t.offset_y == 0
        &&& 2 * t.offset_x == fw * t.den - t.rendered_w
    }
}

/// A point in frame coordinates: `x / den`, `y / den`.
#[derive(Clone, Copy, Debug, PartialEq, Eq, Structural)]
pub struct FramePoint {
    pub x: i128,
    pub y: i128,
    pub den: u128,
}

/// Where a normalized x lands: `x * rendered_w + offset_x`, as a numerator over
/// `frame_den(t)`.
pub open spec fn frame_x(t: ViewportTransform, x: int) -> int {
    x * t.rendered_w + t.offset_x * UNIT
}

/// Where a normalized y lands, as a numerator over `frame_den(t)`.
pub open spec fn frame_y(t: ViewportTransform, y: int) -> int {
    y * t.rendered_h + t.offset_y * UNIT
}

/// The denominator of projected coordinates: normalized steps times the transform's.
pub open spec fn frame_den(t: ViewportTransform) -> int {
    UNIT * t.den
}

/// Where a normalized point lands in the frame.
pub open spec fn projected(t: ViewportTransform, p: Point) -> FramePoint {
    FramePoint {
        x: frame_x(t, p.0 as int) as i128,
        y: frame_y(t, p.1 as int) as i128,
        den: frame_den(t) as u128,
    }
}

impl ViewportTransform {
    /// Bounds that every transform made by `fit` meets.
    pub open spec fn bounded(self) -> bool {
        &&& 0 < self.den <= 0x2_0000_0000
        &&& self.rendered_w <= 0x4_0000_0000_0000_0000
        &&& self.rendered_h <= 0x4_0000_0000_0000_0000
        &&& self.offset_x <= 0x4_0000_0000_0000_0000
        &&& self.offset_y <= 0x4_0000_0000_0000_0000
    }

    /// The fit of a source of `source_w` by `source_h` into a frame of `frame_w` by
    /// `frame_h`, exact.
    pub fn fit(source_w: u32, source_h: u32, frame_w: u32, frame_h: u32) -> (t: ViewportTransform)
        requires
            source_w > 0,
            source_h > 0,
            frame_w > 0,
            frame_h > 0,
        ensures
            fits(t, source_w as int, source_h as int, frame_w as int, frame_h as int),
            t.bounded(),
    {
        let sw = source_w as u128;
        let sh = source_h as u128;
        let fw = frame_w as u128;
        let fh = frame_h as u128;
        proof {
            assert(sw * fh <= 0xffff_ffff * 0xffff_ffff) by (nonlinear_arith)
                requires sw <= 0xffff_ffff, fh <= 0xffff_ffff;
            assert(fw * sh <= 0xffff_ffff * 0xffff_ffff) by (nonlinear_arith)
                requires fw <= 0xffff_ffff, sh <= 0xffff_ffff;
            assert(fw * sw <= 0xffff_ffff * 0xffff_ffff) by (nonlinear_arith)
                requires fw <= 0xffff_ffff, sw <= 0xffff_ffff;
            assert(fh * sh <= 0xffff_ffff * 0xffff_ffff) by (nonlinear_arith)
                requires fh <= 0xffff_ffff, sh <= 0xffff_ffff;
            assert(fh * sw <= 0xffff_ffff * 0xffff_ffff) by (nonlinear_arith)
                requires fh <= 0xffff_ffff, sw <= 0xffff_ffff;
        }
        if sw * fh > fw * sh {
            let den = 2 * sw;
            let t = ViewportTransform {
                den,
                rendered_w: 2 * (fw * sw),
                rendered_h: 2 * (fw * sh),
                offset_x: 0,
                offset_y: fh * sw - fw * sh,
            };
            proof {
                assert(t.rendered_w == fw * t.den) by (nonlinear_arith)
                    requires t.rendered_w == 2 * (fw * sw), t.den == 2 * sw;
                assert(t.rendered_h * sw == fw * sh * t.den) by (nonlinear_arith)
                    requires t.rendered_h == 2 * (fw * sh), t.den == 2 * sw;
                assert(2 * t.offset_y == fh * t.den - t.rendered_h) by (nonlinear_arith)
                    requires t.offset_y == fh * sw - fw * sh, t.den == 2 * sw, t.rendered_h == 2 * (fw * sh);
            }
            t
        } else {
            let den = 2 * sh;
            let t = ViewportTransform {
                den,
                rendered_w: 2 * (fh * sw),
                rendered_h: 2 * (fh * sh),
                offset_x: fw * sh - fh * sw,
                offset_y: 0,
            };
            proof {
                assert(t.rendered_h == fh * t.den) by (nonlinear_arith)
                    requires t.rendered_h == 2 * (fh * sh), t.den == 2 * sh;
                assert(t.rendered_w * sh == fh * sw * t.den) by (nonlinear_arith)
                    requires t.rendered_w == 2 * (fh * sw), t.den == 2 * sh;
                assert(2 * t.offset_x == fw * t.den - t.rendered_w) by (nonlinear_arith)
                    requires t.offset_x == fw * sh - fh * sw, t.den == 2 * sh, t.rendered_w == 2 * (fh * sw);
            }
            t
        }
    }

    /// Maps a normalized point into the frame.
    pub fn project(&self, p: Point) -> (r: FramePoint)
        requires
            self.bounded(),
        ensures
            r == projected(*self, p),
            r.x == frame_x(*self, p.0 as int),
            r.y == frame_y(*self, p.1 as int),
            r.den == frame_den(*self),
    {
        proof {
            assert(-0x8000_0000 * 0x4_0000_0000_0000_0000 <= p.0 * self.rendered_w
                <= 0x8000_0000 * 0x4_0000_0000_0000_0000) by (nonlinear_arith)
                requires -0x8000_0000 <= p.0 <= 0x8000_0000, 0 <= self.rendered_w
                    <= 0x4_0000_0000_0000_0000;
            assert(-0x8000_0000 * 0x4_0000_0000_0000_0000 <= p.1 * self.rendered_h
                <= 0x8000_0000 * 0x4_0000_0000_0000_0000) by (nonlinear_arith)
                requires -0x8000_0000 <= p.1 <= 0x8000_0000, 0 <= self.rendered_h
                    <= 0x4_0000_0000_0000_0000;
        }
        let unit = UNIT as i128;
        assert(UNIT as u128 * self.den <= 1000000 * 0x2_0000_0000) by (nonlinear_arith)
            requires self.den <= 0x2_0000_0000, UNIT == 1000000;
        FramePoint {
            x: p.0 as i128 * self.rendered_w as i128 + self.offset_x as i128 * unit,
            y: p.1 as i128 * self.rendered_h as i128 + self.offset_y as i128 * unit,
            den: UNIT as u128 * self.den,
        }
    }

    /// Maps every point of a polygon into the frame, in order.
    pub fn project_polygon(&self, polygon: &Polygon) -> (r: Vec<FramePoint>)
        requires
            self.bounded(),
        ensures
            r@ == polygon@.map_values(|p: Point| projected(*self, p)),
    {
        let mut out: Vec<FramePoint> = Vec::new();
        let mut i: usize = 0;
        while i < polygon.0.len()
            invariant
                self.bounded(),
                i <= polygon@.len(),
                out@ =~= polygon@.take(i as int).map_values(|p: Point| projected(*self, p)),
            decreases polygon@.len() - i,
        {
            out.push(self.project(polygon.0[i]));
            assert(polygon@.take(i + 1) =~= polygon@.take(i as int).push(polygon@[i as int]));
            i = i + 1;
        }
        assert(polygon@.take(i as int) =~= polygon@);
        out
    }
}

/// When source and frame have the same aspect ratio, the square fills the frame: no
/// offset, the origin stays at the origin and the far corner `(1, 1)` lands on
/// `(frame_w, frame_h)`.
pub proof fn lemma_fit_same_aspect(t: ViewportTransform, sw: int, sh: int, fw: int, fh: int)
    requires
        sw > 0,
        sh > 0,
        fw > 0,
        fh > 0,
        fits(t, sw, sh, fw, fh),
        sw * fh == fw * sh,
    ensures
        t.offset_x == 0,
        t.offset_y == 0,
        frame_x(t, 0) == 0,
        frame_y(t, 0) == 0,
        frame_x(t, UNIT as int) == fw * frame_den(t),
        frame_y(t, UNIT as int) == fh * frame_den(t),
{
    assert(t.rendered_w == fw * t.den) by (nonlinear_arith)
        requires
            sh > 0,
            t.rendered_w * sh == fh * sw * t.den,
            sw * fh == fw * sh,
    ;
    assert(UNIT * t.rendered_w == fw * (UNIT * t.den)) by (nonlinear_arith)
        requires t.rendered_w == fw * t.den;
    assert(UNIT * t.rendered_h == fh * (UNIT * t.den)) by (nonlinear_arith)
        requires t.rendered_h == fh * t.den;
}

/// A square source in a frame twice as wide as tall is centred horizontally: a
/// positive horizontal offset, no vertical one, and a rendered width equal to the
/// frame's height.
pub proof fn lemma_fit_letterbox(t: ViewportTransform, s: int, fw: int, fh: int)
    requires
        s > 0,
        fh > 0,
        fw == 2 * fh,
        fits(t, s, s, fw, fh),
    ensures
        t.offset_x > 0,
        t.offset_y == 0,
        t.rendered_w == fh * t.den,
{
    assert(!source_wider(s, s, fw, fh)) by (nonlinear_arith)
        requires s > 0, fh > 0, fw == 2 * fh;
    assert(t.rendered_w == fh * t.den) by (nonlinear_arith)
        requires
            s > 0,
            t.rendered_w * s == fh * s * t.den,
    ;
    assert(t.offset_x > 0) by (nonlinear_arith)
        requires
            2 * t.offset_x == fw * t.den - t.rendered_w,
            t.rendered_w == fh * t.den,
            fw == 2 * fh,
            fh > 0,
            t.den > 0,
    ;
}

} // verus!
