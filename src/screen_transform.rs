use vstd::prelude::*;
use crate::geometry::{Vec2, Rect, UNIT, clamp32, clamp_to_i32, div_floor};

verus! {

/// Maps world space to a window of `px.0` by `px.1` pixels. The window is one
/// world unit tall; `offset` is the world point at its top-left corner.
#[derive(Clone, Copy, Debug)]
pub struct ScreenTransform {
    pub offset: Vec2,
    pub px: (u32, u32),
}

impl ScreenTransform {
    pub open spec fn wf(&self) -> bool {
        self.px.1 > 0
    }

    pub fn new(x: u32, y: u32) -> (t: ScreenTransform)
        requires
            y > 0,
        ensures
            t.wf(),
            t.px == (x, y),
            t.offset == (Vec2 { x: 0, y: 0 }),
    {
        ScreenTransform { px: (x, y), offset: Vec2::zero() }
    }

    pub fn resize(&mut self, x: u32, y: u32)
        requires
            y > 0,
        ensures
            final(self).wf(),
            final(self).px == (x, y),
            final(self).offset == old(self).offset,
    {
        self.px = (x, y);
    }

    /// Places the window so that `v` is at its centre.
    pub fn translate_center(&mut self, v: Vec2)
        requires
            old(self).wf(),
        ensures
            final(self).wf(),
            final(self).px == old(self).px,
            *final(self) == old(self).centered_on(v),
    {
        let half_w = div_floor(self.px.0 as i128 * UNIT as i128, 2 * self.px.1 as i128);
        self.offset = Vec2 {
            x: clamp_to_i32(v.x as i128 - half_w),
            y: clamp_to_i32(v.y as i128 - (UNIT / 2) as i128),
        };
    }

    pub open spec fn screen_point(&self, x: int, y: int) -> Vec2 {
        Vec2 {
            x: clamp32((x * UNIT) / (self.px.1 as int)) as i32,
            y: clamp32((y * UNIT) / (self.px.1 as int)) as i32,
        }
    }

    pub open spec fn pick_world_spec(&self, x: int, y: int) -> Vec2 {
        Vec2 {
            x: clamp32(self.screen_point(x, y).x + self.offset.x) as i32,
            y: clamp32(self.screen_point(x, y).y + self.offset.y) as i32,
        }
    }

    /// This transform with its window centred on `v`.
    pub open spec fn centered_on(&self, v: Vec2) -> ScreenTransform {
        ScreenTransform {
            offset: Vec2 {
                x: clamp32(v.x - (self.px.0 * UNIT) / (2 * self.px.1)) as i32,
                y: clamp32(v.y - UNIT / 2) as i32,
            },
            ..*self
        }
    }

    /// The world point under pixel `(x, y)`.
    pub fn pick_world(&self, x: u32, y: u32) -> (r: Vec2)
        requires
            self.wf(),
        ensures
            r == self.pick_world_spec(x as int, y as int),
    {
        let s = self.pick_screen(x, y);
        Vec2 {
            x: clamp_to_i32(s.x as i128 + self.offset.x as i128),
            y: clamp_to_i32(s.y as i128 + self.offset.y as i128),
        }
    }

    /// Pixel `(x, y)` in window space, where the window is one unit tall.
    pub fn pick_screen(&self, x: u32, y: u32) -> (r: Vec2)
        requires
            self.wf(),
        ensures
            r == self.screen_point(x as int, y as int),
    {
        let sx = div_floor(x as i128 * UNIT as i128, self.px.1 as i128);
        let sy = div_floor(y as i128 * UNIT as i128, self.px.1 as i128);
        Vec2 { x: clamp_to_i32(sx), y: clamp_to_i32(sy) }
    }

    /// World point `p` in window space.
    pub fn project_point(&self, p: Vec2) -> (r: Vec2)
        ensures
            r == (Vec2 {
                x: clamp32(p.x - self.offset.x) as i32,
                y: clamp32(p.y - self.offset.y) as i32,
            }),
    {
        Vec2 {
            x: clamp_to_i32(p.x as i128 - self.offset.x as i128),
            y: clamp_to_i32(p.y as i128 - self.offset.y as i128),
        }
    }

    /// World rectangle `r` in window space.
    pub fn project_rect(&self, r: Rect) -> (s: Rect)
        ensures
            s == (Rect {
                x: clamp32(r.x - self.offset.x) as i32,
                y: clamp32(r.y - self.offset.y) as i32,
                w: r.w,
                h: r.h,
            }),
    {
        Rect {
            x: clamp_to_i32(r.x as i128 - self.offset.x as i128),
            y: clamp_to_i32(r.y as i128 - self.offset.y as i128),
            w: r.w,
            h: r.h,
        }
    }

    /// Window-space rectangle `r` in pixels: `(x, y, w, h)`.
    pub fn to_pixels(&self, r: Rect) -> (p: (i64, i64, i64, i64))
        ensures
            p.0 == (r.x * self.px.1) / (UNIT as int),
            p.1 == (r.y * self.px.1) / (UNIT as int),
            p.2 == (r.w * self.px.1) / (UNIT as int),
            p.3 == (r.h * self.px.1) / (UNIT as int),
    {
        let h = self.px.1 as i128;
        (pixel_extent(r.x, h), pixel_extent(r.y, h), pixel_extent(r.w, h), pixel_extent(r.h, h))
    }

}

/// Length `v` in pixels, for a window `h` pixels tall.
fn pixel_extent(v: i32, h: i128) -> (r: i64)
    requires
        0 <= h <= u32::MAX,
    ensures
        r == (v * h) / (UNIT as int),
{
    assert(-0x7fff_ffff_ffff_ffff <= v * h <= 0x7fff_ffff_ffff_ffff) by (nonlinear_arith)
        requires
            -0x8000_0000 <= v <= 0x7fff_ffff,
            0 <= h <= 0xffff_ffff,
    ;
    div_floor(v as i128 * h, UNIT as i128) as i64
}

} // verus!
