//! A row of life icons drawn from one texture frame.

use crate::screen::blit_spec;
use crate::screen::same_shape;
use crate::screen::Screen;
use crate::texture::Texture;
use crate::types::Rect;
use crate::types::Vec2i;
use std::rc::Rc;
use vstd::prelude::*;

verus! {

/// A life counter drawn as `lives` copies of one texture frame, laid out
/// horizontally from `start` with `spacing` pixels between icon origins.
pub struct HealthStatus {
    pub image: Rc<Texture>,
    pub lives: usize,
    pub frame: Rect,
    pub start: Vec2i,
    pub spacing: i32,
}

/// The buffer after blitting the icons numbered `n` to `lives - 1`, in
/// order, each at `start + (icon index * spacing, 0)` in world space,
/// translated by the camera position (camx, camy).
pub open spec fn health_fold(
    fb: Seq<u8>,
    w: int,
    camx: int,
    camy: int,
    hs: HealthStatus,
    n: int,
) -> Seq<u8>
    decreases hs.lives - n,
{
    if 0 <= n < hs.lives {
        health_fold(
            blit_spec(
                fb,
                w,
                (*hs.image).image@,
                (*hs.image).width as int,
                hs.frame,
                hs.start.0 + n * hs.spacing - camx,
                hs.start.1 - camy,
                false,
            ),
            w,
            camx,
            camy,
            hs,
            n + 1,
        )
    } else {
        fb
    }
}

/// Drawing a life counter into a compositor target.
pub trait DrawHealthExt {
    /// Whether the target is ready to draw this counter.
    spec fn can_draw_health(&self, h: &HealthStatus) -> bool;

    /// How the target after the draw relates to the target before it.
    spec fn health_drawn(&self, h: &HealthStatus, post: &Self) -> bool;

    /// Blits one icon per remaining life, left to right.
    fn draw_health(&mut self, h: &HealthStatus)
        requires
            old(self).can_draw_health(h),
        ensures
            old(self).health_drawn(h, final(self)),
    ;
}

impl DrawHealthExt for Screen {
    /// The compositor must be well formed, the icon frame must lie inside
    /// its texture, and every icon's world x position must fit the
    /// coordinate type.
    open spec fn can_draw_health(&self, h: &HealthStatus) -> bool {
        &&& self.wf()
        &&& (*h.image).wf()
        &&& (*h.image).spec_valid_frame(h.frame)
        &&& h.lives <= i32::MAX
        &&& forall|n: int|
            0 <= n < h.lives ==> i32::MIN <= h.start.0 + #[trigger] (n * h.spacing) <= i32::MAX
    }

    /// The icons numbered 0 to `lives - 1` are composited in order.
    open spec fn health_drawn(&self, h: &HealthStatus, post: &Screen) -> bool {
        &&& post.wf()
        &&& same_shape(*self, *post)
        &&& post.framebuffer@ == health_fold(
            self.framebuffer@,
            self.width as int,
            self.position.0 as int,
            self.position.1 as int,
            *h,
            0,
        )
    }

    #[verifier::loop_isolation(false)]
    fn draw_health(&mut self, h: &HealthStatus) {
        let mut n: usize = 0;
        while n < h.lives
            invariant
                n <= h.lives,
                self.wf(),
                same_shape(*old(self), *self),
                health_fold(
                    old(self).framebuffer@,
                    old(self).width as int,
                    old(self).position.0 as int,
                    old(self).position.1 as int,
                    *h,
                    0,
                ) == health_fold(
                    self.framebuffer@,
                    old(self).width as int,
                    old(self).position.0 as int,
                    old(self).position.1 as int,
                    *h,
                    n as int,
                ),
            decreases h.lives - n,
        {
            let x = h.start.0 as i64 + (n as i64) * (h.spacing as i64);
            self.bitblt(&h.image, h.frame, Vec2i(x as i32, h.start.1), false);
            n = n + 1;
        }
    }
}

} // verus!
