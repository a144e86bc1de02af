//! Positioned, drawable visual entities referencing a texture
//! sub-rectangle.

use crate::animation::AnimationState;
use crate::screen::blit_spec;
use crate::screen::same_shape;
use crate::screen::Screen;
use crate::shared::rc_clone;
use crate::texture::Texture;
use crate::types::Effect;
use crate::types::Rect;
use crate::types::Vec2i;
use std::rc::Rc;
use vstd::prelude::*;

verus! {

/// A positioned, sized, drawable visual entity. `frame` is the source
/// sub-rectangle inside the shared texture; `position` is the world-space
/// top-left corner. Sprite pools are reused by toggling `drawable`.
pub struct Sprite {
    pub image: Rc<Texture>,
    pub frame: Rect,
    pub position: Vec2i,
    pub drawable: bool,
    pub animation: usize,
    pub animation_start: usize,
    pub animation_state: AnimationState,
    pub collision: Effect,
}

impl Sprite {
    /// Builds a sprite over a shared texture handle.
    pub fn new(
        image: &Rc<Texture>,
        frame: Rect,
        position: Vec2i,
        drawable: bool,
        animation: usize,
        animation_start: usize,
        animation_state: AnimationState,
        collision: Effect,
    ) -> (s: Sprite)
        ensures
            s.image == *image,
            s.frame == frame,
            s.position == position,
            s.drawable == drawable,
            s.animation == animation,
            s.animation_start == animation_start,
            s.animation_state == animation_state,
            s.collision == collision,
    {
        Sprite {
            image: rc_clone(image),
            frame,
            position,
            drawable,
            animation,
            animation_start,
            animation_state,
            collision,
        }
    }

    /// The sprite's width and height, as an integer offset pair.
    pub fn get_dimensions(&self) -> (d: Vec2i)
        ensures
            d.0 == self.frame.w,
            d.1 == self.frame.h,
    {
        Vec2i(self.frame.w as i32, self.frame.h as i32)
    }
}

/// Drawing sprites into a compositor target.
pub trait DrawSpriteExt {
    /// Whether the target is ready to draw this sprite.
    spec fn can_draw_sprite(&self, s: &Sprite) -> bool;

    /// How the target after the draw relates to the target before it.
    spec fn sprite_drawn(&self, s: &Sprite, post: &Self) -> bool;

    /// Draws the sprite if it is drawable, else leaves the target alone.
    fn draw_sprite(&mut self, s: &Sprite)
        requires
            old(self).can_draw_sprite(s),
        ensures
            old(self).sprite_drawn(s, final(self)),
    ;
}

impl DrawSpriteExt for Screen {
    /// The compositor must be well formed and the sprite's frame must lie
    /// inside its texture whenever the sprite can be drawn.
    open spec fn can_draw_sprite(&self, s: &Sprite) -> bool {
        &&& self.wf()
        &&& s.drawable ==> (*s.image).wf() && (*s.image).spec_valid_frame(s.frame)
    }

    /// A drawable sprite is composited at its world position with the
    /// premultiplied "over" rule; a non-drawable one changes nothing.
    open spec fn sprite_drawn(&self, s: &Sprite, post: &Screen) -> bool {
        &&& post.wf()
        &&& same_shape(*self, *post)
        &&& post.framebuffer@ == (if s.drawable {
            blit_spec(
                self.framebuffer@,
                self.width as int,
                (*s.image).image@,
                (*s.image).width as int,
                s.frame,
                s.position.0 - self.position.0,
                s.position.1 - self.position.1,
                false,
            )
        } else {
            self.framebuffer@
        })
    }

    fn draw_sprite(&mut self, s: &Sprite) {
        if s.drawable {
            self.bitblt(&s.image, s.frame, s.position, false);
        }
    }
}

} // verus!
