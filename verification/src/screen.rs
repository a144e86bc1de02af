//! A camera-relative compositor over a raw RGBA8 output buffer, offering
//! pixel-exact primitive draws.
//!
//! All draw calls take world-space coordinates and subtract the camera
//! `position` to get buffer-local coordinates, so tilemaps and sprites can be
//! authored in one world coordinate space while the camera pans.

use crate::texture::Texture;
use crate::types::Rect;
use crate::types::Rgba;
use crate::types::Vec2i;
use vstd::arithmetic::div_mod::lemma_fundamental_div_mod;
use vstd::arithmetic::div_mod::lemma_fundamental_div_mod_converse;
use vstd::arithmetic::div_mod::lemma_div_pos_is_pos;
use vstd::arithmetic::div_mod::lemma_mod_pos_bound;
use vstd::pervasive::VecAdditionalExecFns;
use vstd::prelude::*;

verus! {

/// A camera-relative view over a raw output pixel buffer.
pub struct Screen {
    pub framebuffer: Vec<u8>,
    pub width: usize,
    pub height: usize,
    pub depth: usize,
    pub position: Vec2i,
}

/// Channel `k` (0 red, 1 green, 2 blue, 3 alpha) of a color.
pub open spec fn rgba_channel(col: Rgba, k: int) -> u8 {
    if k == 0 {
        col.0
    } else if k == 1 {
        col.1
    } else if k == 2 {
        col.2
    } else {
        col.3
    }
}

/// The buffer column of the pixel that byte `i` belongs to, in a buffer
/// `w` pixels wide.
pub open spec fn px_col(w: int, i: int) -> int {
    (i / 4) % w
}

/// The buffer row of the pixel that byte `i` belongs to, in a buffer
/// `w` pixels wide.
pub open spec fn px_row(w: int, i: int) -> int {
    (i / 4) / w
}

/// Byte `(y*w + x)*4 + k` belongs to pixel (x, y), channel `k`.
pub proof fn lemma_px_index(w: int, x: int, y: int, k: int)
    requires
        0 < w,
        0 <= x < w,
        0 <= y,
        0 <= k < 4,
    ensures
        ((y * w + x) * 4 + k) % 4 == k,
        px_col(w, (y * w + x) * 4 + k) == x,
        px_row(w, (y * w + x) * 4 + k) == y,
{
    let n = (y * w + x) * 4 + k;
    lemma_fundamental_div_mod_converse(n, 4, y * w + x, k);
    lemma_fundamental_div_mod_converse(y * w + x, w, y, x);
}

/// A pixel's bytes lie inside a `w` by `h` buffer of 4-byte pixels.
pub proof fn lemma_px_in_range(w: int, h: int, x: int, y: int, k: int)
    requires
        0 <= x < w,
        0 <= y < h,
        0 <= k < 4,
    ensures
        0 <= (y * w + x) * 4 + k < w * h * 4,
{
    assert(0 <= (y * w + x) * 4 + k < w * h * 4) by (nonlinear_arith)
        requires
            0 <= x < w,
            0 <= y < h,
            0 <= k < 4,
    ;
}

/// Every byte index splits uniquely into a pixel row, column and channel.
pub proof fn lemma_px_decompose(w: int, i: int)
    requires
        0 < w,
        0 <= i,
    ensures
        i == (px_row(w, i) * w + px_col(w, i)) * 4 + i % 4,
        0 <= i % 4 < 4,
        0 <= px_col(w, i) < w,
        0 <= px_row(w, i),
{
    lemma_fundamental_div_mod(i, 4);
    lemma_fundamental_div_mod(i / 4, w);
    lemma_mod_pos_bound(i, 4);
    lemma_div_pos_is_pos(i, 4);
    lemma_mod_pos_bound(i / 4, w);
    lemma_div_pos_is_pos(i / 4, w);
    let q = i / 4;
    let r = i % 4;
    let row = q / w;
    let c = q % w;
    assert(i == (row * w + c) * 4 + r) by (nonlinear_arith)
        requires
            i == 4 * q + r,
            q == w * row + c,
    ;
}

/// `fb` with the four channel bytes of buffer pixel (x, y) set to `col`
/// when (x, y) lies inside a `w` by `h` buffer; otherwise unchanged.
pub open spec fn write_px(fb: Seq<u8>, w: int, h: int, x: int, y: int, col: Rgba) -> Seq<u8> {
    if 0 <= x < w && 0 <= y < h {
        Seq::new(
            fb.len(),
            |i: int|
                if (y * w + x) * 4 <= i < (y * w + x) * 4 + 4 {
                    rgba_channel(col, i - (y * w + x) * 4)
                } else {
                    fb[i]
                },
        )
    } else {
        fb
    }
}

/// Every pixel of a nonempty buffer has a positive width and height.
pub proof fn lemma_dims_pos(w: int, h: int, len: int)
    requires
        len == w * h * 4,
        0 <= w,
        0 <= h,
        0 < len,
    ensures
        0 < w,
        0 < h,
{
    assert(0 < w && 0 < h) by (nonlinear_arith)
        requires
            len == w * h * 4,
            0 <= w,
            0 <= h,
            0 < len,
    ;
}

/// A byte of a `w` by `h` buffer belongs to a row below `h`.
pub proof fn lemma_px_row_bound(w: int, h: int, i: int)
    requires
        0 < w,
        0 <= i,
        i < w * h * 4,
    ensures
        px_row(w, i) < h,
{
    lemma_px_decompose(w, i);
    let row = px_row(w, i);
    let c = px_col(w, i);
    assert(row < h) by (nonlinear_arith)
        requires
            i == (row * w + c) * 4 + i % 4,
            0 <= i % 4 < 4,
            0 <= c < w,
            0 <= row,
            i < w * h * 4,
    ;
}

/// True iff byte `i` of a `w`-wide buffer belongs to a pixel inside the
/// rectangle with corner (rx, ry), width `rw` and height `rh`, in
/// buffer-local coordinates.
pub open spec fn rect_covers(w: int, rx: int, ry: int, rw: int, rh: int, i: int) -> bool {
    &&& rx <= px_col(w, i) < rx + rw
    &&& ry <= px_row(w, i) < ry + rh
}

/// `fb` with every pixel inside the rectangle filled with `col`; pixels
/// outside the buffer are clipped away by the buffer extent itself.
pub open spec fn rect_spec(
    fb: Seq<u8>,
    w: int,
    rx: int,
    ry: int,
    rw: int,
    rh: int,
    col: Rgba,
) -> Seq<u8> {
    Seq::new(
        fb.len(),
        |i: int|
            if rect_covers(w, rx, ry, rw, rh, i) {
                rgba_channel(col, i % 4)
            } else {
                fb[i]
            },
    )
}

/// Every byte of `fb` set to its pixel's channel of `col`.
pub open spec fn clear_spec(fb: Seq<u8>, col: Rgba) -> Seq<u8> {
    Seq::new(fb.len(), |i: int| rgba_channel(col, i % 4))
}

/// The pixels an integer Bresenham walk visits from (x, y) (inclusive) to
/// (x1, y1) (exclusive), with error term `err`; `fuel` bounds the number of
/// steps and is never exhausted on a walk started by `line_pts`.
pub open spec fn bres_pts(
    x: int,
    y: int,
    err: int,
    x1: int,
    y1: int,
    dx: int,
    dy: int,
    sx: int,
    sy: int,
    fuel: nat,
) -> Seq<(int, int)>
    decreases fuel,
{
    if fuel == 0 || (x == x1 && y == y1) {
        Seq::empty()
    } else {
        let e2 = 2 * err;
        let nx = if dy <= e2 {
            x + sx
        } else {
            x
        };
        let ny = if e2 <= dx {
            y + sy
        } else {
            y
        };
        let nerr = err + (if dy <= e2 {
            dy
        } else {
            0
        }) + (if e2 <= dx {
            dx
        } else {
            0
        });
        seq![(x, y)] + bres_pts(nx, ny, nerr, x1, y1, dx, dy, sx, sy, (fuel - 1) as nat)
    }
}

/// The pixel walk of the line from (x0, y0) to (x1, y1), in buffer-local
/// coordinates, endpoint excluded. The walk depends only on the endpoints,
/// never on the buffer size.
pub open spec fn line_pts(x0: int, y0: int, x1: int, y1: int) -> Seq<(int, int)> {
    let dx = vstd::math::abs(x1 - x0) as int;
    let dy = -(vstd::math::abs(y1 - y0) as int);
    let sx: int = if x0 < x1 {
        1
    } else {
        -1
    };
    let sy: int = if y0 < y1 {
        1
    } else {
        -1
    };
    bres_pts(x0, y0, dx + dy, x1, y1, dx, dy, sx, sy, (dx - dy) as nat)
}

/// `fb` after writing `col` at every point of `pts` in order, each clipped
/// to the `w` by `h` buffer individually.
pub open spec fn paint(fb: Seq<u8>, w: int, h: int, pts: Seq<(int, int)>, col: Rgba) -> Seq<u8>
    decreases pts.len(),
{
    if pts.len() == 0 {
        fb
    } else {
        paint(write_px(fb, w, h, pts[0].0, pts[0].1, col), w, h, pts.drop_first(), col)
    }
}

/// True iff the point lies inside a `w` by `h` buffer.
pub open spec fn in_bounds_pt(w: int, h: int, p: (int, int)) -> bool {
    0 <= p.0 < w && 0 <= p.1 < h
}

/// The set of pixels a line draw actually writes in a `w` by `h` buffer:
/// the walk's points, filtered per pixel against the buffer bounds.
pub open spec fn plotted(x0: int, y0: int, x1: int, y1: int, w: int, h: int) -> Set<(int, int)> {
    line_pts(x0, y0, x1, y1).to_set().filter(|p: (int, int)| in_bounds_pt(w, h, p))
}

/// Clipping never changes a line's slope: the pixels plotted in a narrower
/// buffer are a subset of those plotted in a wider one, never a different
/// set.
pub proof fn lemma_line_slope_invariance(
    x0: int,
    y0: int,
    x1: int,
    y1: int,
    w1: int,
    h1: int,
    w2: int,
    h2: int,
)
    requires
        w1 <= w2,
        h1 <= h2,
    ensures
        plotted(x0, y0, x1, y1, w1, h1) <= plotted(x0, y0, x1, y1, w2, h2),
{
    let s1 = plotted(x0, y0, x1, y1, w1, h1);
    let s2 = plotted(x0, y0, x1, y1, w2, h2);
    assert forall|p: (int, int)| s1.contains(p) implies s2.contains(p) by {}
}

/// One Bresenham iteration never overshoots its target and always makes
/// progress, by the loop's own error-term bookkeeping.
pub proof fn lemma_bres_step(a: int, b: int, ip: int, jp: int, err: int)
    requires
        0 <= ip <= a,
        0 <= jp <= b,
        err == a - b - b * ip + a * jp,
        !(ip == a && jp == b),
    ensures
        -b <= 2 * err ==> ip < a,
        2 * err <= a ==> jp < b,
        -b <= 2 * err || 2 * err <= a,
{
    if ip == a {
        assert(err <= -b) by (nonlinear_arith)
            requires
                err == a - b - b * a + a * jp,
                jp + 1 <= b,
                0 <= a,
        ;
    }
    if jp == b {
        assert(err >= a) by (nonlinear_arith)
            requires
                err == a - b - b * ip + a * b,
                ip + 1 <= a,
                0 <= b,
        ;
    }
}

/// After a paint, a pixel holds the paint color exactly when the walk
/// visits it inside the buffer; every other pixel keeps its old bytes.
pub proof fn lemma_paint_pixels(
    fb: Seq<u8>,
    w: int,
    h: int,
    pts: Seq<(int, int)>,
    col: Rgba,
    x: int,
    y: int,
    k: int,
)
    requires
        fb.len() == w * h * 4,
        0 <= x < w,
        0 <= y < h,
        0 <= k < 4,
    ensures
        paint(fb, w, h, pts, col).len() == fb.len(),
        pts.to_set().contains((x, y)) ==> paint(fb, w, h, pts, col)[(y * w + x) * 4 + k]
            == rgba_channel(col, k),
        !pts.to_set().contains((x, y)) ==> paint(fb, w, h, pts, col)[(y * w + x) * 4 + k]
            == fb[(y * w + x) * 4 + k],
    decreases pts.len(),
{
    lemma_px_in_range(w, h, x, y, k);
    if pts.len() == 0 {
    } else {
        let p = pts[0];
        let fb1 = write_px(fb, w, h, p.0, p.1, col);
        assert(fb1.len() == fb.len());
        lemma_paint_pixels(fb1, w, h, pts.drop_first(), col, x, y, k);
        let n = (y * w + x) * 4 + k;
        lemma_px_index(w, x, y, k);
        if p == (x, y) {
            assert(fb1[n] == rgba_channel(col, k));
        } else {
            if in_bounds_pt(w, h, p) {
                let base = (p.1 * w + p.0) * 4;
                if base <= n < base + 4 {
                    lemma_px_index(w, p.0, p.1, n - base);
                    assert(false);
                }
            }
            assert(fb1[n] == fb[n]);
        }
        if pts.to_set().contains((x, y)) && !pts.drop_first().to_set().contains((x, y)) {
            assert(exists|i: int| 0 <= i < pts.len() && pts[i] == (x, y));
            let i = choose|i: int| 0 <= i < pts.len() && pts[i] == (x, y);
            if i > 0 {
                assert(pts.drop_first()[i - 1] == (x, y));
                assert(pts.drop_first().contains((x, y)));
            }
            assert(p == (x, y));
        }
        if pts.drop_first().to_set().contains((x, y)) {
            assert(pts.drop_first().contains((x, y)));
            let i = choose|i: int| 0 <= i < pts.drop_first().len() && pts.drop_first()[i] == (
            x,
            y,
            );
            assert(pts[i + 1] == (x, y));
            assert(pts.to_set().contains((x, y)));
        }
    }
}

/// Premultiplied "over" for one channel: the source channel plus the
/// destination channel scaled by the source pixel's remaining
/// transparency, saturating at 255. The scaled term rounds to nearest:
/// adding 127 before the division by 255 is exact round-to-nearest, since
/// 255 is odd and a half can never occur. Applied to the alpha channel
/// itself (s = sa) it is the standard alpha "over".
pub open spec fn over_spec(s: u8, d: u8, sa: u8) -> u8 {
    vstd::math::min(255, s + (d * (255 - sa) + 127) / 255) as u8
}

/// The source texture column sampled for destination column `bx` of a blit
/// to `tx`: a horizontal flip mirrors the source sampling order without
/// mirroring the destination rectangle.
pub open spec fn blit_src_col(from: Rect, tx: int, flip: bool, bx: int) -> int {
    if flip {
        from.x + from.w - 1 - (bx - tx)
    } else {
        from.x + (bx - tx)
    }
}

/// Byte `i` of the result of compositing the `from` sub-rectangle of `tex`
/// over `fb` at buffer-local position (tx, ty): inside the destination
/// rectangle each channel is the premultiplied "over" of the sampled
/// texture byte and the old byte; outside it, the old byte.
pub open spec fn blit_byte(
    fb: Seq<u8>,
    w: int,
    tex: Seq<u8>,
    tw: int,
    from: Rect,
    tx: int,
    ty: int,
    flip: bool,
    i: int,
) -> u8 {
    let bx = px_col(w, i);
    let by = px_row(w, i);
    if tx <= bx < tx + from.w && ty <= by < ty + from.h {
        let sx = blit_src_col(from, tx, flip, bx);
        let sy = from.y + (by - ty);
        let sbase = (sy * tw + sx) * 4;
        over_spec(tex[sbase + i % 4], fb[i], tex[sbase + 3])
    } else {
        fb[i]
    }
}

/// `fb` after compositing the `from` sub-rectangle of `tex` over it at
/// buffer-local position (tx, ty), clipped to the buffer extent.
pub open spec fn blit_spec(
    fb: Seq<u8>,
    w: int,
    tex: Seq<u8>,
    tw: int,
    from: Rect,
    tx: int,
    ty: int,
    flip: bool,
) -> Seq<u8> {
    Seq::new(fb.len(), |i: int| blit_byte(fb, w, tex, tw, from, tx, ty, flip, i))
}

/// A blit writes only bytes of pixels inside the destination rectangle's
/// intersection with the buffer; every other byte keeps its old value.
pub proof fn lemma_bitblt_clips(
    fb: Seq<u8>,
    w: int,
    tex: Seq<u8>,
    tw: int,
    from: Rect,
    tx: int,
    ty: int,
    flip: bool,
    i: int,
)
    requires
        0 <= i < fb.len(),
        !(tx <= px_col(w, i) < tx + from.w && ty <= px_row(w, i) < ty + from.h),
    ensures
        blit_spec(fb, w, tex, tw, from, tx, ty, flip)[i] == fb[i],
{
}

/// Pre-clipping changes nothing: blitting a source rectangle whose
/// off-buffer margin has been cut away (with the destination moved
/// accordingly) writes byte-identical pixels to blitting the original.
/// `xs`/`ys` are the columns and rows cut on the left and top, `w2`/`h2`
/// the remaining size; a margin may be cut only where it lies outside the
/// buffer.
pub proof fn lemma_bitblt_preclip(
    fb: Seq<u8>,
    w: int,
    h: int,
    tex: Seq<u8>,
    tw: int,
    from: Rect,
    tx: int,
    ty: int,
    xs: int,
    ys: int,
    w2: u16,
    h2: u16,
)
    requires
        fb.len() == w * h * 4,
        0 <= w,
        0 <= h,
        0 <= xs,
        0 <= ys,
        xs + w2 <= from.w,
        ys + h2 <= from.h,
        xs > 0 ==> tx + xs <= 0,
        ys > 0 ==> ty + ys <= 0,
        xs + w2 < from.w ==> w <= tx + xs + w2,
        ys + h2 < from.h ==> h <= ty + ys + h2,
        i32::MIN <= from.x + xs <= i32::MAX,
        i32::MIN <= from.y + ys <= i32::MAX,
    ensures
        blit_spec(fb, w, tex, tw, from, tx, ty, false) == blit_spec(
            fb,
            w,
            tex,
            tw,
            Rect { x: (from.x + xs) as i32, y: (from.y + ys) as i32, w: w2, h: h2 },
            tx + xs,
            ty + ys,
            false,
        ),
{
    let from2 = Rect { x: (from.x + xs) as i32, y: (from.y + ys) as i32, w: w2, h: h2 };
    let a = blit_spec(fb, w, tex, tw, from, tx, ty, false);
    let b = blit_spec(fb, w, tex, tw, from2, tx + xs, ty + ys, false);
    assert forall|i: int| 0 <= i < fb.len() implies a[i] == b[i] by {
        lemma_dims_pos(w, h, fb.len() as int);
        lemma_px_decompose(w, i);
        lemma_px_row_bound(w, h, i);
    }
    assert(a =~= b);
}

/// One executable "over" composite for a single channel.
fn over_channel(s: u8, d: u8, sa: u8) -> (r: u8)
    ensures
        r == over_spec(s, d, sa),
{
    proof {
        assert(d * (255 - sa) <= 255 * 255) by (nonlinear_arith)
            requires
                d <= 255,
                sa <= 255,
        ;
    }
    let t = (d as u32 * (255u32 - sa as u32) + 127) / 255;
    let sum = s as u32 + t;
    if sum > 255 {
        255
    } else {
        sum as u8
    }
}

/// Byte `i` after a glyph mask blit at buffer-local (gx, gy) of a
/// `gw` by `gh` coverage bitmap: inside the glyph rectangle, the color's
/// channel where coverage is nonzero and transparent zero where it is
/// zero; outside, the old byte. A binary mask blit, not alpha blending.
pub open spec fn glyph_byte(
    fb: Seq<u8>,
    w: int,
    bitmap: Seq<u8>,
    gx: int,
    gy: int,
    gw: int,
    gh: int,
    col: Rgba,
    i: int,
) -> u8 {
    let bx = px_col(w, i);
    let by = px_row(w, i);
    if gx <= bx < gx + gw && gy <= by < gy + gh {
        if bitmap[(by - gy) * gw + (bx - gx)] != 0 {
            rgba_channel(col, i % 4)
        } else {
            0u8
        }
    } else {
        fb[i]
    }
}

/// `fb` after a glyph mask blit.
pub open spec fn glyph_spec(
    fb: Seq<u8>,
    w: int,
    bitmap: Seq<u8>,
    gx: int,
    gy: int,
    gw: int,
    gh: int,
    col: Rgba,
) -> Seq<u8> {
    Seq::new(fb.len(), |i: int| glyph_byte(fb, w, bitmap, gx, gy, gw, gh, col, i))
}

/// The fields of the compositor that no draw call changes: everything but
/// the framebuffer contents.
pub open spec fn same_shape(a: Screen, b: Screen) -> bool {
    &&& b.width == a.width
    &&& b.height == a.height
    &&& b.depth == a.depth
    &&& b.position == a.position
    &&& b.framebuffer@.len() == a.framebuffer@.len()
}

impl Screen {
    /// The compositor's structural invariant: four bytes per pixel, a
    /// buffer that covers exactly the pixel grid, and dimensions that fit
    /// in a `Rect`.
    pub open spec fn wf(self) -> bool {
        &&& self.depth == 4
        &&& self.framebuffer@.len() == self.width * self.height * 4
        &&& self.width <= u16::MAX
        &&& self.height <= u16::MAX
    }

    /// Wraps a raw output buffer of `width * height * depth` bytes together
    /// with the camera position.
    pub fn wrap(framebuffer: Vec<u8>, width: usize, height: usize, depth: usize, position: Vec2i) -> (s:
        Screen)
        requires
            depth == 4,
            framebuffer@.len() == width * height * 4,
            width <= u16::MAX,
            height <= u16::MAX,
        ensures
            s.wf(),
            s.framebuffer == framebuffer,
            s.width == width,
            s.height == height,
            s.depth == depth,
            s.position == position,
    {
        Screen { framebuffer, width, height, depth, position }
    }

    /// Gives the buffer back to the caller, consuming the view.
    pub fn into_buffer(self) -> (fb: Vec<u8>)
        ensures
            fb == self.framebuffer,
    {
        self.framebuffer
    }

    /// The buffer's width and height in pixels.
    pub fn size(&self) -> (s: (usize, usize))
        ensures
            s.0 == self.width,
            s.1 == self.height,
    {
        (self.width, self.height)
    }

    /// The camera rectangle: the world-space region the buffer shows.
    pub open spec fn spec_bounds(self) -> Rect {
        Rect { x: self.position.0, y: self.position.1, w: self.width as u16, h: self.height as u16 }
    }

    /// The camera rectangle: the world-space region the buffer shows.
    pub fn bounds(&self) -> (r: Rect)
        requires
            self.wf(),
        ensures
            r == self.spec_bounds(),
    {
        Rect {
            x: self.position.0,
            y: self.position.1,
            w: self.width as u16,
            h: self.height as u16,
        }
    }

    /// Writes the four channel bytes of the in-bounds buffer pixel (x, y).
    fn put_px(&mut self, x: usize, y: usize, col: Rgba)
        requires
            old(self).wf(),
            x < old(self).width,
            y < old(self).height,
        ensures
            final(self).wf(),
            same_shape(*old(self), *final(self)),
            final(self).framebuffer@ == write_px(
                old(self).framebuffer@,
                old(self).width as int,
                old(self).height as int,
                x as int,
                y as int,
                col,
            ),
    {
        let len = self.framebuffer.len();
        proof {
            lemma_px_in_range(self.width as int, self.height as int, x as int, y as int, 3);
            assert((y * self.width + x) * 4 + 3 < len);
        }
        let idx = (y * self.width + x) * 4;
        self.framebuffer.set(idx, col.0);
        self.framebuffer.set(idx + 1, col.1);
        self.framebuffer.set(idx + 2, col.2);
        self.framebuffer.set(idx + 3, col.3);
        proof {
            assert(self.framebuffer@ =~= write_px(
                old(self).framebuffer@,
                old(self).width as int,
                old(self).height as int,
                x as int,
                y as int,
                col,
            ));
        }
    }

    /// Writes one world-space pixel, clipped to the buffer bounds.
    pub fn draw_at(&mut self, col: Rgba, pos: Vec2i)
        requires
            old(self).wf(),
        ensures
            final(self).wf(),
            same_shape(*old(self), *final(self)),
            final(self).framebuffer@ == write_px(
                old(self).framebuffer@,
                old(self).width as int,
                old(self).height as int,
                pos.0 - old(self).position.0,
                pos.1 - old(self).position.1,
                col,
            ),
    {
        let x = pos.0 as i64 - self.position.0 as i64;
        let y = pos.1 as i64 - self.position.1 as i64;
        if x < 0 || (self.width as i64) <= x || y < 0 || (self.height as i64) <= y {
            return ;
        }
        self.put_px(x as usize, y as usize, col);
    }

    /// Fills every pixel with `col` unconditionally; the last writer wins,
    /// no blending.
    #[verifier::loop_isolation(false)]
    pub fn clear(&mut self, col: Rgba)
        requires
            old(self).wf(),
        ensures
            final(self).wf(),
            same_shape(*old(self), *final(self)),
            final(self).framebuffer@ == clear_spec(old(self).framebuffer@, col),
    {
        let len = self.framebuffer.len();
        let mut p: usize = 0;
        proof {
            lemma_fundamental_div_mod(len as int, 4);
            vstd::arithmetic::div_mod::lemma_mod_multiples_basic(
                (self.width * self.height) as int,
                4,
            );
        }
        let pixels = len / 4;
        while p < pixels
        invariant
            p <= pixels,
            len == pixels * 4,
            self.framebuffer@.len() == len,
            same_shape(*old(self), *self),
            forall|i: int|
                0 <= i < 4 * p ==> self.framebuffer@[i] == rgba_channel(col, i % 4),
            forall|i: int| 4 * p <= i < len ==> self.framebuffer@[i] == old(self).framebuffer@[i],
        decreases pixels - p,
        {
            self.framebuffer.set(4 * p, col.0);
            self.framebuffer.set(4 * p + 1, col.1);
            self.framebuffer.set(4 * p + 2, col.2);
            self.framebuffer.set(4 * p + 3, col.3);
            proof {
                assert forall|k: int| 0 <= k < 4 implies #[trigger] ((4 * p + k) % 4) == k by {
                    lemma_fundamental_div_mod_converse(4 * p + k, 4, p as int, k);
                }
            }
            p = p + 1;
        }
        proof {
            assert(self.framebuffer@ =~= clear_spec(old(self).framebuffer@, col));
        }
    }

    /// Fills a world-space rectangle with `col`, clipped to the buffer
    /// bounds; coordinates are translated by the camera position first.
    #[verifier::loop_isolation(false)]
    pub fn rect(&mut self, r: Rect, col: Rgba)
        requires
            old(self).wf(),
        ensures
            final(self).wf(),
            same_shape(*old(self), *final(self)),
            final(self).framebuffer@ == rect_spec(
                old(self).framebuffer@,
                old(self).width as int,
                r.x - old(self).position.0,
                r.y - old(self).position.1,
                r.w as int,
                r.h as int,
                col,
            ),
    {
        let w = self.width;
        let h = self.height;
        let len = self.framebuffer.len();
        let rx = r.x as i64 - self.position.0 as i64;
        let ry = r.y as i64 - self.position.1 as i64;
        let xe = rx + r.w as i64;
        let ye = ry + r.h as i64;
        let x0: usize = if rx < 0 {
            0
        } else if rx > w as i64 {
            w
        } else {
            rx as usize
        };
        let x1: usize = if xe < 0 {
            0
        } else if xe > w as i64 {
            w
        } else {
            xe as usize
        };
        let y0: usize = if ry < 0 {
            0
        } else if ry > h as i64 {
            h
        } else {
            ry as usize
        };
        let y1: usize = if ye < 0 {
            0
        } else if ye > h as i64 {
            h
        } else {
            ye as usize
        };
        let mut y = y0;
        while y < y1
            invariant
                y0 <= y <= y1,
                self.wf(),
                same_shape(*old(self), *self),
                forall|i: int|
                    0 <= i < len ==> self.framebuffer@[i] == (if rect_covers(
                        w as int,
                        rx as int,
                        ry as int,
                        r.w as int,
                        r.h as int,
                        i,
                    ) && px_row(w as int, i) < y {
                        rgba_channel(col, i % 4)
                    } else {
                        old(self).framebuffer@[i]
                    }),
            decreases y1 - y,
        {
            let mut x = x0;
            while x < x1
                invariant
                    x0 <= x <= x1,
                    y < y1,
                    self.wf(),
                    same_shape(*old(self), *self),
                    forall|i: int|
                        0 <= i < len ==> self.framebuffer@[i] == (if rect_covers(
                            w as int,
                            rx as int,
                            ry as int,
                            r.w as int,
                            r.h as int,
                            i,
                        ) && (px_row(w as int, i) < y || (px_row(w as int, i) == y && px_col(
                            w as int,
                            i,
                        ) < x)) {
                            rgba_channel(col, i % 4)
                        } else {
                            old(self).framebuffer@[i]
                        }),
                decreases x1 - x,
            {
                let ghost prev = self.framebuffer@;
                self.put_px(x, y, col);
                proof {
                    let wi = w as int;
                    let base = (y * wi + x) * 4;
                    assert forall|i: int| 0 <= i < len implies self.framebuffer@[i] == (if
                        rect_covers(wi, rx as int, ry as int, r.w as int, r.h as int, i) && (px_row(
                        wi,
                        i,
                    ) < y || (px_row(wi, i) == y && px_col(wi, i) < x + 1)) {
                        rgba_channel(col, i % 4)
                    } else {
                        old(self).framebuffer@[i]
                    }) by {
                        lemma_px_decompose(wi, i);
                        if base <= i < base + 4 {
                            lemma_px_index(wi, x as int, y as int, i - base);
                        }
                    }
                }
                x = x + 1;
            }
            proof {
                let wi = w as int;
                assert forall|i: int| 0 <= i < len implies self.framebuffer@[i] == (if rect_covers(
                    wi,
                    rx as int,
                    ry as int,
                    r.w as int,
                    r.h as int,
                    i,
                ) && px_row(wi, i) < y + 1 {
                    rgba_channel(col, i % 4)
                } else {
                    old(self).framebuffer@[i]
                }) by {
                    lemma_px_decompose(wi, i);
                }
            }
            y = y + 1;
        }
        proof {
            let wi = w as int;
            assert forall|i: int| 0 <= i < len implies self.framebuffer@[i] == (if rect_covers(
                wi,
                rx as int,
                ry as int,
                r.w as int,
                r.h as int,
                i,
            ) {
                rgba_channel(col, i % 4)
            } else {
                old(self).framebuffer@[i]
            }) by {
                lemma_px_decompose(wi, i);
                lemma_px_row_bound(wi, h as int, i);
            }
            assert(self.framebuffer@ =~= rect_spec(
                old(self).framebuffer@,
                old(self).width as int,
                r.x - old(self).position.0,
                r.y - old(self).position.1,
                r.w as int,
                r.h as int,
                col,
            ));
        }
    }

    /// Draws the outline of a world-space rectangle as four filled bands
    /// of the given thickness: top and bottom bands the full width, left
    /// and right bands the full height, so the corners are covered twice.
    pub fn empty_rect(&mut self, r: Rect, thickness: u16, col: Rgba)
        requires
            old(self).wf(),
            thickness <= r.w,
            thickness <= r.h,
            r.x + r.w <= i32::MAX,
            r.y + r.h <= i32::MAX,
        ensures
            final(self).wf(),
            same_shape(*old(self), *final(self)),
            final(self).framebuffer@ == ({
                let rx = r.x - old(self).position.0;
                let ry = r.y - old(self).position.1;
                let w = old(self).width as int;
                let t = thickness as int;
                rect_spec(
                    rect_spec(
                        rect_spec(
                            rect_spec(old(self).framebuffer@, w, rx, ry, r.w as int, t, col),
                            w,
                            rx,
                            ry + r.h - t,
                            r.w as int,
                            t,
                            col,
                        ),
                        w,
                        rx,
                        ry,
                        t,
                        r.h as int,
                        col,
                    ),
                    w,
                    rx + r.w - t,
                    ry,
                    t,
                    r.h as int,
                    col,
                )
            }),
    {
        let top = Rect { x: r.x, y: r.y, w: r.w, h: thickness };
        let bottom = Rect {
            x: r.x,
            y: (r.y as i64 + r.h as i64 - thickness as i64) as i32,
            w: r.w,
            h: thickness,
        };
        let left = Rect { x: r.x, y: r.y, w: thickness, h: r.h };
        let right = Rect {
            x: (r.x as i64 + r.w as i64 - thickness as i64) as i32,
            y: r.y,
            w: thickness,
            h: r.h,
        };
        self.rect(top, col);
        self.rect(bottom, col);
        self.rect(left, col);
        self.rect(right, col);
    }

    /// Draws the outline of a world-space rectangle as four bands that
    /// meet without doubling the corner pixels: the vertical bands are
    /// shortened by one thickness at each end, for layered-border looks.
    pub fn empty_rect_no_corners(&mut self, r: Rect, thickness: u16, col: Rgba)
        requires
            old(self).wf(),
            2 * thickness <= r.w,
            2 * thickness <= r.h,
            r.x + r.w <= i32::MAX,
            r.y + r.h <= i32::MAX,
        ensures
            final(self).wf(),
            same_shape(*old(self), *final(self)),
            final(self).framebuffer@ == ({
                let rx = r.x - old(self).position.0;
                let ry = r.y - old(self).position.1;
                let w = old(self).width as int;
                let t = thickness as int;
                rect_spec(
                    rect_spec(
                        rect_spec(
                            rect_spec(old(self).framebuffer@, w, rx, ry, r.w as int, t, col),
                            w,
                            rx,
                            ry + r.h - t,
                            r.w as int,
                            t,
                            col,
                        ),
                        w,
                        rx,
                        ry + t,
                        t,
                        r.h - 2 * t,
                        col,
                    ),
                    w,
                    rx + r.w - t,
                    ry + t,
                    t,
                    r.h - 2 * t,
                    col,
                )
            }),
    {
        let top = Rect { x: r.x, y: r.y, w: r.w, h: thickness };
        let bottom = Rect {
            x: r.x,
            y: (r.y as i64 + r.h as i64 - thickness as i64) as i32,
            w: r.w,
            h: thickness,
        };
        let side_h = r.h - 2 * thickness;
        let side_y = (r.y as i64 + thickness as i64) as i32;
        let left = Rect { x: r.x, y: side_y, w: thickness, h: side_h };
        let right = Rect {
            x: (r.x as i64 + r.w as i64 - thickness as i64) as i32,
            y: side_y,
            w: thickness,
            h: side_h,
        };
        self.rect(top, col);
        self.rect(bottom, col);
        self.rect(left, col);
        self.rect(right, col);
    }

    /// Draws an integer Bresenham line from `p0` (inclusive) to `p1`
    /// (exclusive) in world space. Each pixel is clipped individually
    /// against the buffer bounds; the endpoints are never clamped, since
    /// that would change the line's slope.
    #[verifier::loop_isolation(false)]
    #[verifier::rlimit(80)]
    pub fn line(&mut self, p0: Vec2i, p1: Vec2i, col: Rgba)
        requires
            old(self).wf(),
        ensures
            final(self).wf(),
            same_shape(*old(self), *final(self)),
            final(self).framebuffer@ == paint(
                old(self).framebuffer@,
                old(self).width as int,
                old(self).height as int,
                line_pts(
                    p0.0 - old(self).position.0,
                    p0.1 - old(self).position.1,
                    p1.0 - old(self).position.0,
                    p1.1 - old(self).position.1,
                ),
                col,
            ),
    {
        let w = self.width;
        let h = self.height;
        let x0 = p0.0 as i128 - self.position.0 as i128;
        let y0 = p0.1 as i128 - self.position.1 as i128;
        let x1 = p1.0 as i128 - self.position.0 as i128;
        let y1 = p1.1 as i128 - self.position.1 as i128;
        let a: i128 = if x1 >= x0 {
            x1 - x0
        } else {
            x0 - x1
        };
        let b: i128 = if y1 >= y0 {
            y1 - y0
        } else {
            y0 - y1
        };
        let dy: i128 = -b;
        let sx: i128 = if x0 < x1 {
            1
        } else {
            -1
        };
        let sy: i128 = if y0 < y1 {
            1
        } else {
            -1
        };
        let mut x = x0;
        let mut y = y0;
        let mut err: i128 = a + dy;
        let ghost mut ip: int = 0;
        let ghost mut jp: int = 0;
        let ghost mut fuel: nat = (a - dy) as nat;
        proof {
            assert(x1 == x0 + sx * a && y1 == y0 + sy * b) by (nonlinear_arith)
                requires
                    a == if x1 >= x0 { x1 - x0 } else { x0 - x1 },
                    b == if y1 >= y0 { y1 - y0 } else { y0 - y1 },
                    sx == if x0 < x1 { 1int } else { -1int },
                    sy == if y0 < y1 { 1int } else { -1int },
            ;
            assert(line_pts(x0 as int, y0 as int, x1 as int, y1 as int) == bres_pts(
                x as int,
                y as int,
                err as int,
                x1 as int,
                y1 as int,
                a as int,
                dy as int,
                sx as int,
                sy as int,
                fuel,
            ));
        }
        while x != x1 || y != y1
            invariant
                x == x0 + sx * ip,
                y == y0 + sy * jp,
                0 <= ip <= a,
                0 <= jp <= b,
                err == a - b - b * ip + a * jp,
                fuel + ip + jp >= a + b,
                self.wf(),
                same_shape(*old(self), *self),
                paint(
                    old(self).framebuffer@,
                    w as int,
                    h as int,
                    line_pts(x0 as int, y0 as int, x1 as int, y1 as int),
                    col,
                ) == paint(
                    self.framebuffer@,
                    w as int,
                    h as int,
                    bres_pts(
                        x as int,
                        y as int,
                        err as int,
                        x1 as int,
                        y1 as int,
                        a as int,
                        dy as int,
                        sx as int,
                        sy as int,
                        fuel,
                    ),
                    col,
                ),
            decreases a + b - ip - jp,
        {
            proof {
                assert(ip < a || jp < b) by (nonlinear_arith)
                    requires
                        x == x0 + sx * ip,
                        y == y0 + sy * jp,
                        x1 == x0 + sx * a,
                        y1 == y0 + sy * b,
                        (sx == 1 || sx == -1) && (sy == 1 || sy == -1),
                        0 <= ip <= a,
                        0 <= jp <= b,
                        x != x1 || y != y1,
                ;
                lemma_bres_step(a as int, b as int, ip, jp, err as int);
                assert(0 <= b * ip <= b * a && 0 <= a * jp <= a * b) by (nonlinear_arith)
                    requires
                        0 <= ip <= a,
                        0 <= jp <= b,
                ;
                assert(b * a <= 0x40000000000000000 && a * b <= 0x40000000000000000)
                    by (nonlinear_arith)
                    requires
                        0 <= a <= 0x200000000,
                        0 <= b <= 0x200000000,
                ;
            }
            let ghost pts = bres_pts(
                x as int,
                y as int,
                err as int,
                x1 as int,
                y1 as int,
                a as int,
                dy as int,
                sx as int,
                sy as int,
                fuel,
            );
            let ghost fb_before = self.framebuffer@;
            if 0 <= x && x < w as i128 && 0 <= y && y < h as i128 {
                self.put_px(x as usize, y as usize, col);
            }
            proof {
                assert(self.framebuffer@ == write_px(
                    fb_before,
                    w as int,
                    h as int,
                    x as int,
                    y as int,
                    col,
                ));
                assert(pts.drop_first() =~= bres_pts(
                    (if dy <= 2 * err {
                        x + sx
                    } else {
                        x as int
                    }) as int,
                    (if 2 * err <= a {
                        y + sy
                    } else {
                        y as int
                    }) as int,
                    err + (if dy <= 2 * err {
                        dy as int
                    } else {
                        0
                    }) + (if 2 * err <= a {
                        a as int
                    } else {
                        0
                    }),
                    x1 as int,
                    y1 as int,
                    a as int,
                    dy as int,
                    sx as int,
                    sy as int,
                    (fuel - 1) as nat,
                ));
            }
            let e2 = 2 * err;
            if dy <= e2 {
                proof {
                    assert(sx * (ip + 1) == sx * ip + sx && b * (ip + 1) == b * ip + b)
                        by (nonlinear_arith);
                }
                err = err + dy;
                x = x + sx;
                proof {
                    ip = ip + 1;
                }
            }
            if e2 <= a {
                proof {
                    assert(sy * (jp + 1) == sy * jp + sy && a * (jp + 1) == a * jp + a)
                        by (nonlinear_arith);
                }
                err = err + a;
                y = y + sy;
                proof {
                    jp = jp + 1;
                }
            }
            proof {
                fuel = (fuel - 1) as nat;
            }
        }
        proof {
            assert(bres_pts(
                x as int,
                y as int,
                err as int,
                x1 as int,
                y1 as int,
                a as int,
                dy as int,
                sx as int,
                sy as int,
                fuel,
            ) == Seq::<(int, int)>::empty());
        }
    }

    /// Paints one rasterized glyph's coverage bitmap at world-space
    /// position `pos`: `col` wherever coverage is nonzero, transparent
    /// zero elsewhere. The glyph rectangle must lie entirely inside the
    /// buffer.
    #[verifier::loop_isolation(false)]
    #[verifier::rlimit(60)]
    pub fn draw_glyph(&mut self, bitmap: &Vec<u8>, gw: usize, gh: usize, pos: Vec2i, col: Rgba)
        requires
            old(self).wf(),
            bitmap@.len() == gw * gh,
            0 <= pos.0 - old(self).position.0,
            pos.0 - old(self).position.0 + gw <= old(self).width,
            0 <= pos.1 - old(self).position.1,
            pos.1 - old(self).position.1 + gh <= old(self).height,
        ensures
            final(self).wf(),
            same_shape(*old(self), *final(self)),
            final(self).framebuffer@ == glyph_spec(
                old(self).framebuffer@,
                old(self).width as int,
                bitmap@,
                pos.0 - old(self).position.0,
                pos.1 - old(self).position.1,
                gw as int,
                gh as int,
                col,
            ),
    {
        let w = self.width;
        let h = self.height;
        let len = self.framebuffer.len();
        let gx = (pos.0 as i64 - self.position.0 as i64) as usize;
        let gy = (pos.1 as i64 - self.position.1 as i64) as usize;
        let blen = bitmap.len();
        let zero = Rgba(0, 0, 0, 0);
        let mut by: usize = 0;
        while by < gh
            invariant
                by <= gh,
                self.wf(),
                same_shape(*old(self), *self),
                forall|i: int|
                    0 <= i < len ==> self.framebuffer@[i] == (if gx <= px_col(w as int, i) < gx + gw
                        && gy <= px_row(w as int, i) < gy + by {
                        glyph_byte(
                            old(self).framebuffer@,
                            w as int,
                            bitmap@,
                            gx as int,
                            gy as int,
                            gw as int,
                            gh as int,
                            col,
                            i,
                        )
                    } else {
                        old(self).framebuffer@[i]
                    }),
            decreases gh - by,
        {
            let mut bx: usize = 0;
            while bx < gw
                invariant
                    bx <= gw,
                    by < gh,
                    self.wf(),
                    same_shape(*old(self), *self),
                    forall|i: int|
                        0 <= i < len ==> self.framebuffer@[i] == (if gx <= px_col(w as int, i) < gx
                            + gw && gy <= px_row(w as int, i) < gy + by + 1 && (px_row(w as int, i)
                        < gy + by || px_col(w as int, i) < gx + bx) {
                            glyph_byte(
                                old(self).framebuffer@,
                                w as int,
                                bitmap@,
                                gx as int,
                                gy as int,
                                gw as int,
                                gh as int,
                                col,
                                i,
                            )
                        } else {
                            old(self).framebuffer@[i]
                        }),
                decreases gw - bx,
            {
                proof {
                    assert(by * gw + bx < gw * gh) by (nonlinear_arith)
                        requires
                            bx < gw,
                            by < gh,
                            0 <= bx,
                            0 <= by,
                    ;
                    assert(by * gw + bx < blen);
                }
                let covered = bitmap[by * gw + bx];
                let c = if covered != 0 {
                    col
                } else {
                    zero
                };
                self.put_px(gx + bx, gy + by, c);
                proof {
                    let wi = w as int;
                    let base = ((gy + by) * wi + (gx + bx)) * 4;
                    assert forall|i: int| 0 <= i < len implies self.framebuffer@[i] == (if gx
                        <= px_col(wi, i) < gx + gw && gy <= px_row(wi, i) < gy + by + 1 && (px_row(
                        wi,
                        i,
                    ) < gy + by || px_col(wi, i) < gx + bx + 1) {
                        glyph_byte(
                            old(self).framebuffer@,
                            wi,
                            bitmap@,
                            gx as int,
                            gy as int,
                            gw as int,
                            gh as int,
                            col,
                            i,
                        )
                    } else {
                        old(self).framebuffer@[i]
                    }) by {
                        lemma_px_decompose(wi, i);
                        if base <= i < base + 4 {
                            lemma_px_index(wi, (gx + bx) as int, (gy + by) as int, i - base);
                        }
                    }
                }
                bx = bx + 1;
            }
            proof {
                let wi = w as int;
                assert forall|i: int| 0 <= i < len implies self.framebuffer@[i] == (if gx <= px_col(
                    wi,
                    i,
                ) < gx + gw && gy <= px_row(wi, i) < gy + by + 1 {
                    glyph_byte(
                        old(self).framebuffer@,
                        wi,
                        bitmap@,
                        gx as int,
                        gy as int,
                        gw as int,
                        gh as int,
                        col,
                        i,
                    )
                } else {
                    old(self).framebuffer@[i]
                }) by {
                    lemma_px_decompose(wi, i);
                }
            }
            by = by + 1;
        }
        proof {
            let wi = w as int;
            assert forall|i: int| 0 <= i < len implies self.framebuffer@[i] == glyph_byte(
                old(self).framebuffer@,
                wi,
                bitmap@,
                gx as int,
                gy as int,
                gw as int,
                gh as int,
                col,
                i,
            ) by {
                lemma_px_decompose(wi, i);
            }
            assert(self.framebuffer@ =~= glyph_spec(
                old(self).framebuffer@,
                old(self).width as int,
                bitmap@,
                pos.0 - old(self).position.0,
                pos.1 - old(self).position.1,
                gw as int,
                gh as int,
                col,
            ));
        }
    }

    /// Composites the `from` sub-rectangle of `src` over the buffer at
    /// world-space position `to`, using the premultiplied "over" rule per
    /// channel, clipped to the buffer bounds without changing the apparent
    /// geometry. `flip` mirrors the source sampling column order. The
    /// source rectangle must lie inside the texture.
    #[verifier::loop_isolation(false)]
    #[verifier::rlimit(100)]
    pub fn bitblt(&mut self, src: &Texture, from: Rect, to: Vec2i, flip: bool)
        requires
            old(self).wf(),
            src.wf(),
            src.spec_valid_frame(from),
        ensures
            final(self).wf(),
            same_shape(*old(self), *final(self)),
            final(self).framebuffer@ == blit_spec(
                old(self).framebuffer@,
                old(self).width as int,
                src.image@,
                src.width as int,
                from,
                to.0 - old(self).position.0,
                to.1 - old(self).position.1,
                flip,
            ),
    {
        let w = self.width;
        let h = self.height;
        let len = self.framebuffer.len();
        let tlen = src.image.len();
        let tw = src.width;
        let tx = to.0 as i64 - self.position.0 as i64;
        let ty = to.1 as i64 - self.position.1 as i64;
        let xe = tx + from.w as i64;
        let ye = ty + from.h as i64;
        let x0: usize = if tx < 0 {
            0
        } else if tx > w as i64 {
            w
        } else {
            tx as usize
        };
        let x1: usize = if xe < 0 {
            0
        } else if xe > w as i64 {
            w
        } else {
            xe as usize
        };
        let y0: usize = if ty < 0 {
            0
        } else if ty > h as i64 {
            h
        } else {
            ty as usize
        };
        let y1: usize = if ye < 0 {
            0
        } else if ye > h as i64 {
            h
        } else {
            ye as usize
        };
        let mut by = y0;
        while by < y1
            invariant
                y0 <= by <= y1,
                self.wf(),
                same_shape(*old(self), *self),
                forall|i: int|
                    0 <= i < len ==> self.framebuffer@[i] == (if tx <= px_col(w as int, i) < xe
                        && ty <= px_row(w as int, i) < ye && px_row(w as int, i) < by {
                        blit_byte(
                            old(self).framebuffer@,
                            w as int,
                            src.image@,
                            tw as int,
                            from,
                            tx as int,
                            ty as int,
                            flip,
                            i,
                        )
                    } else {
                        old(self).framebuffer@[i]
                    }),
            decreases y1 - by,
        {
            let mut bx = x0;
            while bx < x1
                invariant
                    x0 <= bx <= x1,
                    by < y1,
                    self.wf(),
                    same_shape(*old(self), *self),
                    forall|i: int|
                        0 <= i < len ==> self.framebuffer@[i] == (if tx <= px_col(w as int, i) < xe
                            && ty <= px_row(w as int, i) < ye && (px_row(w as int, i) < by || (
                        px_row(w as int, i) == by && px_col(w as int, i) < bx)) {
                            blit_byte(
                                old(self).framebuffer@,
                                w as int,
                                src.image@,
                                tw as int,
                                from,
                                tx as int,
                                ty as int,
                                flip,
                                i,
                            )
                        } else {
                            old(self).framebuffer@[i]
                        }),
                decreases x1 - bx,
            {
                let sx: usize = if flip {
                    (from.x as i64 + from.w as i64 - 1 - (bx as i64 - tx)) as usize
                } else {
                    (from.x as i64 + (bx as i64 - tx)) as usize
                };
                let sy: usize = (from.y as i64 + (by as i64 - ty)) as usize;
                proof {
                    lemma_px_in_range(tw as int, src.height as int, sx as int, sy as int, 3);
                    assert((sy * tw + sx) * 4 + 3 < tlen);
                }
                let sbase = (sy * tw + sx) * 4;
                let s0 = src.image[sbase];
                let s1 = src.image[sbase + 1];
                let s2 = src.image[sbase + 2];
                let s3 = src.image[sbase + 3];
                proof {
                    lemma_px_in_range(w as int, h as int, bx as int, by as int, 3);
                    assert((by * w + bx) * 4 + 3 < len);
                }
                let dbase = (by * w + bx) * 4;
                let d0 = self.framebuffer[dbase];
                let d1 = self.framebuffer[dbase + 1];
                let d2 = self.framebuffer[dbase + 2];
                let d3 = self.framebuffer[dbase + 3];
                self.framebuffer.set(dbase, over_channel(s0, d0, s3));
                self.framebuffer.set(dbase + 1, over_channel(s1, d1, s3));
                self.framebuffer.set(dbase + 2, over_channel(s2, d2, s3));
                self.framebuffer.set(dbase + 3, over_channel(s3, d3, s3));
                proof {
                    let wi = w as int;
                    assert forall|i: int| 0 <= i < len implies self.framebuffer@[i] == (if tx
                        <= px_col(wi, i) < xe && ty <= px_row(wi, i) < ye && (px_row(wi, i) < by
                        || (px_row(wi, i) == by && px_col(wi, i) < bx + 1)) {
                        blit_byte(
                            old(self).framebuffer@,
                            wi,
                            src.image@,
                            tw as int,
                            from,
                            tx as int,
                            ty as int,
                            flip,
                            i,
                        )
                    } else {
                        old(self).framebuffer@[i]
                    }) by {
                        lemma_px_decompose(wi, i);
                        if dbase <= i < dbase + 4 {
                            lemma_px_index(wi, bx as int, by as int, i - dbase);
                        }
                    }
                }
                bx = bx + 1;
            }
            proof {
                let wi = w as int;
                assert forall|i: int| 0 <= i < len implies self.framebuffer@[i] == (if tx <= px_col(
                    wi,
                    i,
                ) < xe && ty <= px_row(wi, i) < ye && px_row(wi, i) < by + 1 {
                    blit_byte(
                        old(self).framebuffer@,
                        wi,
                        src.image@,
                        tw as int,
                        from,
                        tx as int,
                        ty as int,
                        flip,
                        i,
                    )
                } else {
                    old(self).framebuffer@[i]
                }) by {
                    lemma_px_decompose(wi, i);
                }
            }
            by = by + 1;
        }
        proof {
            let wi = w as int;
            assert forall|i: int| 0 <= i < len implies self.framebuffer@[i] == blit_byte(
                old(self).framebuffer@,
                wi,
                src.image@,
                tw as int,
                from,
                tx as int,
                ty as int,
                flip,
                i,
            ) by {
                lemma_px_decompose(wi, i);
                lemma_px_row_bound(wi, h as int, i);
            }
            assert(self.framebuffer@ =~= blit_spec(
                old(self).framebuffer@,
                old(self).width as int,
                src.image@,
                src.width as int,
                from,
                to.0 - old(self).position.0,
                to.1 - old(self).position.1,
                flip,
            ));
        }
    }
}

} // verus!
