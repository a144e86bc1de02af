//! Tilesets and tilemaps: integer tile IDs mapped to source-texture
//! rectangles and solidity/effect metadata, and positioned grids of IDs
//! drawn camera-relatively.

use crate::screen::blit_spec;
use crate::screen::same_shape;
use crate::screen::Screen;
use crate::shared::rc_clone;
use crate::texture::Texture;
use crate::types::Effect;
use crate::types::Rect;
use crate::types::Vec2i;
use std::rc::Rc;
use vstd::prelude::*;

verus! {

/// The side length of one square tile, in pixels.
pub const TILE_SZ: usize = 32;

/// A graphical tile: whether it blocks movement, and the gameplay effect
/// it applies on contact.
#[derive(Clone, Copy, PartialEq, Eq, Debug, Structural)]
pub struct Tile {
    pub solid: bool,
    pub collide: Effect,
}

/// A set of tiles backed by one texture laid out as a row-major grid of
/// `TILE_SZ`-square cells; shared by multiple tilemaps.
pub struct Tileset {
    pub tiles: Vec<Tile>,
    pub texture: Rc<Texture>,
}

/// An index into a tileset's tile list.
#[derive(Clone, Copy, PartialEq, Eq, Debug, Structural)]
pub struct TileID(pub usize);

impl Tileset {
    /// The tileset's structural invariant: the backing texture is well
    /// formed, at least one tile column wide, and tall enough that every
    /// tile ID's source rectangle lies inside it.
    pub open spec fn wf(self) -> bool {
        &&& (*self.texture).wf()
        &&& self.texture.width >= TILE_SZ
        &&& self.texture.width <= i32::MAX
        &&& self.texture.height <= i32::MAX
        &&& self.tiles@.len() <= (self.texture.width as int / 32) * (
        self.texture.height as int / 32)
    }

    /// Creates a tileset over a shared texture.
    pub fn new(tiles: Vec<Tile>, texture: &Rc<Texture>) -> (s: Tileset)
        requires
            (**texture).wf(),
            (**texture).width >= TILE_SZ,
            (**texture).width <= i32::MAX,
            (**texture).height <= i32::MAX,
            tiles@.len() <= ((**texture).width as int / 32) * ((**texture).height as int / 32),
        ensures
            s.wf(),
            s.tiles == tiles,
            s.texture == *texture,
    {
        Tileset { tiles, texture: rc_clone(texture) }
    }

    /// The source rectangle of tile `id`: the texture is a row-major grid
    /// of `TILE_SZ`-square cells.
    pub open spec fn spec_rect(self, id: int) -> Rect {
        let tw = self.texture.width as int / 32;
        Rect {
            x: ((id % tw) * 32) as i32,
            y: ((id / tw) * 32) as i32,
            w: 32 as u16,
            h: 32 as u16,
        }
    }

    /// The frame rectangle for a tile ID, always inside the texture.
    pub fn get_rect(&self, id: TileID) -> (r: Rect)
        requires
            self.wf(),
            id.0 < self.tiles@.len(),
        ensures
            r == self.spec_rect(id.0 as int),
            (*self.texture).spec_valid_frame(r),
    {
        let idx = id.0;
        let (w, _h) = self.texture.size();
        let tw = w / TILE_SZ;
        let row = idx / tw;
        proof {
            let twi = tw as int;
            let th = self.texture.height as int / 32;
            vstd::arithmetic::div_mod::lemma_fundamental_div_mod(idx as int, twi);
            vstd::arithmetic::div_mod::lemma_mod_pos_bound(idx as int, twi);
            assert(row * twi == twi * row) by (nonlinear_arith);
            assert(row < th) by (nonlinear_arith)
                requires
                    idx as int == twi * row + idx as int % twi,
                    0 <= idx as int % twi < twi,
                    idx < twi * th,
                    0 <= row,
            ;
            vstd::arithmetic::div_mod::lemma_fundamental_div_mod(
                self.texture.width as int,
                32,
            );
            vstd::arithmetic::div_mod::lemma_fundamental_div_mod(
                self.texture.height as int,
                32,
            );
            vstd::arithmetic::div_mod::lemma_mod_pos_bound(self.texture.width as int, 32);
            vstd::arithmetic::div_mod::lemma_mod_pos_bound(self.texture.height as int, 32);
            assert((idx as int % twi + 1) * 32 <= twi * 32 && (row + 1) * 32 <= th * 32)
                by (nonlinear_arith)
                requires
                    0 <= idx as int % twi < twi,
                    row < th,
            ;
        }
        let col = idx - (row * tw);
        Rect {
            x: (col * TILE_SZ) as i32,
            y: (row * TILE_SZ) as i32,
            w: TILE_SZ as u16,
            h: TILE_SZ as u16,
        }
    }

    /// Whether this tileset has a tile for `id`.
    pub fn contains(&self, id: TileID) -> (r: bool)
        ensures
            r == (id.0 < self.tiles@.len()),
    {
        id.0 < self.tiles.len()
    }

    /// The tile with the given ID.
    pub fn tile(&self, id: TileID) -> (t: Tile)
        requires
            id.0 < self.tiles@.len(),
        ensures
            t == self.tiles@[id.0 as int],
    {
        self.tiles[id.0]
    }
}

/// A positioned, camera-drawable grid of tile IDs over a shared tileset.
pub struct Tilemap {
    /// World-space origin of the grid.
    pub position: Vec2i,
    /// Grid size as (columns, rows).
    pub dims: (usize, usize),
    /// The tileset the IDs index into.
    pub tileset: Rc<Tileset>,
    /// Row-major grid of tile IDs.
    pub map: Vec<TileID>,
}

/// `q` clamped into the tile-index range `[0, count]`.
pub open spec fn clamp_tile(q: int, count: int) -> int {
    if q < 0 {
        0
    } else if q > count {
        count
    } else {
        q
    }
}

/// The buffer after drawing tile (tx, ty) of the map at its world
/// position, translated by the camera (camx, camy).
pub open spec fn spec_draw_tile(
    fb: Seq<u8>,
    w: int,
    camx: int,
    camy: int,
    tm: Tilemap,
    tx: int,
    ty: int,
) -> Seq<u8> {
    let ts = *tm.tileset;
    let id = tm.map@[ty * tm.dims.0 + tx].0 as int;
    blit_spec(
        fb,
        w,
        (*ts.texture).image@,
        ts.texture.width as int,
        ts.spec_rect(id),
        tx * 32 + tm.position.0 - camx,
        ty * 32 + tm.position.1 - camy,
        false,
    )
}

/// The buffer after drawing columns `x` to `x_to - 1` of row `ty`.
pub open spec fn spec_draw_row(
    fb: Seq<u8>,
    w: int,
    camx: int,
    camy: int,
    tm: Tilemap,
    ty: int,
    x: int,
    x_to: int,
) -> Seq<u8>
    decreases x_to - x,
{
    if x < x_to {
        spec_draw_row(spec_draw_tile(fb, w, camx, camy, tm, x, ty), w, camx, camy, tm, ty, x + 1, x_to)
    } else {
        fb
    }
}

/// The buffer after drawing rows `y` to `y_to - 1`, columns `left` to
/// `right - 1` of each, in row-major order.
pub open spec fn spec_draw_rows(
    fb: Seq<u8>,
    w: int,
    camx: int,
    camy: int,
    tm: Tilemap,
    left: int,
    right: int,
    y: int,
    y_to: int,
) -> Seq<u8>
    decreases y_to - y,
{
    if y < y_to {
        spec_draw_rows(
            spec_draw_row(fb, w, camx, camy, tm, y, left, right),
            w,
            camx,
            camy,
            tm,
            left,
            right,
            y + 1,
            y_to,
        )
    } else {
        fb
    }
}

/// One axis of the visible-window bounds: the clamped floor-division
/// range `[clamp((c0-origin)/32), clamp((c1+32-origin)/32))` contains a
/// tile index `t` whenever tile interval `[origin+32t, origin+32t+32)`
/// meets `[c0, c1)`, and every contained `t` has its interval meeting the
/// padded `[c0, c1+32)`.
proof fn lemma_axis_window(origin: int, count: int, t: int, c0: int, c1: int)
    requires
        0 <= t < count,
    ensures
        (origin + 32 * t < c1 && c0 < origin + 32 * t + 32) ==> (clamp_tile((c0 - origin) / 32, count)
            <= t < clamp_tile((c1 + 32 - origin) / 32, count)),
        (clamp_tile((c0 - origin) / 32, count) <= t < clamp_tile((c1 + 32 - origin) / 32, count))
            ==> (origin + 32 * t < c1 + 32 && c0 < origin + 32 * t + 32),
{
    let q0 = c0 - origin;
    let q1 = c1 + 32 - origin;
    vstd::arithmetic::div_mod::lemma_fundamental_div_mod(q0, 32);
    vstd::arithmetic::div_mod::lemma_mod_bound(q0, 32);
    vstd::arithmetic::div_mod::lemma_fundamental_div_mod(q1, 32);
    vstd::arithmetic::div_mod::lemma_mod_bound(q1, 32);
}

/// The drawn tile window is exactly right: every tile whose world
/// rectangle meets the camera rectangle lies inside the drawn range, and
/// every tile of the drawn range has a world rectangle meeting the camera
/// rectangle padded by one tile size; off-screen tiles outside the
/// padding are never drawn.
pub proof fn lemma_draw_window(tm: Tilemap, cam: Rect, tx: int, ty: int)
    requires
        0 <= tx < tm.dims.0,
        0 <= ty < tm.dims.1,
    ensures
        (tm.position.0 + 32 * tx < cam.x + cam.w && cam.x < tm.position.0 + 32 * tx + 32
            && tm.position.1 + 32 * ty < cam.y + cam.h && cam.y < tm.position.1 + 32 * ty + 32)
            ==> (tm.vis_left(cam) <= tx < tm.vis_right(cam) && tm.vis_top(cam) <= ty < tm.vis_bot(
        cam,
        )),
        (tm.vis_left(cam) <= tx < tm.vis_right(cam) && tm.vis_top(cam) <= ty < tm.vis_bot(cam))
            ==> (tm.position.0 + 32 * tx < cam.x + cam.w + 32 && cam.x < tm.position.0 + 32 * tx
            + 32 && tm.position.1 + 32 * ty < cam.y + cam.h + 32 && cam.y < tm.position.1 + 32 * ty
            + 32),
{
    lemma_axis_window(tm.position.0 as int, tm.dims.0 as int, tx, cam.x as int, cam.x + cam.w);
    lemma_axis_window(tm.position.1 as int, tm.dims.1 as int, ty, cam.y as int, cam.y + cam.h);
}

/// Replacing the grid and reading any cell back round-trips: the world
/// corner of cell (cx, cy) maps to that cell again, and the ID stored
/// there is exactly the freshly supplied one — so `tile_at` at that point
/// returns the tileset's tile for `ids[cy * cols + cx]`.
pub proof fn lemma_replace_grid_round_trip(m: Tilemap, ids: Seq<usize>, cx: int, cy: int)
    requires
        m.wf(),
        m.map@.len() == ids.len(),
        forall|k: int| 0 <= k < ids.len() ==> (#[trigger] m.map@[k]).0 == ids[k],
        0 <= cx < m.dims.0,
        0 <= cy < m.dims.1,
    ensures
        ({
            let p = Vec2i((m.position.0 + 32 * cx) as i32, (m.position.1 + 32 * cy) as i32);
            &&& m.in_extent(p)
            &&& m.tile_coord_x(p) == cx
            &&& m.tile_coord_y(p) == cy
            &&& m.map@[cy * m.dims.0 + cx].0 == ids[cy * m.dims.0 + cx]
        }),
{
    let p = Vec2i((m.position.0 + 32 * cx) as i32, (m.position.1 + 32 * cy) as i32);
    assert(32 * cx + 32 <= m.dims.0 * 32 && 32 * cy + 32 <= m.dims.1 * 32) by (nonlinear_arith)
        requires
            cx < m.dims.0,
            cy < m.dims.1,
    ;
    vstd::arithmetic::div_mod::lemma_fundamental_div_mod_converse(32 * cx, 32, cx, 0);
    vstd::arithmetic::div_mod::lemma_fundamental_div_mod_converse(32 * cy, 32, cy, 0);
    assert(cy * m.dims.0 + cx < m.dims.0 * m.dims.1) by (nonlinear_arith)
        requires
            0 <= cx < m.dims.0,
            0 <= cy < m.dims.1,
    ;
}

impl Tilemap {
    /// The tilemap's structural invariant: a well-formed tileset, a grid
    /// that covers exactly `cols * rows` cells, every ID valid in the
    /// tileset, and a world extent that fits the coordinate type.
    pub open spec fn wf(self) -> bool {
        &&& (*self.tileset).wf()
        &&& self.map@.len() == self.dims.0 * self.dims.1
        &&& forall|k: int|
            0 <= k < self.map@.len() ==> (#[trigger] self.map@[k]).0 < self.tileset.tiles@.len()
        &&& self.position.0 + self.dims.0 * 32 <= i32::MAX
        &&& self.position.1 + self.dims.1 * 32 <= i32::MAX
    }

    /// The tile-grid column of a world point (floor division).
    pub open spec fn tile_coord_x(self, p: Vec2i) -> int {
        (p.0 - self.position.0) / 32
    }

    /// The tile-grid row of a world point (floor division).
    pub open spec fn tile_coord_y(self, p: Vec2i) -> int {
        (p.1 - self.position.1) / 32
    }

    /// True iff the world point lies inside the map's world extent.
    pub open spec fn in_extent(self, p: Vec2i) -> bool {
        &&& self.position.0 <= p.0 < self.position.0 + self.dims.0 * 32
        &&& self.position.1 <= p.1 < self.position.1 + self.dims.1 * 32
    }

    /// Builds a tilemap from raw tile indices. The grid must match the
    /// dimensions, every index must name a tile of the tileset, and the
    /// world extent must fit the coordinate type.
    #[verifier::loop_isolation(false)]
    pub fn new(position: Vec2i, dims: (usize, usize), tileset: &Rc<Tileset>, map: Vec<usize>) -> (t:
        Tilemap)
        requires
            (**tileset).wf(),
            map@.len() == dims.0 * dims.1,
            forall|k: int| 0 <= k < map@.len() ==> #[trigger] map@[k] < (**tileset).tiles@.len(),
            position.0 + dims.0 * 32 <= i32::MAX,
            position.1 + dims.1 * 32 <= i32::MAX,
        ensures
            t.wf(),
            t.position == position,
            t.dims == dims,
            t.tileset == *tileset,
            t.map@.len() == map@.len(),
            forall|k: int| 0 <= k < map@.len() ==> (#[trigger] t.map@[k]).0 == map@[k],
    {
        let mut tids: Vec<TileID> = Vec::new();
        let mut i: usize = 0;
        while i < map.len()
            invariant
                i <= map@.len(),
                tids@.len() == i,
                forall|k: int| 0 <= k < i ==> (#[trigger] tids@[k]).0 == map@[k],
            decreases map@.len() - i,
        {
            tids.push(TileID(map[i]));
            i = i + 1;
        }
        Tilemap { position, dims, tileset: rc_clone(tileset), map: tids }
    }

    /// The map for the room adjoining this one in the given direction
    /// (0 up, 1 right, 2 down, 3 left), sharing the tileset; any other
    /// direction keeps x and moves the room to y = 100.
    pub open spec fn next_room_pos(self, direction: int) -> (int, int) {
        if direction == 0 {
            (self.position.0 as int, self.position.1 - self.dims.1 * 32)
        } else if direction == 1 {
            (self.position.0 + self.dims.0 * 32, self.position.1 as int)
        } else if direction == 2 {
            (self.position.0 as int, self.position.1 + self.dims.1 * 32)
        } else if direction == 3 {
            (self.position.0 - self.dims.0 * 32, self.position.1 as int)
        } else {
            (self.position.0 as int, 100)
        }
    }

    /// Builds the adjoining room's tilemap from raw tile indices, placed
    /// edge to edge with this one.
    pub fn next_room(&self, direction: usize, dims: (usize, usize), map: Vec<usize>) -> (t: Tilemap)
        requires
            self.wf(),
            map@.len() == dims.0 * dims.1,
            forall|k: int| 0 <= k < map@.len() ==> #[trigger] map@[k] < self.tileset.tiles@.len(),
            i32::MIN <= self.next_room_pos(direction as int).0,
            i32::MIN <= self.next_room_pos(direction as int).1,
            self.next_room_pos(direction as int).0 + dims.0 * 32 <= i32::MAX,
            self.next_room_pos(direction as int).1 + dims.1 * 32 <= i32::MAX,
        ensures
            t.wf(),
            t.position.0 == self.next_room_pos(direction as int).0,
            t.position.1 == self.next_room_pos(direction as int).1,
            t.dims == dims,
            t.tileset == self.tileset,
            t.map@.len() == map@.len(),
            forall|k: int| 0 <= k < map@.len() ==> (#[trigger] t.map@[k]).0 == map@[k],
    {
        let px = self.position.0 as i64;
        let py = self.position.1 as i64;
        let (x, y): (i64, i64) = if direction == 0 {
            (px, py - (self.dims.1 as i64) * 32)
        } else if direction == 1 {
            (px + (self.dims.0 as i64) * 32, py)
        } else if direction == 2 {
            (px, py + (self.dims.1 as i64) * 32)
        } else if direction == 3 {
            (px - (self.dims.0 as i64) * 32, py)
        } else {
            (px, 100)
        };
        Tilemap::new(Vec2i(x as i32, y as i32), dims, &self.tileset, map)
    }

    /// Atomically replaces the whole tile-ID grid (used to regenerate
    /// scrolled-off segments); the new grid must satisfy the same
    /// invariant as construction.
    #[verifier::loop_isolation(false)]
    pub fn new_map(&mut self, map: Vec<usize>)
        requires
            old(self).wf(),
            map@.len() == old(self).dims.0 * old(self).dims.1,
            forall|k: int|
                0 <= k < map@.len() ==> #[trigger] map@[k] < old(self).tileset.tiles@.len(),
        ensures
            final(self).wf(),
            final(self).position == old(self).position,
            final(self).dims == old(self).dims,
            final(self).tileset == old(self).tileset,
            final(self).map@.len() == map@.len(),
            forall|k: int| 0 <= k < map@.len() ==> (#[trigger] final(self).map@[k]).0 == map@[k],
    {
        let mut tids: Vec<TileID> = Vec::new();
        let mut i: usize = 0;
        while i < map.len()
            invariant
                i <= map@.len(),
                tids@.len() == i,
                forall|k: int| 0 <= k < i ==> (#[trigger] tids@[k]).0 == map@[k],
            decreases map@.len() - i,
        {
            tids.push(TileID(map[i]));
            i = i + 1;
        }
        self.map = tids;
    }

    /// An independent copy of the tilemap that shares the tileset, as
    /// copies of maps do; the grid itself is duplicated, so replacing one
    /// copy's grid leaves the other alone.
    #[verifier::loop_isolation(false)]
    pub fn duplicate(&self) -> (t: Tilemap)
        ensures
            t.position == self.position,
            t.dims == self.dims,
            t.tileset == self.tileset,
            t.map@ == self.map@,
    {
        let mut tids: Vec<TileID> = Vec::new();
        let mut i: usize = 0;
        while i < self.map.len()
            invariant
                i <= self.map@.len(),
                tids@ == self.map@.take(i as int),
            decreases self.map@.len() - i,
        {
            tids.push(self.map[i]);
            i = i + 1;
        }
        proof {
            assert(tids@ =~= self.map@);
        }
        Tilemap { position: self.position, dims: self.dims, tileset: rc_clone(&self.tileset), map: tids }
    }

    /// The tile ID under a world point, with the point's grid coordinates.
    /// The point must lie inside the map's world extent; the collision
    /// engine checks this explicitly before calling.
    pub fn tile_id_at(&self, posn: Vec2i) -> (r: (TileID, Vec2i))
        requires
            self.wf(),
            self.in_extent(posn),
        ensures
            0 <= self.tile_coord_x(posn) < self.dims.0,
            0 <= self.tile_coord_y(posn) < self.dims.1,
            r.1.0 == self.tile_coord_x(posn),
            r.1.1 == self.tile_coord_y(posn),
            r.0 == self.map@[self.tile_coord_y(posn) * self.dims.0 + self.tile_coord_x(posn)],
    {
        let mlen = self.map.len();
        let dx = (((posn.0 as i64 - self.position.0 as i64) as u64) / 32) as usize;
        let dy = (((posn.1 as i64 - self.position.1 as i64) as u64) / 32) as usize;
        proof {
            let qx = posn.0 - self.position.0 as int;
            let qy = posn.1 - self.position.1 as int;
            assert(qx / 32 < self.dims.0 && qy / 32 < self.dims.1) by (nonlinear_arith)
                requires
                    0 <= qx < self.dims.0 * 32,
                    0 <= qy < self.dims.1 * 32,
            ;
            vstd::arithmetic::div_mod::lemma_div_pos_is_pos(qx, 32);
            vstd::arithmetic::div_mod::lemma_div_pos_is_pos(qy, 32);
            assert(dy * self.dims.0 + dx < self.dims.0 * self.dims.1) by (nonlinear_arith)
                requires
                    dx < self.dims.0,
                    dy < self.dims.1,
                    0 <= dx,
                    0 <= dy,
            ;
            assert(dy * self.dims.0 + dx < mlen);
        }
        let i = dy * self.dims.0 + dx;
        (self.map[i], Vec2i(dx as i32, dy as i32))
    }

    /// Grid size as (columns, rows).
    pub fn size(&self) -> (s: (usize, usize))
        ensures
            s == self.dims,
    {
        self.dims
    }

    /// The tile under a world point, with the point's grid coordinates.
    pub fn tile_at(&self, posn: Vec2i) -> (r: (Tile, Vec2i))
        requires
            self.wf(),
            self.in_extent(posn),
        ensures
            0 <= self.tile_coord_x(posn) < self.dims.0,
            0 <= self.tile_coord_y(posn) < self.dims.1,
            r.1.0 == self.tile_coord_x(posn),
            r.1.1 == self.tile_coord_y(posn),
            r.0 == self.tileset.tiles@[self.map@[self.tile_coord_y(posn) * self.dims.0
                + self.tile_coord_x(posn)].0 as int],
    {
        let tile = self.tile_id_at(posn);
        proof {
            let cx = self.tile_coord_x(posn);
            let cy = self.tile_coord_y(posn);
            assert(cy * self.dims.0 + cx < self.dims.0 * self.dims.1) by (nonlinear_arith)
                requires
                    0 <= cx < self.dims.0,
                    0 <= cy < self.dims.1,
            ;
        }
        (self.tileset.tile(tile.0), tile.1)
    }

    /// The leftmost visible tile column for a camera rectangle.
    pub open spec fn vis_left(self, cam: Rect) -> int {
        clamp_tile((cam.x - self.position.0) / 32, self.dims.0 as int)
    }

    /// One past the rightmost visible tile column, padded by one tile so a
    /// partially visible edge tile is never missed.
    pub open spec fn vis_right(self, cam: Rect) -> int {
        clamp_tile((cam.x + cam.w + 32 - self.position.0) / 32, self.dims.0 as int)
    }

    /// The topmost visible tile row for a camera rectangle.
    pub open spec fn vis_top(self, cam: Rect) -> int {
        clamp_tile((cam.y - self.position.1) / 32, self.dims.1 as int)
    }

    /// One past the bottommost visible tile row, padded by one tile.
    pub open spec fn vis_bot(self, cam: Rect) -> int {
        clamp_tile((cam.y + cam.h + 32 - self.position.1) / 32, self.dims.1 as int)
    }

    /// Draws exactly the camera-visible sub-grid of tiles: the visible
    /// tile-index rectangle is the intersection of the camera bounds
    /// (padded by one tile on the right and bottom) with the map's extent,
    /// and only those tiles are blitted, in row-major order.
    #[verifier::loop_isolation(false)]
    #[verifier::rlimit(60)]
    pub fn draw(&self, screen: &mut Screen)
        requires
            self.wf(),
            old(screen).wf(),
        ensures
            final(screen).wf(),
            same_shape(*old(screen), *final(screen)),
            final(screen).framebuffer@ == spec_draw_rows(
                old(screen).framebuffer@,
                old(screen).width as int,
                old(screen).position.0 as int,
                old(screen).position.1 as int,
                *self,
                self.vis_left(old(screen).spec_bounds()),
                self.vis_right(old(screen).spec_bounds()),
                self.vis_top(old(screen).spec_bounds()),
                self.vis_bot(old(screen).spec_bounds()),
            ),
    {
        let b = screen.bounds();
        let mlen = self.map.len();
        let cols = self.dims.0;
        let rows = self.dims.1;
        let qx = b.x as i64 - self.position.0 as i64;
        let qx2 = b.x as i64 + b.w as i64 + 32 - self.position.0 as i64;
        let qy = b.y as i64 - self.position.1 as i64;
        let qy2 = b.y as i64 + b.h as i64 + 32 - self.position.1 as i64;
        let left: usize = if qx < 0 {
            0
        } else if (qx as u64) / 32 >= cols as u64 {
            cols
        } else {
            ((qx as u64) / 32) as usize
        };
        let right: usize = if qx2 < 0 {
            0
        } else if (qx2 as u64) / 32 >= cols as u64 {
            cols
        } else {
            ((qx2 as u64) / 32) as usize
        };
        let top: usize = if qy < 0 {
            0
        } else if (qy as u64) / 32 >= rows as u64 {
            rows
        } else {
            ((qy as u64) / 32) as usize
        };
        let bot: usize = if qy2 < 0 {
            0
        } else if (qy2 as u64) / 32 >= rows as u64 {
            rows
        } else {
            ((qy2 as u64) / 32) as usize
        };
        proof {
            assert(left as int == self.vis_left(b));
            assert(right as int == self.vis_right(b));
            assert(top as int == self.vis_top(b));
            assert(bot as int == self.vis_bot(b));
        }
        let ghost fb0 = screen.framebuffer@;
        let ghost w = old(screen).width as int;
        let ghost camx = old(screen).position.0 as int;
        let ghost camy = old(screen).position.1 as int;
        let mut y = top;
        while y < bot
            invariant
                top <= y <= bot,
                screen.wf(),
                same_shape(*old(screen), *screen),
                spec_draw_rows(fb0, w, camx, camy, *self, left as int, right as int, top as int, bot as int)
                    == spec_draw_rows(
                    screen.framebuffer@,
                    w,
                    camx,
                    camy,
                    *self,
                    left as int,
                    right as int,
                    y as int,
                    bot as int,
                ),
            decreases bot - y,
        {
            let mut x = left;
            while x < right
                invariant
                    left <= x <= right,
                    y < bot,
                    screen.wf(),
                    same_shape(*old(screen), *screen),
                    spec_draw_rows(
                        fb0,
                        w,
                        camx,
                        camy,
                        *self,
                        left as int,
                        right as int,
                        top as int,
                        bot as int,
                    ) == spec_draw_rows(
                        spec_draw_row(
                            screen.framebuffer@,
                            w,
                            camx,
                            camy,
                            *self,
                            y as int,
                            x as int,
                            right as int,
                        ),
                        w,
                        camx,
                        camy,
                        *self,
                        left as int,
                        right as int,
                        y as int + 1,
                        bot as int,
                    ),
                decreases right - x,
            {
                proof {
                    assert(y * cols + x < cols * rows) by (nonlinear_arith)
                        requires
                            x < cols,
                            y < rows,
                            0 <= x,
                            0 <= y,
                    ;
                    assert(y * cols + x < mlen);
                }
                let id = self.map[y * cols + x];
                let frame = self.tileset.get_rect(id);
                let xpx = (x as i64 * 32 + self.position.0 as i64) as i32;
                let ypx = (y as i64 * 32 + self.position.1 as i64) as i32;
                screen.bitblt(&self.tileset.texture, frame, Vec2i(xpx, ypx), false);
                x = x + 1;
            }
            y = y + 1;
        }
    }
}

} // verus!
