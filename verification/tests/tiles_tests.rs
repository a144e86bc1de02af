use std::rc::Rc;
use tile_engine::screen::Screen;
use tile_engine::texture::Texture;
use tile_engine::tiles::Tile;
use tile_engine::tiles::TileID;
use tile_engine::tiles::Tilemap;
use tile_engine::tiles::Tileset;
use tile_engine::types::Effect;
use tile_engine::types::Rect;
use tile_engine::types::Rgba;
use tile_engine::types::Vec2i;

/// A 64x64 texture of four 32x32 tiles, each a solid distinct color.
fn four_tile_texture() -> Rc<Texture> {
    let colors: [[u8; 4]; 4] = [
        [10, 0, 0, 255],
        [0, 20, 0, 255],
        [0, 0, 30, 255],
        [40, 40, 40, 255],
    ];
    let mut px = vec![0u8; 64 * 64 * 4];
    for y in 0..64 {
        for x in 0..64 {
            let tile = (y / 32) * 2 + x / 32;
            let i = (y * 64 + x) * 4;
            px[i..i + 4].copy_from_slice(&colors[tile]);
        }
    }
    Rc::new(Texture::new(px, 64, 64))
}

fn plain_tiles() -> Vec<Tile> {
    vec![
        Tile { solid: false, collide: Effect::Nothing },
        Tile { solid: true, collide: Effect::Nothing },
        Tile { solid: false, collide: Effect::Speedup(2) },
        Tile { solid: true, collide: Effect::Hurt(1) },
    ]
}

#[test]
fn get_rect_walks_the_texture_grid() {
    let ts = Tileset::new(plain_tiles(), &four_tile_texture());
    assert_eq!(ts.get_rect(TileID(0)), Rect { x: 0, y: 0, w: 32, h: 32 });
    assert_eq!(ts.get_rect(TileID(1)), Rect { x: 32, y: 0, w: 32, h: 32 });
    assert_eq!(ts.get_rect(TileID(2)), Rect { x: 0, y: 32, w: 32, h: 32 });
    assert_eq!(ts.get_rect(TileID(3)), Rect { x: 32, y: 32, w: 32, h: 32 });
}

#[test]
fn contains_checks_the_tile_list() {
    let ts = Tileset::new(plain_tiles(), &four_tile_texture());
    assert!(ts.contains(TileID(0)));
    assert!(ts.contains(TileID(3)));
    assert!(!ts.contains(TileID(4)));
}

fn sample_map() -> Tilemap {
    let ts = Rc::new(Tileset::new(plain_tiles(), &four_tile_texture()));
    Tilemap::new(Vec2i(64, 32), (4, 3), &ts, vec![0, 1, 2, 3, 3, 2, 1, 0, 0, 0, 1, 1])
}

#[test]
fn tile_id_at_translates_world_points() {
    let m = sample_map();
    let (id, cell) = m.tile_id_at(Vec2i(64, 32));
    assert_eq!(id, TileID(0));
    assert_eq!(cell, Vec2i(0, 0));
    let (id, cell) = m.tile_id_at(Vec2i(64 + 127, 32 + 95));
    assert_eq!(id, TileID(1));
    assert_eq!(cell, Vec2i(3, 2));
    let (id, cell) = m.tile_id_at(Vec2i(64 + 40, 32 + 33));
    assert_eq!(id, TileID(2));
    assert_eq!(cell, Vec2i(1, 1));
}

#[test]
fn tile_at_returns_the_tile_metadata() {
    let m = sample_map();
    let (tile, cell) = m.tile_at(Vec2i(64 + 96, 32));
    assert_eq!(cell, Vec2i(3, 0));
    assert!(tile.solid);
    assert_eq!(tile.collide, Effect::Hurt(1));
    assert_eq!(m.size(), (4, 3));
}

#[test]
fn replace_grid_then_read_back_every_cell() {
    let mut m = sample_map();
    let fresh = vec![3, 2, 1, 0, 0, 1, 2, 3, 1, 1, 0, 0];
    m.new_map(fresh.clone());
    for cy in 0..3i32 {
        for cx in 0..4i32 {
            let p = Vec2i(64 + cx * 32, 32 + cy * 32);
            let (id, cell) = m.tile_id_at(p);
            assert_eq!(cell, Vec2i(cx, cy));
            assert_eq!(id, TileID(fresh[(cy * 4 + cx) as usize]));
        }
    }
}

#[test]
fn duplicate_shares_the_tileset_but_not_the_grid() {
    let mut m = sample_map();
    let copy = m.duplicate();
    assert_eq!(copy.position, m.position);
    assert_eq!(copy.dims, m.dims);
    // replacing the original's grid leaves the copy alone
    m.new_map(vec![0; 12]);
    let (id, _) = copy.tile_id_at(Vec2i(64 + 96, 32));
    assert_eq!(id, TileID(3));
    let (id, _) = m.tile_id_at(Vec2i(64 + 96, 32));
    assert_eq!(id, TileID(0));
}

#[test]
fn next_room_places_rooms_edge_to_edge() {
    let m = sample_map();
    let ids = vec![0; 12];
    assert_eq!(m.next_room(0, (4, 3), ids.clone()).position, Vec2i(64, 32 - 96));
    assert_eq!(m.next_room(1, (4, 3), ids.clone()).position, Vec2i(64 + 128, 32));
    assert_eq!(m.next_room(2, (4, 3), ids.clone()).position, Vec2i(64, 32 + 96));
    assert_eq!(m.next_room(3, (4, 3), ids.clone()).position, Vec2i(64 - 128, 32));
    assert_eq!(m.next_room(9, (4, 3), ids).position, Vec2i(64, 100));
}

fn pixel(s: &Screen, x: usize, y: usize) -> [u8; 4] {
    let (w, _) = s.size();
    let fb = s.framebuffer.as_slice();
    let i = (y * w + x) * 4;
    [fb[i], fb[i + 1], fb[i + 2], fb[i + 3]]
}

#[test]
fn draw_paints_exactly_the_visible_window() {
    // a 4x4-tile map at the origin, each cell showing one of four colors
    let ts = Rc::new(Tileset::new(plain_tiles(), &four_tile_texture()));
    let ids = vec![0, 1, 2, 3, 1, 2, 3, 0, 2, 3, 0, 1, 3, 0, 1, 2];
    let m = Tilemap::new(Vec2i(0, 0), (4, 4), &ts, ids.clone());
    let colors: [[u8; 4]; 4] = [
        [10, 0, 0, 255],
        [0, 20, 0, 255],
        [0, 0, 30, 255],
        [40, 40, 40, 255],
    ];
    // camera window inside the map, straddling tile boundaries
    let mut s = Screen::wrap(vec![0u8; 32 * 32 * 4], 32, 32, 4, Vec2i(33, 33));
    m.draw(&mut s);
    for y in 0..32usize {
        for x in 0..32usize {
            let wx = 33 + x as i32;
            let wy = 33 + y as i32;
            let cell = ((wy / 32) * 4 + wx / 32) as usize;
            assert_eq!(pixel(&s, x, y), colors[ids[cell]], "world ({}, {})", wx, wy);
        }
    }
}

#[test]
fn draw_leaves_pixels_outside_the_map_untouched() {
    let ts = Rc::new(Tileset::new(plain_tiles(), &four_tile_texture()));
    let m = Tilemap::new(Vec2i(0, 0), (2, 2), &ts, vec![0, 1, 2, 3]);
    // camera sees the map's bottom-right tile in its top-left corner only
    let mut s = Screen::wrap(vec![0u8; 64 * 64 * 4], 64, 64, 4, Vec2i(32, 32));
    s.clear(Rgba(7, 7, 7, 7));
    m.draw(&mut s);
    assert_eq!(pixel(&s, 0, 0), [40, 40, 40, 255]);
    assert_eq!(pixel(&s, 31, 31), [40, 40, 40, 255]);
    assert_eq!(pixel(&s, 32, 0), [7, 7, 7, 7]);
    assert_eq!(pixel(&s, 0, 32), [7, 7, 7, 7]);
    assert_eq!(pixel(&s, 63, 63), [7, 7, 7, 7]);
}
