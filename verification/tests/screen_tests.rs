use tile_engine::screen::Screen;
use tile_engine::texture::Texture;
use tile_engine::types::Rect;
use tile_engine::types::Rgba;
use tile_engine::types::Vec2i;

fn blank_screen(w: usize, h: usize, cam: Vec2i) -> Screen {
    Screen::wrap(vec![0u8; w * h * 4], w, h, 4, cam)
}

fn pixel(s: &Screen, x: usize, y: usize) -> [u8; 4] {
    let (w, _) = s.size();
    let fb = s.framebuffer.as_slice();
    let i = (y * w + x) * 4;
    [fb[i], fb[i + 1], fb[i + 2], fb[i + 3]]
}

#[test]
fn clear_fills_every_pixel() {
    let mut s = blank_screen(4, 3, Vec2i(0, 0));
    s.clear(Rgba(1, 2, 3, 4));
    for y in 0..3 {
        for x in 0..4 {
            assert_eq!(pixel(&s, x, y), [1, 2, 3, 4]);
        }
    }
}

#[test]
fn draw_at_translates_by_camera_and_clips() {
    let mut s = blank_screen(4, 4, Vec2i(10, 20));
    s.draw_at(Rgba(9, 9, 9, 255), Vec2i(12, 21));
    assert_eq!(pixel(&s, 2, 1), [9, 9, 9, 255]);
    // outside the camera window: no pixel is written
    s.draw_at(Rgba(7, 7, 7, 255), Vec2i(9, 20));
    s.draw_at(Rgba(7, 7, 7, 255), Vec2i(14, 20));
    for y in 0..4 {
        for x in 0..4 {
            if (x, y) != (2, 1) {
                assert_eq!(pixel(&s, x, y), [0, 0, 0, 0]);
            }
        }
    }
}

#[test]
fn rect_clips_to_buffer() {
    let mut s = blank_screen(4, 4, Vec2i(0, 0));
    s.rect(Rect { x: -2, y: 2, w: 4, h: 10 }, Rgba(5, 6, 7, 8));
    for y in 0..4 {
        for x in 0..4 {
            let expect = if x < 2 && y >= 2 { [5, 6, 7, 8] } else { [0, 0, 0, 0] };
            assert_eq!(pixel(&s, x, y), expect);
        }
    }
}

#[test]
fn empty_rect_draws_only_the_border() {
    let mut s = blank_screen(6, 6, Vec2i(0, 0));
    s.empty_rect(Rect { x: 1, y: 1, w: 4, h: 4 }, 1, Rgba(9, 9, 9, 9));
    for y in 0..6 {
        for x in 0..6 {
            let inside = (1..5).contains(&x) && (1..5).contains(&y);
            let interior = (2..4).contains(&x) && (2..4).contains(&y);
            let expect = if inside && !interior { [9, 9, 9, 9] } else { [0, 0, 0, 0] };
            assert_eq!(pixel(&s, x, y), expect, "at ({}, {})", x, y);
        }
    }
}

#[test]
fn empty_rect_no_corners_shortens_the_side_bands() {
    let mut s = blank_screen(8, 8, Vec2i(0, 0));
    s.empty_rect_no_corners(Rect { x: 1, y: 1, w: 6, h: 6 }, 2, Rgba(3, 3, 3, 3));
    // horizontal bands span the full width; vertical bands start below
    // them, so each band is painted exactly once
    for y in 0..8 {
        for x in 0..8 {
            let inside = (1..7).contains(&x) && (1..7).contains(&y);
            let interior = (3..5).contains(&x) && (3..5).contains(&y);
            let expect = if inside && !interior { [3, 3, 3, 3] } else { [0, 0, 0, 0] };
            assert_eq!(pixel(&s, x, y), expect, "at ({}, {})", x, y);
        }
    }
}

fn painted(s: &Screen) -> Vec<(usize, usize)> {
    let (w, h) = s.size();
    let mut out = Vec::new();
    for y in 0..h {
        for x in 0..w {
            if pixel(s, x, y) != [0, 0, 0, 0] {
                out.push((x, y));
            }
        }
    }
    out
}

#[test]
fn line_narrow_buffer_plots_subset_of_wide_buffer() {
    let c = Rgba(255, 255, 255, 255);
    let mut wide = blank_screen(20, 20, Vec2i(0, 0));
    wide.line(Vec2i(0, 0), Vec2i(10, 3), c);
    let mut narrow = blank_screen(5, 20, Vec2i(0, 0));
    narrow.line(Vec2i(0, 0), Vec2i(10, 3), c);
    let wide_set = painted(&wide);
    for p in painted(&narrow) {
        assert!(wide_set.contains(&p), "{:?} plotted only in the narrow buffer", p);
    }
    // and the narrow buffer holds exactly the wide buffer's pixels with x < 5
    for p in &wide_set {
        if p.0 < 5 {
            assert!(painted(&narrow).contains(p));
        }
    }
}

#[test]
fn line_endpoint_is_excluded() {
    let c = Rgba(1, 1, 1, 1);
    let mut s = blank_screen(8, 8, Vec2i(0, 0));
    s.line(Vec2i(1, 1), Vec2i(5, 1), c);
    assert_eq!(pixel(&s, 1, 1), [1, 1, 1, 1]);
    assert_eq!(pixel(&s, 4, 1), [1, 1, 1, 1]);
    assert_eq!(pixel(&s, 5, 1), [0, 0, 0, 0]);
}

/// A 2x2 texture of four distinct opaque colors.
fn four_color_texture() -> Texture {
    Texture::new(
        vec![
            10, 0, 0, 255, 0, 20, 0, 255, //
            0, 0, 30, 255, 40, 40, 40, 255,
        ],
        2,
        2,
    )
}

#[test]
fn bitblt_copies_opaque_pixels() {
    let t = four_color_texture();
    let mut s = blank_screen(4, 4, Vec2i(0, 0));
    s.bitblt(&t, Rect { x: 0, y: 0, w: 2, h: 2 }, Vec2i(1, 1), false);
    assert_eq!(pixel(&s, 1, 1), [10, 0, 0, 255]);
    assert_eq!(pixel(&s, 2, 1), [0, 20, 0, 255]);
    assert_eq!(pixel(&s, 1, 2), [0, 0, 30, 255]);
    assert_eq!(pixel(&s, 2, 2), [40, 40, 40, 255]);
    assert_eq!(pixel(&s, 0, 0), [0, 0, 0, 0]);
}

#[test]
fn bitblt_flip_mirrors_source_columns() {
    let t = four_color_texture();
    let mut s = blank_screen(4, 4, Vec2i(0, 0));
    s.bitblt(&t, Rect { x: 0, y: 0, w: 2, h: 2 }, Vec2i(0, 0), true);
    assert_eq!(pixel(&s, 0, 0), [0, 20, 0, 255]);
    assert_eq!(pixel(&s, 1, 0), [10, 0, 0, 255]);
    assert_eq!(pixel(&s, 0, 1), [40, 40, 40, 255]);
    assert_eq!(pixel(&s, 1, 1), [0, 0, 30, 255]);
}

#[test]
fn bitblt_straddling_an_edge_writes_only_the_intersection() {
    let t = four_color_texture();
    let mut s = blank_screen(4, 4, Vec2i(0, 0));
    s.clear(Rgba(100, 100, 100, 255));
    let before = s.framebuffer.clone();
    s.bitblt(&t, Rect { x: 0, y: 0, w: 2, h: 2 }, Vec2i(-1, -1), false);
    // only buffer pixel (0, 0) lies in the intersection
    assert_eq!(pixel(&s, 0, 0), [40, 40, 40, 255]);
    let (w, _) = s.size();
    for y in 0..4usize {
        for x in 0..4usize {
            if (x, y) != (0, 0) {
                let i = (y * w + x) * 4;
                assert_eq!(s.framebuffer[i..i + 4], before[i..i + 4]);
            }
        }
    }
}

#[test]
fn bitblt_preclipped_call_writes_identical_pixels() {
    let t = four_color_texture();
    let mut unclipped = blank_screen(3, 3, Vec2i(0, 0));
    unclipped.bitblt(&t, Rect { x: 0, y: 0, w: 2, h: 2 }, Vec2i(-1, -1), false);
    let mut preclipped = blank_screen(3, 3, Vec2i(0, 0));
    preclipped.bitblt(&t, Rect { x: 1, y: 1, w: 1, h: 1 }, Vec2i(0, 0), false);
    assert_eq!(unclipped.framebuffer, preclipped.framebuffer);
}

#[test]
fn bitblt_composites_translucent_source_over_background() {
    // premultiplied source pixel: color (255, 0, 0) at alpha 128
    let t = Texture::new(vec![255, 0, 0, 128], 1, 1);
    let mut s = blank_screen(1, 1, Vec2i(0, 0));
    s.clear(Rgba(0, 100, 0, 255));
    s.bitblt(&t, Rect { x: 0, y: 0, w: 1, h: 1 }, Vec2i(0, 0), false);
    // src + dst * (255 - 128) / 255, rounded to nearest:
    // red 128, green round(100 * 127 / 255) = round(49.8) = 50
    assert_eq!(pixel(&s, 0, 0), [128, 50, 0, 255]);
}

#[test]
fn bitblt_entirely_outside_is_a_no_op() {
    let t = four_color_texture();
    let mut s = blank_screen(4, 4, Vec2i(0, 0));
    s.clear(Rgba(8, 8, 8, 8));
    let before = s.framebuffer.clone();
    s.bitblt(&t, Rect { x: 0, y: 0, w: 2, h: 2 }, Vec2i(7, 0), false);
    s.bitblt(&t, Rect { x: 0, y: 0, w: 2, h: 2 }, Vec2i(0, -2), false);
    assert_eq!(s.framebuffer, before);
}

#[test]
fn draw_glyph_paints_mask_and_transparent_holes() {
    let mut s = blank_screen(4, 4, Vec2i(0, 0));
    s.clear(Rgba(50, 50, 50, 255));
    let bitmap = vec![0, 255, 255, 0];
    s.draw_glyph(&bitmap, 2, 2, Vec2i(1, 1), Rgba(200, 0, 0, 255));
    assert_eq!(pixel(&s, 1, 1), [0, 0, 0, 0]);
    assert_eq!(pixel(&s, 2, 1), [200, 0, 0, 255]);
    assert_eq!(pixel(&s, 1, 2), [200, 0, 0, 255]);
    assert_eq!(pixel(&s, 2, 2), [0, 0, 0, 0]);
    assert_eq!(pixel(&s, 0, 0), [50, 50, 50, 255]);
    assert_eq!(pixel(&s, 3, 3), [50, 50, 50, 255]);
}

#[test]
fn bounds_reports_camera_rect() {
    let s = blank_screen(7, 5, Vec2i(-3, 12));
    assert_eq!(s.bounds(), Rect { x: -3, y: 12, w: 7, h: 5 });
    assert_eq!(s.size(), (7, 5));
}

#[test]
fn into_buffer_returns_the_pixels() {
    let mut s = blank_screen(2, 1, Vec2i(0, 0));
    s.clear(Rgba(1, 2, 3, 4));
    assert_eq!(s.into_buffer(), vec![1, 2, 3, 4, 1, 2, 3, 4]);
}
