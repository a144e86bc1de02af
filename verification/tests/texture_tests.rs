use tile_engine::texture::Texture;
use tile_engine::types::Rect;

/// Encodes a small RGBA image as PNG bytes, in memory.
fn png_bytes(w: u32, h: u32, pixels: Vec<u8>) -> Vec<u8> {
    let img = image::RgbaImage::from_raw(w, h, pixels).unwrap();
    let mut cursor = std::io::Cursor::new(Vec::new());
    img.write_to(&mut cursor, image::ImageFormat::Png).unwrap();
    cursor.into_inner()
}

#[test]
fn load_decodes_and_premultiplies() {
    let bytes = png_bytes(
        2,
        1,
        vec![
            255, 128, 0, 128, // premultiplies to 128, 64, 0, 128
            10, 20, 30, 255, // opaque pixel is unchanged
        ],
    );
    let t = Texture::load(&bytes).unwrap();
    assert_eq!(t.size(), (2, 1));
    assert_eq!(t.depth(), 4);
    assert_eq!(t.pitch(), 8);
    assert_eq!(t.buffer().as_slice(), &[128, 64, 0, 128, 10, 20, 30, 255]);
}

#[test]
fn load_same_bytes_twice_is_byte_identical() {
    let bytes = png_bytes(3, 2, (0u8..24).collect());
    let t1 = Texture::load(&bytes).unwrap();
    let t2 = Texture::load(&bytes).unwrap();
    assert_eq!(t1.buffer(), t2.buffer());
    assert_eq!(t1.size(), t2.size());
}

#[test]
fn load_rejects_malformed_bytes() {
    let r = Texture::load(b"not an image at all");
    assert!(r.is_err());
}

#[test]
fn new_premultiplies_in_place() {
    let t = Texture::new(vec![255, 255, 255, 0, 100, 200, 50, 51], 2, 1);
    // alpha 0 clears the color channels; alpha 51 scales by 51/255 = 1/5
    assert_eq!(t.buffer().as_slice(), &[0, 0, 0, 0, 20, 40, 10, 51]);
}

#[test]
fn premultiply_is_deterministic() {
    let raw = vec![9, 250, 77, 123, 0, 1, 2, 3];
    let t1 = Texture::new(raw.clone(), 2, 1);
    let t2 = Texture::new(raw, 2, 1);
    assert_eq!(t1.buffer(), t2.buffer());
}

#[test]
fn valid_frame_inside_and_outside() {
    let t = Texture::new(vec![0; 8 * 4 * 4], 8, 4);
    assert!(t.valid_frame(Rect { x: 0, y: 0, w: 8, h: 4 }));
    assert!(t.valid_frame(Rect { x: 3, y: 1, w: 5, h: 3 }));
    assert!(!t.valid_frame(Rect { x: 3, y: 1, w: 6, h: 3 }));
    assert!(!t.valid_frame(Rect { x: -1, y: 0, w: 2, h: 2 }));
    assert!(!t.valid_frame(Rect { x: 0, y: 2, w: 1, h: 3 }));
}
