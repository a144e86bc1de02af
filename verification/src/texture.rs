//! Decoded, alpha-premultiplied image assets.

use crate::types::Rect;
use vstd::pervasive::VecAdditionalExecFns;
use vstd::prelude::*;

verus! {

/// Owns decoded pixel data for one image asset, in RGBA8 premultiplied-alpha
/// row-major layout. Immutable after construction; shared read-only by every
/// sprite or tileset that references it.
pub struct Texture {
    pub image: Vec<u8>,
    pub width: usize,
    pub height: usize,
    pub depth: usize,
}

/// The error reported when raw image bytes do not decode.
#[derive(Debug)]
pub struct DecodeError {
    pub message: String,
}

/// One byte of the premultiplied form of the RGBA8 buffer `s`: color
/// channels are scaled by their pixel's alpha channel (rounding down),
/// the alpha channel itself is kept.
pub open spec fn premul_byte(s: Seq<u8>, i: int) -> u8 {
    if i % 4 == 3 {
        s[i]
    } else {
        ((s[i] * s[4 * (i / 4) + 3]) / 255) as u8
    }
}

/// The premultiplied form of an RGBA8 byte buffer.
pub open spec fn premultiplied(s: Seq<u8>) -> Seq<u8> {
    Seq::new(s.len(), |i: int| premul_byte(s, i))
}

/// One premultiplied color channel: the channel scaled by the pixel's
/// alpha, rounding down.
fn premul_channel(c: u8, a: u8) -> (r: u8)
    ensures
        r == (c * a) / 255,
{
    proof {
        assert(c * a <= 255 * 255) by (nonlinear_arith)
            requires
                c <= 255,
                a <= 255,
        ;
    }
    ((c as u32 * a as u32) / 255) as u8
}

/// Scales each pixel's color channels by its alpha channel, in place.
/// Premultiplication happens once, at texture load time; every later
/// composite is a plain "over" addition.
pub fn premultiply(img: &mut Vec<u8>)
    requires
        old(img)@.len() % 4 == 0,
    ensures
        final(img)@ == premultiplied(old(img)@),
{
    let len = img.len();
    let pixels = len / 4;
    proof {
        assert(len == pixels * 4) by {
            vstd::arithmetic::div_mod::lemma_fundamental_div_mod(len as int, 4);
        }
    }
    let mut p: usize = 0;
    while p < pixels
        invariant
            img@.len() == len,
            old(img)@.len() == len,
            len == pixels * 4,
            p <= pixels,
            forall|i: int| 0 <= i < 4 * p ==> img@[i] == premul_byte(old(img)@, i),
            forall|i: int| 4 * p <= i < len ==> img@[i] == old(img)@[i],
        decreases pixels - p,
    {
        let a = img[4 * p + 3];
        let c0 = img[4 * p];
        let c1 = img[4 * p + 1];
        let c2 = img[4 * p + 2];
        img.set(4 * p, premul_channel(c0, a));
        img.set(4 * p + 1, premul_channel(c1, a));
        img.set(4 * p + 2, premul_channel(c2, a));
        proof {
            assert forall|i: int| 0 <= i < 4 * (p + 1) implies img@[i] == premul_byte(
                old(img)@,
                i,
            ) by {
                if 4 * p <= i {
                    assert(i / 4 == p && (4 * (i / 4) + 3) == 4 * p + 3);
                }
            }
        }
        p = p + 1;
    }
    proof {
        assert(img@ =~= premultiplied(old(img)@));
    }
}

/// What the outside image decoder yields for the given encoded bytes:
/// `None` when they do not decode, otherwise the raw (not yet
/// premultiplied) RGBA8 bytes with the image's width and height.
pub uninterp spec fn decoded_rgba(bytes: Seq<u8>) -> Option<(Seq<u8>, int, int)>;

/// Relies on image::load_from_memory and image::DynamicImage::into_rgba8:
/// a successful decode yields an RGBA8 buffer holding at least
/// width*height*4 bytes, and both success and the decoded bytes are a
/// function of the encoded bytes alone.
#[verifier::external_body]
fn decode_rgba(bytes: &[u8]) -> (r: Result<(Vec<u8>, u32, u32), String>)
    ensures
        match r {
            Ok(d) => {
                &&& decoded_rgba(bytes@) == Some((d.0@, d.1 as int, d.2 as int))
                &&& d.0@.len() >= d.1 * d.2 * 4
                &&& d.1 * d.2 * 4 <= usize::MAX
            },
            Err(_) => decoded_rgba(bytes@) is None,
        },
{
    match image::load_from_memory(bytes) {
        Ok(img) => {
            let rgba = img.into_rgba8();
            let (w, h) = rgba.dimensions();
            Ok((rgba.into_raw(), w, h))
        },
        Err(e) => Err(format!("{}", e)),
    }
}

/// Spec-level result of `Texture::load`: the decoded pixel area,
/// premultiplied, with the image's width and height; `None` exactly when
/// the bytes do not decode.
pub open spec fn load_spec(bytes: Seq<u8>) -> Option<(Seq<u8>, int, int)> {
    match decoded_rgba(bytes) {
        Some(d) => Some((premultiplied(d.0.take(d.1 * d.2 * 4)), d.1, d.2)),
        None => None,
    }
}

/// Loading the same raw image bytes twice yields byte-identical
/// premultiplied textures.
pub proof fn lemma_load_deterministic(
    bytes: Seq<u8>,
    r1: Option<(Seq<u8>, int, int)>,
    r2: Option<(Seq<u8>, int, int)>,
)
    requires
        r1 == load_spec(bytes),
        r2 == load_spec(bytes),
    ensures
        r1 == r2,
{
}

impl Texture {
    /// The texture's structural invariant: four bytes per pixel, a buffer
    /// that covers exactly the pixel grid, and dimensions that fit a
    /// decoded image.
    pub open spec fn wf(self) -> bool {
        &&& self.depth == 4
        &&& self.image@.len() == self.width * self.height * 4
        &&& self.width <= u32::MAX
        &&& self.height <= u32::MAX
    }

    /// Wraps already-decoded RGBA8 bytes as a texture, premultiplying the
    /// color channels by alpha.
    pub fn new(image: Vec<u8>, width: usize, height: usize) -> (t: Texture)
        requires
            image@.len() == width * height * 4,
            width <= u32::MAX,
            height <= u32::MAX,
        ensures
            t.wf(),
            t.width == width,
            t.height == height,
            t.image@ == premultiplied(image@),
    {
        let mut image = image;
        proof {
            assert(image@.len() % 4 == 0) by {
                vstd::arithmetic::div_mod::lemma_mod_multiples_basic(
                    (width * height) as int,
                    4,
                );
            }
        }
        premultiply(&mut image);
        Texture { image, width, height, depth: 4 }
    }

    /// Decodes an RGBA image from raw encoded bytes and premultiplies its
    /// color channels by alpha; fails exactly when the bytes do not decode.
    pub fn load(bytes: &[u8]) -> (r: Result<Texture, DecodeError>)
        ensures
            r is Ok <==> load_spec(bytes@) is Some,
            r matches Ok(t) ==> {
                let d = load_spec(bytes@)->0;
                &&& t.wf()
                &&& t.image@ == d.0
                &&& t.width == d.1
                &&& t.height == d.2
            },
    {
        match decode_rgba(bytes) {
            Ok((px, w, h)) => {
                let mut px = px;
                let size = (w as usize) * (h as usize) * 4;
                px.truncate(size);
                proof {
                    let d = decoded_rgba(bytes@)->0;
                    assert(px@ == d.0.take(d.1 * d.2 * 4));
                }
                Ok(Texture::new(px, w as usize, h as usize))
            },
            Err(message) => Err(DecodeError { message }),
        }
    }

    /// Bytes per pixel; always four (RGBA8).
    pub fn depth(&self) -> (d: usize)
        ensures
            d == self.depth,
    {
        self.depth
    }

    /// The texture's width and height in pixels.
    pub fn size(&self) -> (s: (usize, usize))
        ensures
            s.0 == self.width,
            s.1 == self.height,
    {
        (self.width, self.height)
    }

    /// Bytes per pixel row.
    pub fn pitch(&self) -> (p: usize)
        requires
            self.width * self.depth <= usize::MAX,
        ensures
            p == self.width * self.depth,
    {
        self.width * self.depth
    }

    /// The premultiplied pixel bytes, row-major.
    pub fn buffer(&self) -> (b: &Vec<u8>)
        ensures
            b@ == self.image@,
    {
        &self.image
    }

    /// True iff `frame` lies entirely within the texture's pixel grid.
    pub open spec fn spec_valid_frame(self, frame: Rect) -> bool {
        &&& 0 <= frame.x
        &&& frame.x + frame.w <= self.width
        &&& 0 <= frame.y
        &&& frame.y + frame.h <= self.height
    }

    /// True iff `frame` lies entirely within the texture's pixel grid.
    /// Every blit path checks this (or requires it) before indexing.
    pub fn valid_frame(&self, frame: Rect) -> (r: bool)
        ensures
            r == self.spec_valid_frame(frame),
    {
        0 <= frame.x && frame.x as u64 + frame.w as u64 <= self.width as u64 && 0 <= frame.y
            && frame.y as u64 + frame.h as u64 <= self.height as u64
    }
}

} // verus!
