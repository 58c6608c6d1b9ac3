//! Sprite sheets: decoding a PNG, scaling it to a square with nearest-neighbour
//! sampling, and chroma keying of sheets whose background is a dark, saturated red.

use vstd::prelude::*;

verus! {

/// A pixel counts as red background when red is more than one and a half
/// times both green and blue, and green and blue are both below 100.
pub open spec fn red_background_spec(r: u8, g: u8, b: u8) -> bool {
    2 * r > 3 * g && 2 * r > 3 * b && g < 100 && b < 100
}

pub fn is_red_background(r: u8, g: u8, b: u8) -> (res: bool)
    ensures
        res == red_background_spec(r, g, b),
{
    let r2 = 2 * r as u16;
    r2 > 3 * g as u16 && r2 > 3 * b as u16 && g < 100 && b < 100
}

/// The RGBA bytes after keying: the alpha byte of every red-background pixel
/// becomes 0, every other byte stays.
pub open spec fn keyed_byte(px: Seq<u8>, i: int) -> u8 {
    let base = i - i % 4;
    if i % 4 == 3 && base + 3 < px.len() && red_background_spec(px[base], px[base + 1], px[base + 2]) {
        0
    } else {
        px[i]
    }
}

/// Makes the red background of an RGBA image (4 bytes per pixel) transparent.
pub fn clear_red_background(pixels: &mut [u8])
    ensures
        final(pixels)@.len() == old(pixels)@.len(),
        forall|i: int| 0 <= i < old(pixels)@.len() ==> #[trigger] final(pixels)@[i] == keyed_byte(old(pixels)@, i),
{
    let n = pixels.len();
    let mut p: usize = 0;
    while n - p >= 4
        invariant
            n == pixels@.len(),
            n == old(pixels)@.len(),
            p % 4 == 0,
            p <= n,
            forall|i: int| 0 <= i < p ==> #[trigger] pixels@[i] == keyed_byte(old(pixels)@, i),
            forall|i: int| p <= i < n ==> #[trigger] pixels@[i] == old(pixels)@[i],
        decreases n - p,
    {
        if is_red_background(pixels[p], pixels[p + 1], pixels[p + 2]) {
            pixels[p + 3] = 0;
        }
        proof {
            assert forall|i: int| p <= i < p + 4 implies #[trigger] pixels@[i] == keyed_byte(old(pixels)@, i) by {
                assert(i - i % 4 == p);
            }
        }
        p = p + 4;
    }
    proof {
        assert forall|i: int| p <= i < n implies #[trigger] pixels@[i] == keyed_byte(old(pixels)@, i) by {
            assert(i - i % 4 == p);
        }
    }
}

/// Warm, lit tones are never keyed: a pixel with green or blue at 100 or
/// more, or whose red is not more than half again its green and its blue,
/// keeps its alpha.
pub proof fn law_warm_tones_are_not_background(r: u8, g: u8, b: u8)
    ensures
        g >= 100 || b >= 100 ==> !red_background_spec(r, g, b),
        2 * r <= 3 * g || 2 * r <= 3 * b ==> !red_background_spec(r, g, b),
{
}

/// A redder pixel with no more green or blue than a background pixel is
/// background too.
pub proof fn law_background_is_closed_under_more_red(r: u8, g: u8, b: u8, r2: u8, g2: u8, b2: u8)
    requires
        red_background_spec(r, g, b),
        r2 >= r,
        g2 <= g,
        b2 <= b,
    ensures
        red_background_spec(r2, g2, b2),
{
}

/// Keying only ever touches alpha bytes, and leaves the alpha of a pixel whose
/// green or blue is 100 or more as it was.
pub proof fn law_keying_keeps_colours_and_warm_pixels(px: Seq<u8>, i: int)
    requires
        0 <= i < px.len(),
    ensures
        i % 4 != 3 ==> keyed_byte(px, i) == px[i],
        (px[i - i % 4 + 1] >= 100 || px[i - i % 4 + 2] >= 100) && i - i % 4 + 3 < px.len()
            ==> keyed_byte(px, i) == px[i],
{
}

/// The image that `image::load_from_memory` decodes from `bytes`, converted to
/// RGBA with 8 bits per channel: its width, its height and its pixel bytes in
/// row-major order; none when the bytes do not decode.
pub uninterp spec fn png_rgba(bytes: Seq<u8>) -> Option<(u32, u32, Seq<u8>)>;

/// The RGBA pixels of a `w` by `h` image scaled to `nw` by `nh` by
/// `image::imageops::resize` with `FilterType::Nearest`.
pub uninterp spec fn nearest_scaled(w: u32, h: u32, px: Seq<u8>, nw: u32, nh: u32) -> Seq<u8>;

/// Decodes a PNG (or any format the image crate recognises) with
/// `image::load_from_memory` and converts it with `into_rgba8`. The result is
/// named by `png_rgba`; its pixel buffer holds at least `4 * w * h` bytes,
/// the size that an `ImageBuffer` of RGBA pixels keeps as its invariant.
#[verifier::external_body]
fn decode_png(bytes: &[u8]) -> (r: Option<(u32, u32, Vec<u8>)>)
    ensures
        match r {
            Some((w, h, px)) => png_rgba(bytes@) == Some((w, h, px@)) && px@.len() >= 4 * w * h,
            None => png_rgba(bytes@) is None,
        },
{
    match image::load_from_memory(bytes) {
        Ok(img) => {
            let rgba = img.into_rgba8();
            Some((rgba.width(), rgba.height(), rgba.into_raw()))
        },
        Err(_) => None,
    }
}

/// Scales RGBA pixels with `image::imageops::resize` and `FilterType::Nearest`,
/// after `ImageBuffer::from_raw`, which accepts a buffer of at least
/// `4 * w * h` bytes. The result is named by `nearest_scaled`; it holds
/// `nw` by `nh` pixels of four bytes. The new size is kept positive, and the
/// buffers the resampling allocates (`nw` by `nh` bytes of RGBA, and `w` by
/// `nh` pixels of four `f32`) within what a vector can hold.
#[verifier::external_body]
fn resize_nearest(w: u32, h: u32, px: Vec<u8>, nw: u32, nh: u32) -> (r: Vec<u8>)
    requires
        px@.len() >= 4 * w * h,
        0 < nw,
        0 < nh,
        4 * nw * nh <= isize::MAX,
        16 * w * nh <= isize::MAX,
    ensures
        r@ == nearest_scaled(w, h, px@, nw, nh),
        r@.len() == 4 * nw * nh,
{
    let img: image::RgbaImage = image::ImageBuffer::from_raw(w, h, px).unwrap_or_default();
    image::imageops::resize(&img, nw, nh, image::imageops::FilterType::Nearest).into_raw()
}

/// The pixel bytes after keying every pixel (see `keyed_byte`).
pub open spec fn keyed_all(px: Seq<u8>) -> Seq<u8> {
    Seq::new(px.len(), |i: int| keyed_byte(px, i))
}

/// A decoded sheet `w` pixels wide can be scaled to `size` by `size`
/// within what a vector can hold.
pub open spec fn scalable(w: u32, size: u32) -> bool {
    0 < size && 4 * size * size <= isize::MAX && 16 * w * size <= isize::MAX
}

/// The sprite that the bytes of an image file give at `size` by `size`
/// pixels, with its red background made transparent when `key_red` is set;
/// none when the bytes do not decode or the sheet is too wide to scale.
pub open spec fn sprite_spec(bytes: Seq<u8>, size: u32, key_red: bool) -> Option<Seq<u8>> {
    match png_rgba(bytes) {
        Some((w, h, px)) => if scalable(w, size) {
            let scaled = nearest_scaled(w, h, px, size, size);
            Some(if key_red { keyed_all(scaled) } else { scaled })
        } else {
            None
        },
        None => None,
    }
}

/// Finishes scaled sprite pixels: keys away the red background when asked.
pub fn finish_sprite(px: Vec<u8>, key_red: bool) -> (r: Vec<u8>)
    ensures
        r@ == (if key_red { keyed_all(px@) } else { px@ }),
{
    let mut px = px;
    if key_red {
        let ghost before = px@;
        clear_red_background(px.as_mut_slice());
        assert(px@ =~= keyed_all(before));
    }
    px
}

/// Scales a decoded sheet to `size` by `size` pixels and keys it when asked.
pub fn scale_sprite(w: u32, h: u32, px: Vec<u8>, size: u32, key_red: bool) -> (r: Vec<u8>)
    requires
        px@.len() >= 4 * w * h,
        scalable(w, size),
    ensures
        r@ == (if key_red { keyed_all(nearest_scaled(w, h, px@, size, size)) } else { nearest_scaled(w, h, px@, size, size) }),
        r@.len() == 4 * size * size,
{
    let scaled = resize_nearest(w, h, px, size, size);
    finish_sprite(scaled, key_red)
}

/// The RGBA pixels of a sprite sheet: decoded, scaled to `size` by `size`,
/// and keyed when `key_red` is set; none when the bytes do not decode or the
/// sheet is too wide to scale to that size.
pub fn sprite_pixels(bytes: &[u8], size: u32, key_red: bool) -> (r: Option<Vec<u8>>)
    ensures
        match r {
            Some(px) => sprite_spec(bytes@, size, key_red) == Some(px@) && px@.len() == 4 * size * size,
            None => sprite_spec(bytes@, size, key_red) is None,
        },
{
    match decode_png(bytes) {
        Some((w, h, px)) => {
            let limit = isize::MAX as u128;
            let s2 = size as u128;
            let w2 = w as u128;
            assert(s2 * s2 <= 0xffff_ffff * 0xffff_ffff && w2 * s2 <= 0xffff_ffff * 0xffff_ffff) by (nonlinear_arith)
                requires
                    s2 <= 0xffff_ffff,
                    w2 <= 0xffff_ffff,
            ;
            let fits = size > 0 && 4 * (s2 * s2) <= limit && 16 * (w2 * s2) <= limit;
            assert(s2 * s2 == size * size && w2 * s2 == w * size) by (nonlinear_arith)
                requires
                    s2 == size,
                    w2 == w,
            ;
            assert(4 * (size * size) == 4 * size * size && 16 * (w * size) == 16 * w * size) by (nonlinear_arith);
            assert(limit == isize::MAX);
            assert(fits == scalable(w, size));
            if fits {
                Some(scale_sprite(w, h, px, size, key_red))
            } else {
                None
            }
        },
        None => None,
    }
}

/// A keyed sprite exists exactly when the plain one does, has the same size,
/// and differs from it only in the alpha byte of red-background pixels, which
/// becomes 0.
pub proof fn law_keying_only_clears_red_alpha(bytes: Seq<u8>, size: u32, i: int)
    ensures
        sprite_spec(bytes, size, true) is Some <==> sprite_spec(bytes, size, false) is Some,
        sprite_spec(bytes, size, true) matches Some(keyed) ==> ({
            let plain = sprite_spec(bytes, size, false)->Some_0;
            &&& keyed.len() == plain.len()
            &&& 0 <= i < plain.len() ==> keyed[i] == (if i % 4 == 3 && i - i % 4 + 3 < plain.len()
                && red_background_spec(plain[i - i % 4], plain[i - i % 4 + 1], plain[i - i % 4 + 2]) { 0 } else { plain[i] })
        }),
{
}

} // verus!
