//! Conversion of a rasterised frame from packed premultiplied pixels to
//! straight-alpha RGBA bytes.

use vstd::prelude::*;

verus! {

/// `raqote::DrawTarget`, taken as a value that is only handed on.
#[verifier::external_type_specification]
#[verifier::external_body]
#[verifier::reject_recursive_types(Backing)]
pub struct ExDrawTarget<Backing>(raqote::DrawTarget<Backing>);

/// The pixel buffer of a draw target: one packed pixel per cell, row by row.
pub uninterp spec fn target_pixels(dt: raqote::DrawTarget) -> Seq<u32>;

/// `raqote::DrawTarget::into_vec`: hands over the target's backing buffer.
/// Trusted: the vector returned is the target's pixel buffer, unchanged.
#[verifier::external_body]
fn take_pixels(dt: raqote::DrawTarget) -> (buf: Vec<u32>)
    ensures
        buf@ == target_pixels(dt),
{
    dt.into_vec()
}

/// Alpha of a packed pixel: its highest byte.
pub open spec fn alpha_of(pixel: u32) -> u32 {
    (pixel >> 24) & 0xff
}

/// Premultiplied red of a packed pixel: its second-highest byte.
pub open spec fn red_of(pixel: u32) -> u32 {
    (pixel >> 16) & 0xff
}

/// Premultiplied green of a packed pixel: its second-lowest byte.
pub open spec fn green_of(pixel: u32) -> u32 {
    (pixel >> 8) & 0xff
}

/// Premultiplied blue of a packed pixel: its lowest byte.
pub open spec fn blue_of(pixel: u32) -> u32 {
    pixel & 0xff
}

/// A premultiplied channel `c` under alpha `a`, divided back out. With no
/// alpha the channel is 0. A channel above its alpha is no premultiplied
/// value; the quotient is then cut to its low byte.
pub open spec fn straight_channel(c: int, a: int) -> int {
    if a == 0 {
        0
    } else {
        (c * 255 / a) % 256
    }
}

/// A straight channel `s` scaled by alpha `a`, rounding down.
pub open spec fn premultiplied_channel(s: int, a: int) -> int {
    s * a / 255
}

/// The four output bytes of one pixel, in the order red, green, blue, alpha.
pub open spec fn straight_pixel(pixel: u32) -> Seq<u8> {
    let a = alpha_of(pixel) as int;
    seq![
        straight_channel(red_of(pixel) as int, a) as u8,
        straight_channel(green_of(pixel) as int, a) as u8,
        straight_channel(blue_of(pixel) as int, a) as u8,
        a as u8,
    ]
}

/// The output bytes of a whole buffer: four per pixel, in pixel order.
pub open spec fn straight_rgba(pixels: Seq<u32>) -> Seq<u8> {
    Seq::new(4 * pixels.len(), |i: int| straight_pixel(pixels[i / 4])[i % 4])
}

fn unpremultiply_channel(c: u32, a: u32) -> (s: u8)
    requires
        c <= 255,
        a <= 255,
    ensures
        s == straight_channel(c as int, a as int),
{
    if a == 0 {
        0
    } else {
        ((c * 255 / a) % 256) as u8
    }
}

/// Converts packed premultiplied pixels to straight-alpha bytes, four per
/// pixel (red, green, blue, alpha), keeping the order of the pixels.
pub fn unpremultiply(pixels: &Vec<u32>) -> (out: Vec<u8>)
    ensures
        out@ == straight_rgba(pixels@),
{
    let mut out: Vec<u8> = Vec::new();
    let mut i: usize = 0;
    while i < pixels.len()
        invariant
            i <= pixels.len(),
            out@.len() == 4 * i,
            forall|k: int| 0 <= k < 4 * i ==> out@[k] == straight_pixel(pixels@[k / 4])[k % 4],
        decreases pixels.len() - i,
    {
        let pixel = pixels[i];
        let a = (pixel >> 24) & 0xff;
        let r = (pixel >> 16) & 0xff;
        let g = (pixel >> 8) & 0xff;
        let b = pixel & 0xff;
        assert((pixel >> 24) & 0xff <= 255) by (bit_vector);
        assert((pixel >> 16) & 0xff <= 255) by (bit_vector);
        assert((pixel >> 8) & 0xff <= 255) by (bit_vector);
        assert(pixel & 0xff <= 255) by (bit_vector);
        out.push(unpremultiply_channel(r, a));
        out.push(unpremultiply_channel(g, a));
        out.push(unpremultiply_channel(b, a));
        out.push(a as u8);
        i = i + 1;
    }
    out
}

/// Takes the pixels of a finished draw target and converts them to
/// straight-alpha RGBA bytes.
pub fn get_rgba(dt: raqote::DrawTarget) -> (out: Vec<u8>)
    ensures
        out@ == straight_rgba(target_pixels(dt)),
{
    let pixels = take_pixels(dt);
    unpremultiply(&pixels)
}

/// Dividing the alpha out of a premultiplied channel and multiplying it back
/// in gives the channel again or the value just below it, and the straight
/// channel fits a byte.
pub proof fn lemma_round_trip_within_one(c: int, a: int)
    requires
        0 < a <= 255,
        0 <= c <= a,
    ensures
        0 <= straight_channel(c, a) <= 255,
        straight_channel(c, a) == c * 255 / a,
        c - 1 <= premultiplied_channel(straight_channel(c, a), a) <= c,
{
    let q = c * 255 / a;
    assert(0 <= q <= 255 && q * a <= c * 255 && c * 255 < (q + 1) * a) by (nonlinear_arith)
        requires
            0 < a <= 255,
            0 <= c <= a,
            q == c * 255 / a,
    ;
    let back = q * a / 255;
    assert(c - 1 <= back <= c) by (nonlinear_arith)
        requires
            0 < a <= 255,
            0 <= c <= a,
            0 <= q <= 255,
            q * a <= c * 255,
            c * 255 < (q + 1) * a,
            back == q * a / 255,
    ;
}

/// A pixel without alpha comes out as four zero bytes.
pub proof fn lemma_transparent_is_zero(pixel: u32)
    requires
        alpha_of(pixel) == 0,
    ensures
        straight_pixel(pixel) == seq![0u8, 0u8, 0u8, 0u8],
{
}

} // verus!
