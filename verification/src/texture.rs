//! Kinds of textures and the texel data uploaded for an image.

use vstd::prelude::*;
use std::io::Cursor;

verus! {

/// All possible texture types.
pub enum TextureType {
    Diffuse,
    Depth,
}

/// What `png::Decoder::read_info` reads from the header of the PNG image
/// `bytes`, when it succeeds: the width, the height and the number of
/// samples per pixel of the decoded image.
pub uninterp spec fn png_header(bytes: Seq<u8>) -> Option<(u32, u32, u32)>;

/// What `png::Reader::next_frame` leaves in a buffer that held `buffer`
/// when it decodes the first frame of the PNG image `bytes`, when it
/// succeeds.
pub uninterp spec fn png_frame(bytes: Seq<u8>, buffer: Seq<u8>) -> Option<Seq<u8>>;

/// Calls `png::Decoder::read_info` on a decoder of `bytes` (made by
/// `png::Decoder::new` over a `std::io::Cursor`); on success returns the width,
/// height and samples per pixel (`ColorType::samples`) of the image. Claims
/// that the outcome is `png_header(bytes)`: header decoding depends on the
/// bytes alone.
#[verifier::external_body]
fn png_read_info(bytes: &[u8]) -> (r: Option<(u32, u32, u32)>)
    ensures
        r == png_header(bytes@),
{
    match png::Decoder::new(Cursor::new(bytes)).read_info() {
        Ok((info, _)) => Some((info.width, info.height, info.color_type.samples() as u32)),
        Err(_) => None,
    }
}

/// Calls `png::Reader::next_frame` on the reader that `read_info` gives for
/// `bytes`, decoding the first frame into `buffer`, and tells whether both
/// succeeded. Claims that on success the buffer holds
/// `png_frame(bytes, old buffer)` and that its length stays (it is passed as
/// a slice); of a failure nothing is stated about the buffer but its length.
#[verifier::external_body]
fn png_next_frame(bytes: &[u8], buffer: &mut Vec<u8>) -> (ok: bool)
    ensures
        final(buffer)@.len() == old(buffer)@.len(),
        ok <==> png_frame(bytes@, old(buffer)@) is Some,
        ok ==> final(buffer)@ == png_frame(bytes@, old(buffer)@).unwrap(),
{
    match png::Decoder::new(Cursor::new(bytes)).read_info() {
        Ok((_, mut reader)) => reader.next_frame(buffer.as_mut_slice()).is_ok(),
        Err(_) => false,
    }
}

/// The texels of an RGB image (three bytes per texel) as BGRA with full
/// alpha: for each whole texel `(r, g, b)`, the bytes `b, g, r, 255`. A
/// trailing partial texel is dropped.
pub open spec fn bgra_of_rgb(rgb: Seq<u8>) -> Seq<u8> {
    Seq::new(
        ((rgb.len() / 3) * 4) as nat,
        |i: int|
            {
                let (p, c) = (i / 4, i % 4);
                if c == 0 {
                    rgb[3 * p + 2]
                } else if c == 1 {
                    rgb[3 * p + 1]
                } else if c == 2 {
                    rgb[3 * p]
                } else {
                    255u8
                }
            },
    )
}

/// Adds the alpha component to each texel of an RGB image, writing the
/// texels as BGRA (see `bgra_of_rgb`).
pub fn rgb_to_bgra(buffer: &Vec<u8>) -> (temp: Vec<u8>)
    ensures
        temp@ == bgra_of_rgb(buffer@),
{
    let mut temp: Vec<u8> = Vec::new();
    let n = buffer.len() / 3;
    proof {
        vstd::arithmetic::div_mod::lemma_fundamental_div_mod(buffer@.len() as int, 3);
        vstd::arithmetic::div_mod::lemma_mod_bound(buffer@.len() as int, 3);
        assert(n * 3 <= buffer@.len());
    }
    let mut i: usize = 0;
    while i < n
        invariant
            n == buffer@.len() / 3,
            n * 3 <= buffer@.len(),
            buffer@.len() <= usize::MAX,
            i <= n,
            temp@.len() == 4 * i,
            forall|k: int| 0 <= k < temp@.len() ==> #[trigger] temp@[k] == bgra_of_rgb(buffer@)[k],
        decreases n - i,
    {
        proof {
            assert(i * 3 + 3 <= n * 3) by (nonlinear_arith)
                requires i < n;
        }
        let offset = i * 3;
        let red: u8 = buffer[offset];
        let green: u8 = buffer[offset + 1];
        let blue: u8 = buffer[offset + 2];
        temp.push(blue);
        temp.push(green);
        temp.push(red);
        temp.push(255);
        proof {
            let b = bgra_of_rgb(buffer@);
            let base = 4 * i as int;
            assert(b[base] == blue && b[base + 1] == green && b[base + 2] == red && b[base + 3]
                == 255u8) by {
                assert(base / 4 == i && (base + 1) / 4 == i && (base + 2) / 4 == i && (base + 3)
                    / 4 == i);
                assert(base % 4 == 0 && (base + 1) % 4 == 1 && (base + 2) % 4 == 2 && (base + 3)
                    % 4 == 3);
            }
        }
        i = i + 1;
    }
    assert(temp@ =~= bgra_of_rgb(buffer@));
    temp
}

/// The bytes uploaded for a decoded image of `bits_per_pixel` samples per
/// texel (3 or 4): RGB images are expanded to BGRA, RGBA ones kept as they
/// are.
pub fn texture_upload_data(bits_per_pixel: u32, buffer: Vec<u8>) -> (r: Vec<u8>)
    requires
        bits_per_pixel == 3 || bits_per_pixel == 4,
    ensures
        bits_per_pixel == 3 ==> r@ == bgra_of_rgb(buffer@),
        bits_per_pixel == 4 ==> r@ == buffer@,
{
    if bits_per_pixel == 3 {
        rgb_to_bgra(&buffer)
    } else {
        buffer
    }
}


/// A buffer of `n` zero bytes.
pub open spec fn zeros(n: int) -> Seq<u8> {
    Seq::new(n as nat, |i: int| 0u8)
}

/// Decodes the PNG image `bytes` into the texel data uploaded for it:
/// returns the width, the height and the texels (see `texture_upload_data`)
/// when the header can be read, the image has 3 or 4 samples per pixel, its
/// row size `width * samples` and size `width * samples * height` in bytes fit
/// in `u32` and its frame can be
/// decoded into a buffer of that size; `None` otherwise.
pub fn decode_texture_data(bytes: &[u8]) -> (r: Option<(u32, u32, Vec<u8>)>)
    ensures
        match png_header(bytes@) {
            None => r is None,
            Some((w, h, s)) => {
                let ok = (s == 3 || s == 4) && w * s <= u32::MAX && w * s * h <= u32::MAX;
                let frame = png_frame(bytes@, zeros(w * s * h));
                match r {
                    None => !ok || frame is None,
                    Some((width, height, data)) => {
                        &&& ok
                        &&& frame is Some
                        &&& width == w
                        &&& height == h
                        &&& data@ == upload_of(s, frame.unwrap())
                    },
                }
            },
        },
{
    let header = png_read_info(bytes);
    match header {
        None => None,
        Some((width, height, bits_per_pixel)) => {
            if !(bits_per_pixel == 3 || bits_per_pixel == 4) {
                return None;
            }
            let row = match width.checked_mul(bits_per_pixel) {
                Some(row) => row,
                None => {
                    return None;
                },
            };
            let size = match row.checked_mul(height) {
                Some(size) => size,
                None => {
                    return None;
                },
            };
            let mut buffer: Vec<u8> = vec![0; size as usize];
            assert(buffer@ =~= zeros(width * bits_per_pixel * height));
            let ok = png_next_frame(bytes, &mut buffer);
            if !ok {
                return None;
            }
            let data = texture_upload_data(bits_per_pixel, buffer);
            Some((width, height, data))
        },
    }
}

/// The texel data uploaded for a frame of `s` samples per pixel.
pub open spec fn upload_of(s: u32, frame: Seq<u8>) -> Seq<u8> {
    if s == 3 {
        bgra_of_rgb(frame)
    } else {
        frame
    }
}

} // verus!
