//! Reading a stored frame back, for display.
//!
//! The viewer takes the image that the server stored and hands the window
//! one 32-bit value for each pixel: red, green and blue in the three low
//! bytes, from high to low.

use vstd::prelude::*;
use crate::decimal::{decimal, digits_at, lemma_decimal_is_read_back, number_at, parse_decimal};
use crate::frame::{
    lemma_standard_header, ppm_image, rgb_of, FRAME_BYTES, HEIGHT, MAX_CHANNEL, WIDTH,
};
use crate::raster::PIXELS;

verus! {

/// Why an image was not accepted.
#[derive(Clone, Copy, Debug, PartialEq, Eq, Structural)]
pub enum PpmError {
    /// The image does not begin with `P6` and a line feed.
    NotP6,
    /// No width that ends in a space follows.
    BadWidth,
    /// No height that ends in a line feed follows.
    BadHeight,
    /// No largest channel value that ends in a line feed follows.
    BadMaxval,
    /// The image is not 640 by 480 with channel values up to 255.
    BadDims { width: usize, height: usize, maxval: usize },
    /// Fewer than three bytes for each pixel follow the header.
    NotEnoughPixelData,
}

/// A decimal number in the header that is followed by `stop`: its value and
/// the place after `stop`.
pub open spec fn field_at(data: Seq<u8>, at: int, stop: u8) -> Option<(nat, int)> {
    let end = at + digits_at(data, at);
    if digits_at(data, at) >= 1 && number_at(data, at) <= usize::MAX && end < data.len()
        && data[end] == stop {
        Some((number_at(data, at), end + 1))
    } else {
        None
    }
}

/// The pixels of a string of red, green and blue bytes, one value each.
pub open spec fn packed(rgb: Seq<u8>, count: nat) -> Seq<u32> {
    Seq::new(
        count,
        |i: int| (rgb[3 * i] as u32 * 65536 + rgb[3 * i + 1] as u32 * 256 + rgb[3 * i + 2] as u32) as u32,
    )
}

/// What an image holds: its pixels, or why it was not accepted.
pub open spec fn parse_ppm(data: Seq<u8>) -> Result<Seq<u32>, PpmError> {
    if !(data.len() >= 3 && data[0] == 80 && data[1] == 54 && data[2] == 10) {
        Err(PpmError::NotP6)
    } else {
        match field_at(data, 3, 32) {
            None => Err(PpmError::BadWidth),
            Some((width, after_width)) => match field_at(data, after_width, 10) {
                None => Err(PpmError::BadHeight),
                Some((height, after_height)) => match field_at(data, after_height, 10) {
                    None => Err(PpmError::BadMaxval),
                    Some((maxval, start)) => if width != WIDTH || height != HEIGHT || maxval
                        != MAX_CHANNEL {
                        Err(
                            PpmError::BadDims {
                                width: width as usize,
                                height: height as usize,
                                maxval: maxval as usize,
                            },
                        )
                    } else if data.len() - start < 3 * PIXELS {
                        Err(PpmError::NotEnoughPixelData)
                    } else {
                        Ok(packed(data.subrange(start, data.len() as int), PIXELS as nat))
                    },
                },
            },
        }
    }
}

fn field(data: &[u8], at: usize, stop: u8) -> (r: Option<(usize, usize)>)
    requires
        at <= data@.len(),
    ensures
        match r {
            Some((value, next)) => field_at(data@, at as int, stop) == Some(
                (value as nat, next as int),
            ) && next <= data@.len(),
            None => field_at(data@, at as int, stop) is None,
        },
{
    match parse_decimal(data, at) {
        Some((value, end)) => {
            if end < data.len() && data[end] == stop {
                Some((value, end + 1))
            } else {
                None
            }
        },
        None => None,
    }
}

/// Reads a stored frame. The image must begin with `P6`, the width, the
/// height and the largest channel value as the server writes them, be 640
/// by 480 with channel values up to 255, and hold three bytes for each
/// pixel; what follows the last pixel is not looked at.
pub fn load_ppm(data: &[u8]) -> (r: Result<Vec<u32>, PpmError>)
    ensures
        match r {
            Ok(pixels) => parse_ppm(data@) == Ok::<Seq<u32>, PpmError>(pixels@),
            Err(e) => parse_ppm(data@) == Err::<Seq<u32>, PpmError>(e),
        },
{
    if !(data.len() >= 3 && data[0] == 80 && data[1] == 54 && data[2] == 10) {
        return Err(PpmError::NotP6);
    }
    let (width, after_width) = match field(data, 3, 32) {
        Some(found) => found,
        None => {
            return Err(PpmError::BadWidth);
        },
    };
    let (height, after_height) = match field(data, after_width, 10) {
        Some(found) => found,
        None => {
            return Err(PpmError::BadHeight);
        },
    };
    let (maxval, start) = match field(data, after_height, 10) {
        Some(found) => found,
        None => {
            return Err(PpmError::BadMaxval);
        },
    };
    if width != WIDTH || height != HEIGHT || maxval != MAX_CHANNEL {
        return Err(PpmError::BadDims { width, height, maxval });
    }
    if data.len() - start < 3 * PIXELS {
        return Err(PpmError::NotEnoughPixelData);
    }
    let mut pixels: Vec<u32> = Vec::new();
    let ghost rgb = data@.subrange(start as int, data@.len() as int);
    let mut i: usize = 0;
    while i < PIXELS
        invariant
            i <= PIXELS,
            start + 3 * PIXELS <= data@.len() <= usize::MAX,
            rgb == data@.subrange(start as int, data@.len() as int),
            pixels@.len() == i,
            forall|k: int| 0 <= k < i ==> pixels@[k] == packed(rgb, PIXELS as nat)[k],
        decreases PIXELS - i,
    {
        let r: u32 = data[start + 3 * i] as u32;
        let g: u32 = data[start + 3 * i + 1] as u32;
        let b: u32 = data[start + 3 * i + 2] as u32;
        pixels.push(r * 65536 + g * 256 + b);
        i = i + 1;
    }
    assert(pixels@ =~= packed(rgb, PIXELS as nat));
    Ok(pixels)
}

/// The image that the server stores of a frame is read back as the frame's
/// pixels: each value holds the red, green and blue byte of its pixel.
pub proof fn lemma_stored_frame_is_read_back(payload: Seq<u8>)
    requires
        payload.len() == FRAME_BYTES,
    ensures
        parse_ppm(ppm_image(WIDTH as nat, HEIGHT as nat, payload)) == Ok::<Seq<u32>, PpmError>(
            packed(rgb_of(payload), PIXELS as nat),
        ),
        forall|i: int|
            0 <= i < PIXELS ==> #[trigger] packed(rgb_of(payload), PIXELS as nat)[i] == payload[4
                * i] * 65536 + payload[4 * i + 1] * 256 + payload[4 * i + 2],
{
    let image = ppm_image(WIDTH as nat, HEIGHT as nat, payload);
    let rgb = rgb_of(payload);
    lemma_standard_header();
    reveal_with_fuel(decimal, 3);
    assert(decimal(640) =~= seq![54u8, 52u8, 48u8]);
    assert(decimal(480) =~= seq![52u8, 56u8, 48u8]);
    assert(decimal(255) =~= seq![50u8, 53u8, 53u8]);
    assert(image.len() == 15 + rgb.len());
    assert(rgb.len() == 3 * PIXELS);
    assert(image.subrange(3, 6) =~= decimal(640));
    assert(image.subrange(7, 10) =~= decimal(480));
    assert(image.subrange(11, 14) =~= decimal(255));
    lemma_decimal_is_read_back(image, 3, 640);
    lemma_decimal_is_read_back(image, 7, 480);
    lemma_decimal_is_read_back(image, 11, 255);
    assert(field_at(image, 3, 32) == Some((640nat, 7int)));
    assert(field_at(image, 7, 10) == Some((480nat, 11int)));
    assert(field_at(image, 11, 10) == Some((255nat, 15int)));
    assert(image.subrange(15, image.len() as int) =~= rgb);
    assert forall|i: int| 0 <= i < PIXELS implies #[trigger] packed(rgb, PIXELS as nat)[i]
        == payload[4 * i] * 65536 + payload[4 * i + 1] * 256 + payload[4 * i + 2] by {
        assert((3 * i) / 3 == i && (3 * i) % 3 == 0);
        assert((3 * i + 1) / 3 == i && (3 * i + 1) % 3 == 1);
        assert((3 * i + 2) / 3 == i && (3 * i + 2) % 3 == 2);
    }
}

} // verus!
