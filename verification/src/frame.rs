//! Frames: the guest's picture, its transfer to the server, and the raster
//! image that the server stores.
//!
//! The guest paints 640 by 480 pixels of four bytes each (red, green, blue and
//! one unused byte) at a fixed guest-physical address. The driver pushes such
//! a picture to the server as a literal tag followed by the raw pixels; the
//! server stores it as a binary portable pixmap.

use vstd::prelude::*;
use crate::decimal::{decimal, push_decimal};
use crate::wire::{append_bytes, copy_range};

verus! {

/// Pixels in a row of the frame.
pub const WIDTH: usize = 640;

/// Rows in the frame.
pub const HEIGHT: usize = 480;

/// Bytes in the raw pixels of one frame.
pub const FRAME_BYTES: usize = 1228800;

/// Guest-physical address of the first byte of guest memory.
pub const GUEST_BASE: usize = 0x10_0000;

/// Guest-physical address of the frame.
pub const FRAMEBUFFER_ADDR: usize = 0x2000_0000;

/// Offset of the frame in guest memory.
pub const FRAMEBUFFER_OFFSET: usize = 0x1FF0_0000;

/// Bytes in the tag that opens a frame transfer.
pub const TAG_SIZE: usize = 11;

/// Largest channel value of a stored image.
pub const MAX_CHANNEL: usize = 255;

/// The tag that opens a frame transfer: the ASCII text `FRAMEBUFFER`.
pub open spec fn frame_tag() -> Seq<u8> {
    seq![70u8, 82u8, 65u8, 77u8, 69u8, 66u8, 85u8, 70u8, 70u8, 69u8, 82u8]
}

/// The first eight bytes of the tag, which arrive where a request header is
/// expected.
pub open spec fn tag_head() -> Seq<u8> {
    frame_tag().subrange(0, 8)
}

/// The last three bytes of the tag.
pub open spec fn tag_tail() -> Seq<u8> {
    frame_tag().subrange(8, 11)
}

/// The tag as bytes.
pub fn tag() -> (t: Vec<u8>)
    ensures
        t@ == frame_tag(),
{
    let mut t: Vec<u8> = Vec::new();
    t.push(70u8);
    t.push(82u8);
    t.push(65u8);
    t.push(77u8);
    t.push(69u8);
    t.push(66u8);
    t.push(85u8);
    t.push(70u8);
    t.push(70u8);
    t.push(69u8);
    t.push(82u8);
    assert(t@ =~= frame_tag());
    t
}

/// The red, green and blue bytes of each whole pixel of `payload`, in order,
/// without the fourth byte.
pub open spec fn rgb_of(payload: Seq<u8>) -> Seq<u8> {
    Seq::new(((payload.len() / 4) * 3) as nat, |i: int| payload[(i / 3) * 4 + i % 3])
}

/// The header of a binary portable pixmap: `P6`, the width and the height in
/// decimal with one space between, and the largest channel value 255, each
/// line closed by a line feed.
pub open spec fn ppm_header(width: nat, height: nat) -> Seq<u8> {
    seq![80u8, 54u8, 10u8] + decimal(width) + seq![32u8] + decimal(height) + seq![10u8] + decimal(
        MAX_CHANNEL as nat,
    ) + seq![10u8]
}

/// The stored image of a frame.
pub open spec fn ppm_image(width: nat, height: nat, payload: Seq<u8>) -> Seq<u8> {
    ppm_header(width, height) + rgb_of(payload)
}

/// Whether guest memory of `len` bytes holds the whole frame.
pub open spec fn holds_frame(len: nat) -> bool {
    len >= FRAMEBUFFER_OFFSET + FRAME_BYTES
}

/// The raw pixels of the frame in guest memory.
pub open spec fn frame_of(mem: Seq<u8>) -> Seq<u8> {
    mem.subrange(FRAMEBUFFER_OFFSET as int, FRAMEBUFFER_OFFSET + FRAME_BYTES)
}

/// What the driver writes to push the frame in `mem`: the tag, then the raw
/// pixels.
pub open spec fn transfer_bytes(mem: Seq<u8>) -> Seq<u8> {
    frame_tag() + frame_of(mem)
}

/// The frame lies where guest memory maps its address, and is as large as its
/// pixels.
pub proof fn lemma_frame_geometry()
    ensures
        FRAMEBUFFER_OFFSET == FRAMEBUFFER_ADDR - GUEST_BASE,
        FRAME_BYTES == WIDTH * HEIGHT * 4,
{
}

/// Writes the header of an image.
pub fn write_ppm_header(out: &mut Vec<u8>, width: usize, height: usize)
    ensures
        final(out)@ == old(out)@ + ppm_header(width as nat, height as nat),
{
    out.push(80u8);
    out.push(54u8);
    out.push(10u8);
    push_decimal(out, width);
    out.push(32u8);
    push_decimal(out, height);
    out.push(10u8);
    push_decimal(out, MAX_CHANNEL);
    out.push(10u8);
    assert(out@ =~= old(out)@ + ppm_header(width as nat, height as nat));
}

/// The image of a frame of `width` by `height` pixels. `None` when `payload`
/// has not four bytes for each pixel.
pub fn encode_ppm(width: usize, height: usize, payload: &[u8]) -> (r: Option<Vec<u8>>)
    ensures
        match r {
            Some(image) => {
                &&& payload@.len() == width * height * 4
                &&& image@ == ppm_image(width as nat, height as nat, payload@)
            },
            None => payload@.len() != width * height * 4,
        },
{
    let pixels: usize = payload.len() / 4;
    if payload.len() % 4 != 0 {
        return None;
    }
    match width.checked_mul(height) {
        Some(area) => {
            if area != pixels {
                return None;
            }
        },
        None => {
            return None;
        },
    }
    let mut out: Vec<u8> = Vec::new();
    write_ppm_header(&mut out, width, height);
    let ghost header = out@;
    let mut p: usize = 0;
    while p < pixels
        invariant
            p <= pixels,
            payload@.len() == 4 * pixels,
            payload@.len() <= usize::MAX,
            out@.len() == header.len() + 3 * p,
            out@.subrange(0, header.len() as int) == header,
            forall|j: int|
                0 <= j < 3 * p ==> #[trigger] out@[header.len() + j] == payload@[(j / 3) * 4 + j
                    % 3],
        decreases pixels - p,
    {
        let ghost before = out@;
        out.push(payload[4 * p]);
        out.push(payload[4 * p + 1]);
        out.push(payload[4 * p + 2]);
        proof {
            assert(out@.subrange(0, header.len() as int) =~= before.subrange(
                0,
                header.len() as int,
            ));
            assert forall|j: int| 0 <= j < 3 * (p + 1) implies #[trigger] out@[header.len() + j]
                == payload@[(j / 3) * 4 + j % 3] by {
                if j < 3 * p {
                    assert(out@[header.len() + j] == before[header.len() + j]);
                }
            }
        }
        p = p + 1;
    }
    proof {
        let rgb = rgb_of(payload@);
        assert(out@.len() == header.len() + rgb.len());
        assert forall|k: int| 0 <= k < out@.len() implies out@[k] == (header + rgb)[k] by {
            if k < header.len() {
                assert(out@.subrange(0, header.len() as int)[k] == out@[k]);
            } else {
                let j = k - header.len();
                assert(out@[header.len() + j] == payload@[(j / 3) * 4 + j % 3]);
            }
        }
        assert(out@ =~= header + rgb);
        assert(header =~= ppm_header(width as nat, height as nat));
    }
    Some(out)
}

/// The raw pixels of the frame in guest memory. `None` when the memory ends
/// before the frame does.
pub fn framebuffer(mem: &[u8]) -> (r: Option<Vec<u8>>)
    ensures
        match r {
            Some(pixels) => holds_frame(mem@.len()) && pixels@ == frame_of(mem@),
            None => !holds_frame(mem@.len()),
        },
{
    if mem.len() < FRAMEBUFFER_OFFSET + FRAME_BYTES {
        None
    } else {
        Some(copy_range(mem, FRAMEBUFFER_OFFSET, FRAMEBUFFER_OFFSET + FRAME_BYTES))
    }
}

/// What to write to the server to push the frame in guest memory. `None` when
/// the memory ends before the frame does.
pub fn frame_transfer(mem: &[u8]) -> (r: Option<Vec<u8>>)
    ensures
        match r {
            Some(bytes) => holds_frame(mem@.len()) && bytes@ == transfer_bytes(mem@),
            None => !holds_frame(mem@.len()),
        },
{
    match framebuffer(mem) {
        Some(pixels) => {
            let mut bytes = tag();
            append_bytes(&mut bytes, pixels.as_slice());
            Some(bytes)
        },
        None => None,
    }
}

/// The header of the standard frame is the fifteen bytes of the text `P6`,
/// line feed, `640 480`, line feed, `255`, line feed.
pub proof fn lemma_standard_header()
    ensures
        ppm_header(WIDTH as nat, HEIGHT as nat) == seq![
            80u8,
            54u8,
            10u8,
            54u8,
            52u8,
            48u8,
            32u8,
            52u8,
            56u8,
            48u8,
            10u8,
            50u8,
            53u8,
            53u8,
            10u8,
        ],
{
    reveal_with_fuel(decimal, 3);
    assert(decimal(640) =~= seq![54u8, 52u8, 48u8]);
    assert(decimal(480) =~= seq![52u8, 56u8, 48u8]);
    assert(decimal(255) =~= seq![50u8, 53u8, 53u8]);
    assert(ppm_header(WIDTH as nat, HEIGHT as nat) =~= seq![
        80u8,
        54u8,
        10u8,
        54u8,
        52u8,
        48u8,
        32u8,
        52u8,
        56u8,
        48u8,
        10u8,
        50u8,
        53u8,
        53u8,
        10u8,
    ]);
}

/// In the image of a frame, the header stands first, exactly; after it,
/// the three bytes of pixel `i` are the red, green and blue byte of pixel
/// `i` of the payload.
pub proof fn lemma_image_pixels(width: nat, height: nat, payload: Seq<u8>, i: int)
    requires
        payload.len() == width * height * 4,
        0 <= i < width * height,
    ensures
        ({
            let image = ppm_image(width, height, payload);
            let start = ppm_header(width, height).len();
            &&& image.len() == start + width * height * 3
            &&& image.subrange(0, start as int) == ppm_header(width, height)
            &&& image[start + 3 * i] == payload[4 * i]
            &&& image[start + 3 * i + 1] == payload[4 * i + 1]
            &&& image[start + 3 * i + 2] == payload[4 * i + 2]
        }),
{
    let image = ppm_image(width, height, payload);
    let header = ppm_header(width, height);
    let pixels = width * height;
    assert(payload.len() / 4 == pixels);
    assert(image.subrange(0, header.len() as int) =~= header);
    assert((3 * i) / 3 == i && (3 * i) % 3 == 0);
    assert((3 * i + 1) / 3 == i && (3 * i + 1) % 3 == 1);
    assert((3 * i + 2) / 3 == i && (3 * i + 2) % 3 == 2);
}

} // verus!
