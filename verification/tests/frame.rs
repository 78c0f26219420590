use mykvm::decimal::push_decimal;
use mykvm::frame::{
    encode_ppm, frame_transfer, framebuffer, tag, write_ppm_header, FRAMEBUFFER_ADDR,
    FRAMEBUFFER_OFFSET, FRAME_BYTES, GUEST_BASE, HEIGHT, TAG_SIZE, WIDTH,
};

#[test]
fn decimal_text() {
    let cases: Vec<(usize, &str)> = vec![
        (0, "0"),
        (7, "7"),
        (9, "9"),
        (10, "10"),
        (99, "99"),
        (100, "100"),
        (255, "255"),
        (480, "480"),
        (640, "640"),
        (1000000, "1000000"),
        (4294967295, "4294967295"),
    ];
    for (n, text) in cases {
        let mut out = Vec::new();
        push_decimal(&mut out, n);
        assert_eq!(out, text.as_bytes());
    }
    let mut out = Vec::new();
    push_decimal(&mut out, usize::MAX);
    assert_eq!(out, format!("{}", usize::MAX).into_bytes());
}

#[test]
fn decimal_is_appended() {
    let mut out = b"w=".to_vec();
    push_decimal(&mut out, 640);
    out.push(b' ');
    push_decimal(&mut out, 0);
    assert_eq!(out, b"w=640 0");
}

#[test]
fn tag_is_the_literal() {
    assert_eq!(tag(), b"FRAMEBUFFER");
    assert_eq!(tag().len(), TAG_SIZE);
}

#[test]
fn frame_geometry() {
    assert_eq!(FRAME_BYTES, WIDTH * HEIGHT * 4);
    assert_eq!(FRAMEBUFFER_OFFSET, FRAMEBUFFER_ADDR - GUEST_BASE);
    assert_eq!(FRAME_BYTES, 1228800);
    assert_eq!(FRAMEBUFFER_OFFSET, 535822336);
}

#[test]
fn header_of_the_standard_frame() {
    let mut out = Vec::new();
    write_ppm_header(&mut out, 640, 480);
    assert_eq!(out, b"P6\n640 480\n255\n");
}

#[test]
fn header_of_other_sizes() {
    let mut out = Vec::new();
    write_ppm_header(&mut out, 1, 1);
    assert_eq!(out, b"P6\n1 1\n255\n");
    let mut out = Vec::new();
    write_ppm_header(&mut out, 0, 12345);
    assert_eq!(out, b"P6\n0 12345\n255\n");
}

#[test]
fn image_drops_the_fourth_byte() {
    let payload = [10u8, 20, 30, 99, 40, 50, 60, 99, 70, 80, 90, 99, 1, 2, 3, 99, 4, 5, 6, 99, 7, 8, 9, 99];
    let image = encode_ppm(3, 2, &payload).unwrap();
    let mut expected = b"P6\n3 2\n255\n".to_vec();
    expected.extend([10, 20, 30, 40, 50, 60, 70, 80, 90, 1, 2, 3, 4, 5, 6, 7, 8, 9]);
    assert_eq!(image, expected);
}

#[test]
fn image_of_the_standard_frame() {
    let mut payload = vec![0u8; FRAME_BYTES];
    for (i, px) in payload.chunks_mut(4).enumerate() {
        px[0] = (i % 256) as u8;
        px[1] = (i / 256 % 256) as u8;
        px[2] = (i / 65536) as u8;
        px[3] = 0xFF;
    }
    let image = encode_ppm(WIDTH, HEIGHT, &payload).unwrap();
    assert_eq!(&image[..15], b"P6\n640 480\n255\n");
    assert_eq!(image.len(), 15 + WIDTH * HEIGHT * 3);
    for i in 0..WIDTH * HEIGHT {
        let at = 15 + 3 * i;
        assert_eq!(image[at], payload[4 * i]);
        assert_eq!(image[at + 1], payload[4 * i + 1]);
        assert_eq!(image[at + 2], payload[4 * i + 2]);
    }
}

#[test]
fn image_needs_four_bytes_for_each_pixel() {
    assert_eq!(encode_ppm(2, 2, &[0; 15]), None);
    assert_eq!(encode_ppm(2, 2, &[0; 17]), None);
    assert_eq!(encode_ppm(2, 2, &[0; 12]), None);
    assert_eq!(encode_ppm(2, 3, &[0; 16]), None);
    assert_eq!(encode_ppm(WIDTH, HEIGHT, &[0; 16]), None);
    assert_eq!(encode_ppm(usize::MAX, usize::MAX, &[0; 4]), None);
    assert_eq!(encode_ppm(usize::MAX, 2, &[]), None);
    assert!(encode_ppm(2, 2, &[0; 16]).is_some());
}

#[test]
fn image_of_no_pixels_is_the_header() {
    assert_eq!(encode_ppm(0, 0, &[]), Some(b"P6\n0 0\n255\n".to_vec()));
    assert_eq!(encode_ppm(0, 7, &[]), Some(b"P6\n0 7\n255\n".to_vec()));
    assert_eq!(encode_ppm(5, 0, &[]), Some(b"P6\n5 0\n255\n".to_vec()));
}

#[test]
fn framebuffer_is_cut_out_of_guest_memory() {
    let mut mem = vec![0u8; FRAMEBUFFER_OFFSET + FRAME_BYTES + 16];
    mem[FRAMEBUFFER_OFFSET - 1] = 0xAA;
    mem[FRAMEBUFFER_OFFSET] = 1;
    mem[FRAMEBUFFER_OFFSET + FRAME_BYTES - 1] = 2;
    mem[FRAMEBUFFER_OFFSET + FRAME_BYTES] = 0xBB;
    let pixels = framebuffer(&mem).unwrap();
    assert_eq!(pixels.len(), FRAME_BYTES);
    assert_eq!(pixels[0], 1);
    assert_eq!(pixels[FRAME_BYTES - 1], 2);
    assert!(pixels[1..FRAME_BYTES - 1].iter().all(|b| *b == 0));
}

#[test]
fn framebuffer_needs_memory_to_its_end() {
    let mem = vec![0u8; FRAMEBUFFER_OFFSET + FRAME_BYTES - 1];
    assert_eq!(framebuffer(&mem), None);
    assert_eq!(frame_transfer(&mem), None);
    assert_eq!(framebuffer(&[]), None);
    let mem = vec![0u8; FRAMEBUFFER_OFFSET + FRAME_BYTES];
    assert!(framebuffer(&mem).is_some());
}

#[test]
fn transfer_is_tag_then_pixels() {
    let mut mem = vec![0u8; FRAMEBUFFER_OFFSET + FRAME_BYTES];
    mem[FRAMEBUFFER_OFFSET] = 0x11;
    mem[FRAMEBUFFER_OFFSET + 5] = 0x22;
    let bytes = frame_transfer(&mem).unwrap();
    assert_eq!(bytes.len(), 11 + FRAME_BYTES);
    assert_eq!(&bytes[..11], b"FRAMEBUFFER");
    assert_eq!(bytes[11], 0x11);
    assert_eq!(bytes[16], 0x22);
    assert_eq!(&bytes[11..], &mem[FRAMEBUFFER_OFFSET..]);
}
