//! Exact byte-level checks of the pixel-layout conversions and the read
//! entry point.

use va_backend::convert::{i4xx_copy, nv12_copy, p01x_to_i01x, y21x_to_i21x, y412_to_i412};
use va_backend::error::ReadError;
use va_backend::format::{
    DecodedFormat, VA_FOURCC_422H, VA_FOURCC_444P, VA_FOURCC_I420, VA_FOURCC_P010,
    VA_FOURCC_Y210, VA_FOURCC_Y410, VA_FOURCC_Y412,
};
use va_backend::image::{decoded_frame_size, read_image};

fn word_le(v: u16) -> [u8; 2] {
    [(v & 0xFF) as u8, (v >> 8) as u8]
}

fn push_word(buf: &mut Vec<u8>, v: u16) {
    buf.extend_from_slice(&word_le(v));
}

#[test]
fn ten_bit_word_shifts_to_lsb() {
    // A source word 0xFFC0 at 10-bit depth (shift of six) converts to the
    // canonical 0x03FF.
    let mut src: Vec<u8> = Vec::new();
    push_word(&mut src, 0xFFC0); // luma (0,0)
    push_word(&mut src, 0x0040); // luma (0,1)
    push_word(&mut src, 0x0040); // luma (1,0)
    push_word(&mut src, 0x0040); // luma (1,1)
    push_word(&mut src, 0x8000); // chroma U
    push_word(&mut src, 0x4000); // chroma V
    let mut dst = vec![0u8; 12];
    read_image(&src, &mut dst, VA_FOURCC_P010, 2, 2, [4, 4, 0], [0, 8, 0]).unwrap();
    let mut expected: Vec<u8> = Vec::new();
    push_word(&mut expected, 0x03FF);
    push_word(&mut expected, 0x0001);
    push_word(&mut expected, 0x0001);
    push_word(&mut expected, 0x0001);
    push_word(&mut expected, 0x0200);
    push_word(&mut expected, 0x0100);
    assert_eq!(dst, expected);
}

#[test]
fn p01x_respects_source_stride() {
    // One pixel per row, rows padded to six bytes: padding never reaches
    // the destination.
    let mut src = vec![0u8; 18];
    src[0..2].copy_from_slice(&word_le(0xFFC0)); // luma row 0
    src[6..8].copy_from_slice(&word_le(0x7FC0)); // luma row 1
    src[12..14].copy_from_slice(&word_le(0x8000)); // U
    src[14..16].copy_from_slice(&word_le(0x4000)); // V
    // Canonical size for one-pixel-wide, two-pixel-tall 10-bit 4:2:0: two
    // luma words plus one U and one V word at even-rounded size.
    let mut dst = vec![0u8; 8];
    p01x_to_i01x(&src, &mut dst, 10, 1, 2, [6, 6, 0], [0, 12, 0]);
    let mut expected: Vec<u8> = Vec::new();
    push_word(&mut expected, 0x03FF);
    push_word(&mut expected, 0x01FF);
    push_word(&mut expected, 0x0200);
    push_word(&mut expected, 0x0100);
    assert_eq!(dst, expected);
}

#[test]
fn y21x_deinterleaves_packed_422() {
    // One row, two pixels: the packed luma, U, luma, V words spread into
    // three planes, shifted to least-significant bits.
    let mut src: Vec<u8> = Vec::new();
    push_word(&mut src, 0xFFC0); // luma 0
    push_word(&mut src, 0x8000); // U
    push_word(&mut src, 0x0040); // luma 1
    push_word(&mut src, 0x4000); // V
    let mut dst = vec![0u8; 8];
    y21x_to_i21x(&src, &mut dst, 10, 2, 1, [8, 0, 0], [0, 0, 0]);
    let mut expected: Vec<u8> = Vec::new();
    push_word(&mut expected, 0x03FF);
    push_word(&mut expected, 0x0001);
    push_word(&mut expected, 0x0200);
    push_word(&mut expected, 0x0100);
    assert_eq!(dst, expected);

    let mut via_read = vec![0u8; 8];
    read_image(&src, &mut via_read, VA_FOURCC_Y210, 2, 1, [8, 0, 0], [0, 0, 0]).unwrap();
    assert_eq!(via_read, expected);
}

#[test]
fn y412_rotates_and_drops_alpha() {
    // One pixel: packed U, luma, V, alpha; alpha vanishes, the rest is
    // rotated right by four bits.
    let mut src: Vec<u8> = Vec::new();
    push_word(&mut src, 0x1234); // U
    push_word(&mut src, 0xABCD); // luma
    push_word(&mut src, 0x00F0); // V
    push_word(&mut src, 0xFFFF); // alpha
    let mut dst = vec![0u8; 6];
    y412_to_i412(&src, &mut dst, 1, 1, [8, 0, 0], [0, 0, 0]);
    let mut expected: Vec<u8> = Vec::new();
    push_word(&mut expected, 0xDABC);
    push_word(&mut expected, 0x4123);
    push_word(&mut expected, 0x000F);
    assert_eq!(dst, expected);

    let mut via_read = vec![0u8; 6];
    read_image(&src, &mut via_read, VA_FOURCC_Y412, 1, 1, [8, 0, 0], [0, 0, 0]).unwrap();
    assert_eq!(via_read, expected);
}

#[test]
fn nv12_copy_removes_row_padding() {
    let src = vec![
        1, 2, 0xEE, // luma row 0, one padding byte
        3, 4, 0xEE, // luma row 1
        5, 6, // interleaved chroma row
    ];
    let mut dst = vec![0u8; 6];
    nv12_copy(&src, &mut dst, 2, 2, [3, 2, 0], [0, 6, 0]);
    assert_eq!(dst, vec![1, 2, 3, 4, 5, 6]);
}

#[test]
fn i420_copies_three_planes() {
    let src = vec![1, 2, 3, 4, 7, 9];
    let mut dst = vec![0u8; 6];
    read_image(&src, &mut dst, VA_FOURCC_I420, 2, 2, [2, 1, 1], [0, 4, 5]).unwrap();
    assert_eq!(dst, vec![1, 2, 3, 4, 7, 9]);
}

#[test]
fn i4xx_copy_handles_both_subsampling_axes() {
    // 4:2:2: chroma halved horizontally only. Two pixels wide, two tall:
    // chroma planes are one byte wide, two tall.
    let src = vec![1, 2, 3, 4, 11, 12, 21, 22];
    let mut dst = vec![0u8; 8];
    i4xx_copy(&src, &mut dst, 2, 2, [2, 1, 1], [0, 4, 6], (true, false));
    assert_eq!(dst, vec![1, 2, 3, 4, 11, 12, 21, 22]);

    // 4:4:4: full-resolution chroma, with luma rows padded in the source.
    let src = vec![1, 2, 0xEE, 3, 4, 0xEE, 11, 12, 13, 14, 21, 22, 23, 24];
    let mut dst = vec![0u8; 12];
    i4xx_copy(&src, &mut dst, 2, 2, [3, 2, 2], [0, 6, 10], (false, false));
    assert_eq!(dst, vec![1, 2, 3, 4, 11, 12, 13, 14, 21, 22, 23, 24]);
}

#[test]
fn wrong_destination_size_fails_before_any_write() {
    let src = vec![0u8; 12];
    let mut dst = vec![0xAAu8; 11];
    let err = read_image(&src, &mut dst, VA_FOURCC_P010, 2, 2, [4, 4, 0], [0, 8, 0]);
    assert_eq!(err, Err(ReadError::SizeMismatch { expected: 12, actual: 11 }));
    assert_eq!(dst, vec![0xAAu8; 11]);
}

#[test]
fn y410_unpacks_and_drops_alpha() {
    // One pixel: a 32-bit word carrying U = 0x0AB in its lowest ten bits,
    // luma = 0x3FF in the next ten, V = 0x155 above that, and two alpha
    // bits, which vanish.
    let src = 0xD55FFCABu32.to_le_bytes().to_vec();
    let mut dst = vec![0u8; 6];
    read_image(&src, &mut dst, VA_FOURCC_Y410, 1, 1, [4, 0, 0], [0, 0, 0]).unwrap();
    let mut expected: Vec<u8> = Vec::new();
    push_word(&mut expected, 0x03FF);
    push_word(&mut expected, 0x00AB);
    push_word(&mut expected, 0x0155);
    assert_eq!(dst, expected);
}

#[test]
fn planar_422_and_444_read_out() {
    // 4:2:2 planar: half-width chroma planes, copied with padding removed.
    let src = vec![1, 2, 3, 4, 11, 12, 21, 22];
    let mut dst = vec![0u8; 8];
    read_image(&src, &mut dst, VA_FOURCC_422H, 2, 2, [2, 1, 1], [0, 4, 6]).unwrap();
    assert_eq!(dst, vec![1, 2, 3, 4, 11, 12, 21, 22]);

    // 4:4:4 planar: full-resolution chroma, luma rows padded in the source.
    let src = vec![1, 2, 0xEE, 3, 4, 0xEE, 11, 12, 13, 14, 21, 22, 23, 24];
    let mut dst = vec![0u8; 12];
    read_image(&src, &mut dst, VA_FOURCC_444P, 2, 2, [3, 2, 2], [0, 6, 10]).unwrap();
    assert_eq!(dst, vec![1, 2, 3, 4, 11, 12, 13, 14, 21, 22, 23, 24]);
}

#[test]
fn canonical_frame_sizes_are_exact() {
    assert_eq!(decoded_frame_size(DecodedFormat::I420, 1920, 1080), 3110400);
    assert_eq!(decoded_frame_size(DecodedFormat::NV12, 1920, 1080), 3110400);
    assert_eq!(decoded_frame_size(DecodedFormat::I422, 640, 480), 614400);
    assert_eq!(decoded_frame_size(DecodedFormat::I444, 16, 16), 768);
    assert_eq!(decoded_frame_size(DecodedFormat::I010, 1920, 1080), 6220800);
    assert_eq!(decoded_frame_size(DecodedFormat::I210, 640, 480), 1228800);
    assert_eq!(decoded_frame_size(DecodedFormat::I410, 16, 16), 1536);
    assert_eq!(decoded_frame_size(DecodedFormat::I412, 16, 16), 1536);
    // Odd dimensions round the chroma planes up to even.
    assert_eq!(decoded_frame_size(DecodedFormat::I420, 3, 3), 17);
}
