//! Reading a mapped picture out as canonical planar bytes.
//!
//! The device maps a decoded surface into memory in its native layout; the
//! caller hands the mapped bytes, the layout's fourcc, the display
//! resolution and the per-plane strides and offsets here, together with a
//! destination buffer. A destination of the wrong size fails before any
//! write; otherwise the matching normalization routine runs.

use vstd::prelude::*;
use crate::convert::{
    i4xx_copied, i4xx_copy, lemma_mul_nonneg, nv12_copied, nv12_copy, p01x_converted,
    p01x_to_i01x, spec_i4xx_frame_size, spec_nv12_frame_size, spec_p01x_frame_size,
    spec_round_even, spec_y21x_frame_size, spec_y410_frame_size, spec_y412_frame_size,
    y21x_converted, y21x_to_i21x, y410_converted, y410_to_i410, y412_converted, y412_to_i412,
};
use crate::error::ReadError;
use crate::format::{
    DecodedFormat, VA_FOURCC_422H, VA_FOURCC_444P, VA_FOURCC_I420, VA_FOURCC_NV12, VA_FOURCC_P010,
    VA_FOURCC_P012, VA_FOURCC_Y210, VA_FOURCC_Y212, VA_FOURCC_Y410, VA_FOURCC_Y412,
};

verus! {

/// The exact canonical byte size of a decoded frame in the given format at
/// the given display resolution.
pub open spec fn spec_decoded_frame_size(format: DecodedFormat, width: int, height: int) -> int {
    match format {
        DecodedFormat::I420 => spec_i4xx_frame_size(width, height, true, true),
        DecodedFormat::NV12 => spec_nv12_frame_size(width, height),
        DecodedFormat::I422 => spec_i4xx_frame_size(width, height, true, false),
        DecodedFormat::I444 => spec_i4xx_frame_size(width, height, false, false),
        DecodedFormat::I010 => spec_p01x_frame_size(width, height),
        DecodedFormat::I012 => spec_p01x_frame_size(width, height),
        DecodedFormat::I210 => spec_y21x_frame_size(width, height),
        DecodedFormat::I212 => spec_y21x_frame_size(width, height),
        DecodedFormat::I410 => spec_y410_frame_size(width, height),
        DecodedFormat::I412 => spec_y412_frame_size(width, height),
    }
}

/// Computes the canonical byte size of a decoded frame.
pub fn decoded_frame_size(format: DecodedFormat, width: usize, height: usize) -> (r: usize)
    requires
        width < usize::MAX,
        height < usize::MAX,
        spec_decoded_frame_size(format, width as int, height as int) <= usize::MAX,
    ensures
        r == spec_decoded_frame_size(format, width as int, height as int),
{
    let ghost w = width as int;
    let ghost h = height as int;
    let wide: usize = if width % 2 == 1 {
        width + 1
    } else {
        width
    };
    let tall: usize = if height % 2 == 1 {
        height + 1
    } else {
        height
    };
    let half_w: usize = wide / 2;
    let half_h: usize = tall / 2;
    proof {
        lemma_mul_nonneg(w, h);
        lemma_mul_nonneg(half_w as int, half_h as int);
        lemma_mul_nonneg(half_w as int, h);
        lemma_mul_nonneg(wide as int, half_h as int);
        lemma_mul_nonneg(w, half_h as int);
    }
    match format {
        DecodedFormat::I420 => width * height + 2 * (half_w * half_h),
        DecodedFormat::NV12 => width * height + wide * half_h,
        DecodedFormat::I422 => width * height + 2 * (half_w * height),
        DecodedFormat::I444 => width * height + 2 * (width * height),
        DecodedFormat::I010 => 2 * (width * height) + 4 * (half_w * half_h),
        DecodedFormat::I012 => 2 * (width * height) + 4 * (half_w * half_h),
        DecodedFormat::I210 => 2 * (width * height) + 4 * ((width / 2) * height),
        DecodedFormat::I212 => 2 * (width * height) + 4 * ((width / 2) * height),
        DecodedFormat::I410 => 2 * (width * height) + 4 * (width * height),
        DecodedFormat::I412 => 2 * (width * height) + 4 * (width * height),
    }
}

/// The hardware layouts the backend can read out: every fourcc the
/// negotiation table can map a surface into.
pub open spec fn spec_readable_fourcc(fourcc: u32) -> bool {
    ||| fourcc == VA_FOURCC_I420
    ||| fourcc == VA_FOURCC_NV12
    ||| fourcc == VA_FOURCC_422H
    ||| fourcc == VA_FOURCC_444P
    ||| fourcc == VA_FOURCC_P010
    ||| fourcc == VA_FOURCC_P012
    ||| fourcc == VA_FOURCC_Y210
    ||| fourcc == VA_FOURCC_Y212
    ||| fourcc == VA_FOURCC_Y410
    ||| fourcc == VA_FOURCC_Y412
}

/// Whether the backend can read the hardware layout out.
pub fn readable_fourcc(fourcc: u32) -> (r: bool)
    ensures
        r == spec_readable_fourcc(fourcc),
{
    fourcc == VA_FOURCC_I420 || fourcc == VA_FOURCC_NV12 || fourcc == VA_FOURCC_422H || fourcc
        == VA_FOURCC_444P || fourcc == VA_FOURCC_P010 || fourcc == VA_FOURCC_P012 || fourcc
        == VA_FOURCC_Y210 || fourcc == VA_FOURCC_Y212 || fourcc == VA_FOURCC_Y410 || fourcc
        == VA_FOURCC_Y412
}

/// The canonical format a readable hardware layout normalizes into.
pub open spec fn spec_read_format(fourcc: u32) -> DecodedFormat {
    if fourcc == VA_FOURCC_I420 {
        DecodedFormat::I420
    } else if fourcc == VA_FOURCC_NV12 {
        DecodedFormat::NV12
    } else if fourcc == VA_FOURCC_422H {
        DecodedFormat::I422
    } else if fourcc == VA_FOURCC_444P {
        DecodedFormat::I444
    } else if fourcc == VA_FOURCC_P010 {
        DecodedFormat::I010
    } else if fourcc == VA_FOURCC_P012 {
        DecodedFormat::I012
    } else if fourcc == VA_FOURCC_Y210 {
        DecodedFormat::I210
    } else if fourcc == VA_FOURCC_Y212 {
        DecodedFormat::I212
    } else if fourcc == VA_FOURCC_Y410 {
        DecodedFormat::I410
    } else {
        DecodedFormat::I412
    }
}

/// The canonical format a readable hardware layout normalizes into.
pub fn read_format(fourcc: u32) -> (r: DecodedFormat)
    requires
        spec_readable_fourcc(fourcc),
    ensures
        r == spec_read_format(fourcc),
{
    if fourcc == VA_FOURCC_I420 {
        DecodedFormat::I420
    } else if fourcc == VA_FOURCC_NV12 {
        DecodedFormat::NV12
    } else if fourcc == VA_FOURCC_422H {
        DecodedFormat::I422
    } else if fourcc == VA_FOURCC_444P {
        DecodedFormat::I444
    } else if fourcc == VA_FOURCC_P010 {
        DecodedFormat::I010
    } else if fourcc == VA_FOURCC_P012 {
        DecodedFormat::I012
    } else if fourcc == VA_FOURCC_Y210 {
        DecodedFormat::I210
    } else if fourcc == VA_FOURCC_Y212 {
        DecodedFormat::I212
    } else if fourcc == VA_FOURCC_Y410 {
        DecodedFormat::I410
    } else {
        DecodedFormat::I412
    }
}

/// Negotiation and read-out agree: every layout the priority table can
/// resolve a stream to has a read-out rule here, and reading it out yields
/// exactly the decoded format the negotiation promised.
pub proof fn lemma_negotiable_layouts_are_readable()
    ensures
        forall|k: int|
            0 <= k < crate::format::spec_format_map().len() ==> {
                let entry = #[trigger] crate::format::spec_format_map()[k];
                spec_readable_fourcc(entry.va_fourcc) && spec_read_format(entry.va_fourcc)
                    == entry.decoded_format
            },
{
}

/// What a mapped source buffer must hold for its layout: every row the
/// conversion reads lies inside it, and rows do not overrun the stride.
pub open spec fn spec_read_src_ok(
    fourcc: u32,
    src_len: int,
    width: int,
    height: int,
    strides: Seq<usize>,
    offsets: Seq<usize>,
) -> bool {
    let half_h = spec_round_even(height) / 2;
    let half_w = spec_round_even(width) / 2;
    if fourcc == VA_FOURCC_I420 {
        &&& height > 0 ==> offsets[0] + (height - 1) * strides[0] + width <= src_len
        &&& half_h > 0 ==> offsets[1] + (half_h - 1) * strides[1] + half_w <= src_len
        &&& half_h > 0 ==> offsets[2] + (half_h - 1) * strides[2] + half_w <= src_len
    } else if fourcc == VA_FOURCC_NV12 {
        &&& height > 0 ==> offsets[0] + (height - 1) * strides[0] + width <= src_len
        &&& half_h > 0 ==> offsets[1] + (half_h - 1) * strides[1] + spec_round_even(width)
            <= src_len
    } else if fourcc == VA_FOURCC_422H {
        &&& height > 0 ==> offsets[0] + (height - 1) * strides[0] + width <= src_len
        &&& height > 0 ==> offsets[1] + (height - 1) * strides[1] + half_w <= src_len
        &&& height > 0 ==> offsets[2] + (height - 1) * strides[2] + half_w <= src_len
    } else if fourcc == VA_FOURCC_444P {
        &&& height > 0 ==> offsets[0] + (height - 1) * strides[0] + width <= src_len
        &&& height > 0 ==> offsets[1] + (height - 1) * strides[1] + width <= src_len
        &&& height > 0 ==> offsets[2] + (height - 1) * strides[2] + width <= src_len
    } else if fourcc == VA_FOURCC_P010 || fourcc == VA_FOURCC_P012 {
        &&& height > 0 ==> offsets[0] + (height - 1) * strides[0] + 2 * width <= src_len
        &&& height > 1 ==> 2 * width <= strides[0]
        &&& half_h > 0 ==> offsets[1] + (half_h - 1) * strides[1] + 2 * spec_round_even(width)
            <= src_len
        &&& half_h > 1 ==> 2 * spec_round_even(width) <= strides[1]
    } else if fourcc == VA_FOURCC_Y210 || fourcc == VA_FOURCC_Y212 {
        &&& width % 2 == 0
        &&& height > 0 ==> offsets[0] + (height - 1) * strides[0] + 4 * width <= src_len
        &&& height > 1 ==> 4 * width <= strides[0]
    } else if fourcc == VA_FOURCC_Y410 {
        &&& height > 0 ==> offsets[0] + (height - 1) * strides[0] + 4 * width <= src_len
        &&& height > 1 ==> 4 * width <= strides[0]
    } else if fourcc == VA_FOURCC_Y412 {
        &&& height > 0 ==> offsets[0] + (height - 1) * strides[0] + 8 * width <= src_len
        &&& height > 1 ==> 8 * width <= strides[0]
    } else {
        true
    }
}

/// A product of two values that each fit a machine word fits a double-wide
/// word, with room left for two more machine words.
proof fn lemma_wide_mul_fits(a: int, b: int)
    by (nonlinear_arith)
    requires
        0 <= a < 0x10000000000000000,
        0 <= b < 0x10000000000000000,
    ensures
        0 <= a * b <= 0xfffffffffffffffe0000000000000001,
{
}

/// Whether a plane lies inside a mapped buffer of `len` bytes: its rows
/// start at `off`, step by `stride`, and the last row's bytes end `tail`
/// bytes after that row's start.
fn plane_in_bounds(off: u128, stride: u128, rows_minus_1: u128, tail: u128, len: u128) -> (r:
    bool)
    requires
        off < 0x10000000000000000,
        stride < 0x10000000000000000,
        rows_minus_1 < 0x10000000000000000,
        tail < 0x100000000000000000,
        len < 0x10000000000000000,
    ensures
        r == (off + rows_minus_1 * stride + tail <= len),
{
    proof {
        lemma_wide_mul_fits(rows_minus_1 as int, stride as int);
    }
    let rows_span = rows_minus_1 * stride;
    rows_span <= len && off + rows_span + tail <= len
}

/// Whether a mapped source buffer holds every byte its layout's conversion
/// reads; the decidable twin of [`spec_read_src_ok`], for callers that must
/// validate a driver-reported layout before reading it.
pub fn read_src_ok(
    fourcc: u32,
    src_len: usize,
    width: usize,
    height: usize,
    strides: [usize; 3],
    offsets: [usize; 3],
) -> (r: bool)
    requires
        width < usize::MAX,
        height < usize::MAX,
    ensures
        r == spec_read_src_ok(
            fourcc,
            src_len as int,
            width as int,
            height as int,
            strides@,
            offsets@,
        ),
{
    let wide: usize = if width % 2 == 1 {
        width + 1
    } else {
        width
    };
    let tall: usize = if height % 2 == 1 {
        height + 1
    } else {
        height
    };
    let half_w: u128 = (wide / 2) as u128;
    let half_h: u128 = (tall / 2) as u128;
    let w: u128 = width as u128;
    let h: u128 = height as u128;
    let len: u128 = src_len as u128;
    let s0: u128 = strides[0] as u128;
    let s1: u128 = strides[1] as u128;
    let s2: u128 = strides[2] as u128;
    let o0: u128 = offsets[0] as u128;
    let o1: u128 = offsets[1] as u128;
    let o2: u128 = offsets[2] as u128;
    if fourcc == VA_FOURCC_I420 {
        (height == 0 || plane_in_bounds(o0, s0, h - 1, w, len)) && (half_h == 0
            || (plane_in_bounds(o1, s1, half_h - 1, half_w, len) && plane_in_bounds(
            o2,
            s2,
            half_h - 1,
            half_w,
            len,
        )))
    } else if fourcc == VA_FOURCC_NV12 {
        (height == 0 || plane_in_bounds(o0, s0, h - 1, w, len)) && (half_h == 0
            || plane_in_bounds(o1, s1, half_h - 1, wide as u128, len))
    } else if fourcc == VA_FOURCC_422H {
        height == 0 || (plane_in_bounds(o0, s0, h - 1, w, len) && plane_in_bounds(
            o1,
            s1,
            h - 1,
            half_w,
            len,
        ) && plane_in_bounds(o2, s2, h - 1, half_w, len))
    } else if fourcc == VA_FOURCC_444P {
        height == 0 || (plane_in_bounds(o0, s0, h - 1, w, len) && plane_in_bounds(
            o1,
            s1,
            h - 1,
            w,
            len,
        ) && plane_in_bounds(o2, s2, h - 1, w, len))
    } else if fourcc == VA_FOURCC_P010 || fourcc == VA_FOURCC_P012 {
        (height == 0 || plane_in_bounds(o0, s0, h - 1, 2 * w, len)) && (height <= 1 || 2 * w
            <= s0) && (half_h == 0 || plane_in_bounds(o1, s1, half_h - 1, 2 * (wide as u128), len))
            && (half_h <= 1 || 2 * (wide as u128) <= s1)
    } else if fourcc == VA_FOURCC_Y210 || fourcc == VA_FOURCC_Y212 {
        width % 2 == 0 && (height == 0 || plane_in_bounds(o0, s0, h - 1, 4 * w, len)) && (height
            <= 1 || 4 * w <= s0)
    } else if fourcc == VA_FOURCC_Y410 {
        (height == 0 || plane_in_bounds(o0, s0, h - 1, 4 * w, len)) && (height <= 1 || 4 * w
            <= s0)
    } else if fourcc == VA_FOURCC_Y412 {
        (height == 0 || plane_in_bounds(o0, s0, h - 1, 8 * w, len)) && (height <= 1 || 8 * w
            <= s0)
    } else {
        true
    }
}

/// Reads a mapped picture into `dst` as canonical planar bytes.
///
/// Fails with a size mismatch, before writing anything, iff `dst` does not
/// hold exactly the expected canonical size; otherwise the layout's
/// conversion rule is applied in full and the read succeeds.
pub fn read_image(
    src: &[u8],
    dst: &mut Vec<u8>,
    fourcc: u32,
    width: usize,
    height: usize,
    strides: [usize; 3],
    offsets: [usize; 3],
) -> (r: Result<(), ReadError>)
    requires
        spec_readable_fourcc(fourcc),
        width < usize::MAX,
        height < usize::MAX,
        spec_decoded_frame_size(spec_read_format(fourcc), width as int, height as int)
            <= usize::MAX,
        old(dst)@.len() == spec_decoded_frame_size(
            spec_read_format(fourcc),
            width as int,
            height as int,
        ) ==> spec_read_src_ok(
            fourcc,
            src.len() as int,
            width as int,
            height as int,
            strides@,
            offsets@,
        ),
    ensures
        final(dst)@.len() == old(dst)@.len(),
        ({
            let expected = spec_decoded_frame_size(
                spec_read_format(fourcc),
                width as int,
                height as int,
            );
            let w = width as int;
            let h = height as int;
            &&& r is Ok <==> old(dst)@.len() == expected
            &&& old(dst)@.len() != expected ==> {
                &&& r matches Err(ReadError::SizeMismatch { expected: e, actual: a })
                &&& e == expected
                &&& a == old(dst)@.len()
                &&& final(dst)@ == old(dst)@
            }
            &&& old(dst)@.len() == expected ==> {
                &&& fourcc == VA_FOURCC_I420 ==> i4xx_copied(
                    src@,
                    final(dst)@,
                    w,
                    h,
                    offsets@,
                    strides@,
                    true,
                    true,
                )
                &&& fourcc == VA_FOURCC_NV12 ==> nv12_copied(
                    src@,
                    final(dst)@,
                    w,
                    h,
                    offsets@[0] as int,
                    strides@[0] as int,
                    offsets@[1] as int,
                    strides@[1] as int,
                )
                &&& fourcc == VA_FOURCC_422H ==> i4xx_copied(
                    src@,
                    final(dst)@,
                    w,
                    h,
                    offsets@,
                    strides@,
                    true,
                    false,
                )
                &&& fourcc == VA_FOURCC_444P ==> i4xx_copied(
                    src@,
                    final(dst)@,
                    w,
                    h,
                    offsets@,
                    strides@,
                    false,
                    false,
                )
                &&& fourcc == VA_FOURCC_P010 ==> p01x_converted(
                    src@,
                    final(dst)@,
                    10,
                    w,
                    h,
                    offsets@[0] as int,
                    strides@[0] as int,
                    offsets@[1] as int,
                    strides@[1] as int,
                )
                &&& fourcc == VA_FOURCC_P012 ==> p01x_converted(
                    src@,
                    final(dst)@,
                    12,
                    w,
                    h,
                    offsets@[0] as int,
                    strides@[0] as int,
                    offsets@[1] as int,
                    strides@[1] as int,
                )
                &&& fourcc == VA_FOURCC_Y210 ==> y21x_converted(
                    src@,
                    final(dst)@,
                    10,
                    w,
                    h,
                    offsets@[0] as int,
                    strides@[0] as int,
                )
                &&& fourcc == VA_FOURCC_Y212 ==> y21x_converted(
                    src@,
                    final(dst)@,
                    12,
                    w,
                    h,
                    offsets@[0] as int,
                    strides@[0] as int,
                )
                &&& fourcc == VA_FOURCC_Y410 ==> y410_converted(
                    src@,
                    final(dst)@,
                    w,
                    h,
                    offsets@[0] as int,
                    strides@[0] as int,
                )
                &&& fourcc == VA_FOURCC_Y412 ==> y412_converted(
                    src@,
                    final(dst)@,
                    w,
                    h,
                    offsets@[0] as int,
                    strides@[0] as int,
                )
            }
        }),
{
    let format = read_format(fourcc);
    let image_size = decoded_frame_size(format, width, height);
    if dst.len() != image_size {
        return Err(ReadError::SizeMismatch { expected: image_size, actual: dst.len() });
    }

    if fourcc == VA_FOURCC_I420 {
        i4xx_copy(src, dst, width, height, strides, offsets, (true, true));
    } else if fourcc == VA_FOURCC_NV12 {
        nv12_copy(src, dst, width, height, strides, offsets);
    } else if fourcc == VA_FOURCC_422H {
        i4xx_copy(src, dst, width, height, strides, offsets, (true, false));
    } else if fourcc == VA_FOURCC_444P {
        i4xx_copy(src, dst, width, height, strides, offsets, (false, false));
    } else if fourcc == VA_FOURCC_P010 {
        p01x_to_i01x(src, dst, 10, width, height, strides, offsets);
    } else if fourcc == VA_FOURCC_P012 {
        p01x_to_i01x(src, dst, 12, width, height, strides, offsets);
    } else if fourcc == VA_FOURCC_Y210 {
        y21x_to_i21x(src, dst, 10, width, height, strides, offsets);
    } else if fourcc == VA_FOURCC_Y212 {
        y21x_to_i21x(src, dst, 12, width, height, strides, offsets);
    } else if fourcc == VA_FOURCC_Y410 {
        y410_to_i410(src, dst, width, height, strides, offsets);
    } else {
        y412_to_i412(src, dst, width, height, strides, offsets);
    }
    Ok(())
}

} // verus!
