//! Pixel-layout conversion routines.
//!
//! The hardware writes 16-bit words whose most-significant bits are valid,
//! biplanar or fully packed; downstream consumers expect canonical planar
//! buffers: least-significant bits valid, tightly packed, row-major per
//! plane. Each conversion below is a fixed gather pattern over source words
//! plus a per-word transform, and is stated exactly, word by word.

use vstd::prelude::*;
use crate::bytes::{le_read_u16, le_read_u32, spec_dword_at, spec_word_at, write_word};

verus! {

/// `x` rounded up to the next even value.
pub open spec fn spec_round_even(x: int) -> int {
    if x % 2 == 1 {
        x + 1
    } else {
        x
    }
}

/// The byte offset, within a tightly packed plane of two-byte words and
/// `cols` words per row, of the word in row `r`, column `c`.
pub open spec fn word_pos(r: int, c: int, cols: int) -> int {
    2 * (r * cols + c)
}

/// The per-word transform a conversion applies.
#[derive(Clone, Copy, Debug, PartialEq, Eq, Structural)]
pub enum WordOp {
    /// The word has this many most-significant bits valid; shift it down so
    /// the least-significant bits are valid.
    Lsb { useful_bits: usize },
    /// Rotate the word right by four bits, as this hardware's packed
    /// 4:4:4 layout requires.
    RotateRight4,
}

/// Whether a transform's parameter is meaningful.
pub open spec fn word_op_wf(op: WordOp) -> bool {
    match op {
        WordOp::Lsb { useful_bits } => 0 < useful_bits <= 16,
        WordOp::RotateRight4 => true,
    }
}

/// What a transform does to a word.
pub open spec fn spec_word_op(w: u16, op: WordOp) -> u16 {
    match op {
        WordOp::Lsb { useful_bits } => w >> ((16 - useful_bits) as u16),
        WordOp::RotateRight4 => (w / 16 + (w % 16) * 4096) as u16,
    }
}

/// Applies a transform to one word.
fn apply_word_op(w: u16, op: WordOp) -> (r: u16)
    requires
        word_op_wf(op),
    ensures
        r == spec_word_op(w, op),
{
    match op {
        WordOp::Lsb { useful_bits } => w >> ((16 - useful_bits) as u16),
        WordOp::RotateRight4 => w / 16 + (w % 16) * 4096,
    }
}

/// Row-major positions grow strictly along rows and columns.
proof fn lemma_rc_lt(r2: int, c2: int, r: int, c: int, cols: int)
    by (nonlinear_arith)
    requires
        0 <= c2 < cols,
        0 <= r2,
        0 <= c,
        r2 < r || (r2 == r && c2 < c),
    ensures
        r2 * cols + c2 < r * cols + c,
{
}

/// A row-major position lies under the plane's word count.
proof fn lemma_rc_bound(r: int, c: int, cols: int, rows: int)
    by (nonlinear_arith)
    requires
        0 <= r < rows,
        0 <= c < cols,
    ensures
        0 <= r * cols + c,
        r * cols + c < cols * rows,
{
}

/// Multiplying by a nonnegative factor is monotone.
proof fn lemma_mul_le(a: int, b: int, s: int)
    by (nonlinear_arith)
    requires
        0 <= a <= b,
        0 <= s,
    ensures
        a * s <= b * s,
{
}

/// Converts one plane of two-byte words: the source word for row `r`,
/// column `c` sits at `src_off + r * src_stride + src_step * c`; its
/// transform lands in a tightly packed destination plane starting at
/// `dst_off`. Bytes outside the destination plane are untouched.
fn convert_word_plane(
    src: &[u8],
    dst: &mut Vec<u8>,
    src_off: usize,
    src_stride: usize,
    src_step: usize,
    dst_off: usize,
    cols: usize,
    rows: usize,
    op: WordOp,
) -> (nothing: ())
    requires
        word_op_wf(op),
        rows > 0 && cols > 0 ==> src_off + (rows - 1) * src_stride + src_step * (cols - 1) + 2
            <= src.len(),
        dst_off + 2 * (cols * rows) <= old(dst).len(),
    ensures
        final(dst)@.len() == old(dst)@.len(),
        forall|r: int, c: int|
            #![trigger word_pos(r, c, cols as int)]
            0 <= r < rows && 0 <= c < cols ==> spec_word_at(
                final(dst)@,
                dst_off + word_pos(r, c, cols as int),
            ) == spec_word_op(
                spec_word_at(src@, src_off + r * src_stride + src_step * c),
                op,
            ),
        forall|p: int|
            0 <= p < old(dst)@.len() && (p < dst_off || p >= dst_off + 2 * (cols * rows))
                ==> final(dst)@[p] == old(dst)@[p],
{
    if rows == 0 || cols == 0 {
        return ;
    }
    let src_len: usize = src.len();
    let dst_len: usize = dst.len();
    let ghost orig = old(dst)@;
    let ghost co = cols as int;
    let ghost ro = rows as int;
    let mut r: usize = 0;
    while r < rows
        invariant
            word_op_wf(op),
            rows > 0 && cols > 0,
            src_len == src.len(),
            src_off + (rows - 1) * src_stride + src_step * (cols - 1) + 2 <= src_len,
            dst_off + 2 * (cols * rows) <= dst_len,
            co == cols as int,
            ro == rows as int,
            r <= rows,
            dst@.len() == dst_len,
            orig.len() == dst_len,
            forall|r2: int, c2: int|
                #![trigger word_pos(r2, c2, co)]
                0 <= r2 < r && 0 <= c2 < co ==> spec_word_at(dst@, dst_off + word_pos(r2, c2, co))
                    == spec_word_op(
                    spec_word_at(src@, src_off + r2 * src_stride + src_step * c2),
                    op,
                ),
            forall|p: int|
                0 <= p < orig.len() && (p < dst_off || p >= dst_off + 2 * (cols * rows))
                    ==> dst@[p] == orig[p],
        decreases rows - r,
    {
        proof {
            lemma_mul_le(r as int, ro - 1, src_stride as int);
        }
        let row_base: usize = src_off + r * src_stride;
        let mut c: usize = 0;
        while c < cols
            invariant
                word_op_wf(op),
                rows > 0 && cols > 0,
                src_len == src.len(),
                dst_off + 2 * (cols * rows) <= dst_len,
                co == cols as int,
                ro == rows as int,
                r < rows,
                c <= cols,
                row_base == src_off + r * src_stride,
                row_base + src_step * (cols - 1) + 2 <= src_len,
                dst@.len() == dst_len,
                orig.len() == dst_len,
                forall|r2: int, c2: int|
                    #![trigger word_pos(r2, c2, co)]
                    0 <= r2 < ro && 0 <= c2 < co && (r2 < r || (r2 == r && c2 < c))
                        ==> spec_word_at(dst@, dst_off + word_pos(r2, c2, co)) == spec_word_op(
                        spec_word_at(src@, src_off + r2 * src_stride + src_step * c2),
                        op,
                    ),
                forall|p: int|
                    0 <= p < orig.len() && (p < dst_off || p >= dst_off + 2 * (cols * rows))
                        ==> dst@[p] == orig[p],
            decreases cols - c,
        {
            proof {
                lemma_mul_le(c as int, co - 1, src_step as int);
                lemma_rc_bound(r as int, c as int, co, ro);
            }
            let word = le_read_u16(src, row_base + src_step * c);
            let converted = apply_word_op(word, op);
            let idx: usize = dst_off + 2 * (r * cols + c);
            let ghost prev = dst@;
            write_word(dst, idx, converted);
            proof {
                assert forall|r2: int, c2: int|
                    #![trigger word_pos(r2, c2, co)]
                    0 <= r2 < ro && 0 <= c2 < co && (r2 < r || (r2 == r && c2 < c))
                        implies spec_word_at(dst@, dst_off + word_pos(r2, c2, co)) == spec_word_at(
                        prev,
                        dst_off + word_pos(r2, c2, co),
                    ) by {
                    lemma_rc_lt(r2, c2, r as int, c as int, co);
                    lemma_rc_bound(r2, c2, co, ro);
                }
                assert(spec_word_at(dst@, dst_off + word_pos(r as int, c as int, co))
                    == converted);
                assert forall|p: int|
                    0 <= p < orig.len() && (p < dst_off || p >= dst_off + 2 * (cols * rows))
                        implies dst@[p] == orig[p] by {
                    assert(prev[p] == orig[p]);
                }
            }
            c = c + 1;
        }
        r = r + 1;
    }
}

/// A product of nonnegatives is nonnegative.
pub(crate) proof fn lemma_mul_nonneg(a: int, b: int)
    by (nonlinear_arith)
    requires
        0 <= a,
        0 <= b,
    ensures
        0 <= a * b,
{
}

/// A big dimension stays under a total that contains it.
proof fn lemma_dim_bound(w: int, h: int, rest: int, total: int)
    by (nonlinear_arith)
    requires
        w >= 0,
        h >= 1,
        total == 2 * (w * h) + rest,
        rest >= 0,
    ensures
        w <= total,
        w * h <= total,
        2 * (w * h) <= total,
{
}

/// The canonical byte size of a triplanar buffer converted from a biplanar
/// source with two-byte samples: a full-resolution luma plane and two
/// chroma planes at even-rounded quarter resolution.
pub open spec fn spec_p01x_frame_size(width: int, height: int) -> int {
    2 * (width * height) + 4 * ((spec_round_even(width) / 2) * (spec_round_even(height) / 2))
}

/// What [`p01x_to_i01x`] produces: luma words shifted down to
/// least-significant-bits-valid, and the interleaved chroma words shifted
/// likewise and deinterleaved — even words into the U plane, odd words into
/// the V plane — at even-rounded quarter resolution.
pub open spec fn p01x_converted(
    src: Seq<u8>,
    dst: Seq<u8>,
    useful_bits: usize,
    width: int,
    height: int,
    y_off: int,
    y_stride: int,
    uv_off: int,
    uv_stride: int,
) -> bool {
    let uvw = spec_round_even(width) / 2;
    let uvh = spec_round_even(height) / 2;
    let y_size = 2 * (width * height);
    let uv_plane = 2 * (uvw * uvh);
    &&& forall|r: int, c: int|
        #![trigger word_pos(r, c, width)]
        0 <= r < height && 0 <= c < width ==> spec_word_at(dst, word_pos(r, c, width))
            == spec_word_op(
            spec_word_at(src, y_off + r * y_stride + 2 * c),
            (WordOp::Lsb { useful_bits }),
        )
    &&& forall|r: int, c: int|
        #![trigger word_pos(r, c, uvw)]
        0 <= r < uvh && 0 <= c < uvw ==> {
            &&& spec_word_at(dst, y_size + word_pos(r, c, uvw)) == spec_word_op(
                spec_word_at(src, uv_off + r * uv_stride + 4 * c),
                (WordOp::Lsb { useful_bits }),
            )
            &&& spec_word_at(dst, y_size + uv_plane + word_pos(r, c, uvw)) == spec_word_op(
                spec_word_at(src, uv_off + r * uv_stride + 4 * c + 2),
                (WordOp::Lsb { useful_bits }),
            )
        }
}

/// Copies a biplanar most-significant-bits-valid source into a tightly
/// packed triplanar least-significant-bits-valid destination, removing all
/// row padding. `useful_pixels` is the number of valid bits per sample, for
/// example 10 for 10-bit-deep samples in 16-bit words.
pub fn p01x_to_i01x(
    src: &[u8],
    dst: &mut Vec<u8>,
    useful_pixels: usize,
    width: usize,
    height: usize,
    strides: [usize; 3],
    offsets: [usize; 3],
)
    requires
        0 < useful_pixels <= 16,
        width < usize::MAX,
        height < usize::MAX,
        height > 0 ==> offsets@[0] + (height - 1) * strides@[0] + 2 * width <= src.len(),
        height > 1 ==> 2 * width <= strides@[0],
        spec_round_even(height as int) / 2 > 0 ==> offsets@[1] + (spec_round_even(height as int)
            / 2 - 1) * strides@[1] + 2 * spec_round_even(width as int) <= src.len(),
        spec_round_even(height as int) / 2 > 1 ==> 2 * spec_round_even(width as int)
            <= strides@[1],
        old(dst)@.len() == spec_p01x_frame_size(width as int, height as int),
    ensures
        final(dst)@.len() == old(dst)@.len(),
        p01x_converted(
            src@,
            final(dst)@,
            useful_pixels,
            width as int,
            height as int,
            offsets@[0] as int,
            strides@[0] as int,
            offsets@[1] as int,
            strides@[1] as int,
        ),
{
    let ghost w = width as int;
    let ghost h = height as int;
    let op = WordOp::Lsb { useful_bits: useful_pixels };
    if height == 0 || width == 0 {
        return ;
    }
    let wide: usize = if width % 2 == 1 {
        width + 1
    } else {
        width
    };
    let tall: usize = if height % 2 == 1 {
        height + 1
    } else {
        height
    };
    let uvw: usize = wide / 2;
    let uvh: usize = tall / 2;
    proof {
        assert(uvw as int == spec_round_even(w) / 2);
        assert(uvh as int == spec_round_even(h) / 2);
    }
    let dst_len: usize = dst.len();
    if height > 0 {
        proof {
            lemma_mul_nonneg(uvw as int, uvh as int);
            lemma_dim_bound(w, h, 4 * ((uvw as int) * (uvh as int)), dst_len as int);
        }
    }
    let y_size: usize = 2 * (width * height);

    // Luma: shift every sample down, respecting the source row stride and
    // packing the destination tightly.
    convert_word_plane(src, dst, offsets[0], strides[0], 2, 0, width, height, op);
    let ghost after_y = dst@;

    // Chroma: the source interleaves one U word and one V word per sample
    // pair; shift as above and deinterleave into two planes.
    let uv_plane: usize = 2 * (uvw * uvh);
    proof {
        if uvh > 0 && uvw > 0 {
            assert(4 * ((uvw as int) - 1) + 2 <= 2 * spec_round_even(w) - 2);
        }
    }
    convert_word_plane(src, dst, offsets[1], strides[1], 4, y_size, uvw, uvh, op);
    let ghost after_u = dst@;
    proof {
        // The chroma pass leaves the finished luma plane untouched.
        assert forall|r: int, c: int|
            #![trigger word_pos(r, c, w)]
            0 <= r < h && 0 <= c < w implies spec_word_at(dst@, word_pos(r, c, w)) == spec_word_at(
            after_y,
            word_pos(r, c, w),
        ) by {
            lemma_rc_bound(r, c, w, h);
        }
    }
    let v_off: usize = y_size + uv_plane;
    convert_word_plane(
        src,
        dst,
        offsets[1] + 2,
        strides[1],
        4,
        v_off,
        uvw,
        uvh,
        op,
    );
    proof {
        let uvwi = uvw as int;
        let uvhi = uvh as int;
        assert forall|r: int, c: int|
            #![trigger word_pos(r, c, w)]
            0 <= r < h && 0 <= c < w implies spec_word_at(dst@, word_pos(r, c, w)) == spec_word_at(
            after_u,
            word_pos(r, c, w),
        ) by {
            lemma_rc_bound(r, c, w, h);
        }
        assert forall|r: int, c: int|
            #![trigger word_pos(r, c, uvwi)]
            0 <= r < uvhi && 0 <= c < uvwi implies spec_word_at(
            dst@,
            y_size + word_pos(r, c, uvwi),
        ) == spec_word_at(after_u, y_size + word_pos(r, c, uvwi)) by {
            lemma_rc_bound(r, c, uvwi, uvhi);
        }
    }
}

/// The canonical byte size of a triplanar buffer converted from a packed
/// 4:2:2 source with two-byte samples: a full-resolution luma plane and two
/// half-width chroma planes.
pub open spec fn spec_y21x_frame_size(width: int, height: int) -> int {
    2 * (width * height) + 4 * ((width / 2) * height)
}

/// What [`y21x_to_i21x`] produces from a packed 4:2:2 source laid out as
/// repeating luma, U, luma, V words: every word shifted down to
/// least-significant-bits-valid and placed into its own tightly packed
/// plane.
pub open spec fn y21x_converted(
    src: Seq<u8>,
    dst: Seq<u8>,
    useful_bits: usize,
    width: int,
    height: int,
    off: int,
    stride: int,
) -> bool {
    let uvw = width / 2;
    let y_size = 2 * (width * height);
    let uv_plane = 2 * (uvw * height);
    &&& forall|r: int, c: int|
        #![trigger word_pos(r, c, width)]
        0 <= r < height && 0 <= c < width ==> spec_word_at(dst, word_pos(r, c, width))
            == spec_word_op(
            spec_word_at(src, off + r * stride + 4 * c),
            (WordOp::Lsb { useful_bits }),
        )
    &&& forall|r: int, c: int|
        #![trigger word_pos(r, c, uvw)]
        0 <= r < height && 0 <= c < uvw ==> {
            &&& spec_word_at(dst, y_size + word_pos(r, c, uvw)) == spec_word_op(
                spec_word_at(src, off + r * stride + 8 * c + 2),
                (WordOp::Lsb { useful_bits }),
            )
            &&& spec_word_at(dst, y_size + uv_plane + word_pos(r, c, uvw)) == spec_word_op(
                spec_word_at(src, off + r * stride + 8 * c + 6),
                (WordOp::Lsb { useful_bits }),
            )
        }
}

/// Copies a packed 4:2:2 most-significant-bits-valid source into a tightly
/// packed triplanar least-significant-bits-valid destination, removing all
/// row padding. The sampling interleaves two luma samples with one U and
/// one V sample, so the width must be even.
pub fn y21x_to_i21x(
    src: &[u8],
    dst: &mut Vec<u8>,
    useful_pixels: usize,
    width: usize,
    height: usize,
    strides: [usize; 3],
    offsets: [usize; 3],
)
    requires
        0 < useful_pixels <= 16,
        width % 2 == 0,
        height > 0 ==> offsets@[0] + (height - 1) * strides@[0] + 4 * width <= src.len(),
        height > 1 ==> 4 * width <= strides@[0],
        old(dst)@.len() == spec_y21x_frame_size(width as int, height as int),
    ensures
        final(dst)@.len() == old(dst)@.len(),
        y21x_converted(
            src@,
            final(dst)@,
            useful_pixels,
            width as int,
            height as int,
            offsets@[0] as int,
            strides@[0] as int,
        ),
{
    let ghost w = width as int;
    let ghost h = height as int;
    let op = WordOp::Lsb { useful_bits: useful_pixels };
    let uvw: usize = width / 2;
    if height == 0 || width == 0 {
        return ;
    }
    let dst_len: usize = dst.len();
    proof {
        lemma_mul_nonneg(uvw as int, h);
        lemma_dim_bound(w, h, 4 * ((uvw as int) * h), dst_len as int);
    }
    let y_size: usize = 2 * (width * height);
    let uv_plane: usize = 2 * (uvw * height);

    // Luma: every other source word, shifted down and packed tightly.
    convert_word_plane(src, dst, offsets[0], strides[0], 4, 0, width, height, op);
    let ghost after_y = dst@;

    // Chroma: one U and one V word per group of four source words.
    convert_word_plane(src, dst, offsets[0] + 2, strides[0], 8, y_size, uvw, height, op);
    let ghost after_u = dst@;
    proof {
        assert forall|r: int, c: int|
            #![trigger word_pos(r, c, w)]
            0 <= r < h && 0 <= c < w implies spec_word_at(dst@, word_pos(r, c, w)) == spec_word_at(
            after_y,
            word_pos(r, c, w),
        ) by {
            lemma_rc_bound(r, c, w, h);
        }
    }
    let v_off: usize = y_size + uv_plane;
    convert_word_plane(src, dst, offsets[0] + 6, strides[0], 8, v_off, uvw, height, op);
    proof {
        let uvwi = uvw as int;
        assert forall|r: int, c: int|
            #![trigger word_pos(r, c, w)]
            0 <= r < h && 0 <= c < w implies spec_word_at(dst@, word_pos(r, c, w)) == spec_word_at(
            after_u,
            word_pos(r, c, w),
        ) by {
            lemma_rc_bound(r, c, w, h);
        }
        assert forall|r: int, c: int|
            #![trigger word_pos(r, c, uvwi)]
            0 <= r < h && 0 <= c < uvwi implies spec_word_at(dst@, y_size + word_pos(r, c, uvwi))
            == spec_word_at(after_u, y_size + word_pos(r, c, uvwi)) by {
            lemma_rc_bound(r, c, uvwi, h);
        }
    }
}

/// The canonical byte size of a triplanar 4:4:4 buffer with two-byte
/// samples: three full-resolution planes.
pub open spec fn spec_y412_frame_size(width: int, height: int) -> int {
    6 * (width * height)
}

/// What [`y412_to_i412`] produces from a packed 4:4:4 source laid out as
/// repeating U, luma, V, alpha words: the alpha channel dropped, every kept
/// word rotated right by four bits, each component in its own tightly
/// packed plane.
pub open spec fn y412_converted(
    src: Seq<u8>,
    dst: Seq<u8>,
    width: int,
    height: int,
    off: int,
    stride: int,
) -> bool {
    let y_size = 2 * (width * height);
    forall|r: int, c: int|
        #![trigger word_pos(r, c, width)]
        0 <= r < height && 0 <= c < width ==> {
            &&& spec_word_at(dst, word_pos(r, c, width)) == spec_word_op(
                spec_word_at(src, off + r * stride + 8 * c + 2),
                WordOp::RotateRight4,
            )
            &&& spec_word_at(dst, y_size + word_pos(r, c, width)) == spec_word_op(
                spec_word_at(src, off + r * stride + 8 * c),
                WordOp::RotateRight4,
            )
            &&& spec_word_at(dst, 2 * y_size + word_pos(r, c, width)) == spec_word_op(
                spec_word_at(src, off + r * stride + 8 * c + 4),
                WordOp::RotateRight4,
            )
        }
}

/// Copies a packed 4:4:4-with-alpha source into a tightly packed triplanar
/// destination, dropping the alpha channel and applying the bit rotation
/// this hardware's internal packing requires.
pub fn y412_to_i412(
    src: &[u8],
    dst: &mut Vec<u8>,
    width: usize,
    height: usize,
    strides: [usize; 3],
    offsets: [usize; 3],
)
    requires
        height > 0 ==> offsets@[0] + (height - 1) * strides@[0] + 8 * width <= src.len(),
        height > 1 ==> 8 * width <= strides@[0],
        old(dst)@.len() == spec_y412_frame_size(width as int, height as int),
    ensures
        final(dst)@.len() == old(dst)@.len(),
        y412_converted(
            src@,
            final(dst)@,
            width as int,
            height as int,
            offsets@[0] as int,
            strides@[0] as int,
        ),
{
    let ghost w = width as int;
    let ghost h = height as int;
    let op = WordOp::RotateRight4;
    if height == 0 || width == 0 {
        return ;
    }
    let dst_len: usize = dst.len();
    proof {
        lemma_mul_nonneg(w, h);
        lemma_dim_bound(w, h, 4 * (w * h), dst_len as int);
    }
    let y_size: usize = 2 * (width * height);

    convert_word_plane(src, dst, offsets[0] + 2, strides[0], 8, 0, width, height, op);
    let ghost after_y = dst@;
    convert_word_plane(src, dst, offsets[0], strides[0], 8, y_size, width, height, op);
    let ghost after_u = dst@;
    proof {
        assert forall|r: int, c: int|
            #![trigger word_pos(r, c, w)]
            0 <= r < h && 0 <= c < w implies spec_word_at(dst@, word_pos(r, c, w)) == spec_word_at(
            after_y,
            word_pos(r, c, w),
        ) by {
            lemma_rc_bound(r, c, w, h);
        }
    }
    convert_word_plane(src, dst, offsets[0] + 4, strides[0], 8, 2 * y_size, width, height, op);
    proof {
        assert forall|r: int, c: int|
            #![trigger word_pos(r, c, w)]
            0 <= r < h && 0 <= c < w implies spec_word_at(dst@, word_pos(r, c, w)) == spec_word_at(
            after_u,
            word_pos(r, c, w),
        ) && spec_word_at(dst@, y_size + word_pos(r, c, w)) == spec_word_at(
            after_u,
            y_size + word_pos(r, c, w),
        ) by {
            lemma_rc_bound(r, c, w, h);
        }
    }
}


/// The byte offset, within a tightly packed plane with `row_bytes` bytes
/// per row, of the byte in row `r`, column `b`.
pub open spec fn byte_pos(r: int, b: int, row_bytes: int) -> int {
    r * row_bytes + b
}

/// Copies one plane of bytes, removing the source row stride: the source
/// byte for row `r`, column `b` sits at `src_off + r * src_stride + b`; it
/// lands in a tightly packed destination plane starting at `dst_off`.
/// Bytes outside the destination plane are untouched.
fn copy_byte_plane(
    src: &[u8],
    dst: &mut Vec<u8>,
    src_off: usize,
    src_stride: usize,
    dst_off: usize,
    row_bytes: usize,
    rows: usize,
)
    requires
        rows > 0 && row_bytes > 0 ==> src_off + (rows - 1) * src_stride + row_bytes <= src.len(),
        dst_off + row_bytes * rows <= old(dst).len(),
    ensures
        final(dst)@.len() == old(dst)@.len(),
        forall|r: int, b: int|
            #![trigger byte_pos(r, b, row_bytes as int)]
            0 <= r < rows && 0 <= b < row_bytes ==> final(dst)@[dst_off + byte_pos(
                r,
                b,
                row_bytes as int,
            )] == src@[src_off + r * src_stride + b],
        forall|p: int|
            0 <= p < old(dst)@.len() && (p < dst_off || p >= dst_off + row_bytes * rows)
                ==> final(dst)@[p] == old(dst)@[p],
{
    if rows == 0 || row_bytes == 0 {
        return ;
    }
    let src_len: usize = src.len();
    let dst_len: usize = dst.len();
    let ghost orig = old(dst)@;
    let ghost rb = row_bytes as int;
    let ghost ro = rows as int;
    let mut r: usize = 0;
    while r < rows
        invariant
            rows > 0 && row_bytes > 0,
            src_len == src.len(),
            src_off + (rows - 1) * src_stride + row_bytes <= src_len,
            dst_off + row_bytes * rows <= dst_len,
            rb == row_bytes as int,
            ro == rows as int,
            r <= rows,
            dst@.len() == dst_len,
            orig.len() == dst_len,
            forall|r2: int, b2: int|
                #![trigger byte_pos(r2, b2, rb)]
                0 <= r2 < r && 0 <= b2 < rb ==> dst@[dst_off + byte_pos(r2, b2, rb)] == src@[
                    src_off + r2 * src_stride + b2
                ],
            forall|p: int|
                0 <= p < orig.len() && (p < dst_off || p >= dst_off + row_bytes * rows) ==> dst@[p]
                    == orig[p],
        decreases rows - r,
    {
        proof {
            lemma_mul_le(r as int, ro - 1, src_stride as int);
        }
        let row_base: usize = src_off + r * src_stride;
        let mut b: usize = 0;
        while b < row_bytes
            invariant
                rows > 0 && row_bytes > 0,
                src_len == src.len(),
                dst_off + row_bytes * rows <= dst_len,
                rb == row_bytes as int,
                ro == rows as int,
                r < rows,
                b <= row_bytes,
                row_base == src_off + r * src_stride,
                row_base + row_bytes <= src_len,
                dst@.len() == dst_len,
                orig.len() == dst_len,
                forall|r2: int, b2: int|
                    #![trigger byte_pos(r2, b2, rb)]
                    0 <= r2 < ro && 0 <= b2 < rb && (r2 < r || (r2 == r && b2 < b)) ==> dst@[
                        dst_off + byte_pos(r2, b2, rb)
                    ] == src@[src_off + r2 * src_stride + b2],
                forall|p: int|
                    0 <= p < orig.len() && (p < dst_off || p >= dst_off + row_bytes * rows)
                        ==> dst@[p] == orig[p],
            decreases row_bytes - b,
        {
            proof {
                lemma_rc_bound(r as int, b as int, rb, ro);
            }
            let value = src[row_base + b];
            let idx: usize = dst_off + (r * row_bytes + b);
            let ghost prev = dst@;
            dst[idx] = value;
            proof {
                assert(dst@ == prev.update(idx as int, value));
                assert forall|r2: int, b2: int|
                    #![trigger byte_pos(r2, b2, rb)]
                    0 <= r2 < ro && 0 <= b2 < rb && (r2 < r || (r2 == r && b2 < b)) implies dst@[
                    dst_off + byte_pos(r2, b2, rb)
                ] == prev[dst_off + byte_pos(r2, b2, rb)] by {
                    lemma_rc_lt(r2, b2, r as int, b as int, rb);
                    lemma_rc_bound(r2, b2, rb, ro);
                }
            }
            b = b + 1;
        }
        r = r + 1;
    }
}

/// The canonical byte size of a biplanar 8-bit 4:2:0 buffer: a
/// full-resolution luma plane and an interleaved chroma plane at
/// even-rounded quarter resolution.
pub open spec fn spec_nv12_frame_size(width: int, height: int) -> int {
    width * height + spec_round_even(width) * (spec_round_even(height) / 2)
}

/// What [`nv12_copy`] produces: both planes copied byte for byte with the
/// row padding removed, the chroma plane still interleaved.
pub open spec fn nv12_copied(
    src: Seq<u8>,
    dst: Seq<u8>,
    width: int,
    height: int,
    y_off: int,
    y_stride: int,
    uv_off: int,
    uv_stride: int,
) -> bool {
    let we = spec_round_even(width);
    let uvh = spec_round_even(height) / 2;
    &&& forall|r: int, b: int|
        #![trigger byte_pos(r, b, width)]
        0 <= r < height && 0 <= b < width ==> dst[byte_pos(r, b, width)] == src[y_off + r
            * y_stride + b]
    &&& forall|r: int, b: int|
        #![trigger byte_pos(r, b, we)]
        0 <= r < uvh && 0 <= b < we ==> dst[width * height + byte_pos(r, b, we)] == src[uv_off + r
            * uv_stride + b]
}

/// Copies a biplanar 8-bit 4:2:0 source into a tightly packed biplanar
/// destination, removing all row padding.
pub fn nv12_copy(
    src: &[u8],
    dst: &mut Vec<u8>,
    width: usize,
    height: usize,
    strides: [usize; 3],
    offsets: [usize; 3],
)
    requires
        width < usize::MAX,
        height < usize::MAX,
        height > 0 ==> offsets@[0] + (height - 1) * strides@[0] + width <= src.len(),
        spec_round_even(height as int) / 2 > 0 ==> offsets@[1] + (spec_round_even(height as int)
            / 2 - 1) * strides@[1] + spec_round_even(width as int) <= src.len(),
        old(dst)@.len() == spec_nv12_frame_size(width as int, height as int),
    ensures
        final(dst)@.len() == old(dst)@.len(),
        nv12_copied(
            src@,
            final(dst)@,
            width as int,
            height as int,
            offsets@[0] as int,
            strides@[0] as int,
            offsets@[1] as int,
            strides@[1] as int,
        ),
{
    let ghost w = width as int;
    let ghost h = height as int;
    if height == 0 || width == 0 {
        return ;
    }
    let wide: usize = if width % 2 == 1 {
        width + 1
    } else {
        width
    };
    let tall: usize = if height % 2 == 1 {
        height + 1
    } else {
        height
    };
    let uvh: usize = tall / 2;
    let dst_len: usize = dst.len();
    proof {
        lemma_mul_nonneg(wide as int, uvh as int);
        lemma_mul_le(1, h, w);
        assert(w * 1 == w && w * h == h * w) by (nonlinear_arith);
    }
    let y_size: usize = width * height;
    copy_byte_plane(src, dst, offsets[0], strides[0], 0, width, height);
    let ghost after_y = dst@;
    copy_byte_plane(src, dst, offsets[1], strides[1], y_size, wide, uvh);
    proof {
        assert forall|r: int, b: int|
            #![trigger byte_pos(r, b, w)]
            0 <= r < h && 0 <= b < w implies dst@[byte_pos(r, b, w)] == after_y[byte_pos(
            r,
            b,
            w,
        )] by {
            lemma_rc_bound(r, b, w, h);
        }
    }
}

/// The canonical byte size of a triplanar 8-bit buffer whose chroma planes
/// are halved horizontally and/or vertically.
pub open spec fn spec_i4xx_frame_size(width: int, height: int, sub_h: bool, sub_v: bool) -> int {
    let cw = if sub_h {
        spec_round_even(width) / 2
    } else {
        width
    };
    let ch = if sub_v {
        spec_round_even(height) / 2
    } else {
        height
    };
    width * height + 2 * (cw * ch)
}

/// What [`i4xx_copy`] produces: three planes copied byte for byte with the
/// row padding removed.
pub open spec fn i4xx_copied(
    src: Seq<u8>,
    dst: Seq<u8>,
    width: int,
    height: int,
    offsets: Seq<usize>,
    strides: Seq<usize>,
    sub_h: bool,
    sub_v: bool,
) -> bool {
    let cw = if sub_h {
        spec_round_even(width) / 2
    } else {
        width
    };
    let ch = if sub_v {
        spec_round_even(height) / 2
    } else {
        height
    };
    &&& forall|r: int, b: int|
        #![trigger byte_pos(r, b, width)]
        0 <= r < height && 0 <= b < width ==> dst[byte_pos(r, b, width)] == src[offsets[0] + r
            * strides[0] + b]
    &&& forall|r: int, b: int|
        #![trigger byte_pos(r, b, cw)]
        0 <= r < ch && 0 <= b < cw ==> {
            &&& dst[width * height + byte_pos(r, b, cw)] == src[offsets[1] + r * strides[1] + b]
            &&& dst[width * height + cw * ch + byte_pos(r, b, cw)] == src[offsets[2] + r
                * strides[2] + b]
        }
}

/// Copies a triplanar 8-bit source into a tightly packed triplanar
/// destination, removing all row padding. `sub_h` and `sub_v` say whether
/// the chroma planes are halved horizontally and vertically.
pub fn i4xx_copy(
    src: &[u8],
    dst: &mut Vec<u8>,
    width: usize,
    height: usize,
    strides: [usize; 3],
    offsets: [usize; 3],
    subsampling: (bool, bool),
)
    requires
        width < usize::MAX,
        height < usize::MAX,
        height > 0 ==> offsets@[0] + (height - 1) * strides@[0] + width <= src.len(),
        ({
            let cw = if subsampling.0 {
                spec_round_even(width as int) / 2
            } else {
                width as int
            };
            let ch = if subsampling.1 {
                spec_round_even(height as int) / 2
            } else {
                height as int
            };
            &&& (ch > 0 ==> offsets@[1] + (ch - 1) * strides@[1] + cw <= src.len())
            &&& (ch > 0 ==> offsets@[2] + (ch - 1) * strides@[2] + cw <= src.len())
        }),
        old(dst)@.len() == spec_i4xx_frame_size(
            width as int,
            height as int,
            subsampling.0,
            subsampling.1,
        ),
    ensures
        final(dst)@.len() == old(dst)@.len(),
        i4xx_copied(
            src@,
            final(dst)@,
            width as int,
            height as int,
            offsets@,
            strides@,
            subsampling.0,
            subsampling.1,
        ),
{
    let ghost w = width as int;
    let ghost h = height as int;
    if height == 0 || width == 0 {
        return ;
    }
    let cw: usize = if subsampling.0 {
        (if width % 2 == 1 {
            width + 1
        } else {
            width
        }) / 2
    } else {
        width
    };
    let ch: usize = if subsampling.1 {
        (if height % 2 == 1 {
            height + 1
        } else {
            height
        }) / 2
    } else {
        height
    };
    let dst_len: usize = dst.len();
    proof {
        lemma_mul_nonneg(cw as int, ch as int);
        lemma_mul_le(1, h, w);
        assert(w * 1 == w && w * h == h * w) by (nonlinear_arith);
    }
    let y_size: usize = width * height;
    let c_size: usize = cw * ch;
    copy_byte_plane(src, dst, offsets[0], strides[0], 0, width, height);
    let ghost after_y = dst@;
    copy_byte_plane(src, dst, offsets[1], strides[1], y_size, cw, ch);
    let ghost after_u = dst@;
    proof {
        assert forall|r: int, b: int|
            #![trigger byte_pos(r, b, w)]
            0 <= r < h && 0 <= b < w implies dst@[byte_pos(r, b, w)] == after_y[byte_pos(
            r,
            b,
            w,
        )] by {
            lemma_rc_bound(r, b, w, h);
        }
    }
    copy_byte_plane(src, dst, offsets[2], strides[2], y_size + c_size, cw, ch);
    proof {
        let cwi = cw as int;
        let chi = ch as int;
        assert forall|r: int, b: int|
            #![trigger byte_pos(r, b, w)]
            0 <= r < h && 0 <= b < w implies dst@[byte_pos(r, b, w)] == after_u[byte_pos(
            r,
            b,
            w,
        )] by {
            lemma_rc_bound(r, b, w, h);
        }
        assert forall|r: int, b: int|
            #![trigger byte_pos(r, b, cwi)]
            0 <= r < chi && 0 <= b < cwi implies dst@[w * h + byte_pos(r, b, cwi)] == after_u[w * h
            + byte_pos(r, b, cwi)] by {
            lemma_rc_bound(r, b, cwi, chi);
        }
    }
}


/// The ten-bit sample a packed 4:4:4 dword holds at the field selected by
/// `div`: 1 for the lowest ten bits, 1024 for the middle ten, 1048576 for
/// the ten below the alpha bits.
pub open spec fn spec_y410_sample(dword: u32, div: u32) -> u16
    recommends
        div == 1 || div == 1024 || div == 1048576,
{
    ((dword / div) % 1024) as u16
}

/// Converts one plane out of a packed-dword source: the 32-bit word for
/// row `r`, column `c` sits at `src_off + r * src_stride + 4 * c`; the
/// ten-bit field selected by `div` lands, widened to a two-byte word, in a
/// tightly packed destination plane starting at `dst_off`. Bytes outside
/// the destination plane are untouched.
fn convert_y410_plane(
    src: &[u8],
    dst: &mut Vec<u8>,
    src_off: usize,
    src_stride: usize,
    dst_off: usize,
    cols: usize,
    rows: usize,
    div: u32,
) -> (nothing: ())
    requires
        div == 1 || div == 1024 || div == 1048576,
        rows > 0 && cols > 0 ==> src_off + (rows - 1) * src_stride + 4 * (cols - 1) + 4
            <= src.len(),
        dst_off + 2 * (cols * rows) <= old(dst).len(),
    ensures
        final(dst)@.len() == old(dst)@.len(),
        forall|r: int, c: int|
            #![trigger word_pos(r, c, cols as int)]
            0 <= r < rows && 0 <= c < cols ==> spec_word_at(
                final(dst)@,
                dst_off + word_pos(r, c, cols as int),
            ) == spec_y410_sample(spec_dword_at(src@, src_off + r * src_stride + 4 * c), div),
        forall|p: int|
            0 <= p < old(dst)@.len() && (p < dst_off || p >= dst_off + 2 * (cols * rows))
                ==> final(dst)@[p] == old(dst)@[p],
{
    if rows == 0 || cols == 0 {
        return ;
    }
    let src_len: usize = src.len();
    let dst_len: usize = dst.len();
    let ghost orig = old(dst)@;
    let ghost co = cols as int;
    let ghost ro = rows as int;
    let mut r: usize = 0;
    while r < rows
        invariant
            div == 1 || div == 1024 || div == 1048576,
            rows > 0 && cols > 0,
            src_len == src.len(),
            src_off + (rows - 1) * src_stride + 4 * (cols - 1) + 4 <= src_len,
            dst_off + 2 * (cols * rows) <= dst_len,
            co == cols as int,
            ro == rows as int,
            r <= rows,
            dst@.len() == dst_len,
            orig.len() == dst_len,
            forall|r2: int, c2: int|
                #![trigger word_pos(r2, c2, co)]
                0 <= r2 < r && 0 <= c2 < co ==> spec_word_at(dst@, dst_off + word_pos(r2, c2, co))
                    == spec_y410_sample(
                    spec_dword_at(src@, src_off + r2 * src_stride + 4 * c2),
                    div,
                ),
            forall|p: int|
                0 <= p < orig.len() && (p < dst_off || p >= dst_off + 2 * (cols * rows))
                    ==> dst@[p] == orig[p],
        decreases rows - r,
    {
        proof {
            lemma_mul_le(r as int, ro - 1, src_stride as int);
        }
        let row_base: usize = src_off + r * src_stride;
        let mut c: usize = 0;
        while c < cols
            invariant
                div == 1 || div == 1024 || div == 1048576,
                rows > 0 && cols > 0,
                src_len == src.len(),
                dst_off + 2 * (cols * rows) <= dst_len,
                co == cols as int,
                ro == rows as int,
                r < rows,
                c <= cols,
                row_base == src_off + r * src_stride,
                row_base + 4 * (cols - 1) + 4 <= src_len,
                dst@.len() == dst_len,
                orig.len() == dst_len,
                forall|r2: int, c2: int|
                    #![trigger word_pos(r2, c2, co)]
                    0 <= r2 < ro && 0 <= c2 < co && (r2 < r || (r2 == r && c2 < c))
                        ==> spec_word_at(dst@, dst_off + word_pos(r2, c2, co))
                        == spec_y410_sample(
                        spec_dword_at(src@, src_off + r2 * src_stride + 4 * c2),
                        div,
                    ),
                forall|p: int|
                    0 <= p < orig.len() && (p < dst_off || p >= dst_off + 2 * (cols * rows))
                        ==> dst@[p] == orig[p],
            decreases cols - c,
        {
            proof {
                lemma_mul_le(c as int, co - 1, 4);
                lemma_rc_bound(r as int, c as int, co, ro);
            }
            let dword = le_read_u32(src, row_base + 4 * c);
            let sample: u16 = ((dword / div) % 1024) as u16;
            let idx: usize = dst_off + 2 * (r * cols + c);
            let ghost prev = dst@;
            write_word(dst, idx, sample);
            proof {
                assert forall|r2: int, c2: int|
                    #![trigger word_pos(r2, c2, co)]
                    0 <= r2 < ro && 0 <= c2 < co && (r2 < r || (r2 == r && c2 < c))
                        implies spec_word_at(dst@, dst_off + word_pos(r2, c2, co)) == spec_word_at(
                        prev,
                        dst_off + word_pos(r2, c2, co),
                    ) by {
                    lemma_rc_lt(r2, c2, r as int, c as int, co);
                    lemma_rc_bound(r2, c2, co, ro);
                }
                assert(spec_word_at(dst@, dst_off + word_pos(r as int, c as int, co)) == sample);
                assert forall|p: int|
                    0 <= p < orig.len() && (p < dst_off || p >= dst_off + 2 * (cols * rows))
                        implies dst@[p] == orig[p] by {
                    assert(prev[p] == orig[p]);
                }
            }
            c = c + 1;
        }
        r = r + 1;
    }
}

/// The canonical byte size of a triplanar buffer converted from a packed
/// ten-bit 4:4:4 source: three full-resolution planes of two-byte samples.
pub open spec fn spec_y410_frame_size(width: int, height: int) -> int {
    6 * (width * height)
}

/// What [`y410_to_i410`] produces from a packed ten-bit 4:4:4 source of one
/// 32-bit word per pixel — U in the lowest ten bits, then luma, then V,
/// then two alpha bits: the alpha dropped, each ten-bit component widened
/// to a least-significant-bits-valid two-byte word in its own tightly
/// packed plane.
pub open spec fn y410_converted(
    src: Seq<u8>,
    dst: Seq<u8>,
    width: int,
    height: int,
    off: int,
    stride: int,
) -> bool {
    let y_size = 2 * (width * height);
    forall|r: int, c: int|
        #![trigger word_pos(r, c, width)]
        0 <= r < height && 0 <= c < width ==> {
            &&& spec_word_at(dst, word_pos(r, c, width)) == spec_y410_sample(
                spec_dword_at(src, off + r * stride + 4 * c),
                1024,
            )
            &&& spec_word_at(dst, y_size + word_pos(r, c, width)) == spec_y410_sample(
                spec_dword_at(src, off + r * stride + 4 * c),
                1,
            )
            &&& spec_word_at(dst, 2 * y_size + word_pos(r, c, width)) == spec_y410_sample(
                spec_dword_at(src, off + r * stride + 4 * c),
                1048576,
            )
        }
}

/// Copies a packed ten-bit 4:4:4-with-alpha source — one 32-bit word per
/// pixel — into a tightly packed triplanar destination with the
/// least-significant bits of each two-byte sample valid, dropping the two
/// alpha bits.
pub fn y410_to_i410(
    src: &[u8],
    dst: &mut Vec<u8>,
    width: usize,
    height: usize,
    strides: [usize; 3],
    offsets: [usize; 3],
)
    requires
        height > 0 ==> offsets@[0] + (height - 1) * strides@[0] + 4 * width <= src.len(),
        height > 1 ==> 4 * width <= strides@[0],
        old(dst)@.len() == spec_y410_frame_size(width as int, height as int),
    ensures
        final(dst)@.len() == old(dst)@.len(),
        y410_converted(
            src@,
            final(dst)@,
            width as int,
            height as int,
            offsets@[0] as int,
            strides@[0] as int,
        ),
{
    let ghost w = width as int;
    let ghost h = height as int;
    if height == 0 || width == 0 {
        return ;
    }
    let dst_len: usize = dst.len();
    proof {
        lemma_mul_nonneg(w, h);
        lemma_dim_bound(w, h, 4 * (w * h), dst_len as int);
    }
    let y_size: usize = 2 * (width * height);

    convert_y410_plane(src, dst, offsets[0], strides[0], 0, width, height, 1024);
    let ghost after_y = dst@;
    convert_y410_plane(src, dst, offsets[0], strides[0], y_size, width, height, 1);
    let ghost after_u = dst@;
    proof {
        assert forall|r: int, c: int|
            #![trigger word_pos(r, c, w)]
            0 <= r < h && 0 <= c < w implies spec_word_at(dst@, word_pos(r, c, w)) == spec_word_at(
            after_y,
            word_pos(r, c, w),
        ) by {
            lemma_rc_bound(r, c, w, h);
        }
    }
    convert_y410_plane(src, dst, offsets[0], strides[0], 2 * y_size, width, height, 1048576);
    proof {
        assert forall|r: int, c: int|
            #![trigger word_pos(r, c, w)]
            0 <= r < h && 0 <= c < w implies spec_word_at(dst@, word_pos(r, c, w)) == spec_word_at(
            after_u,
            word_pos(r, c, w),
        ) && spec_word_at(dst@, y_size + word_pos(r, c, w)) == spec_word_at(
            after_u,
            y_size + word_pos(r, c, w),
        ) by {
            lemma_rc_bound(r, c, w, h);
        }
    }
}

} // verus!
