use vstd::prelude::*;

use crate::script_handler::script_data_types::Size;

verus! {

/// The source column (or row) shown at destination column `x`: the scaled position
/// in 16.16 fixed point, rounded down and kept inside the source.
pub open spec fn scaled_index(x: int, src_len: int, dst_len: int) -> int {
    let ratio = (src_len * 65536) / dst_len;
    let s = (x * ratio) / 65536;
    if s < src_len - 1 {
        s
    } else {
        src_len - 1
    }
}

/// The pixel value an emulator window shows for a source byte: black for 0, white
/// otherwise.
pub open spec fn pixel(b: u8) -> u32 {
    if b == 0 {
        0
    } else {
        0xFFFFFFFF
    }
}

proof fn lemma_row_index(y: int, x: int, w: int, h: int)
    requires
        0 <= y < h,
        0 <= x < w,
    ensures
        0 <= y * w + x < w * h,
        y * w + x >= y * w,
{
    assert(y * w + x < w * h) by (nonlinear_arith)
        requires
            0 <= y < h,
            0 <= x < w,
    ;
    assert(0 <= y * w) by (nonlinear_arith)
        requires
            0 <= y,
            0 <= w,
    ;
}

proof fn lemma_scaled_bounds(x: int, src_len: int, dst_len: int)
    requires
        0 <= x < dst_len,
        0 < src_len,
        0 < dst_len,
    ensures
        0 <= x * ((src_len * 65536) / dst_len) <= src_len * 65536,
        0 <= scaled_index(x, src_len, dst_len) < src_len,
{
    let ratio = (src_len * 65536) / dst_len;
    assert(0 <= ratio) by (nonlinear_arith)
        requires
            0 < src_len,
            0 < dst_len,
            ratio == (src_len * 65536) / dst_len,
    ;
    assert(ratio * dst_len <= src_len * 65536) by (nonlinear_arith)
        requires
            0 < src_len,
            0 < dst_len,
            ratio == (src_len * 65536) / dst_len,
    ;
    assert(0 <= x * ratio <= ratio * dst_len) by (nonlinear_arith)
        requires
            0 <= x < dst_len,
            0 <= ratio,
    ;
}

/// Draws `src` (one byte per pixel, `src_width` by `src_height`) onto `dst` (one
/// `u32` per pixel, `dst_width` by `dst_height`), scaled by nearest neighbour.
pub fn draw_scaled(
    src_buffer: &[u8],
    src_width: usize,
    src_height: usize,
    dst_buffer: &mut [u32],
    dst_width: usize,
    dst_height: usize,
)
    requires
        0 < src_width,
        0 < src_height,
        0 < dst_width,
        0 < dst_height,
        src_width * 65536 <= usize::MAX,
        src_height * 65536 <= usize::MAX,
        src_width * src_height <= src_buffer@.len(),
        dst_width * dst_height <= old(dst_buffer)@.len(),
    ensures
        final(dst_buffer)@.len() == old(dst_buffer)@.len(),
        forall|y: int, x: int|
            0 <= y < dst_height && 0 <= x < dst_width ==> #[trigger] final(dst_buffer)@[y
                * dst_width + x] == pixel(
                src_buffer@[scaled_index(y, src_height as int, dst_height as int) * src_width
                    + scaled_index(x, src_width as int, dst_width as int)],
            ),
        forall|i: int|
            dst_width * dst_height <= i < old(dst_buffer)@.len() ==> #[trigger] final(dst_buffer)@[i] == old(dst_buffer)@[i],
{
    let sw = src_width;
    let sh = src_height;
    let src_len = src_buffer.len();
    let dst_len = dst_buffer.len();
    proof {
        vstd::arithmetic::power2::lemma2_to64();
        vstd::bits::lemma_usize_shl_is_mul(sw, 16);
        vstd::bits::lemma_usize_shl_is_mul(sh, 16);
    }
    let x_ratio = (src_width << 16usize) / dst_width;
    let y_ratio = (src_height << 16usize) / dst_height;
    let ghost dw = dst_width as int;
    let ghost dh = dst_height as int;
    let mut dst_y: usize = 0;
    while dst_y < dst_height
        invariant
            dst_y <= dst_height,
            x_ratio == (src_width * 65536) / (dst_width as int),
            y_ratio == (src_height * 65536) / (dst_height as int),
            0 < src_width,
            0 < src_height,
            0 < dst_width,
            0 < dst_height,
            src_width * 65536 <= usize::MAX,
            src_height * 65536 <= usize::MAX,
            src_width * src_height <= src_buffer@.len(),
            dst_width * dst_height <= dst_buffer@.len(),
            src_len == src_buffer@.len(),
            dst_len == dst_buffer@.len(),
            dst_buffer@.len() == old(dst_buffer)@.len(),
            forall|y: int, x: int|
                0 <= y < dst_y && 0 <= x < dst_width ==> #[trigger] dst_buffer@[y * dst_width
                    + x] == pixel(
                    src_buffer@[scaled_index(y, src_height as int, dst_height as int)
                        * src_width + scaled_index(x, src_width as int, dst_width as int)],
                ),
            forall|i: int|
                dst_width * dst_y <= i < dst_buffer@.len() ==> #[trigger] dst_buffer@[i] == old(dst_buffer)@[i],
        decreases dst_height - dst_y,
    {
        let mut dst_x: usize = 0;
        proof {
            lemma_scaled_bounds(dst_y as int, src_height as int, dst_height as int);
        }
        let src_y_raw = (dst_y * y_ratio) >> 16usize;
        let src_y = if src_y_raw < src_height - 1 {
            src_y_raw
        } else {
            src_height - 1
        };
        let ghost row_y = dst_y as int;
        assert(src_y_raw == (dst_y * y_ratio) / 65536) by {
            vstd::arithmetic::power2::lemma2_to64();
            vstd::bits::lemma_usize_shr_is_div((dst_y * y_ratio) as usize, 16);
        }
        while dst_x < dst_width
            invariant
                dst_x <= dst_width,
                dst_y < dst_height,
                row_y == dst_y,
                x_ratio == (src_width * 65536) / (dst_width as int),
                src_y == scaled_index(dst_y as int, src_height as int, dst_height as int),
                0 <= src_y < src_height,
                0 < src_width,
                0 < dst_width,
                src_width * 65536 <= usize::MAX,
                src_width * src_height <= src_buffer@.len(),
                src_len == src_buffer@.len(),
                dst_len == dst_buffer@.len(),
                dst_width * dst_height <= dst_buffer@.len(),
                dst_buffer@.len() == old(dst_buffer)@.len(),
                forall|y: int, x: int|
                    0 <= y < dst_y && 0 <= x < dst_width ==> #[trigger] dst_buffer@[y
                        * dst_width + x] == pixel(
                        src_buffer@[scaled_index(y, src_height as int, dst_height as int)
                            * src_width + scaled_index(x, src_width as int, dst_width as int)],
                    ),
                forall|x: int|
                    0 <= x < dst_x ==> #[trigger] dst_buffer@[dst_y * dst_width + x] == pixel(
                        src_buffer@[src_y * src_width + scaled_index(
                            x,
                            src_width as int,
                            dst_width as int,
                        )],
                    ),
                forall|i: int|
                    dst_width * dst_y + dst_x <= i < dst_buffer@.len() ==> #[trigger] dst_buffer@[i]
                        == old(dst_buffer)@[i],
            decreases dst_width - dst_x,
        {
            proof {
                lemma_scaled_bounds(dst_x as int, src_width as int, dst_width as int);
                lemma_row_index(src_y as int, 0, src_width as int, src_height as int);
                lemma_row_index(dst_y as int, dst_x as int, dst_width as int, dst_height as int);
            }
            let src_x_raw = (dst_x * x_ratio) >> 16usize;
            assert(src_x_raw == (dst_x * x_ratio) / 65536) by {
                vstd::arithmetic::power2::lemma2_to64();
                vstd::bits::lemma_usize_shr_is_div((dst_x * x_ratio) as usize, 16);
            }
            let src_x = if src_x_raw < src_width - 1 {
                src_x_raw
            } else {
                src_width - 1
            };
            proof {
                lemma_row_index(src_y as int, src_x as int, src_width as int, src_height as int);
            }
            let src_idx = src_y * src_width + src_x;
            let dst_idx = dst_y * dst_width + dst_x;
            let value: u32 = if src_buffer[src_idx] == 0 {
                0
            } else {
                0xFFFFFFFF
            };
            let ghost before = dst_buffer@;
            dst_buffer[dst_idx] = value;
            assert forall|y: int, x: int|
                0 <= y < dst_y && 0 <= x < dst_width implies #[trigger] dst_buffer@[y * dst_width
                    + x] == pixel(
                    src_buffer@[scaled_index(y, src_height as int, dst_height as int) * src_width
                        + scaled_index(x, src_width as int, dst_width as int)],
                ) by {
                lemma_row_index(y, x, dst_width as int, dst_height as int);
                lemma_row_index(y, dst_width - 1, dst_width as int, dst_height as int);
                assert(y * dst_width + x < dst_y * dst_width) by (nonlinear_arith)
                    requires
                        0 <= y < dst_y,
                        0 <= x < dst_width,
                ;
            }
            assert forall|x: int| 0 <= x < dst_x + 1 implies #[trigger] dst_buffer@[dst_y * dst_width
                + x] == pixel(
                src_buffer@[src_y * src_width + scaled_index(x, src_width as int, dst_width as int)],
            ) by {
                if x < dst_x {
                    assert(dst_y * dst_width + x != dst_idx);
                }
            }
            dst_x = dst_x + 1;
        }
        assert forall|y: int, x: int|
            0 <= y < dst_y + 1 && 0 <= x < dst_width implies #[trigger] dst_buffer@[y * dst_width
                + x] == pixel(
                src_buffer@[scaled_index(y, src_height as int, dst_height as int) * src_width
                    + scaled_index(x, src_width as int, dst_width as int)],
            ) by {
            if y == dst_y {
            }
        }
        assert(dst_width * (dst_y + 1) == dst_width * dst_y + dst_width) by (nonlinear_arith);
        dst_y = dst_y + 1;
    }
}

/// A source byte of 0 is drawn black (0), any other byte white (0xFFFFFFFF).
pub proof fn lemma_pixel_black_or_white(b: u8)
    ensures
        b == 0 ==> pixel(b) == 0u32,
        b != 0 ==> pixel(b) == 0xFFFFFFFFu32,
{
}

/// Between sizes that agree, scaling maps each position to itself.
pub proof fn lemma_same_size_keeps_position(x: int, len: int)
    requires
        0 <= x < len,
    ensures
        scaled_index(x, len, len) == x,
{
    assert((len * 65536) / len == 65536) by (nonlinear_arith)
        requires
            0 < len,
    ;
    assert((x * 65536) / 65536 == x) by (nonlinear_arith);
}

/// Drawn at its own size, the screen is copied pixel for pixel: a destination pixel is
/// black exactly where its source byte is 0, and white elsewhere.
pub proof fn lemma_unscaled_draw(src: Seq<u8>, width: int, height: int, y: int, x: int)
    requires
        0 <= y < height,
        0 <= x < width,
    ensures
        scaled_index(y, height, height) * width + scaled_index(x, width, width) == y * width + x,
        src[y * width + x] == 0 ==> pixel(src[scaled_index(y, height, height) * width
            + scaled_index(x, width, width)]) == 0u32,
        src[y * width + x] != 0 ==> pixel(src[scaled_index(y, height, height) * width
            + scaled_index(x, width, width)]) == 0xFFFFFFFFu32,
{
    lemma_same_size_keeps_position(y, height);
    lemma_same_size_keeps_position(x, width);
}

/// Shrinking by a whole factor `k` shows every `k`-th source position.
pub proof fn lemma_shrink_by_factor(x: int, len: int, k: int)
    requires
        0 <= x < len,
        1 <= k,
    ensures
        scaled_index(x, k * len, len) == k * x,
{
    assert((k * len * 65536) / len == k * 65536) by (nonlinear_arith)
        requires
            0 < len,
            1 <= k,
    ;
    assert((x * (k * 65536)) / 65536 == k * x) by (nonlinear_arith)
        requires
            0 <= x,
            1 <= k,
    ;
    assert(k * x <= k * len - 1) by (nonlinear_arith)
        requires
            0 <= x < len,
            1 <= k,
    ;
}

/// Enlarging by a factor `k` that divides 65536 (a power of two, as the emulator
/// window's scale is) repeats each source position `k` times.
pub proof fn lemma_enlarge_by_factor(x: int, len: int, k: int, q: int)
    requires
        0 < len,
        0 <= x < k * len,
        1 <= k,
        k * q == 65536,
    ensures
        scaled_index(x, len, k * len) == x / k,
{
    assert(q > 0) by (nonlinear_arith)
        requires
            k * q == 65536,
            1 <= k,
    ;
    assert((len * 65536) / (k * len) == q) by (nonlinear_arith)
        requires
            0 < len,
            1 <= k,
            k * q == 65536,
    ;
    assert((x * q) / 65536 == x / k) by (nonlinear_arith)
        requires
            0 <= x,
            1 <= k,
            q > 0,
            k * q == 65536,
    ;
    assert(x / k <= len - 1) by (nonlinear_arith)
        requires
            0 <= x < k * len,
            1 <= k,
    ;
}

/// The pixel store shared between a device and its emulator window.
pub struct DrawBuffer {
    pub data: Vec<u8>,
}

impl DrawBuffer {
    /// A blank buffer of one byte per pixel.
    pub fn with_size(size: Size) -> (r: Self)
        requires
            size.width * size.height <= usize::MAX,
        ensures
            r.data@ == Seq::new((size.width * size.height) as nat, |i: int| 0u8),
    {
        let n = size.width * size.height;
        let mut data: Vec<u8> = Vec::new();
        let mut i: usize = 0;
        while i < n
            invariant
                i <= n,
                data@ == Seq::new(i as nat, |j: int| 0u8),
            decreases n - i,
        {
            data.push(0);
            i = i + 1;
        }
        DrawBuffer { data }
    }
}

} // verus!
