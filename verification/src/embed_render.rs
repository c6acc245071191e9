//! CPU-side pixel plumbing of the embedding path: which present tier is active, how GPU
//! readback rows are padded and unpadded, and the RGBA to BGRA channel swap used when copying a
//! frame into a BGRA surface.

use vstd::prelude::*;

verus! {

/// Which present path the embedded engine is using.
#[derive(Clone, Copy, Debug, PartialEq, Eq, Structural)]
pub enum Tier {
    /// Render, read back to the CPU, and copy into the caller's surface.
    Readback,
    /// Zero CPU copy: a GPU blit writes straight into a texture aliasing the caller's surface.
    Shared,
}

impl Tier {
    /// The tier's number across the C boundary: 1 = readback, 2 = shared.
    pub fn code(&self) -> (c: i32)
        ensures
            c == (match *self {
                Tier::Readback => 1i32,
                Tier::Shared => 2i32,
            }),
    {
        match self {
            Tier::Readback => 1,
            Tier::Shared => 2,
        }
    }
}

/// The row alignment a texture-to-buffer copy needs, in bytes.
pub const COPY_ROW_ALIGN: u32 = 256;

/// `a / b` rounded up.
pub open spec fn ceil_div(a: int, b: int) -> int {
    if a % b > 0 {
        a / b + 1
    } else {
        a / b
    }
}

/// Bytes per row of a `w`-pixel RGBA8 readback, rounded up to [`COPY_ROW_ALIGN`].
pub open spec fn padded_row_spec(w: int) -> int {
    ceil_div(w * 4, 256) * 256
}

/// Bytes per row of a `w`-pixel RGBA8 readback: `w * 4` rounded up to a multiple of 256.
pub fn padded_row_bytes(w: u32) -> (p: u32)
    requires
        padded_row_spec(w as int) <= u32::MAX,
        w * 4 <= u32::MAX,
    ensures
        p == padded_row_spec(w as int),
        w * 4 <= p < w * 4 + 256,
        p % 256 == 0,
{
    let unpadded = w * 4;
    let q = unpadded / COPY_ROW_ALIGN;
    let d = if unpadded % COPY_ROW_ALIGN > 0 {
        q + 1
    } else {
        q
    };
    assert(d * 256 <= u32::MAX);
    d * COPY_ROW_ALIGN
}

/// The byte of the tightly packed image at index `k`, read from rows of `padded` bytes of which
/// the first `unpadded` are pixels.
pub open spec fn unpadded_byte(data: Seq<u8>, k: int, unpadded: int, padded: int) -> u8 {
    data[(k / unpadded) * padded + k % unpadded]
}

proof fn lemma_row_index(row: int, x: int, unpadded: int, padded: int, h: int)
    requires
        0 <= row < h,
        0 <= x < unpadded <= padded,
    ensures
        (row * unpadded + x) / unpadded == row,
        (row * unpadded + x) % unpadded == x,
        row * padded + x < padded * h,
        0 <= row * padded,
{
    vstd::arithmetic::div_mod::lemma_fundamental_div_mod_converse(
        row * unpadded + x,
        unpadded,
        row,
        x,
    );
    assert(row * padded + x < padded * h) by (nonlinear_arith)
        requires
            0 <= row < h,
            0 <= x < unpadded <= padded,
    ;
    assert(0 <= row * padded) by (nonlinear_arith)
        requires
            0 <= row,
            0 <= padded,
    ;
}

/// Drops the per-row padding of a GPU readback: `h` rows of `padded` bytes become `h` rows of
/// `unpadded` bytes, each row's first `unpadded` bytes kept in order.
pub fn unpad_rows(data: &[u8], unpadded: u32, padded: u32, h: u32) -> (out: Vec<u8>)
    requires
        0 < unpadded <= padded,
        padded * h <= data.len(),
        padded * h <= u32::MAX,
    ensures
        out.len() == unpadded * h,
        forall|k: int|
            0 <= k < out.len() ==> #[trigger] out@[k] == unpadded_byte(
                data@,
                k,
                unpadded as int,
                padded as int,
            ),
{
    let mut out: Vec<u8> = Vec::new();
    let mut row: u32 = 0;
    while row < h
        invariant
            0 < unpadded <= padded,
            padded * h <= data.len(),
            padded * h <= u32::MAX,
            row <= h,
            out.len() == row * unpadded,
            forall|k: int|
                0 <= k < out.len() ==> #[trigger] out@[k] == unpadded_byte(
                    data@,
                    k,
                    unpadded as int,
                    padded as int,
                ),
        decreases h - row,
    {
        assert(row * padded + padded <= padded * h) by (nonlinear_arith)
            requires
                row < h,
                0 < padded,
        ;
        let start = row * padded;
        let mut x: u32 = 0;
        while x < unpadded
            invariant
                0 < unpadded <= padded,
                padded * h <= data.len(),
                padded * h <= u32::MAX,
                row < h,
                x <= unpadded,
                start == row * padded,
                start + padded <= padded * h,
                out.len() == row * unpadded + x,
                forall|k: int|
                    0 <= k < out.len() ==> #[trigger] out@[k] == unpadded_byte(
                        data@,
                        k,
                        unpadded as int,
                        padded as int,
                    ),
            decreases unpadded - x,
        {
            proof {
                lemma_row_index(row as int, x as int, unpadded as int, padded as int, h as int);
            }
            out.push(data[(start + x) as usize]);
            x += 1;
        }
        assert((row + 1) * unpadded == row * unpadded + unpadded) by (nonlinear_arith);
        row += 1;
    }
    assert(h * unpadded == unpadded * h) by (nonlinear_arith);
    out
}

/// The byte at index `j` of rows of `row_bytes` pixel bytes laid out every `stride` bytes: the
/// pixel data where `j` falls inside a row, zero in the padding after it.
pub open spec fn padded_byte(data: Seq<u8>, j: int, row_bytes: int, stride: int) -> u8 {
    if j % stride < row_bytes {
        data[(j / stride) * row_bytes + j % stride]
    } else {
        0
    }
}

proof fn lemma_stride_index(row: int, x: int, row_bytes: int, stride: int, h: int)
    requires
        0 <= row < h,
        0 <= x < stride,
        0 < row_bytes <= stride,
    ensures
        (row * stride + x) / stride == row,
        (row * stride + x) % stride == x,
        x < row_bytes ==> row * row_bytes + x < row_bytes * h,
        x < row_bytes ==> 0 <= row * row_bytes + x,
{
    vstd::arithmetic::div_mod::lemma_fundamental_div_mod_converse(row * stride + x, stride, row, x);
    if x < row_bytes {
        assert(row * row_bytes + x < row_bytes * h) by (nonlinear_arith)
            requires
                0 <= row < h,
                0 <= x < row_bytes,
        ;
        assert(0 <= row * row_bytes) by (nonlinear_arith)
            requires
                0 <= row,
                0 < row_bytes,
        ;
    }
}

/// Lays tightly packed rows out at a stride, as a surface with `stride` bytes per row expects
/// them: `h` rows of `row_bytes` bytes become `h` rows of `stride` bytes, each row's pixel bytes
/// first and zeros after.
pub fn pad_rows(data: &[u8], row_bytes: u32, stride: u32, h: u32) -> (out: Vec<u8>)
    requires
        0 < row_bytes <= stride,
        row_bytes * h <= data.len(),
        stride * h <= u32::MAX,
    ensures
        out.len() == stride * h,
        forall|j: int|
            0 <= j < out.len() ==> #[trigger] out@[j] == padded_byte(
                data@,
                j,
                row_bytes as int,
                stride as int,
            ),
{
    let mut out: Vec<u8> = Vec::new();
    let mut row: u32 = 0;
    assert(row_bytes * h <= stride * h) by (nonlinear_arith)
        requires
            row_bytes <= stride,
    ;
    while row < h
        invariant
            0 < row_bytes <= stride,
            row_bytes * h <= data.len(),
            stride * h <= u32::MAX,
            row_bytes * h <= stride * h,
            row <= h,
            out.len() == row * stride,
            forall|j: int|
                0 <= j < out.len() ==> #[trigger] out@[j] == padded_byte(
                    data@,
                    j,
                    row_bytes as int,
                    stride as int,
                ),
        decreases h - row,
    {
        assert(row * stride + stride <= stride * h) by (nonlinear_arith)
            requires
                row < h,
                0 < stride,
        ;
        assert(row * row_bytes + row_bytes <= row_bytes * h) by (nonlinear_arith)
            requires
                row < h,
                0 < row_bytes,
        ;
        let start = row * row_bytes;
        let mut x: u32 = 0;
        while x < stride
            invariant
                0 < row_bytes <= stride,
                row_bytes * h <= data.len(),
                stride * h <= u32::MAX,
                row < h,
                x <= stride,
                row_bytes * h <= stride * h,
                start == row * row_bytes,
                start + row_bytes <= row_bytes * h,
                row * stride + stride <= stride * h,
                out.len() == row * stride + x,
                forall|j: int|
                    0 <= j < out.len() ==> #[trigger] out@[j] == padded_byte(
                        data@,
                        j,
                        row_bytes as int,
                        stride as int,
                    ),
            decreases stride - x,
        {
            proof {
                lemma_stride_index(row as int, x as int, row_bytes as int, stride as int, h as int);
            }
            if x < row_bytes {
                out.push(data[(start + x) as usize]);
            } else {
                out.push(0u8);
            }
            x += 1;
        }
        assert((row + 1) * stride == row * stride + stride) by (nonlinear_arith);
        row += 1;
    }
    assert(h * stride == stride * h) by (nonlinear_arith);
    out
}

/// Unpadding undoes padding: rows laid out at a stride and read back without the padding are
/// the rows that went in.
pub proof fn lemma_unpad_undoes_pad(data: Seq<u8>, padded: Seq<u8>, row_bytes: int, stride: int, h: int)
    requires
        0 < row_bytes <= stride,
        0 <= h,
        padded.len() == stride * h,
        forall|j: int|
            0 <= j < padded.len() ==> #[trigger] padded[j] == padded_byte(data, j, row_bytes, stride),
    ensures
        forall|k: int|
            0 <= k < row_bytes * h ==> #[trigger] unpadded_byte(padded, k, row_bytes, stride)
                == data[k],
{
    assert forall|k: int| 0 <= k < row_bytes * h implies #[trigger] unpadded_byte(
        padded,
        k,
        row_bytes,
        stride,
    ) == data[k] by {
        let row = k / row_bytes;
        let x = k % row_bytes;
        vstd::arithmetic::div_mod::lemma_fundamental_div_mod(k, row_bytes);
        assert(row < h) by (nonlinear_arith)
            requires
                k == row_bytes * row + x,
                0 <= x,
                k < row_bytes * h,
                0 < row_bytes,
        ;
        assert(0 <= row) by (nonlinear_arith)
            requires
                k == row_bytes * row + x,
                x < row_bytes,
                0 <= k,
                0 < row_bytes,
        ;
        lemma_stride_index(row, x, row_bytes, stride, h);
        assert(row * stride + x < stride * h) by (nonlinear_arith)
            requires
                0 <= row < h,
                0 <= x < stride,
        ;
        assert(0 <= row * stride) by (nonlinear_arith)
            requires
                0 <= row,
                0 < stride,
        ;
        assert(row * row_bytes + x == k) by (nonlinear_arith)
            requires
                k == row_bytes * row + x,
        ;
    }
}

/// The byte at index `k` after swapping the red and blue channel of every 4-byte pixel.
pub open spec fn swapped_byte(s: Seq<u8>, k: int) -> u8 {
    let c = k % 4;
    if c == 0 {
        s[k + 2]
    } else if c == 2 {
        s[k - 2]
    } else {
        s[k]
    }
}

/// `s` with the red and blue channel of every 4-byte pixel swapped.
pub open spec fn swizzled(s: Seq<u8>) -> Seq<u8> {
    Seq::new(s.len(), |k: int| swapped_byte(s, k))
}

/// Swaps red and blue in every pixel of tightly packed RGBA8 data, giving BGRA8 (and back):
/// byte 0 of each pixel takes byte 2, byte 2 takes byte 0, bytes 1 and 3 stay.
pub fn swizzle_rgba_bgra(rgba: &[u8]) -> (out: Vec<u8>)
    requires
        rgba.len() % 4 == 0,
    ensures
        out@ == swizzled(rgba@),
{
    let mut out: Vec<u8> = Vec::new();
    let mut p: usize = 0;
    while p < rgba.len()
        invariant
            rgba.len() % 4 == 0,
            p % 4 == 0,
            p <= rgba.len(),
            out.len() == p,
            forall|k: int| 0 <= k < p ==> #[trigger] out@[k] == swapped_byte(rgba@, k),
        decreases rgba.len() - p,
    {
        assert(p + 4 <= rgba.len());
        out.push(rgba[p + 2]);
        out.push(rgba[p + 1]);
        out.push(rgba[p]);
        out.push(rgba[p + 3]);
        assert((p + 1) % 4 == 1 && (p + 2) % 4 == 2 && (p + 3) % 4 == 3);
        p += 4;
    }
    assert(out@ =~= swizzled(rgba@));
    out
}

/// Swapping red and blue twice gives the original bytes back.
pub proof fn lemma_swizzle_involutive(s: Seq<u8>)
    requires
        s.len() % 4 == 0,
    ensures
        swizzled(swizzled(s)) == s,
{
    let t = swizzled(s);
    assert forall|k: int| 0 <= k < s.len() implies #[trigger] swizzled(t)[k] == s[k] by {
        let c = k % 4;
        if c == 0 {
            assert((k + 2) % 4 == 2);
            assert(k + 2 < s.len());
        } else if c == 2 {
            assert((k - 2) % 4 == 0);
        }
    }
    assert(swizzled(t) =~= s);
}

/// Rows without padding come back unchanged: unpadding with `padded == unpadded` reads byte `k`
/// of the output from byte `k` of the readback.
pub proof fn lemma_unpadded_rows_identity(data: Seq<u8>, k: int, row_bytes: int)
    requires
        0 <= k,
        0 < row_bytes,
    ensures
        unpadded_byte(data, k, row_bytes, row_bytes) == data[k],
{
    vstd::arithmetic::div_mod::lemma_fundamental_div_mod(k, row_bytes);
    assert((k / row_bytes) * row_bytes == row_bytes * (k / row_bytes)) by (nonlinear_arith);
}

} // verus!
