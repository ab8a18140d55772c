//! GPU readback geometry: rows of a texture copied to a buffer are padded to
//! the copy alignment, and the padding is dropped when the frame is read back.
use vstd::prelude::*;

verus! {

/// Bytes per row once `width` RGBA pixels are padded to a multiple of
/// `alignment`.
pub open spec fn padded_row_len(width: int, alignment: int) -> int {
    ((width * 4 + alignment - 1) / alignment) * alignment
}

/// The padded length of a row of `width` RGBA pixels: `width * 4` rounded up
/// to a multiple of `alignment`, when both fit in `u32`.
pub fn padded_bytes_per_row(width: u32, alignment: u32) -> (r: Option<u32>)
    requires
        alignment > 0,
    ensures
        width * 4 <= u32::MAX && padded_row_len(width as int, alignment as int) <= u32::MAX
            ==> r == Some(padded_row_len(width as int, alignment as int) as u32),
        width * 4 > u32::MAX || padded_row_len(width as int, alignment as int) > u32::MAX
            ==> r is None,
        r matches Some(p) ==> p >= width * 4 && p < width * 4 + alignment && p % alignment == 0,
{
    let bytes: u64 = width as u64 * 4;
    let rows: u64 = (bytes + alignment as u64 - 1) / alignment as u64;
    proof {
        lemma_padded_row_len(width as int * 4, alignment as int);
    }
    if bytes > 0xffff_ffff {
        return None;
    }
    assert(rows * alignment as u64 <= bytes + alignment);
    let padded = rows * alignment as u64;
    if padded > 0xffff_ffff {
        None
    } else {
        Some(padded as u32)
    }
}

proof fn lemma_padded_row_len(bytes: int, alignment: int)
    requires
        bytes >= 0,
        alignment > 0,
    ensures
        ((bytes + alignment - 1) / alignment) * alignment >= bytes,
        ((bytes + alignment - 1) / alignment) * alignment < bytes + alignment,
        (((bytes + alignment - 1) / alignment) * alignment) % alignment == 0,
{
    let n = bytes + alignment - 1;
    vstd::arithmetic::div_mod::lemma_fundamental_div_mod(n, alignment);
    vstd::arithmetic::div_mod::lemma_mod_bound(n, alignment);
    vstd::arithmetic::div_mod::lemma_mod_multiples_basic(n / alignment, alignment);
    assert((n / alignment) * alignment == alignment * (n / alignment)) by (nonlinear_arith);
}

/// The size of a readback buffer holding `height` padded rows, when it
/// fits in `u32`.
pub fn readback_size(padded_row: u32, height: u32) -> (r: Option<u64>)
    ensures
        padded_row * height <= u32::MAX ==> r == Some((padded_row * height) as u64),
        padded_row * height > u32::MAX ==> r is None,
{
    assert(padded_row * height <= u32::MAX * u32::MAX) by (nonlinear_arith)
        requires
            padded_row <= u32::MAX,
            height <= u32::MAX,
    ;
    let size = padded_row as u64 * height as u64;
    if size > 0xffff_ffff {
        None
    } else {
        Some(size)
    }
}

/// The frame read back from a buffer of padded rows: row `y` of the frame
/// is the first `width * 4` bytes of padded row `y`.
pub open spec fn unpadded_frame(mapped: Seq<u8>, width: int, height: int, padded_row: int) -> Seq<u8> {
    Seq::new(
        (width * 4 * height) as nat,
        |i: int| mapped[(i / (width * 4)) * padded_row + i % (width * 4)],
    )
}

/// Copies the `height` rows of `width` RGBA pixels out of a buffer whose
/// rows are `padded_row` bytes apart, into `output`, which ends up holding
/// exactly the frame.
pub fn copy_unpadded_rows(
    mapped: &[u8],
    width: u32,
    height: u32,
    padded_row: u32,
    output: &mut Vec<u8>,
)
    requires
        width * height * 4 <= u32::MAX,
        width * 4 <= padded_row,
        padded_row * height <= mapped@.len(),
    ensures
        final(output)@ == unpadded_frame(mapped@, width as int, height as int, padded_row as int),
{
    let row_len = width as usize * 4;
    let stride = padded_row as usize;
    let h = height as usize;
    let mapped_len = mapped.len();
    output.clear();
    let mut y: usize = 0;
    while y < h
        invariant
            y <= h,
            row_len == width * 4,
            stride == padded_row,
            h == height,
            row_len <= stride,
            stride * h <= mapped@.len(),
            mapped_len == mapped@.len(),
            output@.len() == y * row_len,
            forall|i: int|
                0 <= i < y * row_len ==> #[trigger] output@[i] == mapped@[(i / row_len as int) * stride + i
                    % (row_len as int)],
        decreases h - y,
    {
        assert(y * stride + row_len <= stride * h) by (nonlinear_arith)
            requires
                y < h,
                row_len <= stride,
        ;
        let start = y * stride;
        let row = &mapped[start..start + row_len];
        let ghost before = output@;
        output.extend_from_slice(row);
        proof {
            assert forall|i: int| 0 <= i < (y + 1) * row_len implies #[trigger] output@[i]
                == mapped@[(i / row_len as int) * stride + i % (row_len as int)] by {
                assert((y + 1) * row_len == y * row_len + row_len) by (nonlinear_arith);
                if i >= y * row_len {
                    let k = i - y * row_len;
                    assert(output@[i] == row@[k]);
                    vstd::arithmetic::div_mod::lemma_fundamental_div_mod_converse(
                        i,
                        row_len as int,
                        y as int,
                        k,
                    );
                } else {
                    assert(output@[i] == before[i]);
                }
            }
            assert((y + 1) * row_len == y * row_len + row_len) by (nonlinear_arith);
        }
        y = y + 1;
    }
    assert(h * row_len == width * 4 * height) by (nonlinear_arith)
        requires
            h == height,
            row_len == width * 4,
    ;
    assert(output@ =~= unpadded_frame(mapped@, width as int, height as int, padded_row as int));
}

/// The frame read back holds `width * 4 * height` bytes, and depends only on
/// the first `width * 4` bytes of each of the `height` padded rows: two
/// buffers that agree there give the same frame.
pub proof fn lemma_unpadded_frame_depends_on_rows(
    a: Seq<u8>,
    b: Seq<u8>,
    width: int,
    height: int,
    padded_row: int,
)
    requires
        width > 0,
        height >= 0,
        width * 4 <= padded_row,
        forall|y: int, x: int|
            0 <= y < height && 0 <= x < width * 4 ==> #[trigger] a[y * padded_row + x] == b[y
                * padded_row + x],
    ensures
        unpadded_frame(a, width, height, padded_row).len() == width * 4 * height,
        unpadded_frame(a, width, height, padded_row) == unpadded_frame(b, width, height, padded_row),
{
    let row = width * 4;
    assert(width * 4 * height >= 0) by (nonlinear_arith)
        requires
            width > 0,
            height >= 0,
    ;
    let ua = unpadded_frame(a, width, height, padded_row);
    let ub = unpadded_frame(b, width, height, padded_row);
    assert forall|i: int| 0 <= i < ua.len() implies ua[i] == ub[i] by {
        vstd::arithmetic::div_mod::lemma_fundamental_div_mod(i, row);
        vstd::arithmetic::div_mod::lemma_mod_bound(i, row);
        vstd::arithmetic::div_mod::lemma_div_pos_is_pos(i, row);
        let y = i / row;
        let x = i % row;
        assert(y < height) by (nonlinear_arith)
            requires
                i == row * y + x,
                0 <= x,
                i < row * height,
                row > 0,
        ;
        assert(a[y * padded_row + x] == b[y * padded_row + x]);
    }
    assert(ua =~= ub);
}

/// Reading back a frame whose rows were written `padded_row` bytes apart
/// gives the frame again, whatever the padding bytes hold.
pub proof fn lemma_unpad_restores_frame(
    frame: Seq<u8>,
    mapped: Seq<u8>,
    width: int,
    height: int,
    padded_row: int,
)
    requires
        width > 0,
        height >= 0,
        width * 4 <= padded_row,
        frame.len() == width * 4 * height,
        forall|y: int, x: int|
            0 <= y < height && 0 <= x < width * 4 ==> #[trigger] mapped[y * padded_row + x] == frame[y
                * (width * 4) + x],
    ensures
        unpadded_frame(mapped, width, height, padded_row) == frame,
{
    let row = width * 4;
    let u = unpadded_frame(mapped, width, height, padded_row);
    assert forall|i: int| 0 <= i < frame.len() implies u[i] == frame[i] by {
        vstd::arithmetic::div_mod::lemma_fundamental_div_mod(i, row);
        vstd::arithmetic::div_mod::lemma_mod_bound(i, row);
        vstd::arithmetic::div_mod::lemma_div_pos_is_pos(i, row);
        let y = i / row;
        let x = i % row;
        assert(y < height) by (nonlinear_arith)
            requires
                i == row * y + x,
                0 <= x,
                i < row * height,
                row > 0,
        ;
        assert(y * row + x == i) by (nonlinear_arith)
            requires
                i == row * y + x,
        ;
        assert(mapped[y * padded_row + x] == frame[y * row + x]);
    }
    assert(u =~= frame);
}

} // verus!
