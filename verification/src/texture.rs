use vstd::prelude::*;
use vstd::arithmetic::mul::lemma_mul_inequality;
use vstd::arithmetic::div_mod::{lemma_fundamental_div_mod, lemma_fundamental_div_mod_converse, lemma_mod_pos_bound};

verus! {

/// Row pitch of an RGBA8 upload: `width * 4` rounded up to the 256-byte
/// alignment that buffer-to-texture copies demand.
pub open spec fn padded_row_bytes(width: int) -> int {
    ((width * 4 + 255) / 256) * 256
}

/// Bytes per row of an RGBA8 image of `width` texels, padded to 256 bytes.
///
/// The row length is rounded up by adding the alignment before subtracting
/// one, so a width for which `width * 4 + 256` passes `u32` overflows and is
/// left out.
pub fn calculate_padded_bytes_per_row(width: u32) -> (padded: u32)
    requires
        width * 4 + 256 <= u32::MAX,
    ensures
        padded == padded_row_bytes(width as int),
        padded % 256 == 0,
        width * 4 <= padded < width * 4 + 256,
{
    let bytes_per_row: u32 = width * 4;
    let align: u32 = 256;
    let sum: u32 = bytes_per_row + align - 1;
    let padded: u32 = sum & !(align - 1);
    assert(sum & !255u32 == sum - sum % 256) by (bit_vector);
    padded
}

/// Whether row `r` of a copy fits both the source (`len` bytes) and the
/// destination of `padded * height` bytes.
pub open spec fn row_fits(len: int, row_bytes: int, padded: int, height: int, r: int) -> bool {
    &&& r * row_bytes + row_bytes <= len
    &&& r * padded + row_bytes <= padded * height
}

/// Number of rows copied: rows are taken in order until one does not fit.
pub open spec fn rows_copied_from(
    len: int,
    row_bytes: int,
    padded: int,
    height: int,
    r: int,
) -> int
    decreases height - r,
{
    if r >= height {
        height
    } else if row_fits(len, row_bytes, padded, height, r) {
        rows_copied_from(len, row_bytes, padded, height, r + 1)
    } else {
        r
    }
}

pub open spec fn rows_copied(len: int, row_bytes: int, padded: int, height: int) -> int {
    rows_copied_from(len, row_bytes, padded, height, 0)
}

/// `buf` with `count` bytes of `data` from offset `src` written at offset `dst`.
pub open spec fn write_row(buf: Seq<u8>, data: Seq<u8>, src: int, dst: int, count: int) -> Seq<u8> {
    Seq::new(
        buf.len(),
        |i: int|
            if dst <= i < dst + count {
                data[src + (i - dst)]
            } else {
                buf[i]
            },
    )
}

/// The padded buffer after the first `n` rows of `data` were copied into a
/// zeroed buffer of `padded * height` bytes.
pub open spec fn copy_rows(data: Seq<u8>, row_bytes: int, padded: int, height: int, n: int) -> Seq<u8>
    decreases n,
{
    if n <= 0 {
        Seq::new((padded * height) as nat, |i: int| 0u8)
    } else {
        write_row(
            copy_rows(data, row_bytes, padded, height, n - 1),
            data,
            (n - 1) * row_bytes,
            (n - 1) * padded,
            row_bytes,
        )
    }
}

/// The padded buffer that `copy_texture_data` returns.
pub open spec fn padded_texture(data: Seq<u8>, width: int, height: int, padded: int) -> Seq<u8> {
    copy_rows(
        data,
        width * 4,
        padded,
        height,
        rows_copied(data.len() as int, width * 4, padded, height),
    )
}

/// The last row whose offsets the copy computes, when there is a row at all.
pub open spec fn last_row_reached(len: int, row_bytes: int, padded: int, height: int) -> int {
    let k = rows_copied(len, row_bytes, padded, height);
    if k < height {
        k
    } else {
        height - 1
    }
}

/// The offsets that the copy computes fit their machine types.
pub open spec fn row_offsets_fit(len: int, width: int, height: int, padded: int) -> bool {
    let last = last_row_reached(len, width * 4, padded, height);
    height > 0 ==> {
        &&& last * (width * 4) <= u32::MAX
        &&& last * (width * 4) + width * 4 <= usize::MAX
        &&& last * padded + width * 4 <= usize::MAX
    }
}

proof fn lemma_rows_copied_from(len: int, row_bytes: int, padded: int, height: int, r: int)
    requires
        0 <= r <= height,
    ensures
        r <= rows_copied_from(len, row_bytes, padded, height, r) <= height,
        forall|j: int|
            r <= j < rows_copied_from(len, row_bytes, padded, height, r) ==> row_fits(
                len,
                row_bytes,
                padded,
                height,
                j,
            ),
        rows_copied_from(len, row_bytes, padded, height, r) < height ==> !row_fits(
            len,
            row_bytes,
            padded,
            height,
            rows_copied_from(len, row_bytes, padded, height, r),
        ),
    decreases height - r,
{
    if r < height && row_fits(len, row_bytes, padded, height, r) {
        lemma_rows_copied_from(len, row_bytes, padded, height, r + 1);
    }
}

/// Copies an RGBA8 image of `dimensions` texels, tightly packed in `data`,
/// into a zeroed buffer whose rows are `padded_bytes_per_row` bytes apart.
///
/// Rows are copied in order; the copy stops at the first row that does not
/// fit the source or the destination, and the rest stays zero.
pub fn copy_texture_data(data: &[u8], dimensions: (u32, u32), padded_bytes_per_row: u32) -> (padded_data: Vec<u8>)
    requires
        dimensions.0 * 4 <= u32::MAX,
        padded_bytes_per_row * dimensions.1 <= u32::MAX,
        row_offsets_fit(
            data@.len() as int,
            dimensions.0 as int,
            dimensions.1 as int,
            padded_bytes_per_row as int,
        ),
    ensures
        padded_data@.len() == padded_bytes_per_row * dimensions.1,
        padded_data@ == padded_texture(
            data@,
            dimensions.0 as int,
            dimensions.1 as int,
            padded_bytes_per_row as int,
        ),
{
    let width = dimensions.0;
    let height = dimensions.1;
    let unpadded_bytes_per_row: u32 = width * 4;
    let total_size: usize = (padded_bytes_per_row * height) as usize;
    let mut padded_data: Vec<u8> = vec![0u8; total_size];
    let ghost len = data@.len() as int;
    let ghost w4 = unpadded_bytes_per_row as int;
    let ghost p = padded_bytes_per_row as int;
    let ghost h = height as int;
    let ghost k = rows_copied(len, w4, p, h);
    proof {
        lemma_rows_copied_from(len, w4, p, h, 0);
        assert(padded_data@ == copy_rows(data@, w4, p, h, 0));
    }
    let mut row: u32 = 0;
    while row < height
        invariant
            width == dimensions.0,
            height == dimensions.1,
            unpadded_bytes_per_row == width * 4,
            len == data@.len(),
            w4 == unpadded_bytes_per_row,
            p == padded_bytes_per_row,
            h == height,
            k == rows_copied(len, w4, p, h),
            0 <= k <= h,
            forall|j: int| 0 <= j < k ==> row_fits(len, w4, p, h, j),
            k < h ==> !row_fits(len, w4, p, h, k),
            padded_bytes_per_row * height <= u32::MAX,
            row_offsets_fit(len, width as int, height as int, p),
            row <= height,
            row <= k,
            padded_data@.len() == p * h,
            padded_data@ == copy_rows(data@, w4, p, h, row as int),
        ensures
            padded_data@ == copy_rows(data@, w4, p, h, k),
        decreases height - row,
    {
        proof {
            let last = last_row_reached(len, w4, p, h);
            assert(row <= last);
            lemma_mul_inequality(row as int, last, w4);
            lemma_mul_inequality(row as int, last, p);
            lemma_mul_inequality(row as int, h - 1, p);
            assert((h - 1) * p + p == p * h) by (nonlinear_arith);
        }
        let src_start: usize = (row * unpadded_bytes_per_row) as usize;
        let src_end: usize = src_start + unpadded_bytes_per_row as usize;
        let dst_start: usize = (row * padded_bytes_per_row) as usize;
        let dst_end: usize = dst_start + unpadded_bytes_per_row as usize;
        if src_end <= data.len() && dst_end <= padded_data.len() {
            assert(row_fits(len, w4, p, h, row as int));
            let ghost before = padded_data@;
            let mut c: usize = 0;
            while c < unpadded_bytes_per_row as usize
                invariant
                    src_end == src_start + unpadded_bytes_per_row,
                    dst_end == dst_start + unpadded_bytes_per_row,
                    src_end <= data@.len(),
                    dst_end <= padded_data@.len(),
                    c <= unpadded_bytes_per_row,
                    padded_data@.len() == before.len(),
                    padded_data@ == write_row(
                        before,
                        data@,
                        src_start as int,
                        dst_start as int,
                        c as int,
                    ),
                decreases unpadded_bytes_per_row - c,
            {
                let byte = data[src_start + c];
                padded_data.set(dst_start + c, byte);
                proof {
                    assert(padded_data@ =~= write_row(
                        before,
                        data@,
                        src_start as int,
                        dst_start as int,
                        (c + 1) as int,
                    ));
                }
                c = c + 1;
            }
            row = row + 1;
        } else {
            assert(!row_fits(len, w4, p, h, row as int));
            assert(row as int == k);
            break;
        }
    }
    padded_data
}

/// Byte `i` of the buffer after `n` rows were copied, when rows of the
/// buffer are at least as long as rows of the image.
pub open spec fn padded_byte(data: Seq<u8>, row_bytes: int, padded: int, n: int, i: int) -> u8 {
    if i / padded < n && i % padded < row_bytes {
        data[(i / padded) * row_bytes + i % padded]
    } else {
        0u8
    }
}

proof fn lemma_copy_rows_bytes(data: Seq<u8>, row_bytes: int, padded: int, height: int, n: int, i: int)
    requires
        0 <= row_bytes <= padded,
        0 < padded,
        0 <= n <= height,
        0 <= i < padded * height,
    ensures
        copy_rows(data, row_bytes, padded, height, n).len() == padded * height,
        copy_rows(data, row_bytes, padded, height, n)[i] == padded_byte(data, row_bytes, padded, n, i),
    decreases n,
{
    lemma_fundamental_div_mod(i, padded);
    lemma_mod_pos_bound(i, padded);
    if n > 0 {
        lemma_copy_rows_bytes(data, row_bytes, padded, height, n - 1, i);
        let dst = (n - 1) * padded;
        if dst <= i < dst + row_bytes {
            lemma_fundamental_div_mod_converse(i, padded, n - 1, i - dst);
        } else if i / padded == n - 1 {
            assert(i == dst + i % padded) by (nonlinear_arith)
                requires i == padded * (i / padded) + i % padded, i / padded == n - 1, dst == (n - 1) * padded;
        }
    } else {
        assert(padded * height >= 0) by (nonlinear_arith) requires padded > 0, height >= 0;
    }
}

/// Whether `copy_texture_data` may be called on a source of `data_len`
/// bytes: its sizes and the offsets it computes fit their machine types.
pub fn texture_copy_in_range(data_len: usize, dimensions: (u32, u32), padded_bytes_per_row: u32) -> (ok: bool)
    ensures
        ok == (dimensions.0 * 4 <= u32::MAX && padded_bytes_per_row * dimensions.1 <= u32::MAX
            && row_offsets_fit(
            data_len as int,
            dimensions.0 as int,
            dimensions.1 as int,
            padded_bytes_per_row as int,
        )),
{
    let width = dimensions.0;
    let height = dimensions.1;
    let w4: u128 = width as u128 * 4;
    let p: u128 = padded_bytes_per_row as u128;
    assert(p * height <= 0xFFFF_FFFF_FFFF_FFFFu128 * 0xFFFF_FFFFu128) by (nonlinear_arith)
        requires p <= 0xFFFF_FFFFu128, height <= 0xFFFF_FFFFu32;
    let total: u128 = p * height as u128;
    if w4 > u32::MAX as u128 || total > u32::MAX as u128 {
        return false;
    }
    if height == 0 {
        return true;
    }
    let len: u128 = data_len as u128;
    let ghost k = rows_copied(data_len as int, w4 as int, p as int, height as int);
    proof {
        lemma_rows_copied_from(data_len as int, w4 as int, p as int, height as int, 0);
    }
    let mut r: u32 = 0;
    let mut stop = false;
    while r < height && !stop
        invariant
            r <= height,
            w4 == width * 4,
            p == padded_bytes_per_row,
            total == p * height,
            len == data_len,
            w4 <= u32::MAX,
            total <= u32::MAX,
            forall|j: int| 0 <= j < r ==> row_fits(data_len as int, w4 as int, p as int, height as int, j),
            stop ==> r < height && !row_fits(data_len as int, w4 as int, p as int, height as int, r as int),
        decreases height - r, if stop { 0int } else { 1int },
    {
        assert(r * w4 <= 0xFFFF_FFFFu128 * 0xFFFF_FFFFu128) by (nonlinear_arith)
            requires r <= 0xFFFF_FFFFu32, w4 <= 0xFFFF_FFFFu128;
        assert(r * p <= 0xFFFF_FFFFu128 * 0xFFFF_FFFFu128) by (nonlinear_arith)
            requires r <= 0xFFFF_FFFFu32, p <= 0xFFFF_FFFFu128;
        let fits = r as u128 * w4 + w4 <= len && r as u128 * p + w4 <= total;
        if fits {
            r = r + 1;
        } else {
            stop = true;
        }
    }
    assert(r as int == k);
    let last: u128 = if r < height {
        r as u128
    } else {
        (height - 1) as u128
    };
    assert(last * w4 <= 0xFFFF_FFFFu128 * 0xFFFF_FFFFu128) by (nonlinear_arith)
        requires last <= 0xFFFF_FFFFu128, w4 <= 0xFFFF_FFFFu128;
    assert(last * p <= 0xFFFF_FFFFu128 * 0xFFFF_FFFFu128) by (nonlinear_arith)
        requires last <= 0xFFFF_FFFFu128, p <= 0xFFFF_FFFFu128;
    last * w4 <= u32::MAX as u128 && last * w4 + w4 <= usize::MAX as u128 && last * p + w4
        <= usize::MAX as u128
}

/// With buffer rows at least as long as image rows, byte `i` of the padded
/// buffer is the image byte at the same column of a copied row, and zero in
/// the row padding and in the rows that were not copied.
pub proof fn padded_texture_layout(data: Seq<u8>, width: int, height: int, padded: int, i: int)
    requires
        0 <= width,
        0 <= height,
        width * 4 <= padded,
        0 <= i < padded * height,
    ensures
        padded_texture(data, width, height, padded)[i] == padded_byte(
            data,
            width * 4,
            padded,
            rows_copied(data.len() as int, width * 4, padded, height),
            i,
        ),
{
    assert(padded > 0) by (nonlinear_arith) requires 0 <= i < padded * height, height >= 0;
    lemma_rows_copied_from(data.len() as int, width * 4, padded, height, 0);
    lemma_copy_rows_bytes(
        data,
        width * 4,
        padded,
        height,
        rows_copied(data.len() as int, width * 4, padded, height),
        i,
    );
}

proof fn lemma_all_rows_fit(len: int, row_bytes: int, padded: int, height: int, r: int)
    requires
        0 <= r <= height,
        forall|j: int| r <= j < height ==> row_fits(len, row_bytes, padded, height, j),
    ensures
        rows_copied_from(len, row_bytes, padded, height, r) == height,
    decreases height - r,
{
    if r < height {
        lemma_all_rows_fit(len, row_bytes, padded, height, r + 1);
    }
}

/// When the source holds the whole image and buffer rows are at least as
/// long as image rows, every row is copied: the buffer has `padded * height`
/// bytes, and the byte at column `col` of buffer row `r` is the byte at
/// column `col` of image row `r`.
pub proof fn whole_image_is_copied(data: Seq<u8>, width: int, height: int, padded: int, r: int, col: int)
    requires
        0 <= width * 4 <= padded,
        width * 4 * height <= data.len(),
        0 <= r < height,
        0 <= col < width * 4,
    ensures
        padded_texture(data, width, height, padded).len() == padded * height,
        padded_texture(data, width, height, padded)[r * padded + col] == data[r * (width * 4) + col],
{
    let w4 = width * 4;
    let len = data.len() as int;
    assert forall|j: int| 0 <= j < height implies row_fits(len, w4, padded, height, j) by {
        assert(j * w4 + w4 <= height * w4) by (nonlinear_arith)
            requires 0 <= j < height, w4 >= 0;
        assert(j * padded + w4 <= padded * height) by (nonlinear_arith)
            requires 0 <= j < height, 0 <= w4 <= padded;
        assert(w4 * height == height * w4) by (nonlinear_arith);
    }
    lemma_all_rows_fit(len, w4, padded, height, 0);
    let i = r * padded + col;
    assert(0 <= r * padded + col < padded * height) by (nonlinear_arith)
        requires 0 <= r < height, 0 <= col < w4, w4 <= padded;
    lemma_copy_rows_bytes(data, w4, padded, height, height, i);
    lemma_fundamental_div_mod_converse(i, padded, r, col);
}

} // verus!
