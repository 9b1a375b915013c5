use vstd::prelude::*;
use vstd::arithmetic::div_mod::lemma_fundamental_div_mod_converse;
use vstd::arithmetic::mul::lemma_mul_inequality;

verus! {

/// Side, in texels, of one square of the 8 x 8 board on a texture of side `size`.
pub open spec fn square_size(size: u32) -> int {
    size as int / 8
}

/// Grey level of texel (`x`, `y`): light where the square coordinates have an even sum.
pub open spec fn checker_shade(size: u32, x: int, y: int) -> u8 {
    if (x / square_size(size) + y / square_size(size)) % 2 == 0 {
        200
    } else {
        50
    }
}

/// Byte `i` of the RGBA checkerboard, texels stored row by row.
pub open spec fn checkerboard_byte(size: u32, i: int) -> u8 {
    let texel = i / 4;
    if i % 4 == 3 {
        255
    } else {
        checker_shade(size, texel % (size as int), texel / (size as int))
    }
}

proof fn lemma_texel_position(size: int, x: int, y: int, k: int)
    requires
        0 <= x < size,
        0 <= y,
        0 <= k < 4,
    ensures
        ((y * size + x) * 4 + k) / 4 == y * size + x,
        ((y * size + x) * 4 + k) % 4 == k,
        (y * size + x) % size == x,
        (y * size + x) / size == y,
{
    lemma_fundamental_div_mod_converse((y * size + x) * 4 + k, 4, y * size + x, k);
    lemma_fundamental_div_mod_converse(y * size + x, size, y, x);
}

/// RGBA8 texels of a 8 x 8 grey checkerboard of `size` x `size` texels.
///
/// A texture of side 1 to 7 has squares of side 0, and the square index
/// would divide by zero; those sizes are left out, as is a byte count past
/// `u32`.
pub fn create_checkerboard_texture(size: u32) -> (data: Vec<u8>)
    requires
        size == 0 || size >= 8,
        size * size * 4 <= u32::MAX,
    ensures
        data@.len() == size * size * 4,
        forall|i: int| 0 <= i < data@.len() ==> data@[i] == checkerboard_byte(size, i),
{
    let mut data: Vec<u8> = Vec::with_capacity((size * size * 4) as usize);
    let square: u32 = size / 8;
    let mut y: u32 = 0;
    while y < size
        invariant
            y <= size,
            size == 0 || size >= 8,
            size * size * 4 <= u32::MAX,
            square == size / 8,
            data@.len() == (y * size) * 4,
            forall|i: int| 0 <= i < data@.len() ==> data@[i] == checkerboard_byte(size, i),
        decreases size - y,
    {
        let mut x: u32 = 0;
        while x < size
            invariant
                x <= size,
                y < size,
                size >= 8,
                size * size * 4 <= u32::MAX,
                square == size / 8,
                data@.len() == (y * size + x) * 4,
                forall|i: int| 0 <= i < data@.len() ==> data@[i] == checkerboard_byte(size, i),
            decreases size - x,
        {
            proof {
                lemma_mul_inequality(y as int, (size - 1) as int, size as int);
                assert(square >= 1);
                assert(x / square <= x && y / square <= y) by (nonlinear_arith)
                    requires square >= 1;
                assert(size < 65536) by (nonlinear_arith)
                    requires size * size * 4 <= u32::MAX;
            }
            let is_white = (x / square + y / square) % 2 == 0;
            let color: u8 = if is_white { 200 } else { 50 };
            let ghost base: int = (y * size + x) * 4;
            proof {
                lemma_texel_position(size as int, x as int, y as int, 0);
                assert(checker_shade(size, x as int, y as int) == color);
            }
            data.push(color);
            data.push(color);
            data.push(color);
            data.push(255);
            proof {
                assert forall|i: int| 0 <= i < data@.len() implies data@[i]
                    == checkerboard_byte(size, i) by {
                    if i >= base {
                        lemma_texel_position(size as int, x as int, y as int, i - base);
                    }
                }
            }
            x = x + 1;
        }
        assert((y * size + size) * 4 == ((y + 1) * size) * 4) by (nonlinear_arith);
        y = y + 1;
    }
    data
}

} // verus!
