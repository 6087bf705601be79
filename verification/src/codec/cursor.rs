//! The Cursor pseudo-encoding: 32-bit pixels followed by a one-bit-per-
//! pixel visibility mask; the mask bit becomes the pixel's alpha byte.

use vstd::prelude::*;
use vstd::arithmetic::div_mod::lemma_fundamental_div_mod_converse;
use crate::error::VncError;

verus! {

/// How many mask bytes a cursor rectangle carries: each row is padded to
/// a whole byte.
pub open spec fn cursor_mask_len(w: int, h: int) -> int {
    ((w + 7) / 8) * h
}

/// Whether the mask shows the pixel at column `x` of row `y`: bit `x % 8`
/// of the row's byte `x / 8`, most significant bit first.
pub open spec fn cursor_mask_bit(mask: Seq<u8>, w: int, x: int, y: int) -> bool {
    (((mask[y * ((w + 7) / 8) + x / 8] as u32) >> ((7 - (x % 8)) as u32)) & 1) == 1
}

/// One byte of the expanded cursor image: the alpha byte of each 4-byte
/// pixel is 255 where the mask shows the pixel and 0 where it does not;
/// every other byte is copied from the pixel data.
pub open spec fn cursor_image_byte(
    pixels: Seq<u8>,
    mask: Seq<u8>,
    w: int,
    alpha_idx: int,
    i: int,
) -> u8 {
    if i % 4 == alpha_idx {
        if cursor_mask_bit(mask, w, (i / 4) % w, (i / 4) / w) {
            255
        } else {
            0
        }
    } else {
        pixels[i]
    }
}

/// The expanded cursor image.
pub open spec fn cursor_image(
    pixels: Seq<u8>,
    mask: Seq<u8>,
    w: int,
    h: int,
    alpha_idx: int,
) -> Seq<u8> {
    Seq::new((w * h * 4) as nat, |i: int| cursor_image_byte(pixels, mask, w, alpha_idx, i))
}

/// Expands a cursor rectangle: copies the 32-bit pixels and overwrites
/// each pixel's alpha byte with 255 or 0 per its mask bit.
pub fn decode_cursor(
    pixels: &Vec<u8>,
    mask: &Vec<u8>,
    w: usize,
    h: usize,
    alpha_idx: usize,
) -> (r: Vec<u8>)
    requires
        w > 0,
        w <= 0xffff,
        h <= 0xffff,
        alpha_idx < 4,
        pixels@.len() == w * h * 4,
        mask@.len() == cursor_mask_len(w as int, h as int),
        w * h * 4 <= usize::MAX,
    ensures
        r@ == cursor_image(pixels@, mask@, w as int, h as int, alpha_idx as int),
{
    let row_bytes: usize = (w + 7) / 8;
    let mut image: Vec<u8> = Vec::new();
    let ghost spec_image = cursor_image(pixels@, mask@, w as int, h as int, alpha_idx as int);
    proof {
        assert(0 * w * 4 == 0) by (nonlinear_arith);
    }
    for y in 0..h
        invariant
            w > 0,
            alpha_idx < 4,
            row_bytes == (w + 7) / 8,
            pixels@.len() == w * h * 4,
            mask@.len() == cursor_mask_len(w as int, h as int),
            w * h * 4 <= usize::MAX,
            spec_image == cursor_image(pixels@, mask@, w as int, h as int, alpha_idx as int),
            image@.len() == y * w * 4,
            forall|j: int| 0 <= j < image@.len() ==> image@[j] == spec_image[j],
    {
        assert(y * w * 4 + w * 4 <= w * h * 4) by (nonlinear_arith)
            requires
                y < h,
                w > 0,
        ;
        for x in 0..w
            invariant
                w > 0,
                alpha_idx < 4,
                y < h,
                row_bytes == (w + 7) / 8,
                pixels@.len() == w * h * 4,
                mask@.len() == cursor_mask_len(w as int, h as int),
                w * h * 4 <= usize::MAX,
                y * w * 4 + w * 4 <= w * h * 4,
                spec_image == cursor_image(pixels@, mask@, w as int, h as int, alpha_idx as int),
                image@.len() == y * w * 4 + x * 4,
                forall|j: int| 0 <= j < image@.len() ==> image@[j] == spec_image[j],
        {
            proof {
                assert((y * w + x) * 4 + 4 <= w * h * 4) by (nonlinear_arith)
                    requires
                        0 <= x < w,
                        0 <= y < h,
                ;
            }
            let p: usize = y * w + x;
            let pix_idx: usize = p * 4;
            let ml: usize = mask.len();
            proof {
                vstd::arithmetic::div_mod::lemma_fundamental_div_mod(w as int + 7, 8);
                assert(8 * (row_bytes as int) >= w);
                vstd::arithmetic::div_mod::lemma_multiply_divide_lt(
                    x as int,
                    8,
                    row_bytes as int,
                );
                let ghost xb = (x as int) / 8;
                assert(y * (row_bytes as int) + xb < (row_bytes as int) * (h as int))
                    by (nonlinear_arith)
                    requires
                        0 <= xb < row_bytes as int,
                        0 <= (y as int) < h as int,
                ;
                assert(mask@.len() == ((w as int + 7) / 8) * (h as int));
            }
            let mask_idx: usize = y * row_bytes + x / 8;
            let alpha: u8 = if (((mask[mask_idx] as u32) >> ((7 - (x % 8)) as u32)) & 1) == 1 {
                255
            } else {
                0
            };
            proof {
                lemma_fundamental_div_mod_converse(p as int, w as int, y as int, x as int);
            }
            let mut o: usize = 0;
            while o < 4
                invariant
                    o <= 4,
                    alpha_idx < 4,
                    pix_idx + 4 <= pixels@.len(),
                    pix_idx == p * 4,
                    p == y * w + x,
                    (p as int) % (w as int) == x as int,
                    (p as int) / (w as int) == y as int,
                    alpha == (if cursor_mask_bit(mask@, w as int, x as int, y as int) {
                        255u8
                    } else {
                        0u8
                    }),
                    spec_image == cursor_image(
                        pixels@,
                        mask@,
                        w as int,
                        h as int,
                        alpha_idx as int,
                    ),
                    y * w * 4 + w * 4 <= w * h * 4,
                    x < w,
                    y < h,
                    w > 0,
                    image@.len() == pix_idx + o,
                    forall|j: int| 0 <= j < image@.len() ==> image@[j] == spec_image[j],
                decreases 4 - o,
            {
                let byte: u8 = if o == alpha_idx {
                    alpha
                } else {
                    pixels[pix_idx + o]
                };
                proof {
                    let j = (pix_idx + o) as int;
                    lemma_fundamental_div_mod_converse(j, 4, p as int, o as int);
                    assert(j < w * h * 4) by (nonlinear_arith)
                        requires
                            j == (y * w + x) * 4 + o,
                            0 <= o < 4,
                            0 <= x < w,
                            0 <= y < h,
                            y * w * 4 + w * 4 <= w * h * 4,
                    ;
                    assert(byte == spec_image[j]);
                }
                image.push(byte);
                o = o + 1;
            }
        }
        proof {
            assert((y + 1) * w * 4 == y * w * 4 + w * 4) by (nonlinear_arith);
        }
    }
    proof {
        assert(h * w * 4 == w * h * 4) by (nonlinear_arith);
        assert(image@ =~= spec_image);
    }
    image
}

} // verus!
