//! The Tight encoding: fill, JPEG and basic (copy / palette / gradient
//! filter) sub-modes. The compressed payload arrives through one of four
//! persistent zlib streams; this module holds the pure expansions from
//! filtered bytes to wire pixels, and the compact length parser.

use vstd::prelude::*;
use vstd::arithmetic::div_mod::lemma_fundamental_div_mod_converse;
use crate::config::PixelFormat;
use crate::error::VncError;
use crate::codec::pixel::{true_color_bytes, to_true_color};

verus! {

/// The value and width of a Tight compact length at offset `pos`: one to
/// three bytes of seven value bits each, where a set top bit continues;
/// `None` when the buffer ends before the length does.
pub open spec fn compact_len_at(b: Seq<u8>, pos: int) -> Option<(int, int)> {
    if pos >= b.len() {
        None
    } else {
        let b0 = b[pos];
        if b0 & 0x80 == 0 {
            Some((((b0 & 0x7f) as u32) as int, pos + 1))
        } else if pos + 1 >= b.len() {
            None
        } else {
            let b1 = b[pos + 1];
            if b1 & 0x80 == 0 {
                Some(
                    (
                        ((((b0 & 0x7f) as u32) | (((b1 & 0x7f) as u32) << 7)) as int),
                        pos + 2,
                    ),
                )
            } else if pos + 2 >= b.len() {
                None
            } else {
                let b2 = b[pos + 2];
                Some(
                    (
                        ((((b0 & 0x7f) as u32) | (((b1 & 0x7f) as u32) << 7) | ((b2 as u32)
                            << 14)) as int),
                        pos + 3,
                    ),
                )
            }
        }
    }
}

/// Parses a Tight compact length; `None` asks for more bytes.
pub fn parse_compact_len(b: &Vec<u8>, pos: usize) -> (r: Option<(usize, usize)>)
    requires
        pos <= b@.len(),
    ensures
        r is Some <==> compact_len_at(b@, pos as int) is Some,
        r is Some ==> (r->0).0 as int == (compact_len_at(b@, pos as int)->0).0 && (r->0).1 as int
            == (compact_len_at(b@, pos as int)->0).1 && (r->0).1 <= b@.len(),
{
    if pos >= b.len() {
        return None;
    }
    let b0 = b[pos];
    if b0 & 0x80 == 0 {
        return Some((((b0 & 0x7f) as u32) as usize, pos + 1));
    }
    if pos + 1 >= b.len() {
        return None;
    }
    let b1 = b[pos + 1];
    if b1 & 0x80 == 0 {
        let v: u32 = ((b0 & 0x7f) as u32) | (((b1 & 0x7f) as u32) << 7);
        return Some((v as usize, pos + 2));
    }
    if pos + 2 >= b.len() {
        return None;
    }
    let b2 = b[pos + 2];
    let v: u32 = ((b0 & 0x7f) as u32) | (((b1 & 0x7f) as u32) << 7) | ((b2 as u32) << 14);
    Some((v as usize, pos + 3))
}

/// The fill sub-mode's image: one true-colour pixel tiled over the whole
/// rectangle.
pub open spec fn fill_image(pf: PixelFormat, alpha_shift: u32, r: u8, g: u8, b: u8, n: int) -> Seq<
    u8,
> {
    Seq::new((n * 4) as nat, |i: int| true_color_bytes(pf, alpha_shift, r, g, b)[i % 4])
}

/// Expands the fill sub-mode: the red/green/blue bytes become one pixel,
/// repeated over the rectangle's `n` pixels.
pub fn expand_fill(pf: &PixelFormat, alpha_shift: u32, r: u8, g: u8, b: u8, n: usize) -> (out: Vec<
    u8,
>)
    requires
        pf.red_shift < 32 && pf.green_shift < 32 && pf.blue_shift < 32,
        alpha_shift < 32,
        n * 4 <= usize::MAX,
    ensures
        out@ == fill_image(*pf, alpha_shift, r, g, b, n as int),
{
    let tc = to_true_color(pf, alpha_shift, r, g, b);
    let mut out: Vec<u8> = Vec::new();
    let ghost spec_image = fill_image(*pf, alpha_shift, r, g, b, n as int);
    for p in 0..n
        invariant
            tc@ == true_color_bytes(*pf, alpha_shift, r, g, b),
            tc@.len() == 4,
            n * 4 <= usize::MAX,
            spec_image == fill_image(*pf, alpha_shift, r, g, b, n as int),
            out@.len() == p * 4,
            forall|j: int| 0 <= j < out@.len() ==> out@[j] == spec_image[j],
    {
        proof {
            assert(p * 4 + 4 <= n * 4) by (nonlinear_arith)
                requires
                    p < n,
            ;
            assert forall|o: int| 0 <= o < 4 implies tc@[o] == spec_image[p * 4 + o] by {
                lemma_fundamental_div_mod_converse(p * 4 + o, 4, p as int, o);
            }
        }
        out.extend_from_slice(tc.as_slice());
    }
    proof {
        assert(out@ =~= spec_image);
    }
    out
}

/// The copy filter's image: each three payload bytes are a red/green/blue
/// triple, expanded to one true-colour pixel.
pub open spec fn copy_image(pf: PixelFormat, alpha_shift: u32, data: Seq<u8>, n: int) -> Seq<u8> {
    Seq::new(
        (n * 4) as nat,
        |i: int|
            true_color_bytes(
                pf,
                alpha_shift,
                data[3 * (i / 4)],
                data[3 * (i / 4) + 1],
                data[3 * (i / 4) + 2],
            )[i % 4],
    )
}

/// Expands the copy filter: `n` red/green/blue triples become `n` pixels.
pub fn expand_copy(pf: &PixelFormat, alpha_shift: u32, data: &Vec<u8>, n: usize) -> (out: Vec<u8>)
    requires
        pf.red_shift < 32 && pf.green_shift < 32 && pf.blue_shift < 32,
        alpha_shift < 32,
        data@.len() == n * 3,
        n * 4 <= usize::MAX,
    ensures
        out@ == copy_image(*pf, alpha_shift, data@, n as int),
{
    let mut out: Vec<u8> = Vec::new();
    let ghost spec_image = copy_image(*pf, alpha_shift, data@, n as int);
    for p in 0..n
        invariant
            pf.red_shift < 32 && pf.green_shift < 32 && pf.blue_shift < 32,
            alpha_shift < 32,
            data@.len() == n * 3,
            n * 4 <= usize::MAX,
            spec_image == copy_image(*pf, alpha_shift, data@, n as int),
            out@.len() == p * 4,
            forall|j: int| 0 <= j < out@.len() ==> out@[j] == spec_image[j],
    {
        proof {
            assert(p * 3 + 3 <= n * 3 && p * 4 + 4 <= n * 4) by (nonlinear_arith)
                requires
                    p < n,
            ;
        }
        let tc = to_true_color(pf, alpha_shift, data[3 * p], data[3 * p + 1], data[3 * p + 2]);
        proof {
            assert forall|o: int| 0 <= o < 4 implies tc@[o] == spec_image[p * 4 + o] by {
                lemma_fundamental_div_mod_converse(p * 4 + o, 4, p as int, o);
            }
        }
        out.extend_from_slice(tc.as_slice());
    }
    proof {
        assert(out@ =~= spec_image);
    }
    out
}

/// The palette index of the pixel at column `x` of row `y` in the mono
/// (two-colour) filter: one bit per pixel, rows padded to whole bytes,
/// most significant bit first.
pub open spec fn mono_index(data: Seq<u8>, w: int, x: int, y: int) -> int {
    ((data[y * ((w + 7) / 8) + x / 8] as u32) >> ((7 - (x % 8)) as u32) & 1) as int
}

/// The mono filter's image: each pixel is palette entry 0 or 1, expanded
/// to true colour.
pub open spec fn mono_image(
    pf: PixelFormat,
    alpha_shift: u32,
    data: Seq<u8>,
    palette: Seq<u8>,
    w: int,
    h: int,
) -> Seq<u8> {
    Seq::new(
        (w * h * 4) as nat,
        |i: int|
            {
                let p = i / 4;
                let sp = 3 * mono_index(data, w, p % w, p / w);
                true_color_bytes(pf, alpha_shift, palette[sp], palette[sp + 1], palette[sp + 2])[i
                    % 4]
            },
    )
}

/// Expands the mono filter: a 6-byte palette of two red/green/blue
/// triples, selected by one bit per pixel.
pub fn expand_mono(
    pf: &PixelFormat,
    alpha_shift: u32,
    data: &Vec<u8>,
    palette: &Vec<u8>,
    w: usize,
    h: usize,
) -> (out: Vec<u8>)
    requires
        pf.red_shift < 32 && pf.green_shift < 32 && pf.blue_shift < 32,
        alpha_shift < 32,
        w > 0,
        w <= 0xffff,
        h <= 0xffff,
        palette@.len() == 6,
        data@.len() == h * ((w + 7) / 8),
        w * h * 4 <= usize::MAX,
    ensures
        out@ == mono_image(*pf, alpha_shift, data@, palette@, w as int, h as int),
{
    let row_bytes: usize = (w + 7) / 8;
    let mut out: Vec<u8> = Vec::new();
    let ghost spec_image = mono_image(*pf, alpha_shift, data@, palette@, w as int, h as int);
    proof {
        assert(0 * w * 4 == 0) by (nonlinear_arith);
    }
    for y in 0..h
        invariant
            pf.red_shift < 32 && pf.green_shift < 32 && pf.blue_shift < 32,
            alpha_shift < 32,
            w > 0,
            row_bytes == (w + 7) / 8,
            palette@.len() == 6,
            data@.len() == h * ((w + 7) / 8),
            w * h * 4 <= usize::MAX,
            spec_image == mono_image(*pf, alpha_shift, data@, palette@, w as int, h as int),
            out@.len() == y * w * 4,
            forall|j: int| 0 <= j < out@.len() ==> out@[j] == spec_image[j],
    {
        proof {
            assert(y * w * 4 + w * 4 <= w * h * 4 && (y + 1) * w * 4 == y * w * 4 + w * 4 && (y + 1)
                * ((w + 7) / 8) <= h * ((w + 7) / 8)) by (nonlinear_arith)
                requires
                    y < h,
                    w > 0,
            ;
        }
        for x in 0..w
            invariant
                pf.red_shift < 32 && pf.green_shift < 32 && pf.blue_shift < 32,
                alpha_shift < 32,
                w > 0,
                y < h,
                row_bytes == (w + 7) / 8,
                palette@.len() == 6,
                data@.len() == h * ((w + 7) / 8),
                w * h * 4 <= usize::MAX,
                y * w * 4 + w * 4 <= w * h * 4,
                (y + 1) * ((w + 7) / 8) <= h * ((w + 7) / 8),
                spec_image == mono_image(*pf, alpha_shift, data@, palette@, w as int, h as int),
                out@.len() == y * w * 4 + x * 4,
                forall|j: int| 0 <= j < out@.len() ==> out@[j] == spec_image[j],
        {
            let p: usize = y * w + x;
            let dl: usize = data.len();
            proof {
                vstd::arithmetic::div_mod::lemma_fundamental_div_mod(w as int + 7, 8);
                assert(8 * (row_bytes as int) >= w);
                vstd::arithmetic::div_mod::lemma_multiply_divide_lt(
                    x as int,
                    8,
                    row_bytes as int,
                );
                let ghost xb = (x as int) / 8;
                assert(y * (row_bytes as int) + xb < (h as int) * (row_bytes as int))
                    by (nonlinear_arith)
                    requires
                        0 <= xb < row_bytes as int,
                        0 <= (y as int) < h as int,
                ;
                assert(data@.len() == (h as int) * ((w as int + 7) / 8));
            }
            let raw_byte: u8 = data[y * row_bytes + x / 8];
            let shift_amt: u32 = (7 - (x % 8)) as u32;
            let bits_u32: u32 = (raw_byte as u32) >> shift_amt;
            proof {
                assert((bits_u32 & 1) <= 1) by (bit_vector);
            }
            let bit: usize = (bits_u32 & 1) as usize;
            let sp: usize = 3 * bit;
            let tc = to_true_color(pf, alpha_shift, palette[sp], palette[sp + 1], palette[sp + 2]);
            proof {
                lemma_fundamental_div_mod_converse(p as int, w as int, y as int, x as int);
                assert(p * 4 + 4 <= w * h * 4) by (nonlinear_arith)
                    requires
                        p == y * w + x,
                        0 <= x < w,
                        0 <= y < h,
                        y * w * 4 + w * 4 <= w * h * 4,
                ;
                assert forall|o: int| 0 <= o < 4 implies tc@[o] == spec_image[p * 4 + o] by {
                    lemma_fundamental_div_mod_converse(p * 4 + o, 4, p as int, o);
                }
            }
            out.extend_from_slice(tc.as_slice());
        }
    }
    proof {
        assert(out@.len() == h * w * 4 ==> out@.len() == w * h * 4) by (nonlinear_arith);
        assert(out@ =~= spec_image);
    }
    out
}

/// Whether every palette index of the 8-bit palette filter stays inside
/// the palette.
pub open spec fn palette_indices_ok(data: Seq<u8>, n: int, num_colors: int) -> bool {
    forall|p: int| 0 <= p < n ==> (data[p] as int) < num_colors
}

/// The 8-bit palette filter's image: each payload byte selects one
/// red/green/blue palette triple.
pub open spec fn palette_image(
    pf: PixelFormat,
    alpha_shift: u32,
    data: Seq<u8>,
    palette: Seq<u8>,
    n: int,
) -> Seq<u8> {
    Seq::new(
        (n * 4) as nat,
        |i: int|
            {
                let sp = 3 * (data[i / 4] as int);
                true_color_bytes(pf, alpha_shift, palette[sp], palette[sp + 1], palette[sp + 2])[i
                    % 4]
            },
    )
}

/// Expands the 8-bit palette filter. A payload byte that points outside
/// the palette is a fatal `InvalidImageData`.
pub fn expand_palette(
    pf: &PixelFormat,
    alpha_shift: u32,
    data: &Vec<u8>,
    palette: &Vec<u8>,
    num_colors: usize,
    n: usize,
) -> (out: Result<Vec<u8>, VncError>)
    requires
        pf.red_shift < 32 && pf.green_shift < 32 && pf.blue_shift < 32,
        alpha_shift < 32,
        palette@.len() == num_colors * 3,
        data@.len() == n,
        n * 4 <= usize::MAX,
    ensures
        out is Ok <==> palette_indices_ok(data@, n as int, num_colors as int),
        out is Ok ==> out->Ok_0@ == palette_image(*pf, alpha_shift, data@, palette@, n as int),
        out is Err ==> out->Err_0 is InvalidImageData,
{
    let mut out: Vec<u8> = Vec::new();
    let ghost spec_image = palette_image(*pf, alpha_shift, data@, palette@, n as int);
    for p in 0..n
        invariant
            pf.red_shift < 32 && pf.green_shift < 32 && pf.blue_shift < 32,
            alpha_shift < 32,
            palette@.len() == num_colors * 3,
            data@.len() == n,
            n * 4 <= usize::MAX,
            spec_image == palette_image(*pf, alpha_shift, data@, palette@, n as int),
            out@.len() == p * 4,
            forall|q: int| 0 <= q < p ==> (data@[q] as int) < num_colors,
            forall|j: int| 0 <= j < out@.len() ==> out@[j] == spec_image[j],
    {
        let idx: usize = data[p] as usize;
        if idx >= num_colors {
            return Err(VncError::InvalidImageData);
        }
        let sp: usize = 3 * idx;
        proof {
            assert(sp + 3 <= num_colors * 3 && p * 4 + 4 <= n * 4) by (nonlinear_arith)
                requires
                    sp == 3 * idx,
                    idx < num_colors,
                    p < n,
            ;
        }
        let tc = to_true_color(pf, alpha_shift, palette[sp], palette[sp + 1], palette[sp + 2]);
        proof {
            assert forall|o: int| 0 <= o < 4 implies tc@[o] == spec_image[p * 4 + o] by {
                lemma_fundamental_div_mod_converse(p * 4 + o, 4, p as int, o);
            }
        }
        out.extend_from_slice(tc.as_slice());
    }
    proof {
        assert(out@ =~= spec_image);
    }
    Ok(out)
}


/// The largest value of colour channel `c` (red, green, blue in order).
pub open spec fn channel_max(pf: PixelFormat, c: int) -> u16 {
    if c == 0 {
        pf.red_max
    } else if c == 1 {
        pf.green_max
    } else {
        pf.blue_max
    }
}

/// The shift of colour channel `c`.
pub open spec fn channel_shift(pf: PixelFormat, c: int) -> u8 {
    if c == 0 {
        pf.red_shift
    } else if c == 1 {
        pf.green_shift
    } else {
        pf.blue_shift
    }
}

/// The gradient filter's value of channel `c` at column `x` of row `y`:
/// the left, upper and diagonal neighbours predict the value (clipped to
/// the channel's range), and the payload byte is the residual, added
/// modulo the channel mask. Out-of-image neighbours count as zero.
pub open spec fn grad_val(data: Seq<u8>, pf: PixelFormat, w: int, x: int, y: int, c: int) -> u16
    decreases y + 1, x + 1,
{
    if x < 0 || y < 0 {
        0u16
    } else {
        let up = grad_val(data, pf, w, x, y - 1, c) as int;
        let left = grad_val(data, pf, w, x - 1, y, c) as int;
        let diag = grad_val(data, pf, w, x - 1, y - 1, c) as int;
        let d = up + left - diag;
        let mx = channel_max(pf, c) as int;
        let pred = if d < 0 {
            0
        } else if d > mx {
            mx
        } else {
            d
        };
        ((((pred + data[3 * (y * w + x) + c]) as u32) & (mx as u32)) as u16)
    }
}

/// The 32-bit pixel value of the gradient filter at column `x` of row
/// `y`: the three reconstructed channels at their shifts. The filter
/// leaves alpha clear.
pub open spec fn grad_color(data: Seq<u8>, pf: PixelFormat, w: int, x: int, y: int) -> u32 {
    (((grad_val(data, pf, w, x, y, 0) as u32) & (pf.red_max as u32)) << (pf.red_shift as u32)) | ((
    (grad_val(data, pf, w, x, y, 1) as u32) & (pf.green_max as u32)) << (pf.green_shift as u32)) | (
    ((grad_val(data, pf, w, x, y, 2) as u32) & (pf.blue_max as u32)) << (pf.blue_shift as u32))
}

/// The gradient filter's image: each pixel's value in little-endian order.
pub open spec fn gradient_image(data: Seq<u8>, pf: PixelFormat, w: int, h: int) -> Seq<u8> {
    Seq::new(
        (w * h * 4) as nat,
        |i: int| crate::codec::pixel::le32_bytes(grad_color(data, pf, w, (i / 4) % w, (i / 4) / w))[
            i % 4
        ],
    )
}

/// One working row of the gradient filter holds the reconstructed channel
/// values of row `y`, with a virtual all-zero pixel before column 0.
pub open spec fn grad_row_matches(row: Seq<u16>, data: Seq<u8>, pf: PixelFormat, w: int, y: int) -> bool {
    row.len() == 3 * w + 3 && forall|x: int, c: int|
        -1 <= x < w && 0 <= c < 3 ==> row[3 + 3 * x + c] == grad_val(data, pf, w, x, y, c)
}

/// Expands the gradient filter: predicts each channel from its neighbours
/// and adds the payload residual modulo the channel mask.
pub fn expand_gradient(pf: &PixelFormat, data: &Vec<u8>, w: usize, h: usize) -> (out: Vec<u8>)
    requires
        pf.red_shift < 32 && pf.green_shift < 32 && pf.blue_shift < 32,
        w > 0,
        w <= 0xffff,
        h <= 0xffff,
        data@.len() == w * h * 3,
        w * h * 4 <= usize::MAX,
    ensures
        out@ == gradient_image(data@, *pf, w as int, h as int),
{
    let row_len: usize = 3 * w + 3;
    let mut prev: Vec<u16> = vec![0u16; row_len];
    let mut cur: Vec<u16> = vec![0u16; row_len];
    let mut out: Vec<u8> = Vec::new();
    let ghost spec_image = gradient_image(data@, *pf, w as int, h as int);
    proof {
        assert(0 * w * 4 == 0 && 0 * w * 3 == 0) by (nonlinear_arith);
    }
    for y in 0..h
        invariant
            pf.red_shift < 32 && pf.green_shift < 32 && pf.blue_shift < 32,
            w > 0,
            row_len == 3 * w + 3,
            data@.len() == w * h * 3,
            w * h * 4 <= usize::MAX,
            spec_image == gradient_image(data@, *pf, w as int, h as int),
            grad_row_matches(prev@, data@, *pf, w as int, y as int - 1),
            out@.len() == y * w * 4,
            forall|j: int| 0 <= j < out@.len() ==> out@[j] == spec_image[j],
    {
        proof {
            assert(y * w * 4 + w * 4 <= w * h * 4 && (y + 1) * w * 4 == y * w * 4 + w * 4 && y * w
                * 3 + w * 3 <= w * h * 3 && (y * w + w) * 3 == y * w * 3 + w * 3)
                by (nonlinear_arith)
                requires
                    y < h,
                    w > 0,
            ;
        }
        let mut x: usize = 0;
        // the fresh row's virtual pixel (indices 0..3) is already zero
        cur = vec![0u16; row_len];
        while x < w
            invariant
                pf.red_shift < 32 && pf.green_shift < 32 && pf.blue_shift < 32,
                w > 0,
                x <= w,
                y < h,
                row_len == 3 * w + 3,
                data@.len() == w * h * 3,
                w * h * 4 <= usize::MAX,
                y * w * 4 + w * 4 <= w * h * 4,
                y * w * 3 + w * 3 <= w * h * 3,
                data@.len() <= usize::MAX,
                spec_image == gradient_image(data@, *pf, w as int, h as int),
                grad_row_matches(prev@, data@, *pf, w as int, y as int - 1),
                cur@.len() == row_len,
                forall|xp: int, c: int|
                    -1 <= xp < x && 0 <= c < 3 ==> cur@[3 + 3 * xp + c] == grad_val(
                        data@,
                        *pf,
                        w as int,
                        xp,
                        y as int,
                        c,
                    ),
                out@.len() == y * w * 4 + x * 4,
                forall|j: int| 0 <= j < out@.len() ==> out@[j] == spec_image[j],
            decreases w - x,
        {
            let p: usize = y * w + x;
            let sp: usize = p * 3;
            proof {
                assert(sp + 3 <= w * h * 3 && p * 4 + 4 <= w * h * 4) by (nonlinear_arith)
                    requires
                        p == y * w + x,
                        sp == p * 3,
                        0 <= x < w,
                        0 <= y < h,
                        y * w * 3 + w * 3 <= w * h * 3,
                        y * w * 4 + w * 4 <= w * h * 4,
                ;
                lemma_fundamental_div_mod_converse(p as int, w as int, y as int, x as int);
            }
            let dl: usize = data.len();
            let mut c: usize = 0;
            while c < 3
                invariant
                    pf.red_shift < 32 && pf.green_shift < 32 && pf.blue_shift < 32,
                    c <= 3,
                    w > 0,
                    x < w,
                    y < h,
                    p == y * w + x,
                    sp == p * 3,
                    sp + 3 <= data@.len(),
                    data@.len() <= usize::MAX,
                    row_len == 3 * w + 3,
                    data@.len() == w * h * 3,
                    grad_row_matches(prev@, data@, *pf, w as int, y as int - 1),
                    cur@.len() == row_len,
                    forall|xp: int, cc: int|
                        -1 <= xp < x && 0 <= cc < 3 ==> cur@[3 + 3 * xp + cc] == grad_val(
                            data@,
                            *pf,
                            w as int,
                            xp,
                            y as int,
                            cc,
                        ),
                    forall|cc: int|
                        0 <= cc < c ==> cur@[3 + 3 * x + cc] == grad_val(
                            data@,
                            *pf,
                            w as int,
                            x as int,
                            y as int,
                            cc,
                        ),
                decreases 3 - c,
            {
                let up: u16 = prev[3 + 3 * x + c];
                let left: u16 = cur[3 * x + c];
                let diag: u16 = prev[3 * x + c];
                let d: i32 = up as i32 + left as i32 - diag as i32;
                let mx: u16 = if c == 0 {
                    pf.red_max
                } else if c == 1 {
                    pf.green_max
                } else {
                    pf.blue_max
                };
                let converted: u16 = if d < 0 {
                    0
                } else if d > mx as i32 {
                    mx
                } else {
                    d as u16
                };
                let sum: u32 = (converted as u32) + (data[sp + c] as u32);
                let vu32: u32 = sum & (mx as u32);
                proof {
                    assert(sum & (mx as u32) <= (mx as u32)) by (bit_vector);
                }
                let v: u16 = vu32 as u16;
                proof {
                    assert(cur@[3 * x + c] == grad_val(
                        data@,
                        *pf,
                        w as int,
                        x as int - 1,
                        y as int,
                        c as int,
                    ));
                    assert(prev@[3 + 3 * x + c] == grad_val(
                        data@,
                        *pf,
                        w as int,
                        x as int,
                        y as int - 1,
                        c as int,
                    ));
                    assert(prev@[3 * x + c] == grad_val(
                        data@,
                        *pf,
                        w as int,
                        x as int - 1,
                        y as int - 1,
                        c as int,
                    ));
                    assert(v == grad_val(data@, *pf, w as int, x as int, y as int, c as int));
                }
                cur[3 + 3 * x + c] = v;
                c = c + 1;
            }
            let c0: u16 = cur[3 + 3 * x];
            let c1: u16 = cur[3 + 3 * x + 1];
            let c2: u16 = cur[3 + 3 * x + 2];
            let color: u32 = (((c0 as u32) & (pf.red_max as u32)) << (pf.red_shift as u32)) | (((c1
                as u32) & (pf.green_max as u32)) << (pf.green_shift as u32)) | (((c2 as u32) & (
            pf.blue_max as u32)) << (pf.blue_shift as u32));
            let tc: Vec<u8> = vec![
                color as u8,
                (color >> 8) as u8,
                (color >> 16) as u8,
                (color >> 24) as u8,
            ];
            proof {
                assert(color == grad_color(data@, *pf, w as int, x as int, y as int));
                assert(tc@ =~= crate::codec::pixel::le32_bytes(color));
                assert forall|o: int| 0 <= o < 4 implies tc@[o] == spec_image[p * 4 + o] by {
                    lemma_fundamental_div_mod_converse(p * 4 + o, 4, p as int, o);
                }
            }
            out.extend_from_slice(tc.as_slice());
            x = x + 1;
        }
        prev = cur;
        cur = Vec::new();
    }
    proof {
        assert(h * w * 4 == w * h * 4) by (nonlinear_arith);
        assert(out@ =~= spec_image);
    }
    out
}

} // verus!
