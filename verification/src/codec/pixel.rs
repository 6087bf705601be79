//! Pixel translation shared by the decoders.
//!
//! The channel maxima and shifts of the session's pixel format form a
//! 32-bit channel mask. Where alpha lives — the one byte the mask leaves
//! free — is derived from that mask as a closed table; a mask that matches
//! none of the four canonical patterns is rejected by the decoders as
//! `InvalidImageData`.

use vstd::prelude::*;
use crate::config::{PixelFormat, valid_bits_per_pixel};

verus! {

/// The combined 32-bit mask of the three colour channels, if every shift
/// stays inside the pixel; high bits shifted out are dropped.
pub open spec fn pixel_mask_of(pf: PixelFormat) -> Option<u32> {
    if pf.red_shift < 32 && pf.green_shift < 32 && pf.blue_shift < 32 {
        Some(
            ((pf.red_max as u32) << (pf.red_shift as u32)) | ((pf.green_max as u32) << (
            pf.green_shift as u32)) | ((pf.blue_max as u32) << (pf.blue_shift as u32)),
        )
    } else {
        None
    }
}

/// Where the alpha byte of a 32-bit pixel sits as a shift, per the closed
/// table over the four canonical channel masks.
pub open spec fn alpha_shift_of(pf: PixelFormat) -> Option<u32> {
    match pixel_mask_of(pf) {
        Some(m) => if m == 0xffff_ff00u32 {
            Some(0u32)
        } else if m == 0xffff_00ffu32 {
            Some(8u32)
        } else if m == 0xff00_ffffu32 {
            Some(16u32)
        } else if m == 0x00ff_ffffu32 {
            Some(24u32)
        } else {
            None
        },
        None => None,
    }
}

/// Which of the four wire bytes of a 32-bit pixel holds alpha, per the
/// same closed table, mirrored when the format is little-endian.
pub open spec fn cursor_alpha_index_of(pf: PixelFormat) -> Option<int> {
    let base: Option<int> = match pixel_mask_of(pf) {
        Some(m) => if m == 0xffff_ff00u32 {
            Some(3int)
        } else if m == 0xffff_00ffu32 {
            Some(2int)
        } else if m == 0xff00_ffffu32 {
            Some(1int)
        } else if m == 0x00ff_ffffu32 {
            Some(0int)
        } else {
            None
        },
        None => None,
    };
    match base {
        Some(i) => if pf.big_endian_flag == 0 {
            Some(3 - i)
        } else {
            Some(i)
        },
        None => None,
    }
}

/// The four little-endian bytes of a 32-bit value.
pub open spec fn le32_bytes(v: u32) -> Seq<u8> {
    seq![v as u8, (v >> 8) as u8, (v >> 16) as u8, (v >> 24) as u8]
}

/// The 32-bit pixel value a red/green/blue byte triple maps to, with an
/// opaque alpha at the given shift.
pub open spec fn true_color_value(pf: PixelFormat, alpha_shift: u32, r: u8, g: u8, b: u8) -> u32
    recommends
        pf.red_shift < 32 && pf.green_shift < 32 && pf.blue_shift < 32 && alpha_shift < 32,
{
    (((r as u32) & (pf.red_max as u32)) << (pf.red_shift as u32)) | (((g as u32) & (pf.green_max
        as u32)) << (pf.green_shift as u32)) | (((b as u32) & (pf.blue_max as u32)) << (
    pf.blue_shift as u32)) | (255u32 << alpha_shift)
}

/// The four wire bytes of a true-colour pixel: the value's little-endian
/// bytes.
pub open spec fn true_color_bytes(pf: PixelFormat, alpha_shift: u32, r: u8, g: u8, b: u8) -> Seq<
    u8,
> {
    le32_bytes(true_color_value(pf, alpha_shift, r, g, b))
}

/// Computes the combined channel mask; `None` when a shift reaches outside
/// the 32-bit pixel.
pub fn pixel_mask(pf: &PixelFormat) -> (r: Option<u32>)
    ensures
        r == pixel_mask_of(*pf),
{
    if pf.red_shift < 32 && pf.green_shift < 32 && pf.blue_shift < 32 {
        Some(
            ((pf.red_max as u32) << (pf.red_shift as u32)) | ((pf.green_max as u32) << (
            pf.green_shift as u32)) | ((pf.blue_max as u32) << (pf.blue_shift as u32)),
        )
    } else {
        None
    }
}

/// Looks the alpha shift up in the closed table.
pub fn alpha_shift(pf: &PixelFormat) -> (r: Option<u32>)
    ensures
        r == alpha_shift_of(*pf),
{
    match pixel_mask(pf) {
        Some(m) => {
            if m == 0xffff_ff00u32 {
                Some(0u32)
            } else if m == 0xffff_00ffu32 {
                Some(8u32)
            } else if m == 0xff00_ffffu32 {
                Some(16u32)
            } else if m == 0x00ff_ffffu32 {
                Some(24u32)
            } else {
                None
            }
        },
        None => None,
    }
}

/// Looks the alpha byte position up in the closed table.
pub fn cursor_alpha_index(pf: &PixelFormat) -> (r: Option<usize>)
    ensures
        r is Some <==> cursor_alpha_index_of(*pf) is Some,
        r is Some ==> r->0 as int == cursor_alpha_index_of(*pf)->0 && r->0 < 4,
{
    let base: Option<usize> = match pixel_mask(pf) {
        Some(m) => {
            if m == 0xffff_ff00u32 {
                Some(3usize)
            } else if m == 0xffff_00ffu32 {
                Some(2usize)
            } else if m == 0xff00_ffffu32 {
                Some(1usize)
            } else if m == 0x00ff_ffffu32 {
                Some(0usize)
            } else {
                None
            }
        },
        None => None,
    };
    match base {
        Some(i) => if pf.big_endian_flag == 0 {
            Some(3 - i)
        } else {
            Some(i)
        },
        None => None,
    }
}

/// Expands a red/green/blue triple into the four wire bytes of a
/// true-colour pixel with opaque alpha.
pub fn to_true_color(pf: &PixelFormat, alpha_shift: u32, r: u8, g: u8, b: u8) -> (out: Vec<u8>)
    requires
        pf.red_shift < 32 && pf.green_shift < 32 && pf.blue_shift < 32,
        alpha_shift < 32,
    ensures
        out@ == true_color_bytes(*pf, alpha_shift, r, g, b),
        out@.len() == 4,
{
    let v: u32 = (((r as u32) & (pf.red_max as u32)) << (pf.red_shift as u32)) | (((g as u32) & (
    pf.green_max as u32)) << (pf.green_shift as u32)) | (((b as u32) & (pf.blue_max as u32)) << (
    pf.blue_shift as u32)) | (255u32 << alpha_shift);
    let out: Vec<u8> = vec![v as u8, (v >> 8) as u8, (v >> 16) as u8, (v >> 24) as u8];
    assert(out@ =~= true_color_bytes(*pf, alpha_shift, r, g, b));
    out
}

/// How many bytes one pixel takes inside a ZRLE or TRLE payload, and
/// whether the alpha byte comes first when a 32-bit pixel travels as three
/// bytes: with the colour channels in the high bytes the restored alpha
/// leads exactly on a little-endian format; with the channels in the low
/// bytes it always leads. A format whose channel mask cannot be computed
/// is refused.
pub open spec fn zrle_compression_of(pf: PixelFormat) -> Option<(int, bool)> {
    if !valid_bits_per_pixel(pf.bits_per_pixel) {
        None
    } else if pf.bits_per_pixel == 32 && pf.true_color_flag != 0 && pf.depth <= 24 {
        match pixel_mask_of(pf) {
            Some(m) => if m & 0x0000_00ffu32 == 0 {
                Some((3int, pf.big_endian_flag == 0))
            } else if m & 0xff00_0000u32 == 0 {
                Some((3int, true))
            } else {
                Some((4int, false))
            },
            None => None,
        }
    } else {
        Some((pf.bits_per_pixel as int / 8, false))
    }
}

/// Computes the ZRLE compressed pixel size and alpha placement.
pub fn zrle_compression(pf: &PixelFormat) -> (r: Option<(usize, bool)>)
    ensures
        r is Some <==> zrle_compression_of(*pf) is Some,
        r is Some ==> (r->0).0 as int == (zrle_compression_of(*pf)->0).0 && (r->0).1
            == (zrle_compression_of(*pf)->0).1 && 1 <= (r->0).0 <= 4,
{
    let bpp = pf.bits_per_pixel;
    if bpp != 8 && bpp != 16 && bpp != 32 {
        None
    } else if bpp == 32 && pf.true_color_flag != 0 && pf.depth <= 24 {
        match pixel_mask(pf) {
            Some(m) => {
                if m & 0x0000_00ffu32 == 0 {
                    Some((3usize, pf.big_endian_flag == 0))
                } else if m & 0xff00_0000u32 == 0 {
                    Some((3usize, true))
                } else {
                    Some((4usize, false))
                }
            },
            None => None,
        }
    } else {
        Some(((bpp / 8) as usize, false))
    }
}

} // verus!
