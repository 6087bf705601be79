//! The Raw encoding: the rectangle's pixels travel verbatim.

use vstd::prelude::*;
use crate::config::PixelFormat;
use crate::event::{Rect, VncEvent};

verus! {

/// How many payload bytes a Raw rectangle carries:
/// width × height × bytes-per-pixel.
pub open spec fn raw_payload_len(pf: PixelFormat, rect: Rect) -> int {
    (rect.width as int) * (rect.height as int) * ((pf.bits_per_pixel as int) / 8)
}

/// Computes the Raw payload length, guarding the machine's size limit.
pub fn raw_payload_size(pf: &PixelFormat, rect: &Rect) -> (r: Option<usize>)
    ensures
        r is Some <==> raw_payload_len(*pf, *rect) <= usize::MAX,
        r is Some ==> r->0 as int == raw_payload_len(*pf, *rect),
{
    let bytes_pp: u64 = (pf.bits_per_pixel / 8) as u64;
    proof {
        assert((rect.width as int) * (rect.height as int) < 0x10000 * 0x10000) by (nonlinear_arith)
            requires
                0 <= rect.width < 0x10000,
                0 <= rect.height < 0x10000,
        ;
        assert((rect.width as int) * (rect.height as int) * (bytes_pp as int) < 0x10000 * 0x10000
            * 0x100) by (nonlinear_arith)
            requires
                0 <= rect.width < 0x10000,
                0 <= rect.height < 0x10000,
                0 <= bytes_pp < 0x100,
        ;
    }
    let total: u64 = (rect.width as u64) * (rect.height as u64) * bytes_pp;
    if total <= (usize::MAX as u64) {
        Some(total as usize)
    } else {
        None
    }
}

/// Decodes a Raw rectangle: the payload bytes are the image, verbatim.
pub fn decode_raw(rect: &Rect, payload: Vec<u8>) -> (r: VncEvent)
    ensures
        r == VncEvent::RawImage(*rect, payload),
{
    VncEvent::RawImage(*rect, payload)
}

} // verus!
