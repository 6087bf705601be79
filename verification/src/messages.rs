//! The client-to-server message codec.
//!
//! Every client message is serialised to its exact wire bytes; the spec
//! function [`client_msg_bytes`] is the single definition of that layout.

use vstd::prelude::*;
use vstd::string::StrSliceExecFns;
use vstd::utf8::encode_utf8;
use crate::config::{PixelFormat, VncEncoding, pixel_format_bytes, encoding_tag};
use crate::event::Rect;
use crate::wire::{u16_be_bytes, u32_be_bytes, push_u16_be, push_u32_be};

verus! {

/// A message the client sends to the server.
#[derive(Debug, Clone)]
pub enum ClientMsg {
    /// Adopt this pixel format for all further rectangles.
    SetPixelFormat(PixelFormat),
    /// The encodings the client accepts, in priority order.
    SetEncodings(Vec<VncEncoding>),
    /// Ask for an update of the given rectangle; the flag is non-zero for
    /// an incremental request.
    FramebufferUpdateRequest(Rect, u8),
    /// A key press (true) or release (false) of the given keysym.
    KeyEvent(u32, bool),
    /// Pointer position and button mask.
    PointerEvent(u16, u16, u8),
    /// Share clipboard text with the server.
    ClientCutText(String),
}

/// The wire tags of a list of encodings, four big-endian bytes each.
pub open spec fn encoding_tags_bytes(encs: Seq<VncEncoding>) -> Seq<u8>
    decreases encs.len(),
{
    if encs.len() == 0 {
        Seq::empty()
    } else {
        encoding_tags_bytes(encs.drop_last()) + u32_be_bytes(encoding_tag(encs.last()))
    }
}

/// The UTF-8 bytes a string puts on the wire.
pub open spec fn string_bytes(s: Seq<char>) -> Seq<u8> {
    encode_utf8(s)
}

/// The exact wire bytes of a client message. The first byte is the message
/// type; all scalars are big-endian.
pub open spec fn client_msg_bytes(m: ClientMsg) -> Seq<u8> {
    match m {
        ClientMsg::SetPixelFormat(pf) => seq![1u8, 0, 0, 0] + pixel_format_bytes(pf),
        ClientMsg::SetEncodings(encs) => seq![2u8, 0] + u16_be_bytes(encs.len() as u16)
            + encoding_tags_bytes(encs@),
        ClientMsg::FramebufferUpdateRequest(rect, incremental) => seq![3u8, incremental]
            + u16_be_bytes(rect.x) + u16_be_bytes(rect.y) + u16_be_bytes(rect.width)
            + u16_be_bytes(rect.height),
        ClientMsg::KeyEvent(keycode, down) => seq![
            4u8,
            if down {
                1u8
            } else {
                0u8
            },
            0,
            0,
        ] + u32_be_bytes(keycode),
        ClientMsg::PointerEvent(x, y, mask) => seq![5u8, mask] + u16_be_bytes(x) + u16_be_bytes(y),
        ClientMsg::ClientCutText(s) => seq![6u8, 0, 0, 0] + u32_be_bytes(
            string_bytes(s@).len() as u32,
        ) + string_bytes(s@),
    }
}

impl ClientMsg {
    /// Serialises this message into its exact wire bytes.
    ///
    /// The machine limits are the caller's to meet: an encodings list
    /// fits in the 16-bit count and clipboard text in the 32-bit length.
    pub fn to_bytes(&self) -> (r: Vec<u8>)
        requires
            self matches ClientMsg::SetEncodings(encs) ==> encs@.len() <= u16::MAX,
            self matches ClientMsg::ClientCutText(s) ==> string_bytes(s@).len() <= u32::MAX,
        ensures
            r@ == client_msg_bytes(*self),
    {
        match self {
            ClientMsg::SetPixelFormat(pf) => {
                let mut v: Vec<u8> = vec![1u8, 0, 0, 0];
                let mut pf_bytes = pf.to_bytes();
                v.append(&mut pf_bytes);
                assert(v@ =~= client_msg_bytes(*self));
                v
            },
            ClientMsg::SetEncodings(encs) => {
                let mut v: Vec<u8> = vec![2u8, 0];
                push_u16_be(&mut v, encs.len() as u16);
                assert(v@ =~= seq![2u8, 0] + u16_be_bytes(encs@.len() as u16)
                    + encoding_tags_bytes(encs@.subrange(0, 0)));
                let n: usize = encs.len();
                for i in 0..n
                    invariant
                        n == encs@.len(),
                        v@ == seq![2u8, 0] + u16_be_bytes(encs@.len() as u16)
                            + encoding_tags_bytes(encs@.subrange(0, i as int)),
                {
                    push_u32_be(&mut v, encs[i].to_tag());
                    proof {
                        let pre = encs@.subrange(0, i as int);
                        let post = encs@.subrange(0, i + 1);
                        assert(post.drop_last() =~= pre);
                        assert(post.last() == encs@[i as int]);
                        assert(v@ =~= seq![2u8, 0] + u16_be_bytes(encs@.len() as u16)
                            + encoding_tags_bytes(post));
                    }
                }
                proof {
                    assert(encs@.subrange(0, encs@.len() as int) =~= encs@);
                }
                v
            },
            ClientMsg::FramebufferUpdateRequest(rect, incremental) => {
                let mut v: Vec<u8> = vec![3u8, *incremental];
                push_u16_be(&mut v, rect.x);
                push_u16_be(&mut v, rect.y);
                push_u16_be(&mut v, rect.width);
                push_u16_be(&mut v, rect.height);
                assert(v@ =~= client_msg_bytes(*self));
                v
            },
            ClientMsg::KeyEvent(keycode, down) => {
                let d: u8 = if *down {
                    1
                } else {
                    0
                };
                let mut v: Vec<u8> = vec![4u8, d, 0, 0];
                push_u32_be(&mut v, *keycode);
                assert(v@ =~= client_msg_bytes(*self));
                v
            },
            ClientMsg::PointerEvent(x, y, mask) => {
                let mut v: Vec<u8> = vec![5u8, *mask];
                push_u16_be(&mut v, *x);
                push_u16_be(&mut v, *y);
                assert(v@ =~= client_msg_bytes(*self));
                v
            },
            ClientMsg::ClientCutText(s) => {
                let mut text: Vec<u8> = s.as_str().as_bytes_vec();
                let mut v: Vec<u8> = vec![6u8, 0, 0, 0];
                push_u32_be(&mut v, text.len() as u32);
                v.append(&mut text);
                assert(v@ =~= client_msg_bytes(*self));
                v
            },
        }
    }
}

} // verus!
