//! Wire primitives of the RFB protocol: protocol versions, encoding tags,
//! and the 16-byte pixel format structure.

use vstd::prelude::*;
use crate::error::VncError;
use crate::wire::{be16_at, u16_hi, u16_lo, read_u16_be, lemma_be16_round_trip};

verus! {

/// The RFB protocol versions this client understands,
/// ordered `RFB33 < RFB37 < RFB38`.
#[derive(Debug, Clone, Copy, PartialEq, Eq, Structural)]
pub enum VncVersion {
    RFB33,
    RFB37,
    RFB38,
}

/// The rank a version takes in the protocol order.
pub open spec fn version_rank(v: VncVersion) -> int {
    match v {
        VncVersion::RFB33 => 33,
        VncVersion::RFB37 => 37,
        VncVersion::RFB38 => 38,
    }
}

/// The literal 12-byte ASCII banner `RFB 003.0NN\n` of a version.
pub open spec fn banner_bytes(v: VncVersion) -> Seq<u8> {
    match v {
        VncVersion::RFB33 => seq![
            0x52u8,
            0x46,
            0x42,
            0x20,
            0x30,
            0x30,
            0x33,
            0x2e,
            0x30,
            0x30,
            0x33,
            0x0a,
        ],
        VncVersion::RFB37 => seq![
            0x52u8,
            0x46,
            0x42,
            0x20,
            0x30,
            0x30,
            0x33,
            0x2e,
            0x30,
            0x30,
            0x37,
            0x0a,
        ],
        VncVersion::RFB38 => seq![
            0x52u8,
            0x46,
            0x42,
            0x20,
            0x30,
            0x30,
            0x33,
            0x2e,
            0x30,
            0x30,
            0x38,
            0x0a,
        ],
    }
}

/// The version a received banner stands for. A banner that is not one of
/// the three known ones is interpreted as RFB 3.3.
pub open spec fn version_of_banner(b: Seq<u8>) -> VncVersion {
    if b == banner_bytes(VncVersion::RFB37) {
        VncVersion::RFB37
    } else if b == banner_bytes(VncVersion::RFB38) {
        VncVersion::RFB38
    } else {
        VncVersion::RFB33
    }
}

/// The smaller of two versions in the protocol order.
pub open spec fn min_version(a: VncVersion, b: VncVersion) -> VncVersion {
    if version_rank(a) <= version_rank(b) {
        a
    } else {
        b
    }
}

impl VncVersion {
    /// The 12-byte banner of this version.
    pub fn to_banner(self) -> (r: Vec<u8>)
        ensures
            r@ == banner_bytes(self),
    {
        let r = match self {
            VncVersion::RFB33 => vec![
                0x52u8,
                0x46,
                0x42,
                0x20,
                0x30,
                0x30,
                0x33,
                0x2e,
                0x30,
                0x30,
                0x33,
                0x0a,
            ],
            VncVersion::RFB37 => vec![
                0x52u8,
                0x46,
                0x42,
                0x20,
                0x30,
                0x30,
                0x33,
                0x2e,
                0x30,
                0x30,
                0x37,
                0x0a,
            ],
            VncVersion::RFB38 => vec![
                0x52u8,
                0x46,
                0x42,
                0x20,
                0x30,
                0x30,
                0x33,
                0x2e,
                0x30,
                0x30,
                0x38,
                0x0a,
            ],
        };
        assert(r@ =~= banner_bytes(self));
        r
    }

    /// Maps a received banner to the version it stands for.
    pub fn from_banner(b: &Vec<u8>) -> (r: VncVersion)
        ensures
            r == version_of_banner(b@),
    {
        let known_prefix = b.len() == 12 && b[0] == 0x52 && b[1] == 0x46 && b[2] == 0x42 && b[3]
            == 0x20 && b[4] == 0x30 && b[5] == 0x30 && b[6] == 0x33 && b[7] == 0x2e && b[8] == 0x30
            && b[9] == 0x30 && b[11] == 0x0a;
        if known_prefix && b[10] == 0x37 {
            assert(b@ =~= banner_bytes(VncVersion::RFB37));
            VncVersion::RFB37
        } else if known_prefix && b[10] == 0x38 {
            assert(b@ =~= banner_bytes(VncVersion::RFB38));
            VncVersion::RFB38
        } else {
            proof {
                if b@ == banner_bytes(VncVersion::RFB37) {
                    assert(b@.len() == 12);
                    assert(b@[10] == 0x37);
                }
                if b@ == banner_bytes(VncVersion::RFB38) {
                    assert(b@.len() == 12);
                    assert(b@[10] == 0x38);
                }
            }
            VncVersion::RFB33
        }
    }

    /// The smaller of two versions; negotiation takes the minimum of the
    /// client's best version and the one the server offered.
    pub fn min(self, other: VncVersion) -> (r: VncVersion)
        ensures
            r == min_version(self, other),
    {
        let a = match self {
            VncVersion::RFB33 => 33u8,
            VncVersion::RFB37 => 37,
            VncVersion::RFB38 => 38,
        };
        let b = match other {
            VncVersion::RFB33 => 33u8,
            VncVersion::RFB37 => 37,
            VncVersion::RFB38 => 38,
        };
        if a <= b {
            self
        } else {
            other
        }
    }
}

/// The three versions stand in the strict order RFB33 < RFB37 < RFB38,
/// and any banner other than the three known ones maps to RFB33.
pub proof fn lemma_version_order()
    ensures
        version_rank(VncVersion::RFB33) < version_rank(VncVersion::RFB37),
        version_rank(VncVersion::RFB37) < version_rank(VncVersion::RFB38),
        forall|b: Seq<u8>|
            version_of_banner(b) == VncVersion::RFB33 || b == banner_bytes(version_of_banner(b)),
{
}

/// A version's banner always maps back to that version.
pub proof fn lemma_banner_round_trip(v: VncVersion)
    ensures
        version_of_banner(banner_bytes(v)) == v,
{
    assert(banner_bytes(VncVersion::RFB33)[10] == 0x33);
    assert(banner_bytes(VncVersion::RFB37)[10] == 0x37);
    assert(banner_bytes(VncVersion::RFB38)[10] == 0x38);
}

/// The rectangle encodings and pseudo-encodings this client understands.
#[derive(Debug, Clone, Copy, PartialEq, Eq, Structural)]
pub enum VncEncoding {
    Raw,
    CopyRect,
    Tight,
    Trle,
    Zrle,
    CursorPseudo,
    DesktopSizePseudo,
    LastRectPseudo,
}

/// The signed 32-bit tag of an encoding, as the unsigned value that stands
/// on the wire (the pseudo-encodings have negative tags).
pub open spec fn encoding_tag(e: VncEncoding) -> u32 {
    match e {
        VncEncoding::Raw => 0,
        VncEncoding::CopyRect => 1,
        VncEncoding::Tight => 7,
        VncEncoding::Trle => 15,
        VncEncoding::Zrle => 16,
        VncEncoding::CursorPseudo => 0xffff_ff11,
        VncEncoding::DesktopSizePseudo => 0xffff_ff21,
        VncEncoding::LastRectPseudo => 0xffff_ff20,
    }
}

/// The encoding a wire tag stands for, if the client knows it.
pub open spec fn encoding_of_tag(t: u32) -> Option<VncEncoding> {
    if t == 0 {
        Some(VncEncoding::Raw)
    } else if t == 1 {
        Some(VncEncoding::CopyRect)
    } else if t == 7 {
        Some(VncEncoding::Tight)
    } else if t == 15 {
        Some(VncEncoding::Trle)
    } else if t == 16 {
        Some(VncEncoding::Zrle)
    } else if t == 0xffff_ff11 {
        Some(VncEncoding::CursorPseudo)
    } else if t == 0xffff_ff21 {
        Some(VncEncoding::DesktopSizePseudo)
    } else if t == 0xffff_ff20 {
        Some(VncEncoding::LastRectPseudo)
    } else {
        None
    }
}

impl VncEncoding {
    /// The wire tag of this encoding.
    pub fn to_tag(self) -> (r: u32)
        ensures
            r == encoding_tag(self),
    {
        match self {
            VncEncoding::Raw => 0,
            VncEncoding::CopyRect => 1,
            VncEncoding::Tight => 7,
            VncEncoding::Trle => 15,
            VncEncoding::Zrle => 16,
            VncEncoding::CursorPseudo => 0xffff_ff11,
            VncEncoding::DesktopSizePseudo => 0xffff_ff21,
            VncEncoding::LastRectPseudo => 0xffff_ff20,
        }
    }

    /// The encoding a wire tag stands for, if the client knows it.
    pub fn from_tag(t: u32) -> (r: Option<VncEncoding>)
        ensures
            r == encoding_of_tag(t),
            r is Some ==> encoding_tag(r->0) == t,
    {
        if t == 0 {
            Some(VncEncoding::Raw)
        } else if t == 1 {
            Some(VncEncoding::CopyRect)
        } else if t == 7 {
            Some(VncEncoding::Tight)
        } else if t == 15 {
            Some(VncEncoding::Trle)
        } else if t == 16 {
            Some(VncEncoding::Zrle)
        } else if t == 0xffff_ff11 {
            Some(VncEncoding::CursorPseudo)
        } else if t == 0xffff_ff21 {
            Some(VncEncoding::DesktopSizePseudo)
        } else if t == 0xffff_ff20 {
            Some(VncEncoding::LastRectPseudo)
        } else {
            None
        }
    }
}

/// Pixel format structure, 16 bytes on the wire:
/// bits-per-pixel, depth, big-endian-flag, true-colour-flag, the three
/// 16-bit channel maxima (big-endian), the three channel shifts, and
/// three padding bytes.
#[derive(Debug, Clone, Copy, PartialEq, Eq, Structural)]
pub struct PixelFormat {
    /// Bits used for each pixel on the wire; 8, 16 or 32.
    pub bits_per_pixel: u8,
    /// Colour depth in bits; informational.
    pub depth: u8,
    /// Non-zero if multi-byte pixels are big-endian.
    pub big_endian_flag: u8,
    /// Non-zero if the maxima and shifts describe the channels.
    pub true_color_flag: u8,
    /// Largest red value.
    pub red_max: u16,
    /// Largest green value.
    pub green_max: u16,
    /// Largest blue value.
    pub blue_max: u16,
    /// Shifts to bring the red channel to the least significant bit.
    pub red_shift: u8,
    /// Shifts to bring the green channel to the least significant bit.
    pub green_shift: u8,
    /// Shifts to bring the blue channel to the least significant bit.
    pub blue_shift: u8,
    /// First padding byte, kept bit-exact across a round trip.
    pub padding_1: u8,
    /// Second padding byte.
    pub padding_2: u8,
    /// Third padding byte.
    pub padding_3: u8,
}

/// A bits-per-pixel value the client accepts.
pub open spec fn valid_bits_per_pixel(b: u8) -> bool {
    b == 8 || b == 16 || b == 32
}

/// The 16 wire bytes of a pixel format.
pub open spec fn pixel_format_bytes(pf: PixelFormat) -> Seq<u8> {
    seq![
        pf.bits_per_pixel,
        pf.depth,
        pf.big_endian_flag,
        pf.true_color_flag,
        u16_hi(pf.red_max),
        u16_lo(pf.red_max),
        u16_hi(pf.green_max),
        u16_lo(pf.green_max),
        u16_hi(pf.blue_max),
        u16_lo(pf.blue_max),
        pf.red_shift,
        pf.green_shift,
        pf.blue_shift,
        pf.padding_1,
        pf.padding_2,
        pf.padding_3,
    ]
}

/// The pixel format 16 wire bytes describe.
pub open spec fn pixel_format_of_bytes(b: Seq<u8>) -> PixelFormat {
    PixelFormat {
        bits_per_pixel: b[0],
        depth: b[1],
        big_endian_flag: b[2],
        true_color_flag: b[3],
        red_max: be16_at(b, 4),
        green_max: be16_at(b, 6),
        blue_max: be16_at(b, 8),
        red_shift: b[10],
        green_shift: b[11],
        blue_shift: b[12],
        padding_1: b[13],
        padding_2: b[14],
        padding_3: b[15],
    }
}

impl PixelFormat {
    /// 32-bit true colour with the blue channel in the lowest byte:
    /// wire order blue, green, red, alpha on a little-endian format.
    pub fn bgra() -> (r: PixelFormat)
        ensures
            r == bgra_format(),
    {
        PixelFormat {
            bits_per_pixel: 32,
            depth: 24,
            big_endian_flag: 0,
            true_color_flag: 1,
            red_max: 255,
            green_max: 255,
            blue_max: 255,
            red_shift: 16,
            green_shift: 8,
            blue_shift: 0,
            padding_1: 0,
            padding_2: 0,
            padding_3: 0,
        }
    }

    /// 32-bit true colour with the red channel in the lowest byte:
    /// wire order red, green, blue, alpha on a little-endian format.
    pub fn rgba() -> (r: PixelFormat)
        ensures
            r == rgba_format(),
    {
        PixelFormat {
            bits_per_pixel: 32,
            depth: 24,
            big_endian_flag: 0,
            true_color_flag: 1,
            red_max: 255,
            green_max: 255,
            blue_max: 255,
            red_shift: 0,
            green_shift: 8,
            blue_shift: 16,
            padding_1: 0,
            padding_2: 0,
            padding_3: 0,
        }
    }

    /// Serialises this pixel format into its 16 wire bytes.
    pub fn to_bytes(&self) -> (r: Vec<u8>)
        ensures
            r@ == pixel_format_bytes(*self),
            r@.len() == 16,
    {
        let r = vec![
            self.bits_per_pixel,
            self.depth,
            self.big_endian_flag,
            self.true_color_flag,
            (self.red_max >> 8) as u8,
            self.red_max as u8,
            (self.green_max >> 8) as u8,
            self.green_max as u8,
            (self.blue_max >> 8) as u8,
            self.blue_max as u8,
            self.red_shift,
            self.green_shift,
            self.blue_shift,
            self.padding_1,
            self.padding_2,
            self.padding_3,
        ];
        assert(r@ =~= pixel_format_bytes(*self));
        r
    }

    /// Parses a pixel format from its 16 wire bytes. Fails with
    /// `WrongPixelFormat` when the input is not 16 bytes long or announces
    /// a bits-per-pixel other than 8, 16 or 32.
    pub fn from_bytes(b: &Vec<u8>) -> (r: Result<PixelFormat, VncError>)
        ensures
            (b@.len() == 16 && valid_bits_per_pixel(b@[0])) <==> r is Ok,
            r is Ok ==> r->Ok_0 == pixel_format_of_bytes(b@),
            r is Err ==> r->Err_0 is WrongPixelFormat,
    {
        if b.len() != 16 {
            return Err(VncError::WrongPixelFormat);
        }
        let bpp = b[0];
        if bpp != 8 && bpp != 16 && bpp != 32 {
            return Err(VncError::WrongPixelFormat);
        }
        Ok(
            PixelFormat {
                bits_per_pixel: bpp,
                depth: b[1],
                big_endian_flag: b[2],
                true_color_flag: b[3],
                red_max: read_u16_be(b, 4),
                green_max: read_u16_be(b, 6),
                blue_max: read_u16_be(b, 8),
                red_shift: b[10],
                green_shift: b[11],
                blue_shift: b[12],
                padding_1: b[13],
                padding_2: b[14],
                padding_3: b[15],
            },
        )
    }
}

/// The pixel format `PixelFormat::bgra` builds.
pub open spec fn bgra_format() -> PixelFormat {
    PixelFormat {
        bits_per_pixel: 32,
        depth: 24,
        big_endian_flag: 0,
        true_color_flag: 1,
        red_max: 255,
        green_max: 255,
        blue_max: 255,
        red_shift: 16,
        green_shift: 8,
        blue_shift: 0,
        padding_1: 0,
        padding_2: 0,
        padding_3: 0,
    }
}

/// The pixel format `PixelFormat::rgba` builds.
pub open spec fn rgba_format() -> PixelFormat {
    PixelFormat {
        bits_per_pixel: 32,
        depth: 24,
        big_endian_flag: 0,
        true_color_flag: 1,
        red_max: 255,
        green_max: 255,
        blue_max: 255,
        red_shift: 0,
        green_shift: 8,
        blue_shift: 16,
        padding_1: 0,
        padding_2: 0,
        padding_3: 0,
    }
}

impl Default for PixelFormat {
    /// The default format is the little-endian 32-bit blue/green/red/alpha
    /// layout.
    fn default() -> (r: PixelFormat)
        ensures
            r == bgra_format(),
    {
        PixelFormat::bgra()
    }
}

/// Round trip in both directions: the 16 wire bytes of a pixel format parse
/// back to the same structure, and parsing any 16 bytes and serialising the
/// result yields the same bytes.
pub proof fn lemma_pixel_format_round_trip(pf: PixelFormat, b: Seq<u8>)
    requires
        b.len() == 16,
    ensures
        pixel_format_of_bytes(pixel_format_bytes(pf)) == pf,
        pixel_format_bytes(pixel_format_of_bytes(b)) == b,
{
    lemma_be16_round_trip(pf.red_max, b[4], b[5]);
    lemma_be16_round_trip(pf.green_max, b[6], b[7]);
    lemma_be16_round_trip(pf.blue_max, b[8], b[9]);
    assert(pixel_format_of_bytes(pixel_format_bytes(pf)) == pf);
    assert(pixel_format_bytes(pixel_format_of_bytes(b)) =~= b);
}

} // verus!
