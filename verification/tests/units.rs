//! Unit tests for the wire primitives, the authentication path and the
//! decoders taken one at a time.

use vnc_rs::codec::cursor::decode_cursor;
use vnc_rs::codec::pixel::{alpha_shift, cursor_alpha_index, to_true_color, zrle_compression};
use vnc_rs::codec::raw::raw_payload_size;
use vnc_rs::codec::tight::{
    expand_copy, expand_fill, expand_gradient, expand_mono, expand_palette, parse_compact_len,
};
use vnc_rs::codec::zrle::{copy_indexed, parse_tile, read_run_length, TileError};
use vnc_rs::config::PixelFormat;
use vnc_rs::error::VncError;
use vnc_rs::event::{Rect, Screen, X11Event};
use vnc_rs::handshake::utf8_lossy;
use vnc_rs::messages::ClientMsg;
use vnc_rs::security::{auth_key, auth_response, SecurityType};
use vnc_rs::session::client_event_bytes;
use vnc_rs::zlib::{inflater_new, ZlibReader};
use vnc_rs::VncEncoding;
use vnc_rs::VncVersion;

#[test]
fn pixel_format_round_trip() {
    // Struct to bytes and back is the identity, padding included.
    let mut pf = PixelFormat::bgra();
    pf.padding_1 = 9;
    pf.big_endian_flag = 1;
    let bytes = pf.to_bytes();
    assert_eq!(bytes.len(), 16);
    let back = PixelFormat::from_bytes(&bytes).unwrap();
    assert_eq!(back, pf);

    // Bytes to struct and back is the identity too.
    let raw: Vec<u8> = vec![16, 15, 1, 1, 0, 31, 0, 63, 0, 31, 11, 5, 0, 1, 2, 3];
    let parsed = PixelFormat::from_bytes(&raw).unwrap();
    assert_eq!(parsed.to_bytes(), raw);
}

#[test]
fn pixel_format_rejects_odd_bpp() {
    let mut raw = PixelFormat::bgra().to_bytes();
    raw[0] = 24;
    assert!(matches!(
        PixelFormat::from_bytes(&raw),
        Err(VncError::WrongPixelFormat)
    ));
    assert!(matches!(
        PixelFormat::from_bytes(&vec![8u8; 15]),
        Err(VncError::WrongPixelFormat)
    ));
}

#[test]
fn version_order_and_banners() {
    assert_eq!(VncVersion::RFB33.min(VncVersion::RFB37), VncVersion::RFB33);
    assert_eq!(VncVersion::RFB37.min(VncVersion::RFB38), VncVersion::RFB37);
    assert_eq!(VncVersion::RFB38.min(VncVersion::RFB33), VncVersion::RFB33);
    assert_eq!(
        VncVersion::from_banner(&b"RFB 003.007\n".to_vec()),
        VncVersion::RFB37
    );
    assert_eq!(
        VncVersion::from_banner(&b"RFB 003.008\n".to_vec()),
        VncVersion::RFB38
    );
    // Unknown banners are interpreted as RFB 3.3.
    assert_eq!(
        VncVersion::from_banner(&b"RFB 003.005\n".to_vec()),
        VncVersion::RFB33
    );
    assert_eq!(VncVersion::from_banner(&b"nonsense".to_vec()), VncVersion::RFB33);
    assert_eq!(VncVersion::RFB38.to_banner(), b"RFB 003.008\n".to_vec());
}

#[test]
fn auth_key_is_bit_reversed_password() {
    // "pass" is 0x70 0x61 0x73 0x73, zero padded; each byte bit-reversed.
    let key = auth_key(&b"pass".to_vec());
    assert_eq!(key, vec![0x0E, 0x86, 0xCE, 0xCE, 0, 0, 0, 0]);
    // The empty password derives the all-zero key.
    assert_eq!(auth_key(&Vec::new()), vec![0u8; 8]);
    // Longer passwords are truncated to eight bytes.
    let key = auth_key(&b"password!".to_vec());
    assert_eq!(key.len(), 8);
    assert_eq!(key[0], 0x0E);
}

#[test]
fn des_response_matches_known_vector() {
    // The password whose bit-reversed key is 133457799BBCDFF1; encrypting
    // 0123456789ABCDEF under that key gives 85E813540F0AB405.
    let password = vec![0xC8, 0x2C, 0xEA, 0x9E, 0xD9, 0x3D, 0xFB, 0x8F];
    let block = [0x01, 0x23, 0x45, 0x67, 0x89, 0xAB, 0xCD, 0xEF];
    let mut challenge = Vec::new();
    challenge.extend_from_slice(&block);
    challenge.extend_from_slice(&block);
    let response = auth_response(&password, &challenge);
    let expected = [0x85, 0xE8, 0x13, 0x54, 0x0F, 0x0A, 0xB4, 0x05];
    assert_eq!(&response[0..8], &expected);
    assert_eq!(&response[8..16], &expected);
    // And it is never the challenge handed back unchanged.
    assert_ne!(response, challenge);
}

#[test]
fn zlib_reader_leftover_is_error() {
    // A reader whose input was fully consumed returns the inflater.
    let reader = ZlibReader::new(inflater_new(), Vec::new());
    assert!(reader.into_inner().is_ok());
    // Leftover input bytes are a fatal error.
    let reader = ZlibReader::new(inflater_new(), vec![1, 2, 3]);
    assert!(matches!(
        reader.into_inner(),
        Err(VncError::InvalidImageData)
    ));
}

#[test]
fn zlib_reader_inflates_exactly() {
    let payload = b"tile payload bytes".to_vec();
    let mut compressor = flate2::Compress::new(flate2::Compression::default(), true);
    let mut compressed: Vec<u8> = Vec::with_capacity(256);
    compressor
        .compress_vec(&payload, &mut compressed, flate2::FlushCompress::Sync)
        .unwrap();
    assert_ne!(compressed, payload);
    let mut reader = ZlibReader::new(inflater_new(), compressed);
    let inflated = reader.read_exact_vec(payload.len()).unwrap();
    assert_eq!(inflated, payload);
    assert!(reader.into_inner().is_ok());
}

#[test]
fn client_messages_serialise_exactly() {
    let mut expected = vec![1u8, 0, 0, 0];
    expected.extend_from_slice(&PixelFormat::bgra().to_bytes());
    assert_eq!(
        ClientMsg::SetPixelFormat(PixelFormat::bgra()).to_bytes(),
        expected
    );

    assert_eq!(
        ClientMsg::SetEncodings(vec![VncEncoding::Tight, VncEncoding::Raw]).to_bytes(),
        vec![2, 0, 0, 2, 0, 0, 0, 7, 0, 0, 0, 0],
    );

    assert_eq!(
        ClientMsg::FramebufferUpdateRequest(
            Rect {
                x: 1,
                y: 2,
                width: 3,
                height: 4
            },
            1
        )
        .to_bytes(),
        vec![3, 1, 0, 1, 0, 2, 0, 3, 0, 4],
    );

    assert_eq!(
        ClientMsg::KeyEvent(0x0000_FF0D, true).to_bytes(),
        vec![4, 1, 0, 0, 0, 0, 0xFF, 0x0D],
    );

    assert_eq!(
        ClientMsg::PointerEvent(300, 200, 1).to_bytes(),
        vec![5, 1, 0x01, 0x2C, 0, 200],
    );

    assert_eq!(
        ClientMsg::ClientCutText("hi".to_string()).to_bytes(),
        vec![6, 0, 0, 0, 0, 0, 0, 2, b'h', b'i'],
    );
}

#[test]
fn input_events_become_client_messages() {
    let screen = Screen {
        width: 7,
        height: 9,
    };
    let refresh = client_event_bytes(&X11Event::Refresh, screen).unwrap();
    assert_eq!(refresh, vec![3, 1, 0, 0, 0, 0, 0, 7, 0, 9]);
    let full = client_event_bytes(&X11Event::FullRefresh, screen).unwrap();
    assert_eq!(full, vec![3, 0, 0, 0, 0, 0, 0, 7, 0, 9]);
}

#[test]
fn security_type_bytes() {
    assert_eq!(SecurityType::try_from_u8(1).unwrap(), SecurityType::NoneAuth);
    assert_eq!(SecurityType::try_from_u8(2).unwrap(), SecurityType::VncAuth);
    assert_eq!(SecurityType::try_from_u8(2).unwrap().to_u8(), 2);
    assert!(matches!(
        SecurityType::try_from_u8(3),
        Err(VncError::InvalidSecurityType(3))
    ));
}

#[test]
fn compact_length_widths() {
    assert_eq!(parse_compact_len(&vec![0x7F], 0), Some((127, 1)));
    assert_eq!(parse_compact_len(&vec![0x90, 0x4A], 0), Some((16 + 74 * 128, 2)));
    assert_eq!(
        parse_compact_len(&vec![0x81, 0x81, 0x02], 0),
        Some((1 + 128 + 2 * 16384, 3))
    );
    // A continuation bit with nothing after it wants more bytes.
    assert_eq!(parse_compact_len(&vec![0x81], 0), None);
}

#[test]
fn run_lengths_accumulate() {
    assert_eq!(read_run_length(&vec![5], 0), Some((6, 1)));
    assert_eq!(read_run_length(&vec![255, 0], 0), Some((256, 2)));
    assert_eq!(read_run_length(&vec![255, 255, 4], 0), Some((515, 3)));
    assert_eq!(read_run_length(&vec![255], 0), None);
}

#[test]
fn tight_expansions() {
    let pf = PixelFormat::bgra();
    let a = alpha_shift(&pf).unwrap();
    assert_eq!(a, 24);

    assert_eq!(to_true_color(&pf, a, 0x11, 0x22, 0x33), vec![0x33, 0x22, 0x11, 0xFF]);

    assert_eq!(
        expand_fill(&pf, a, 1, 2, 3, 2),
        vec![3, 2, 1, 0xFF, 3, 2, 1, 0xFF]
    );

    let rgb = vec![10u8, 20, 30, 40, 50, 60];
    assert_eq!(
        expand_copy(&pf, a, &rgb, 2),
        vec![30, 20, 10, 0xFF, 60, 50, 40, 0xFF]
    );

    // Two-colour palette: three pixels across one row, indices 1,0,1.
    let palette = vec![1u8, 2, 3, 9, 8, 7];
    let bits = vec![0b1010_0000u8];
    assert_eq!(
        expand_mono(&pf, a, &bits, &palette, 3, 1),
        vec![7, 8, 9, 0xFF, 3, 2, 1, 0xFF, 7, 8, 9, 0xFF]
    );

    // Eight-bit palette: out-of-range indices are refused.
    let indices = vec![1u8, 0];
    assert_eq!(
        expand_palette(&pf, a, &indices, &palette, 2, 2).unwrap(),
        vec![7, 8, 9, 0xFF, 3, 2, 1, 0xFF]
    );
    assert!(matches!(
        expand_palette(&pf, a, &vec![2u8], &palette, 2, 1),
        Err(VncError::InvalidImageData)
    ));
}

#[test]
fn gradient_reconstructs_from_residuals() {
    let pf = PixelFormat::bgra();
    // A single pixel has all-zero predictors: the residual is the value.
    // The gradient filter leaves alpha clear.
    let image = expand_gradient(&pf, &vec![10u8, 20, 30], 1, 1);
    assert_eq!(image, vec![30, 20, 10, 0]);
    // Two pixels in a row: the second is predicted by the first.
    let image = expand_gradient(&pf, &vec![10u8, 20, 30, 1, 2, 3], 2, 1);
    assert_eq!(image, vec![30, 20, 10, 0, 33, 22, 11, 0]);
}

#[test]
fn cursor_alpha_table() {
    let pf = PixelFormat::bgra();
    assert_eq!(cursor_alpha_index(&pf), Some(3));
    let pixels = vec![0x11u8, 0x22, 0x33, 0x00, 0x44, 0x55, 0x66, 0x00];
    let mask = vec![0x80u8];
    assert_eq!(
        decode_cursor(&pixels, &mask, 2, 1, 3),
        vec![0x11, 0x22, 0x33, 0xFF, 0x44, 0x55, 0x66, 0x00]
    );
}

#[test]
fn zrle_compression_table() {
    // BGRA travels as three bytes with alpha restored at byte 0.
    assert_eq!(zrle_compression(&PixelFormat::bgra()), Some((3, true)));
    let mut pf = PixelFormat::bgra();
    pf.big_endian_flag = 1;
    assert_eq!(zrle_compression(&pf), Some((3, true)));
    pf = PixelFormat::bgra();
    pf.depth = 32;
    assert_eq!(zrle_compression(&pf), Some((4, false)));
    pf = PixelFormat::bgra();
    pf.bits_per_pixel = 16;
    assert_eq!(zrle_compression(&pf), Some((2, false)));
}

#[test]
fn zrle_tile_sub_encodings() {
    // Raw tile: two 3-byte compressed pixels, alpha at byte 0.
    let data = vec![0u8, 1, 2, 3, 4, 5, 6];
    let (px, end) = parse_tile(&data, 0, 2, 1, 4, 3, true).unwrap();
    assert_eq!(end, 7);
    assert_eq!(px, vec![255, 1, 2, 3, 255, 4, 5, 6]);

    // Solid tile.
    let data = vec![1u8, 9, 8, 7];
    let (px, end) = parse_tile(&data, 0, 2, 2, 4, 3, true).unwrap();
    assert_eq!(end, 4);
    assert_eq!(px.len(), 16);
    assert_eq!(&px[0..4], &[255, 9, 8, 7]);

    // Packed palette of two: one row of four pixels 1,0,0,1.
    let data = vec![2u8, 0xAA, 0xBB, 0xCC, 0x11, 0x22, 0x33, 0b1001_0000];
    let (px, end) = parse_tile(&data, 0, 4, 1, 4, 3, true).unwrap();
    assert_eq!(end, 8);
    assert_eq!(
        px,
        vec![
            255, 0x11, 0x22, 0x33, 255, 0xAA, 0xBB, 0xCC, 255, 0xAA, 0xBB, 0xCC, 255, 0x11, 0x22,
            0x33
        ]
    );

    // Plain run-length: one pixel covering the whole 2x2 tile (run 4).
    let data = vec![0x80u8, 5, 6, 7, 3];
    let (px, end) = parse_tile(&data, 0, 2, 2, 4, 3, true).unwrap();
    assert_eq!(end, 5);
    assert_eq!(px.len(), 16);
    assert_eq!(&px[12..16], &[255, 5, 6, 7]);

    // Palette run-length: index 1 twice (explicit run), then index 0 twice.
    let data = vec![
        0x82u8, 0xAA, 0xBB, 0xCC, 0x11, 0x22, 0x33, 0x81, 1, 0x80, 1,
    ];
    let (px, end) = parse_tile(&data, 0, 2, 2, 4, 3, true).unwrap();
    assert_eq!(end, 11);
    assert_eq!(&px[0..4], &[255, 0x11, 0x22, 0x33]);
    assert_eq!(&px[4..8], &[255, 0x11, 0x22, 0x33]);
    assert_eq!(&px[8..12], &[255, 0xAA, 0xBB, 0xCC]);
    assert_eq!(&px[12..16], &[255, 0xAA, 0xBB, 0xCC]);

    // A truncated tile wants more bytes; a bad sub-encoding is fatal.
    assert_eq!(parse_tile(&vec![0x80u8, 5], 0, 2, 2, 4, 3, true), Err(TileError::Short));
    assert_eq!(
        parse_tile(&vec![0x81u8, 1, 2, 3], 0, 2, 2, 4, 3, true),
        Err(TileError::Bad)
    );
}

#[test]
fn copy_indexed_appends_palette_entry() {
    let palette = vec![1u8, 2, 3, 4, 5, 6, 7, 8];
    let mut pixels = vec![0u8];
    copy_indexed(&palette, &mut pixels, 4, 1);
    assert_eq!(pixels, vec![0, 5, 6, 7, 8]);
}

#[test]
fn raw_payload_sizes() {
    let pf = PixelFormat::bgra();
    let rect = Rect {
        x: 0,
        y: 0,
        width: 3,
        height: 2,
    };
    assert_eq!(raw_payload_size(&pf, &rect), Some(24));
}

#[test]
fn lossy_text_decoding() {
    assert_eq!(utf8_lossy(&b"badpass".to_vec()), "badpass");
    // Invalid UTF-8 is replaced, not handed back unchanged.
    let decoded = utf8_lossy(&vec![0xFF, 0xFE]);
    assert_eq!(decoded, "\u{FFFD}\u{FFFD}");
}

#[test]
fn config_requires_an_encoding() {
    let config = vnc_rs::session::ClientConfig::new();
    assert!(matches!(config.validate(), Err(VncError::NoEncoding)));
    let mut config = vnc_rs::session::ClientConfig::new();
    config.add_encoding(VncEncoding::Raw);
    assert!(config.validate().is_ok());
}

#[test]
fn encoding_tags_round_trip() {
    let all = vec![
        VncEncoding::Raw,
        VncEncoding::CopyRect,
        VncEncoding::Tight,
        VncEncoding::Trle,
        VncEncoding::Zrle,
        VncEncoding::CursorPseudo,
        VncEncoding::DesktopSizePseudo,
        VncEncoding::LastRectPseudo,
    ];
    for e in all {
        assert_eq!(VncEncoding::from_tag(e.to_tag()), Some(e));
    }
    assert_eq!(VncEncoding::from_tag(2), None);
    assert_eq!(VncEncoding::CursorPseudo.to_tag(), (-239i32) as u32);
}
