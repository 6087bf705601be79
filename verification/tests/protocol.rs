//! End-to-end protocol scenarios: handshake transcripts and framebuffer
//! updates decoded through the session engine.

use vnc_rs::config::PixelFormat;
use vnc_rs::error::VncError;
use vnc_rs::event::{Rect, Screen, VncEvent};
use vnc_rs::handshake::Handshake;
use vnc_rs::session::{ClientConfig, Session};
use vnc_rs::VncEncoding;
use vnc_rs::VncVersion;

/// Drives a handshake against a canned server transcript. Returns the
/// finished machine, everything the client wrote, and how many server
/// bytes were consumed.
fn drive_handshake(
    server: &[u8],
    max: VncVersion,
    password: Option<Vec<u8>>,
) -> Result<(Handshake, Vec<u8>, usize), VncError> {
    let mut hs = Handshake::new(max);
    let mut written: Vec<u8> = Vec::new();
    let mut pos: usize = 0;
    loop {
        if hs.is_done() {
            return Ok((hs, written, pos));
        }
        let need = hs.needed();
        let out = if need == 0 {
            hs.input_credential(password.clone())?
        } else {
            assert!(pos + need <= server.len(), "transcript too short");
            let chunk = server[pos..pos + need].to_vec();
            pos += need;
            hs.input_bytes(chunk)?
        };
        written.extend_from_slice(&out.to_write);
        if out.done {
            return Ok((hs, written, pos));
        }
    }
}

fn server_init_bytes(w: u16, h: u16, pf: &PixelFormat, name: &str) -> Vec<u8> {
    let mut b = Vec::new();
    b.extend_from_slice(&w.to_be_bytes());
    b.extend_from_slice(&h.to_be_bytes());
    b.extend_from_slice(&pf.to_bytes());
    b.extend_from_slice(&(name.len() as u32).to_be_bytes());
    b.extend_from_slice(name.as_bytes());
    b
}

fn rect_header(x: u16, y: u16, w: u16, h: u16, tag: i32) -> Vec<u8> {
    let mut b = Vec::new();
    b.extend_from_slice(&x.to_be_bytes());
    b.extend_from_slice(&y.to_be_bytes());
    b.extend_from_slice(&w.to_be_bytes());
    b.extend_from_slice(&h.to_be_bytes());
    b.extend_from_slice(&tag.to_be_bytes());
    b
}

/// A session in the Ready phase with a fixed BGRA format and the given
/// screen, with the ServerInit exchange already replayed.
fn ready_session(w: u16, h: u16) -> Session {
    let mut config = ClientConfig::new();
    config.set_pixel_format(PixelFormat::bgra());
    config.add_encoding(VncEncoding::Tight);
    config.add_encoding(VncEncoding::Zrle);
    config.add_encoding(VncEncoding::Raw);
    config.validate().unwrap();
    let (mut session, to_write) = Session::new(config);
    assert_eq!(to_write, vec![1u8]);
    let out = session
        .feed(server_init_bytes(w, h, &PixelFormat::bgra(), "x"))
        .unwrap();
    assert_eq!(
        out.events,
        vec![VncEvent::SetResolution(Screen {
            width: w,
            height: h
        })]
    );
    assert!(!out.to_write.is_empty());
    session
}

#[test]
fn rfb38_none_auth_raw_bgra() {
    // Version banner, one security type (None), SecurityResult ok.
    let mut transcript = Vec::new();
    transcript.extend_from_slice(b"RFB 003.008\n");
    transcript.extend_from_slice(&[0x01, 0x01]);
    transcript.extend_from_slice(&[0, 0, 0, 0]);
    let (hs, written, used) = drive_handshake(&transcript, VncVersion::RFB38, None).unwrap();
    assert!(hs.is_done());
    assert_eq!(hs.version(), VncVersion::RFB38);
    assert_eq!(used, transcript.len());
    // The client wrote its banner and the chosen security type.
    assert_eq!(&written[0..12], b"RFB 003.008\n");
    assert_eq!(written[12], 1);

    let mut session = ready_session(2, 1);
    let mut update = vec![0u8, 0, 0, 1];
    update.extend_from_slice(&rect_header(0, 0, 2, 1, 0));
    update.extend_from_slice(&[0xFF, 0x00, 0x00, 0xFF, 0x00, 0xFF, 0x00, 0xFF]);
    let out = session.feed(update).unwrap();
    assert_eq!(
        out.events,
        vec![VncEvent::RawImage(
            Rect {
                x: 0,
                y: 0,
                width: 2,
                height: 1
            },
            vec![0xFF, 0x00, 0x00, 0xFF, 0x00, 0xFF, 0x00, 0xFF],
        )]
    );
}

#[test]
fn rfb33_vnc_auth_wrong_password() {
    let mut transcript = Vec::new();
    transcript.extend_from_slice(b"RFB 003.003\n");
    transcript.extend_from_slice(&[0, 0, 0, 2]); // security type VncAuth
    transcript.extend_from_slice(&[0u8; 16]); // challenge
    transcript.extend_from_slice(&[0, 0, 0, 1]); // SecurityResult: failed
    transcript.extend_from_slice(&[0, 0, 0, 7]); // reason length
    transcript.extend_from_slice(b"badpass");
    let err = drive_handshake(&transcript, VncVersion::RFB38, Some(b"wrong".to_vec()))
        .err()
        .expect("handshake must fail");
    match err {
        VncError::General(m) => assert_eq!(m, "badpass"),
        other => panic!("unexpected error {:?}", other),
    }
}

#[test]
fn copy_rect() {
    let mut session = ready_session(10, 10);
    let mut update = vec![0u8, 0, 0, 1];
    update.extend_from_slice(&rect_header(5, 5, 3, 3, 1));
    update.extend_from_slice(&[0, 0, 0, 0]); // src x=0, y=0
    let out = session.feed(update).unwrap();
    assert_eq!(
        out.events,
        vec![VncEvent::Copy(
            Rect {
                x: 5,
                y: 5,
                width: 3,
                height: 3
            },
            Rect {
                x: 0,
                y: 0,
                width: 3,
                height: 3
            },
        )]
    );
}

#[test]
fn tight_fill() {
    let mut session = ready_session(10, 10);
    let mut update = vec![0u8, 0, 0, 1];
    update.extend_from_slice(&rect_header(0, 0, 2, 2, 7));
    update.extend_from_slice(&[0x80, 0x11, 0x22, 0x33]);
    let out = session.feed(update).unwrap();
    let px = vec![0x33u8, 0x22, 0x11, 0xFF];
    let mut image = Vec::new();
    for _ in 0..4 {
        image.extend_from_slice(&px);
    }
    assert_eq!(
        out.events,
        vec![VncEvent::RawImage(
            Rect {
                x: 0,
                y: 0,
                width: 2,
                height: 2
            },
            image,
        )]
    );
}

#[test]
fn zrle_solid_tile() {
    let mut session = ready_session(64, 64);
    // One solid tile: control byte 1 (palette of one), palette pixel
    // bytes 00 00 FF. Compressed with a sync flush so the stream stays
    // open, as a live server keeps it.
    let tile = vec![0x01u8, 0x00, 0x00, 0xFF];
    let mut compressor = flate2::Compress::new(flate2::Compression::default(), true);
    let mut compressed: Vec<u8> = Vec::with_capacity(1024);
    compressor
        .compress_vec(&tile, &mut compressed, flate2::FlushCompress::Sync)
        .unwrap();
    assert!(!compressed.is_empty());
    let mut update = vec![0u8, 0, 0, 1];
    update.extend_from_slice(&rect_header(0, 0, 64, 64, 16));
    update.extend_from_slice(&(compressed.len() as u32).to_be_bytes());
    update.extend_from_slice(&compressed);
    let out = session.feed(update).unwrap();
    assert_eq!(out.events.len(), 1);
    match &out.events[0] {
        VncEvent::RawImage(rect, data) => {
            assert_eq!(
                *rect,
                Rect {
                    x: 0,
                    y: 0,
                    width: 64,
                    height: 64
                }
            );
            assert_eq!(data.len(), 64 * 64 * 4);
            for p in 0..64 * 64 {
                assert_eq!(&data[p * 4..p * 4 + 4], &[0xFF, 0x00, 0x00, 0xFF]);
            }
        }
        other => panic!("unexpected event {:?}", other),
    }
}

#[test]
fn cursor_mask_sets_alpha() {
    let mut session = ready_session(10, 10);
    let mut update = vec![0u8, 0, 0, 1];
    update.extend_from_slice(&rect_header(0, 0, 2, 1, -239));
    update.extend_from_slice(&[0x11, 0x22, 0x33, 0x00, 0x44, 0x55, 0x66, 0x00]);
    update.extend_from_slice(&[0x80]);
    let out = session.feed(update).unwrap();
    assert_eq!(
        out.events,
        vec![VncEvent::SetCursor(
            Rect {
                x: 0,
                y: 0,
                width: 2,
                height: 1
            },
            vec![0x11, 0x22, 0x33, 0xFF, 0x44, 0x55, 0x66, 0x00],
        )]
    );
}

#[test]
fn screen_dimensions_match_server_init() {
    // The resolution reported to the application equals the ServerInit one.
    let mut config = ClientConfig::new();
    config.set_pixel_format(PixelFormat::bgra());
    config.add_encoding(VncEncoding::Raw);
    let (mut session, _) = Session::new(config);
    let out = session
        .feed(server_init_bytes(800, 600, &PixelFormat::bgra(), "remote"))
        .unwrap();
    assert_eq!(
        out.events[0],
        VncEvent::SetResolution(Screen {
            width: 800,
            height: 600
        })
    );
    assert_eq!(
        session.screen(),
        Screen {
            width: 800,
            height: 600
        }
    );
}

#[test]
fn server_pixel_format_adopted_when_not_fixed() {
    let mut config = ClientConfig::new();
    config.add_encoding(VncEncoding::Raw);
    let (mut session, _) = Session::new(config);
    let out = session
        .feed(server_init_bytes(4, 4, &PixelFormat::rgba(), ""))
        .unwrap();
    assert_eq!(
        out.events,
        vec![
            VncEvent::SetResolution(Screen {
                width: 4,
                height: 4
            }),
            VncEvent::SetPixelFormat(PixelFormat::rgba()),
        ]
    );
    assert_eq!(session.pixel_format(), PixelFormat::rgba());
}

#[test]
fn bell_and_cut_text() {
    let mut session = ready_session(4, 4);
    let mut bytes = vec![2u8]; // Bell
    bytes.extend_from_slice(&[3, 0, 0, 0]); // ServerCutText
    bytes.extend_from_slice(&5u32.to_be_bytes());
    bytes.extend_from_slice(b"hello");
    let out = session.feed(bytes).unwrap();
    assert_eq!(
        out.events,
        vec![VncEvent::Bell, VncEvent::Text("hello".to_string())]
    );
}

#[test]
fn last_rect_ends_batch_early() {
    let mut session = ready_session(8, 8);
    // Two rectangles announced, but the first is LastRect: the batch ends,
    // and the next bytes are a fresh message (a Bell).
    let mut update = vec![0u8, 0, 0, 2];
    update.extend_from_slice(&rect_header(0, 0, 0, 0, -224));
    update.push(2u8);
    let out = session.feed(update).unwrap();
    assert_eq!(out.events, vec![VncEvent::Bell]);
}

#[test]
fn unknown_server_message_is_fatal() {
    let mut session = ready_session(4, 4);
    let err = session.feed(vec![9u8]).err().expect("must fail");
    assert!(matches!(err, VncError::WrongServerMessage));
}

#[test]
fn desktop_size_reports_resolution() {
    let mut session = ready_session(4, 4);
    let mut update = vec![0u8, 0, 0, 1];
    update.extend_from_slice(&rect_header(0, 0, 1024, 768, -223));
    let out = session.feed(update).unwrap();
    assert_eq!(
        out.events,
        vec![VncEvent::SetResolution(Screen {
            width: 1024,
            height: 768
        })]
    );
}

#[test]
fn rfb37_vnc_auth_failure_has_no_reason() {
    let mut transcript = Vec::new();
    transcript.extend_from_slice(b"RFB 003.007\n");
    transcript.extend_from_slice(&[1, 2]); // one security type: VncAuth
    transcript.extend_from_slice(&[7u8; 16]); // challenge
    transcript.extend_from_slice(&[0, 0, 0, 1]); // failed
    let err = drive_handshake(&transcript, VncVersion::RFB38, Some(b"pw".to_vec()))
        .err()
        .expect("handshake must fail");
    assert!(matches!(err, VncError::WrongPassword));
}

#[test]
fn vnc_auth_without_password_fails() {
    let mut transcript = Vec::new();
    transcript.extend_from_slice(b"RFB 003.008\n");
    transcript.extend_from_slice(&[1, 2]);
    let err = drive_handshake(&transcript, VncVersion::RFB38, None)
        .err()
        .expect("handshake must fail");
    assert!(matches!(err, VncError::NoPassword));
}

#[test]
fn unsupported_security_types_are_refused() {
    let mut transcript = Vec::new();
    transcript.extend_from_slice(b"RFB 003.008\n");
    transcript.extend_from_slice(&[2, 18, 19]); // TLS and VeNCrypt only
    let err = drive_handshake(&transcript, VncVersion::RFB38, None)
        .err()
        .expect("handshake must fail");
    match err {
        VncError::General(m) => assert!(m.contains("not been implemented")),
        other => panic!("unexpected error {:?}", other),
    }
}

#[test]
fn version_negotiation_clamps_to_client_max() {
    // The server offers 3.8 but the client is limited to 3.3.
    let mut transcript = Vec::new();
    transcript.extend_from_slice(b"RFB 003.008\n");
    transcript.extend_from_slice(&[0, 0, 0, 1]); // RFB 3.3 single type: None
    let (hs, written, _) = drive_handshake(&transcript, VncVersion::RFB33, None).unwrap();
    assert_eq!(hs.version(), VncVersion::RFB33);
    assert_eq!(&written[0..12], b"RFB 003.003\n");
}

#[test]
fn trle_solid_rectangle() {
    let mut session = ready_session(8, 8);
    // A TRLE rectangle is one tile, read straight from the stream.
    let mut update = vec![0u8, 0, 0, 1];
    update.extend_from_slice(&rect_header(2, 2, 3, 2, 15));
    update.extend_from_slice(&[0x01, 0x00, 0x00, 0xFF]); // solid blue
    let out = session.feed(update).unwrap();
    assert_eq!(out.events.len(), 1);
    match &out.events[0] {
        VncEvent::RawImage(rect, data) => {
            assert_eq!(
                *rect,
                Rect {
                    x: 2,
                    y: 2,
                    width: 3,
                    height: 2
                }
            );
            assert_eq!(data.len(), 3 * 2 * 4);
            assert_eq!(&data[0..4], &[0xFF, 0x00, 0x00, 0xFF]);
        }
        other => panic!("unexpected event {:?}", other),
    }
}

#[test]
fn tight_copy_filter_through_zlib() {
    let mut session = ready_session(4, 4);
    // 2x2 copy filter: 12 bytes of red/green/blue triples, compressed on
    // stream 0, with the reset bit for stream 0 set.
    let rgb: Vec<u8> = vec![1, 2, 3, 4, 5, 6, 7, 8, 9, 10, 11, 12];
    let mut compressor = flate2::Compress::new(flate2::Compression::default(), true);
    let mut compressed: Vec<u8> = Vec::with_capacity(256);
    compressor
        .compress_vec(&rgb, &mut compressed, flate2::FlushCompress::Sync)
        .unwrap();
    let mut update = vec![0u8, 0, 0, 1];
    update.extend_from_slice(&rect_header(0, 0, 2, 2, 7));
    update.push(0x01); // basic mode, stream 0, reset stream 0, no filter byte
    update.push(compressed.len() as u8); // compact length, one byte
    update.extend_from_slice(&compressed);
    let out = session.feed(update).unwrap();
    assert_eq!(
        out.events,
        vec![VncEvent::RawImage(
            Rect {
                x: 0,
                y: 0,
                width: 2,
                height: 2
            },
            vec![
                3, 2, 1, 0xFF, 6, 5, 4, 0xFF, 9, 8, 7, 0xFF, 12, 11, 10, 0xFF
            ],
        )]
    );
}

#[test]
fn tight_jpeg_is_handed_on() {
    let mut session = ready_session(4, 4);
    let blob: Vec<u8> = vec![0xDE, 0xAD, 0xBE, 0xEF];
    let mut update = vec![0u8, 0, 0, 1];
    update.extend_from_slice(&rect_header(0, 0, 4, 4, 7));
    update.push(0x90); // jpeg mode
    update.push(blob.len() as u8);
    update.extend_from_slice(&blob);
    let out = session.feed(update).unwrap();
    assert_eq!(
        out.events,
        vec![VncEvent::JpegImage(
            Rect {
                x: 0,
                y: 0,
                width: 4,
                height: 4
            },
            blob,
        )]
    );
}

#[test]
fn zrle_edge_tiles_are_clipped() {
    let mut session = ready_session(65, 1);
    // Two tiles: a 64x1 one and a clipped 1x1 one, both solid.
    let payload = vec![0x01u8, 0x00, 0x00, 0xFF, 0x01, 0xFF, 0x00, 0x00];
    let mut compressor = flate2::Compress::new(flate2::Compression::default(), true);
    let mut compressed: Vec<u8> = Vec::with_capacity(256);
    compressor
        .compress_vec(&payload, &mut compressed, flate2::FlushCompress::Sync)
        .unwrap();
    let mut update = vec![0u8, 0, 0, 1];
    update.extend_from_slice(&rect_header(0, 0, 65, 1, 16));
    update.extend_from_slice(&(compressed.len() as u32).to_be_bytes());
    update.extend_from_slice(&compressed);
    let out = session.feed(update).unwrap();
    assert_eq!(out.events.len(), 2);
    match (&out.events[0], &out.events[1]) {
        (VncEvent::RawImage(r0, d0), VncEvent::RawImage(r1, d1)) => {
            assert_eq!(
                *r0,
                Rect {
                    x: 0,
                    y: 0,
                    width: 64,
                    height: 1
                }
            );
            assert_eq!(
                *r1,
                Rect {
                    x: 64,
                    y: 0,
                    width: 1,
                    height: 1
                }
            );
            // The tile areas add up to the rectangle's area.
            assert_eq!(d0.len() / 4 + d1.len() / 4, 65);
            assert_eq!(&d1[0..4], &[0xFF, 0xFF, 0x00, 0x00]);
        }
        other => panic!("unexpected events {:?}", other),
    }
}

#[test]
fn partial_bytes_are_buffered() {
    let mut session = ready_session(2, 1);
    let mut update = vec![0u8, 0, 0, 1];
    update.extend_from_slice(&rect_header(0, 0, 2, 1, 0));
    update.extend_from_slice(&[0xFF, 0x00, 0x00, 0xFF, 0x00, 0xFF, 0x00, 0xFF]);
    // Feed one byte at a time: no event until the last byte arrives.
    for (i, byte) in update.iter().enumerate() {
        let out = session.feed(vec![*byte]).unwrap();
        if i + 1 < update.len() {
            assert!(out.events.is_empty());
        } else {
            assert_eq!(out.events.len(), 1);
        }
    }
}

#[test]
fn invalid_utf8_server_name_is_refused() {
    let mut config = ClientConfig::new();
    config.set_pixel_format(PixelFormat::bgra());
    config.add_encoding(VncEncoding::Raw);
    let (mut session, _) = Session::new(config);
    let mut init = Vec::new();
    init.extend_from_slice(&4u16.to_be_bytes());
    init.extend_from_slice(&4u16.to_be_bytes());
    init.extend_from_slice(&PixelFormat::bgra().to_bytes());
    init.extend_from_slice(&2u32.to_be_bytes());
    init.extend_from_slice(&[0xFF, 0xFE]); // not UTF-8
    let err = session.feed(init).err().expect("must fail");
    match err {
        VncError::General(m) => assert!(m.contains("UTF-8")),
        other => panic!("unexpected error {:?}", other),
    }
}

#[test]
fn zrle_big_endian_three_byte_pixels_lead_with_alpha() {
    // A big-endian 32-bit format whose colour channels sit in the low
    // bytes still travels as three bytes with the restored alpha first.
    let mut pf = PixelFormat::bgra();
    pf.big_endian_flag = 1;
    let mut config = ClientConfig::new();
    config.set_pixel_format(pf);
    config.add_encoding(VncEncoding::Zrle);
    let (mut session, _) = Session::new(config);
    session
        .feed(server_init_bytes(2, 1, &pf, ""))
        .unwrap();
    // One solid 2x1 tile: palette pixel bytes AA BB CC.
    let tile = vec![0x01u8, 0xAA, 0xBB, 0xCC];
    let mut compressor = flate2::Compress::new(flate2::Compression::default(), true);
    let mut compressed: Vec<u8> = Vec::with_capacity(64);
    compressor
        .compress_vec(&tile, &mut compressed, flate2::FlushCompress::Sync)
        .unwrap();
    let mut update = vec![0u8, 0, 0, 1];
    update.extend_from_slice(&rect_header(0, 0, 2, 1, 16));
    update.extend_from_slice(&(compressed.len() as u32).to_be_bytes());
    update.extend_from_slice(&compressed);
    let out = session.feed(update).unwrap();
    match &out.events[0] {
        VncEvent::RawImage(_, data) => {
            assert_eq!(&data[0..4], &[0xFF, 0xAA, 0xBB, 0xCC]);
        }
        other => panic!("unexpected event {:?}", other),
    }
}
