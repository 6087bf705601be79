//! The session engine: the reader side that turns server bytes into
//! events, and the writer side that turns application input into client
//! message bytes.
//!
//! The engine is driven with bytes, like the handshake: the application
//! appends whatever it read from the transport with [`Session::feed`] and
//! forwards the returned events; input events become wire bytes through
//! [`Session::client_event_bytes`]. The engine owns the persistent zlib
//! streams: four for Tight, one for ZRLE.

use vstd::prelude::*;
use crate::config::{PixelFormat, VncEncoding, VncVersion, valid_bits_per_pixel};
use crate::error::VncError;
use crate::event::{Rect, Screen, VncEvent, X11Event};
use crate::messages::{ClientMsg, client_msg_bytes, string_bytes};
use crate::wire::{be16_at, be32_at, read_u16_be, read_u32_be, sub_bytes};

verus! {

/// The protocol options an application picks before connecting: the best
/// version to offer, an optional fixed pixel format, the shared flag and
/// the encodings in priority order.
pub struct ClientConfig {
    /// The best version offered during the handshake.
    pub version: VncVersion,
    /// The pixel format to impose; the server's own format is adopted
    /// when none is set.
    pub pixel_format: Option<PixelFormat>,
    /// Whether the server should leave other clients connected.
    pub allow_shared: bool,
    /// The encodings the client accepts, in priority order.
    pub encodings: Vec<VncEncoding>,
}

impl ClientConfig {
    /// A configuration with the defaults: best version RFB 3.8, shared
    /// access, the server's pixel format, no encodings yet.
    pub fn new() -> (r: ClientConfig)
        ensures
            r.version == VncVersion::RFB38,
            r.pixel_format is None,
            r.allow_shared,
            r.encodings@.len() == 0,
    {
        ClientConfig {
            version: VncVersion::RFB38,
            pixel_format: None,
            allow_shared: true,
            encodings: Vec::new(),
        }
    }

    /// Clamps the best version offered.
    pub fn set_version(&mut self, version: VncVersion)
        ensures
            *final(self) == (ClientConfig { version, ..*old(self) }),
    {
        self.version = version;
    }

    /// Fixes the pixel format instead of adopting the server's.
    pub fn set_pixel_format(&mut self, pf: PixelFormat)
        ensures
            *final(self) == (ClientConfig { pixel_format: Some(pf), ..*old(self) }),
    {
        self.pixel_format = Some(pf);
    }

    /// Sets the shared flag.
    pub fn allow_shared(&mut self, allow_shared: bool)
        ensures
            *final(self) == (ClientConfig { allow_shared, ..*old(self) }),
    {
        self.allow_shared = allow_shared;
    }

    /// Appends an encoding to the priority-ordered list. The list is
    /// capped at the wire's 16-bit count; entries beyond it are ignored.
    pub fn add_encoding(&mut self, e: VncEncoding)
        ensures
            final(self).version == old(self).version,
            final(self).pixel_format == old(self).pixel_format,
            final(self).allow_shared == old(self).allow_shared,
            old(self).encodings@.len() < 0xffff ==> final(self).encodings@ == old(
                self,
            ).encodings@.push(e),
            old(self).encodings@.len() >= 0xffff ==> final(self).encodings@ == old(
                self,
            ).encodings@,
    {
        if self.encodings.len() < 0xffff {
            self.encodings.push(e);
        }
    }

    /// Checks the configuration: at least one encoding must be chosen.
    pub fn validate(&self) -> (r: Result<(), VncError>)
        ensures
            r is Ok <==> self.encodings@.len() > 0,
            r is Err ==> r->Err_0 is NoEncoding,
    {
        if self.encodings.len() == 0 {
            Err(VncError::NoEncoding)
        } else {
            Ok(())
        }
    }
}

/// What a server-init message announces: the framebuffer dimensions, the
/// server's pixel format bytes parsed, and the name length that follows.
pub open spec fn server_init_of(b: Seq<u8>) -> (u16, u16, PixelFormat, u32) {
    (be16_at(b, 0), be16_at(b, 2), crate::config::pixel_format_of_bytes(b.subrange(4, 20)), be32_at(
        b,
        20,
    ))
}

/// Parses the 24 fixed bytes of a ServerInit message: width, height, the
/// 16-byte pixel format and the name length. A pixel format with an
/// unusable bits-per-pixel is a `WrongPixelFormat` error.
pub fn parse_server_init(b: &Vec<u8>) -> (r: Result<(u16, u16, PixelFormat, u32), VncError>)
    requires
        b@.len() == 24,
    ensures
        r is Ok <==> valid_bits_per_pixel(b@[4]),
        r is Ok ==> r->Ok_0 == server_init_of(b@),
        r is Err ==> r->Err_0 is WrongPixelFormat,
{
    let w = read_u16_be(b, 0);
    let h = read_u16_be(b, 2);
    let pf_bytes = sub_bytes(b, 4, 20);
    let name_len = read_u32_be(b, 20);
    match PixelFormat::from_bytes(&pf_bytes) {
        Ok(pf) => Ok((w, h, pf, name_len)),
        Err(e) => Err(e),
    }
}

/// Serialises one application input event into the exact wire bytes of
/// the matching client message. Refresh requests cover the whole screen:
/// incremental for `Refresh`, full for `FullRefresh`. Clipboard text
/// longer than the wire's 32-bit length field is refused with a `General`
/// failure.
pub fn client_event_bytes(ev: &X11Event, screen: Screen) -> (r: Result<Vec<u8>, VncError>)
    ensures
        ev matches X11Event::Refresh ==> (r matches Ok(b) && b@ == client_msg_bytes(
            ClientMsg::FramebufferUpdateRequest(
                Rect { x: 0, y: 0, width: screen.width, height: screen.height },
                1,
            ),
        )),
        ev matches X11Event::FullRefresh ==> (r matches Ok(b) && b@ == client_msg_bytes(
            ClientMsg::FramebufferUpdateRequest(
                Rect { x: 0, y: 0, width: screen.width, height: screen.height },
                0,
            ),
        )),
        ev matches X11Event::KeyEvent(k) ==> (r matches Ok(b) && b@ == client_msg_bytes(
            ClientMsg::KeyEvent(k.keycode, k.down),
        )),
        ev matches X11Event::PointerEvent(m) ==> (r matches Ok(b) && b@ == client_msg_bytes(
            ClientMsg::PointerEvent(m.position_x, m.position_y, m.bottons),
        )),
        ev matches X11Event::CopyText(s) ==> (string_bytes(s@).len() <= u32::MAX <==> r is Ok),
        ev matches X11Event::CopyText(s) ==> (r matches Ok(b) ==> b@ == seq![6u8, 0, 0, 0]
            + crate::wire::u32_be_bytes(string_bytes(s@).len() as u32) + string_bytes(s@)),
{
    match ev {
        X11Event::Refresh => {
            let msg = ClientMsg::FramebufferUpdateRequest(
                Rect { x: 0, y: 0, width: screen.width, height: screen.height },
                1,
            );
            Ok(msg.to_bytes())
        },
        X11Event::FullRefresh => {
            let msg = ClientMsg::FramebufferUpdateRequest(
                Rect { x: 0, y: 0, width: screen.width, height: screen.height },
                0,
            );
            Ok(msg.to_bytes())
        },
        X11Event::KeyEvent(k) => {
            let msg = ClientMsg::KeyEvent(k.keycode, k.down);
            Ok(msg.to_bytes())
        },
        X11Event::PointerEvent(m) => {
            let msg = ClientMsg::PointerEvent(m.position_x, m.position_y, m.bottons);
            Ok(msg.to_bytes())
        },
        X11Event::CopyText(s) => {
            let bytes: Vec<u8> = s.as_str().as_bytes_vec();
            if bytes.len() > (u32::MAX as usize) {
                return Err(VncError::General(too_long_message()));
            }
            let msg = ClientMsg::ClientCutText(s.clone());
            Ok(msg.to_bytes())
        },
    }
}

/// Copies the encodings list; the copy's contents are exactly the
/// original's.
fn clone_encodings(v: &Vec<VncEncoding>) -> (r: Vec<VncEncoding>)
    ensures
        r@ == v@,
{
    let mut r: Vec<VncEncoding> = Vec::new();
    let n: usize = v.len();
    for i in 0..n
        invariant
            n == v@.len(),
            r@ == v@.subrange(0, i as int),
    {
        r.push(v[i]);
        proof {
            assert(r@ =~= v@.subrange(0, i + 1));
        }
    }
    proof {
        assert(v@.subrange(0, n as int) =~= v@);
    }
    r
}

/// The message text used when the server's name is not UTF-8.
pub open spec fn bad_name_msg() -> Seq<char> {
    "server name is not valid UTF-8"@
}

/// Builds the invalid-server-name error text.
fn bad_name_message() -> (r: String)
    ensures
        r@ == bad_name_msg(),
{
    let s: &str = "server name is not valid UTF-8";
    s.to_owned()
}

/// The message text used when clipboard text exceeds the wire limit.
pub open spec fn too_long_msg() -> Seq<char> {
    "clipboard text exceeds the wire length field"@
}

/// Builds the too-long clipboard error text.
fn too_long_message() -> (r: String)
    ensures
        r@ == too_long_msg(),
{
    let s: &str = "clipboard text exceeds the wire length field";
    s.to_owned()
}


/// Where the reader side of the session stands.
pub enum Phase {
    /// Waiting for the 24 fixed bytes of ServerInit.
    ServerInit,
    /// Waiting for the server's name string.
    ServerName(u32),
    /// Waiting for the next server message header.
    Ready,
    /// Inside a framebuffer update with this many rectangles left.
    Rects(u16),
}

/// The weight a phase adds to the feed loop's termination measure; the
/// transitions that consume no bytes strictly lower it.
pub open spec fn phase_weight(p: Phase) -> int {
    match p {
        Phase::ServerInit => 4,
        Phase::ServerName(_) => 3,
        Phase::Ready => 2,
        Phase::Rects(_) => 2,
    }
}

/// What one feed produced: events for the application and bytes to write
/// back to the server.
pub struct SessionOutput {
    /// Decoded events, in arrival order.
    pub events: Vec<VncEvent>,
    /// Bytes the session wants written to the transport.
    pub to_write: Vec<u8>,
}

/// The reader-side protocol engine. It owns the negotiated pixel format,
/// the screen geometry and the persistent zlib streams.
pub struct Session {
    pf: PixelFormat,
    pf_fixed: bool,
    encodings: Vec<VncEncoding>,
    screen: Screen,
    name: String,
    phase: Phase,
    pending: Vec<u8>,
    tight0: Option<flate2::Decompress>,
    tight1: Option<flate2::Decompress>,
    tight2: Option<flate2::Decompress>,
    tight3: Option<flate2::Decompress>,
    zrle: Option<flate2::Decompress>,
}

impl Session {
    /// The session's internal consistency: every persistent zlib stream is
    /// in place and the encodings list fits its wire count.
    pub closed spec fn wf(&self) -> bool {
        &&& self.tight0 is Some
        &&& self.tight1 is Some
        &&& self.tight2 is Some
        &&& self.tight3 is Some
        &&& self.zrle is Some
        &&& 1 <= self.encodings@.len() <= 0xffff
        &&& (self.phase matches Phase::Rects(n) ==> n >= 1)
    }

    /// The screen dimensions last announced by the server.
    pub closed spec fn spec_screen(&self) -> Screen {
        self.screen
    }

    /// The pixel format rectangles are decoded into.
    pub closed spec fn spec_pf(&self) -> PixelFormat {
        self.pf
    }

    /// Whether the application fixed the pixel format at build time.
    pub closed spec fn spec_pf_fixed(&self) -> bool {
        self.pf_fixed
    }

    /// The reader phase.
    pub closed spec fn spec_phase(&self) -> Phase {
        self.phase
    }

    /// The buffered, not yet consumed server bytes.
    pub closed spec fn spec_pending(&self) -> Seq<u8> {
        self.pending@
    }

    /// The server's name, as decoded from ServerInit.
    pub closed spec fn spec_name(&self) -> Seq<char> {
        self.name@
    }

    /// The configured encodings, as sent in SetEncodings.
    pub closed spec fn spec_encodings(&self) -> Vec<VncEncoding> {
        self.encodings
    }

    /// The four persistent Tight zlib streams.
    pub closed spec fn spec_tight_streams(&self) -> (
        Option<flate2::Decompress>,
        Option<flate2::Decompress>,
        Option<flate2::Decompress>,
        Option<flate2::Decompress>,
    ) {
        (self.tight0, self.tight1, self.tight2, self.tight3)
    }

    /// The persistent ZRLE zlib stream.
    pub closed spec fn spec_zrle_stream(&self) -> Option<flate2::Decompress> {
        self.zrle
    }

    /// The screen dimensions, for refresh requests.
    pub fn screen(&self) -> (r: Screen)
        ensures
            r == self.spec_screen(),
    {
        self.screen
    }

    /// The decoding pixel format.
    pub fn pixel_format(&self) -> (r: PixelFormat)
        ensures
            r == self.spec_pf(),
    {
        self.pf
    }

    /// Builds a session from a validated configuration, right after the
    /// handshake. The returned bytes are the ClientInit message: the
    /// one-byte shared flag.
    pub fn new(config: ClientConfig) -> (r: (Session, Vec<u8>))
        requires
            1 <= config.encodings@.len() <= 0xffff,
        ensures
            r.0.wf(),
            r.0.spec_phase() is ServerInit,
            r.0.spec_screen() == (Screen { width: 0, height: 0 }),
            r.1@ == seq![
                if config.allow_shared {
                    1u8
                } else {
                    0u8
                },
            ],
    {
        let pf_fixed = config.pixel_format.is_some();
        let pf = match config.pixel_format {
            Some(p) => p,
            None => PixelFormat::bgra(),
        };
        let shared_byte: u8 = if config.allow_shared {
            1
        } else {
            0
        };
        let to_write: Vec<u8> = vec![shared_byte];
        proof {
            assert(to_write@ =~= seq![shared_byte]);
        }
        let session = Session {
            pf,
            pf_fixed,
            encodings: config.encodings,
            screen: Screen { width: 0, height: 0 },
            name: String::new(),
            phase: Phase::ServerInit,
            pending: Vec::new(),
            tight0: Some(crate::zlib::inflater_new()),
            tight1: Some(crate::zlib::inflater_new()),
            tight2: Some(crate::zlib::inflater_new()),
            tight3: Some(crate::zlib::inflater_new()),
            zrle: Some(crate::zlib::inflater_new()),
        };
        (session, to_write)
    }

    /// Applies the 24 fixed ServerInit bytes: adopts the announced screen
    /// dimensions — the resolution reported to the application is exactly
    /// the one in ServerInit — and either keeps the fixed pixel format or
    /// adopts the server's, reporting it.
    pub fn apply_server_init(&mut self, b: &Vec<u8>, events: &mut Vec<VncEvent>) -> (r: Result<
        u32,
        VncError,
    >)
        requires
            b@.len() == 24,
            old(self).wf(),
        ensures
            final(self).wf(),
            final(self).spec_pending() == old(self).spec_pending(),
            final(self).spec_phase() == old(self).spec_phase(),
            final(self).spec_name() == old(self).spec_name(),
            session_config_eq(*final(self), *old(self)),
            streams_eq(*final(self), *old(self)),
            r is Err ==> *final(self) == *old(self) && final(events)@ == old(events)@,
            r is Ok <==> valid_bits_per_pixel(b@[4]),
            r is Ok ==> {
                let (w, h, pf, nlen) = server_init_of(b@);
                &&& final(self).spec_screen() == (Screen { width: w, height: h })
                &&& final(events)@ == if old(self).spec_pf_fixed() {
                    old(events)@.push(VncEvent::SetResolution(Screen { width: w, height: h }))
                } else {
                    old(events)@.push(
                        VncEvent::SetResolution(Screen { width: w, height: h }),
                    ).push(VncEvent::SetPixelFormat(pf))
                }
                &&& !old(self).spec_pf_fixed() ==> final(self).spec_pf() == pf
                &&& old(self).spec_pf_fixed() ==> final(self).spec_pf() == old(self).spec_pf()
                &&& r->Ok_0 == nlen
            },
            r is Err ==> r->Err_0 is WrongPixelFormat,
    {
        let (w, h, server_pf, name_len) = match parse_server_init(b) {
            Ok(v) => v,
            Err(e) => {
                return Err(e);
            },
        };
        self.screen = Screen { width: w, height: h };
        events.push(VncEvent::SetResolution(Screen { width: w, height: h }));
        if !self.pf_fixed {
            self.pf = server_pf;
            events.push(VncEvent::SetPixelFormat(server_pf));
        }
        Ok(name_len)
    }

    /// Feeds transport bytes to the engine and drains every complete
    /// message: the returned events are in arrival order, and the returned
    /// bytes must be written to the server. The contract chains
    /// [`step_progress`] over the fed state until [`step_stall`] holds, or
    /// until a step fails with exactly the error of [`step_fail`].
    #[verifier::rlimit(100)]
    #[verifier::spinoff_prover]
    pub fn feed(&mut self, chunk: Vec<u8>) -> (r: Result<SessionOutput, VncError>)
        requires
            old(self).wf(),
        ensures
            r is Ok ==> final(self).wf(),
            r matches Ok(out) ==> feed_ok_post(
                *old(self),
                *final(self),
                chunk@,
                out.events@,
                out.to_write@,
            ),
            r matches Err(e) ==> feed_err_post(*old(self), chunk@, e),
    {
        let mut chunk_v = chunk;
        self.pending.append(&mut chunk_v);
        let ghost s0 = *self;
        let ghost mut steps: nat = 0nat;
        let mut events: Vec<VncEvent> = Vec::new();
        let mut to_write: Vec<u8> = Vec::new();
        proof {
            assert(appended_state(*old(self), s0, chunk@));
            assert(feed_chain(s0, *self, Seq::empty(), events@, Seq::empty(), to_write@, 0nat));
        }
        loop
            invariant
                self.wf(),
                appended_state(*old(self), s0, chunk@),
                feed_chain(s0, *self, Seq::empty(), events@, Seq::empty(), to_write@, steps),
            decreases 2 * self.spec_pending().len() + phase_weight(self.spec_phase()),
        {
            let ghost pre_step = *self;
            let ghost ev_pre = events@;
            let ghost wr_pre = to_write@;
            let progressed = match self.step(&mut events, &mut to_write) {
                Ok(p) => p,
                Err(e) => {
                    proof {
                        assert(feed_chain(
                            s0,
                            pre_step,
                            Seq::empty(),
                            ev_pre,
                            Seq::empty(),
                            wr_pre,
                            steps,
                        ));
                        assert(step_fail(pre_step, e));
                        assert(feed_err_post(*old(self), chunk@, e));
                    }
                    return Err(e);
                },
            };
            if !progressed {
                let out = SessionOutput { events, to_write };
                proof {
                    assert(step_stall(*self));
                    assert(feed_chain(
                        s0,
                        *self,
                        Seq::empty(),
                        out.events@,
                        Seq::empty(),
                        out.to_write@,
                        steps,
                    ));
                    assert(feed_ok_post(*old(self), *self, chunk@, out.events@, out.to_write@));
                }
                return Ok(out);
            }
            proof {
                assert(step_progress(pre_step, *self, ev_pre, events@, wr_pre, to_write@));
                assert(feed_chain(
                    s0,
                    *self,
                    Seq::empty(),
                    events@,
                    Seq::empty(),
                    to_write@,
                    steps + 1,
                ));
                steps = steps + 1;
            }
        }
    }

    /// Takes the Tight zlib stream with the given id out of the session.
    fn take_tight(&mut self, id: u8) -> (r: flate2::Decompress)
        requires
            old(self).wf(),
        ensures
            final(self).spec_pending() == old(self).spec_pending(),
            final(self).spec_phase() == old(self).spec_phase(),
            final(self).spec_screen() == old(self).spec_screen(),
            final(self).spec_pf() == old(self).spec_pf(),
            final(self).spec_name() == old(self).spec_name(),
            final(self).spec_pf_fixed() == old(self).spec_pf_fixed(),
            final(self).zrle == old(self).zrle,
            final(self).encodings == old(self).encodings,
            (id & 3) == 0 ==> final(self).tight1 == old(self).tight1 && final(self).tight2 == old(
                self,
            ).tight2 && final(self).tight3 == old(self).tight3,
            (id & 3) == 1 ==> final(self).tight0 == old(self).tight0 && final(self).tight2 == old(
                self,
            ).tight2 && final(self).tight3 == old(self).tight3,
            (id & 3) == 2 ==> final(self).tight0 == old(self).tight0 && final(self).tight1 == old(
                self,
            ).tight1 && final(self).tight3 == old(self).tight3,
            (id & 3) == 3 ==> final(self).tight0 == old(self).tight0 && final(self).tight1 == old(
                self,
            ).tight1 && final(self).tight2 == old(self).tight2,
    {
        proof {
            assert(id & 3 < 4) by (bit_vector);
        }
        let taken = match id & 3 {
            0 => self.tight0.take(),
            1 => self.tight1.take(),
            2 => self.tight2.take(),
            _ => self.tight3.take(),
        };
        match taken {
            Some(d) => d,
            None => crate::zlib::inflater_new(),
        }
    }

    /// Puts a Tight zlib stream back.
    fn put_tight(&mut self, id: u8, d: flate2::Decompress)
        ensures
            final(self).spec_pending() == old(self).spec_pending(),
            final(self).spec_phase() == old(self).spec_phase(),
            final(self).spec_screen() == old(self).spec_screen(),
            final(self).spec_pf() == old(self).spec_pf(),
            final(self).spec_name() == old(self).spec_name(),
            final(self).spec_pf_fixed() == old(self).spec_pf_fixed(),
            final(self).zrle == old(self).zrle,
            final(self).encodings == old(self).encodings,
            (id & 3) == 0 ==> final(self).tight0 is Some && final(self).tight1 == old(self).tight1
                && final(self).tight2 == old(self).tight2 && final(self).tight3 == old(
                self,
            ).tight3,
            (id & 3) == 1 ==> final(self).tight1 is Some && final(self).tight0 == old(self).tight0
                && final(self).tight2 == old(self).tight2 && final(self).tight3 == old(
                self,
            ).tight3,
            (id & 3) == 2 ==> final(self).tight2 is Some && final(self).tight0 == old(self).tight0
                && final(self).tight1 == old(self).tight1 && final(self).tight3 == old(
                self,
            ).tight3,
            (id & 3) == 3 ==> final(self).tight3 is Some && final(self).tight0 == old(self).tight0
                && final(self).tight1 == old(self).tight1 && final(self).tight2 == old(
                self,
            ).tight2,
    {
        proof {
            assert(id & 3 < 4) by (bit_vector);
        }
        match id & 3 {
            0 => {
                self.tight0 = Some(d);
            },
            1 => {
                self.tight1 = Some(d);
            },
            2 => {
                self.tight2 = Some(d);
            },
            _ => {
                self.tight3 = Some(d);
            },
        }
    }

    /// Tries to process one protocol element from the buffered bytes.
    /// True means progress was made; false asks for more bytes.
    fn step(&mut self, events: &mut Vec<VncEvent>, to_write: &mut Vec<u8>) -> (r: Result<
        bool,
        VncError,
    >)
        requires
            old(self).wf(),
        ensures
            r is Ok ==> final(self).wf(),
            r is Ok ==> final(self).spec_pending().len() <= old(self).spec_pending().len(),
            r matches Ok(p) && p ==> 2 * final(self).spec_pending().len() + phase_weight(
                final(self).spec_phase(),
            ) < 2 * old(self).spec_pending().len() + phase_weight(old(self).spec_phase()),
            r matches Ok(p) && p ==> step_progress(
                *old(self),
                *final(self),
                old(events)@,
                final(events)@,
                old(to_write)@,
                final(to_write)@,
            ),
            r matches Ok(p) && !p ==> *final(self) == *old(self) && final(events)@ == old(events)@
                && final(to_write)@ == old(to_write)@ && step_stall(*old(self)),
            r matches Err(e) ==> step_fail(*old(self), e) && final(events)@ == old(events)@
                && final(to_write)@ == old(to_write)@ && session_obs_eq(
                *final(self),
                *old(self),
            ),
    {
        proof {
            reveal(step_progress);
            reveal(step_stall);
            reveal(step_fail);
        }
        let pl: usize = self.pending.len();
        match &self.phase {
            Phase::ServerInit => {
                if pl < 24 {
                    return Ok(false);
                }
                let head = sub_bytes(&self.pending, 0, 24);
                let name_len = match self.apply_server_init(&head, events) {
                    Ok(v) => v,
                    Err(e) => {
                        return Err(e);
                    },
                };
                self.consume(24);
                self.phase = Phase::ServerName(name_len);
                proof {
                    let b = old(self).spec_pending();
                    assert(self.spec_pending() =~= b.skip(24));
                }
                Ok(true)
            },
            Phase::ServerName(len) => {
                let need64: u64 = *len as u64;
                if (pl as u64) < need64 {
                    return Ok(false);
                }
                let need: usize = need64 as usize;
                let name_bytes = sub_bytes(&self.pending, 0, need);
                self.name = match crate::handshake::utf8_strict(&name_bytes) {
                    Some(n) => n,
                    None => {
                        return Err(VncError::General(bad_name_message()));
                    },
                };
                if self.pf_fixed {
                    let msg = ClientMsg::SetPixelFormat(self.pf);
                    let mut mb = msg.to_bytes();
                    to_write.append(&mut mb);
                }
                let encs = clone_encodings(&self.encodings);
                let msg = ClientMsg::SetEncodings(encs);
                let mut mb = msg.to_bytes();
                to_write.append(&mut mb);
                let fbu = ClientMsg::FramebufferUpdateRequest(
                    Rect {
                        x: 0,
                        y: 0,
                        width: self.screen.width,
                        height: self.screen.height,
                    },
                    0,
                );
                let mut fb = fbu.to_bytes();
                to_write.append(&mut fb);
                self.consume(need);
                self.phase = Phase::Ready;
                proof {
                    let b = old(self).spec_pending();
                    assert(self.spec_pending() =~= b.skip(need as int));
                    assert(to_write@ =~= old(to_write)@ + init_write_bytes(*old(self)));
                }
                Ok(true)
            },
            Phase::Ready => {
                if pl < 1 {
                    return Ok(false);
                }
                let b0 = self.pending[0];
                if b0 == 0 {
                    if pl < 4 {
                        return Ok(false);
                    }
                    let count = read_u16_be(&self.pending, 2);
                    self.consume(4);
                    if count > 0 {
                        self.phase = Phase::Rects(count);
                    }
                    proof {
                        assert(self.spec_pending() =~= old(self).spec_pending().skip(4));
                    }
                    Ok(true)
                } else if b0 == 2 {
                    self.consume(1);
                    events.push(VncEvent::Bell);
                    proof {
                        assert(self.spec_pending() =~= old(self).spec_pending().skip(1));
                    }
                    Ok(true)
                } else if b0 == 3 {
                    if pl < 8 {
                        return Ok(false);
                    }
                    let len = read_u32_be(&self.pending, 4);
                    let need64: u64 = 8 + (len as u64);
                    if (pl as u64) < need64 {
                        return Ok(false);
                    }
                    let need: usize = need64 as usize;
                    let text_bytes = sub_bytes(&self.pending, 8, need);
                    let text = crate::handshake::utf8_lossy(&text_bytes);
                    self.consume(need);
                    events.push(VncEvent::Text(text));
                    proof {
                        assert(self.spec_pending() =~= old(self).spec_pending().skip(
                            need as int,
                        ));
                        assert(events@.subrange(0, old(events)@.len() as int) =~= old(events)@);
                    }
                    Ok(true)
                } else {
                    Err(VncError::WrongServerMessage)
                }
            },
            Phase::Rects(remaining) => {
                let remaining: u16 = *remaining;
                if pl < 12 {
                    return Ok(false);
                }
                let x = read_u16_be(&self.pending, 0);
                let y = read_u16_be(&self.pending, 2);
                let w = read_u16_be(&self.pending, 4);
                let h = read_u16_be(&self.pending, 6);
                let tag = read_u32_be(&self.pending, 8);
                let rect = Rect { x, y, width: w, height: h };
                let encoding = match VncEncoding::from_tag(tag) {
                    Some(e) => e,
                    None => {
                        return Err(VncError::WrongServerMessage);
                    },
                };
                let mut last_rect = false;
                let total: usize = match encoding {
                    VncEncoding::Raw => {
                        let size = match crate::codec::raw::raw_payload_size(&self.pf, &rect) {
                            Some(sz) => sz,
                            None => {
                                return Err(VncError::InvalidImageData);
                            },
                        };
                        proof {
                            assert(crate::codec::raw::raw_payload_len(self.pf, rect) < 0x10000
                                * 0x10000 * 0x100) by (nonlinear_arith)
                                requires
                                    0 <= rect.width < 0x10000,
                                    0 <= rect.height < 0x10000,
                                    0 <= (self.pf.bits_per_pixel as int) / 8 < 0x100,
                            ;
                        }
                        let need64: u64 = 12 + (size as u64);
                        if (pl as u64) < need64 {
                            return Ok(false);
                        }
                        let payload = sub_bytes(&self.pending, 12, 12 + size);
                        events.push(crate::codec::raw::decode_raw(&rect, payload));
                        proof {
                            assert(events@.subrange(0, old(events)@.len() as int) =~= old(
                                events,
                            )@);
                        }
                        12 + size
                    },
                    VncEncoding::CopyRect => {
                        if pl < 16 {
                            return Ok(false);
                        }
                        let sx = read_u16_be(&self.pending, 12);
                        let sy = read_u16_be(&self.pending, 14);
                        let src = Rect { x: sx, y: sy, width: w, height: h };
                        events.push(VncEvent::Copy(rect, src));
                        16
                    },
                    VncEncoding::Tight => {
                        match self.tight_rect(rect, events) {
                            Ok(Some(t)) => t,
                            Ok(None) => {
                                return Ok(false);
                            },
                            Err(e) => {
                                return Err(e);
                            },
                        }
                    },
                    VncEncoding::Trle => {
                        match self.trle_rect(rect, events) {
                            Ok(Some(t)) => t,
                            Ok(None) => {
                                return Ok(false);
                            },
                            Err(e) => {
                                return Err(e);
                            },
                        }
                    },
                    VncEncoding::Zrle => {
                        match self.zrle_rect(rect, events) {
                            Ok(Some(t)) => t,
                            Ok(None) => {
                                return Ok(false);
                            },
                            Err(e) => {
                                return Err(e);
                            },
                        }
                    },
                    VncEncoding::CursorPseudo => {
                        match self.cursor_rect(rect, events) {
                            Ok(Some(t)) => t,
                            Ok(None) => {
                                return Ok(false);
                            },
                            Err(e) => {
                                return Err(e);
                            },
                        }
                    },
                    VncEncoding::DesktopSizePseudo => {
                        events.push(VncEvent::SetResolution(Screen { width: w, height: h }));
                        12
                    },
                    VncEncoding::LastRectPseudo => {
                        last_rect = true;
                        12
                    },
                };
                proof {
                    assert(total <= self.spec_pending().len());
                }
                self.consume(total);
                if last_rect || remaining <= 1 {
                    self.phase = Phase::Ready;
                } else {
                    self.phase = Phase::Rects((remaining - 1) as u16);
                }
                proof {
                    assert(self.spec_pending() =~= old(self).spec_pending().skip(total as int));
                }
                Ok(true)
            },
        }
    }

    /// Decodes one TRLE rectangle: the rectangle itself is a single tile
    /// read straight from the buffered bytes.
    fn trle_rect(&mut self, rect: Rect, events: &mut Vec<VncEvent>) -> (r: Result<
        Option<usize>,
        VncError,
    >)
        requires
            old(self).wf(),
            old(self).spec_pending().len() >= 12,
        ensures
            *final(self) == *old(self),
            r matches Ok(Some(t)) ==> 12 <= t <= final(self).spec_pending().len(),
            r matches Ok(Some(t)) ==> {
                let b = old(self).spec_pending();
                let w = rect.width as int;
                let h = rect.height as int;
                if w == 0 || h == 0 {
                    t == 12 && final(events)@ == old(events)@
                } else {
                    let bpp = (old(self).spec_pf().bits_per_pixel as int) / 8;
                    &&& (crate::codec::pixel::zrle_compression_of(old(self).spec_pf()) matches
                        Some((cbpp, pad)) && (crate::codec::zrle::tile_at(
                        b,
                        12,
                        w,
                        h,
                        bpp,
                        cbpp,
                        pad,
                    ) matches Some(v) && {
                        &&& pushed_raw_image(old(events)@, final(events)@, rect, v.0)
                        &&& t == v.1
                    }))
                }
            },
            r matches Ok(None) ==> final(events)@ == old(events)@ && {
                let b = old(self).spec_pending();
                let w = rect.width as int;
                let h = rect.height as int;
                &&& !(w == 0 || h == 0)
                &&& b.len() <= crate::codec::zrle::MAX_TILE_DATA
                &&& {
                    let bpp = (old(self).spec_pf().bits_per_pixel as int) / 8;
                    crate::codec::pixel::zrle_compression_of(old(self).spec_pf()) matches Some(
                        (cbpp, pad),
                    ) && crate::codec::zrle::tile_at(b, 12, w, h, bpp, cbpp, pad) is None
                }
            },
            r matches Err(e) ==> e is InvalidImageData && final(events)@ == old(events)@,
    {
        let w = rect.width;
        let h = rect.height;
        if w == 0 || h == 0 {
            return Ok(Some(12));
        }
        if self.pending.len() > crate::codec::zrle::MAX_TILE_DATA {
            return Err(VncError::InvalidImageData);
        }
        let (cbpp, pad) = match crate::codec::pixel::zrle_compression(&self.pf) {
            Some(v) => v,
            None => {
                return Err(VncError::InvalidImageData);
            },
        };
        let bppb: usize = (self.pf.bits_per_pixel / 8) as usize;
        proof {
            zrle_compression_facts(self.pf, cbpp as int, pad);
        }
        proof {
            assert((w as u64) * (h as u64) < 0x10000 * 0x10000 && (w as u64) * (h as u64) * (bppb
                as u64) < 0x10000 * 0x10000 * 8) by (nonlinear_arith)
                requires
                    0 <= (w as u64) < 0x10000,
                    0 <= (h as u64) < 0x10000,
                    0 <= (bppb as u64) <= 4,
            ;
        }
        let area64: u64 = (w as u64) * (h as u64) * (bppb as u64);
        if area64 > (usize::MAX as u64) {
            return Err(VncError::InvalidImageData);
        }
        match crate::codec::zrle::parse_tile(
            &self.pending,
            12,
            w as usize,
            h as usize,
            bppb,
            cbpp,
            pad,
        ) {
            Ok((px, end)) => {
                events.push(VncEvent::RawImage(rect, px));
                proof {
                    assert(events@.subrange(0, old(events)@.len() as int) =~= old(events)@);
                }
                Ok(Some(end))
            },
            Err(crate::codec::zrle::TileError::Short) => Ok(None),
            Err(crate::codec::zrle::TileError::Bad) => Err(VncError::InvalidImageData),
        }
    }

    /// Decodes one ZRLE rectangle: the 32-bit framed payload runs through
    /// the persistent zlib stream and must be consumed exactly.
    fn zrle_rect(&mut self, rect: Rect, events: &mut Vec<VncEvent>) -> (r: Result<
        Option<usize>,
        VncError,
    >)
        requires
            old(self).wf(),
            old(self).spec_pending().len() >= 12,
        ensures
            final(self).wf(),
            session_obs_eq(*final(self), *old(self)),
            tight_streams_eq(*final(self), *old(self)),
            r matches Ok(Some(t)) ==> 12 <= t <= final(self).spec_pending().len(),
            r matches Ok(Some(t)) ==> {
                let b = old(self).spec_pending();
                let w = rect.width as int;
                let h = rect.height as int;
                let len = be32_at(b, 12) as int;
                &&& b.len() >= 16
                &&& b.len() >= 16 + len
                &&& t == 16 + len
                &&& if w == 0 || h == 0 {
                    len == 0 && final(events)@ == old(events)@
                } else {
                    let bpp = (old(self).spec_pf().bits_per_pixel as int) / 8;
                    &&& (crate::codec::pixel::zrle_compression_of(old(self).spec_pf()) matches
                        Some((cbpp, pad)) && zrle_events_ok(
                        rect,
                        bpp,
                        cbpp,
                        pad,
                        old(events)@,
                        final(events)@,
                    ))
                    &&& rect.x as int + w <= 0x10000
                    &&& rect.y as int + h <= 0x10000
                }
            },
            r matches Ok(None) ==> final(events)@ == old(events)@ && *final(self) == *old(self)
                && {
                let b = old(self).spec_pending();
                b.len() < 16 || b.len() < 16 + be32_at(b, 12) as int
            },
            r matches Err(e) ==> e is InvalidImageData && final(events)@ == old(events)@,
    {
        let pl: usize = self.pending.len();
        let w = rect.width;
        let h = rect.height;
        if pl < 16 {
            return Ok(None);
        }
        let len = read_u32_be(&self.pending, 12);
        let need64: u64 = 16 + (len as u64);
        if (pl as u64) < need64 {
            return Ok(None);
        }
        let need: usize = need64 as usize;
        let data = sub_bytes(&self.pending, 16, need);
        let inflater = match self.zrle.take() {
            Some(d) => d,
            None => crate::zlib::inflater_new(),
        };
        if w == 0 || h == 0 {
            let ghost dlen = data@.len();
            let reader = crate::zlib::ZlibReader::new(inflater, data);
            match reader.into_inner() {
                Ok(d) => {
                    proof {
                        assert(dlen == 0);
                    }
                    self.zrle = Some(d);
                    Ok(Some(need))
                },
                Err(e) => {
                    self.zrle = Some(crate::zlib::inflater_new());
                    Err(e)
                },
            }
        } else {
            let (cbpp, pad) = match crate::codec::pixel::zrle_compression(&self.pf) {
                Some(v) => v,
                None => {
                    self.zrle = Some(inflater);
                    return Err(VncError::InvalidImageData);
                },
            };
            let bppb: usize = (self.pf.bits_per_pixel / 8) as usize;
            proof {
                zrle_compression_facts(self.pf, cbpp as int, pad);
            }
            if (rect.x as u64) + (w as u64) > 0x10000 || (rect.y as u64) + (h as u64) > 0x10000 {
                self.zrle = Some(inflater);
                return Err(VncError::InvalidImageData);
            }
            let mut reader = crate::zlib::ZlibReader::new(inflater, data);
            let tiles = match crate::codec::zrle::decode_zrle_rect(
                &mut reader,
                &rect,
                bppb,
                cbpp,
                pad,
            ) {
                Ok(v) => v,
                Err(e) => {
                    self.zrle = Some(crate::zlib::inflater_new());
                    return Err(e);
                },
            };
            match reader.into_inner() {
                Ok(d) => {
                    self.zrle = Some(d);
                },
                Err(e) => {
                    self.zrle = Some(crate::zlib::inflater_new());
                    return Err(e);
                },
            }
            let ghost tiles0 = tiles@;
            let ghost ev_before = events@;
            let mut tiles_v = tiles;
            while tiles_v.len() > 0
                invariant
                    tiles_v@.len() <= tiles0.len(),
                    tiles_v@ == tiles0.skip(tiles0.len() - tiles_v@.len()),
                    events@.len() == ev_before.len() + tiles0.len() - tiles_v@.len(),
                    events@.subrange(0, ev_before.len() as int) == ev_before,
                    forall|i: int|
                        0 <= i < tiles0.len() - tiles_v@.len() ==> ((#[trigger] events@[ev_before.len()
                            + i]) matches VncEvent::RawImage(r2, px2) && r2 == tiles0[i].0 && px2
                            == tiles0[i].1),
                decreases tiles_v@.len(),
            {
                let ghost done = tiles0.len() - tiles_v@.len();
                let (tr, px) = tiles_v.remove(0);
                proof {
                    assert(tiles0.skip(done as int)[0] == (tr, px));
                    assert(tiles0[done as int] == (tr, px));
                    assert(tiles_v@ =~= tiles0.skip(done + 1));
                }
                events.push(VncEvent::RawImage(tr, px));
                proof {
                    assert(events@.subrange(0, ev_before.len() as int) =~= ev_before);
                }
            }
            proof {
                assert(zrle_events_ok(
                    rect,
                    bppb as int,
                    cbpp as int,
                    pad,
                    ev_before,
                    events@,
                ));
            }
            Ok(Some(need))
        }
    }

    /// Decodes one Cursor pseudo-rectangle: 32-bit pixels and the
    /// visibility mask that becomes their alpha bytes.
    fn cursor_rect(&mut self, rect: Rect, events: &mut Vec<VncEvent>) -> (r: Result<
        Option<usize>,
        VncError,
    >)
        requires
            old(self).wf(),
            old(self).spec_pending().len() >= 12,
        ensures
            *final(self) == *old(self),
            r matches Ok(Some(t)) ==> 12 <= t <= final(self).spec_pending().len(),
            r matches Ok(Some(t)) ==> {
                let b = old(self).spec_pending();
                let w = rect.width as int;
                let h = rect.height as int;
                if w == 0 || h == 0 {
                    &&& t == 12
                    &&& final(events)@.len() == old(events)@.len() + 1
                    &&& final(events)@.subrange(0, old(events)@.len() as int) == old(events)@
                    &&& (final(events)@.last() matches VncEvent::SetCursor(r2, d) && r2 == rect
                        && d@.len() == 0)
                } else {
                    let aidx = crate::codec::pixel::cursor_alpha_index_of(old(self).spec_pf());
                    let plen = w * h * 4;
                    let mlen = ((w + 7) / 8) * h;
                    &&& old(self).spec_pf().bits_per_pixel == 32
                    &&& aidx is Some
                    &&& plen <= usize::MAX
                    &&& b.len() >= 12 + plen + mlen
                    &&& t == 12 + plen + mlen
                    &&& final(events)@.len() == old(events)@.len() + 1
                    &&& final(events)@.subrange(0, old(events)@.len() as int) == old(events)@
                    &&& (final(events)@.last() matches VncEvent::SetCursor(r2, d) && r2 == rect
                        && d@ == crate::codec::cursor::cursor_image(
                        b.subrange(12, 12 + plen),
                        b.subrange(12 + plen, 12 + plen + mlen),
                        w,
                        h,
                        aidx->0,
                    ))
                }
            },
            r matches Ok(None) ==> final(events)@ == old(events)@ && {
                let b = old(self).spec_pending();
                let w = rect.width as int;
                let h = rect.height as int;
                &&& !(w == 0 || h == 0)
                &&& old(self).spec_pf().bits_per_pixel == 32
                &&& crate::codec::pixel::cursor_alpha_index_of(old(self).spec_pf()) is Some
                &&& w * h * 4 <= usize::MAX
                &&& b.len() < 12 + w * h * 4 + ((w + 7) / 8) * h
            },
            r matches Err(e) ==> e is InvalidImageData && final(events)@ == old(events)@,
    {
        let pl: usize = self.pending.len();
        let w = rect.width;
        let h = rect.height;
        if w == 0 || h == 0 {
            events.push(VncEvent::SetCursor(rect, Vec::new()));
            proof {
                assert(events@.subrange(0, old(events)@.len() as int) =~= old(events)@);
            }
            return Ok(Some(12));
        }
        if self.pf.bits_per_pixel != 32 {
            return Err(VncError::InvalidImageData);
        }
        let aidx = match crate::codec::pixel::cursor_alpha_index(&self.pf) {
            Some(v) => v,
            None => {
                return Err(VncError::InvalidImageData);
            },
        };
        proof {
            assert((w as u64) * (h as u64) * 4 < 0x10000 * 0x10000 * 4 && ((w as u64) + 7) / 8 * (
            h as u64) < 0x10000 * 0x10000) by (nonlinear_arith)
                requires
                    0 < (w as u64) < 0x10000,
                    0 < (h as u64) < 0x10000,
            ;
        }
        let plen64: u64 = (w as u64) * (h as u64) * 4;
        let row64: u64 = ((w as u64) + 7) / 8;
        let mlen64: u64 = row64 * (h as u64);
        if plen64 > (usize::MAX as u64) {
            return Err(VncError::InvalidImageData);
        }
        let need64: u64 = 12 + plen64 + mlen64;
        if (pl as u64) < need64 {
            return Ok(None);
        }
        let plen: usize = plen64 as usize;
        let mlen: usize = mlen64 as usize;
        let pixels = sub_bytes(&self.pending, 12, 12 + plen);
        let mask = sub_bytes(&self.pending, 12 + plen, 12 + plen + mlen);
        proof {
            assert(mask@.len() == crate::codec::cursor::cursor_mask_len(w as int, h as int));
        }
        let image = crate::codec::cursor::decode_cursor(
            &pixels,
            &mask,
            w as usize,
            h as usize,
            aidx,
        );
        events.push(VncEvent::SetCursor(rect, image));
        proof {
            assert(events@.subrange(0, old(events)@.len() as int) =~= old(events)@);
        }
        Ok(Some(12 + plen + mlen))
    }

    /// Decodes one Tight rectangle if its bytes are all buffered. The
    /// result is how many bytes the rectangle takes, header included, or
    /// `None` when more bytes are needed.
    #[verifier::rlimit(100)]
    #[verifier::spinoff_prover]
    fn tight_rect(&mut self, rect: Rect, events: &mut Vec<VncEvent>) -> (r: Result<
        Option<usize>,
        VncError,
    >)
        requires
            old(self).wf(),
            old(self).spec_pending().len() >= 12,
        ensures
            final(self).wf(),
            session_obs_eq(*final(self), *old(self)),
            final(self).spec_zrle_stream() == old(self).spec_zrle_stream(),
            r matches Ok(Some(t)) ==> 12 < t <= final(self).spec_pending().len()
                && tight_progress(
                old(self).spec_pf(),
                rect,
                old(self).spec_pending(),
                old(events)@,
                final(events)@,
                t as int,
            ),
            r matches Ok(None) ==> final(events)@ == old(events)@ && *final(self) == *old(self)
                && tight_stall(old(self).spec_pf(), rect, old(self).spec_pending()),
            r matches Err(e) ==> e is InvalidImageData && final(events)@ == old(events)@,
    {
        let w: usize = rect.width as usize;
        let h: usize = rect.height as usize;
        let alpha = match crate::codec::pixel::alpha_shift(&self.pf) {
            Some(a) => a,
            None => {
                return Err(VncError::InvalidImageData);
            },
        };
        proof {
            assert(self.pf.red_shift < 32 && self.pf.green_shift < 32 && self.pf.blue_shift < 32);
            assert(alpha < 32);
        }
        let pl: usize = self.pending.len();
        if pl < 13 {
            return Ok(None);
        }
        let ctrl: u8 = self.pending[12];
        let nib: u8 = ctrl >> 4;
        proof {
            assert(ctrl >> 4u8 < 16) by (bit_vector);
        }
        if nib == 8 {
            // fill: three colour bytes
            if pl < 16 {
                return Ok(None);
            }
            self.reset_streams(ctrl);
            let cr = self.pending[13];
            let cg = self.pending[14];
            let cb = self.pending[15];
            proof {
                assert((w as u64) * (h as u64) * 4 < 0x10000 * 0x10000 * 4) by (nonlinear_arith)
                    requires
                        0 <= (w as u64) < 0x10000,
                        0 <= (h as u64) < 0x10000,
                ;
            }
            let n64: u64 = (w as u64) * (h as u64);
            if n64 * 4 > (usize::MAX as u64) {
                return Err(VncError::InvalidImageData);
            }
            let n: usize = n64 as usize;
            let image = crate::codec::tight::expand_fill(&self.pf, alpha, cr, cg, cb, n);
            events.push(VncEvent::RawImage(rect, image));
            proof {
                assert(events@.subrange(0, old(events)@.len() as int) =~= old(events)@);
            }
            Ok(Some(16))
        } else if nib == 9 {
            // jpeg: compact length and opaque data
            let (dlen, dstart) = match crate::codec::tight::parse_compact_len(&self.pending, 13) {
                Some(v) => v,
                None => {
                    return Ok(None);
                },
            };
            let need64: u64 = (dstart as u64) + (dlen as u64);
            if need64 > (pl as u64) {
                return Ok(None);
            }
            self.reset_streams(ctrl);
            let total: usize = dstart + dlen;
            let data = sub_bytes(&self.pending, dstart, total);
            events.push(VncEvent::JpegImage(rect, data));
            proof {
                assert(events@.subrange(0, old(events)@.len() as int) =~= old(events)@);
            }
            Ok(Some(total))
        } else if nib & 0x8 == 0 {
            // basic: optional filter byte, then filtered, maybe compressed data
            let mut q: usize = 13;
            let filter: u8 = if nib & 0x4 == 4 {
                if pl < 14 {
                    return Ok(None);
                }
                q = 14;
                self.pending[13]
            } else {
                0
            };
            let mut palette: Vec<u8> = Vec::new();
            let mut num_colors: usize = 0;
            let size64: u64 = if filter == 0 || filter == 2 {
                proof {
                    assert((w as u64) * (h as u64) * 3 < 0x10000 * 0x10000 * 4)
                        by (nonlinear_arith)
                        requires
                            0 <= (w as u64) < 0x10000,
                            0 <= (h as u64) < 0x10000,
                    ;
                }
                (w as u64) * (h as u64) * 3
            } else if filter == 1 {
                if q >= pl {
                    return Ok(None);
                }
                num_colors = (self.pending[q] as usize) + 1;
                q = q + 1;
                let pal_len: usize = num_colors * 3;
                if q + pal_len > pl {
                    return Ok(None);
                }
                palette = sub_bytes(&self.pending, q, q + pal_len);
                q = q + pal_len;
                let bits: u64 = if num_colors == 2 {
                    1
                } else {
                    8
                };
                let row: u64 = ((w as u64) * bits + 7) / 8;
                proof {
                    assert((h as u64) * (((w as u64) * 8 + 7) / 8) <= 0x10000 * 0x10000)
                        by (nonlinear_arith)
                        requires
                            0 <= (w as u64) < 0x10000,
                            0 <= (h as u64) < 0x10000,
                    ;
                    assert((h as u64) * (((w as u64) * 1 + 7) / 8) <= (h as u64) * (((w as u64) * 8
                        + 7) / 8)) by (nonlinear_arith)
                        requires
                            0 <= (w as u64),
                            0 <= (h as u64),
                    ;
                }
                (h as u64) * row
            } else {
                return Err(VncError::InvalidImageData);
            };
            if size64 == 0 {
                self.reset_streams(ctrl);
                proof {
                    let b = old(self).spec_pending();
                    let q0: int = if nib & 0x4 == 4 {
                        14
                    } else {
                        13
                    };
                    assert(tight_basic_progress(
                        old(self).spec_pf(),
                        rect,
                        b,
                        old(events)@,
                        events@,
                        q as int,
                        alpha,
                        filter,
                        q0,
                    ));
                }
                return Ok(Some(q));
            }
            if size64 > (usize::MAX as u64) || size64 > (crate::codec::zrle::MAX_TILE_DATA
                as u64) {
                return Err(VncError::InvalidImageData);
            }
            let size: usize = size64 as usize;
            let stream_id: u8 = nib & 0x3;
            proof {
                assert((nib & 0x3) & 3 == (nib & 0x3) && (nib & 0x3) < 4) by (bit_vector);
            }
            let data: Vec<u8>;
            let total: usize;
            if size < 12 {
                if q + size > pl {
                    return Ok(None);
                }
                self.reset_streams(ctrl);
                data = sub_bytes(&self.pending, q, q + size);
                total = q + size;
            } else {
                let (clen, cstart) = match crate::codec::tight::parse_compact_len(
                    &self.pending,
                    q,
                ) {
                    Some(v) => v,
                    None => {
                        return Ok(None);
                    },
                };
                let need64: u64 = (cstart as u64) + (clen as u64);
                if need64 > (pl as u64) {
                    return Ok(None);
                }
                self.reset_streams(ctrl);
                let compressed = sub_bytes(&self.pending, cstart, cstart + clen);
                let inflater = self.take_tight(stream_id);
                let mut reader = crate::zlib::ZlibReader::new(inflater, compressed);
                let inflated = match reader.read_exact_vec(size) {
                    Ok(v) => v,
                    Err(e) => {
                        self.put_tight(stream_id, crate::zlib::inflater_new());
                        return Err(e);
                    },
                };
                match reader.into_inner() {
                    Ok(d) => {
                        self.put_tight(stream_id, d);
                    },
                    Err(e) => {
                        self.put_tight(stream_id, crate::zlib::inflater_new());
                        return Err(e);
                    },
                }
                data = inflated;
                total = cstart + clen;
            }
            // expand the filtered bytes into pixels
            proof {
                assert((w as u64) * (h as u64) * 4 < 0x10000 * 0x10000 * 4) by (nonlinear_arith)
                    requires
                        0 <= (w as u64) < 0x10000,
                        0 <= (h as u64) < 0x10000,
                ;
            }
            let n64: u64 = (w as u64) * (h as u64);
            if n64 * 4 > (usize::MAX as u64) {
                return Err(VncError::InvalidImageData);
            }
            let n: usize = n64 as usize;
            if filter == 0 {
                proof {
                    assert(n * 3 == size64 && n * 4 <= usize::MAX) by (nonlinear_arith)
                        requires
                            n == (w as int) * (h as int),
                            size64 == (w as int) * (h as int) * 3,
                            n * 4 == (w as int) * (h as int) * 4,
                            (w as int) * (h as int) * 4 <= usize::MAX,
                    ;
                }
                let image = crate::codec::tight::expand_copy(&self.pf, alpha, &data, n);
                events.push(VncEvent::RawImage(rect, image));
                proof {
                    assert(events@.subrange(0, old(events)@.len() as int) =~= old(events)@);
                }
            } else if filter == 2 {
                proof {
                    assert(size64 == (w as int) * (h as int) * 3 && size64 > 0 ==> w > 0)
                        by (nonlinear_arith);
                    assert(n * 4 <= usize::MAX && (w as int) * (h as int) * 3 == size64)
                        by (nonlinear_arith)
                        requires
                            n == (w as int) * (h as int),
                            size64 == (w as int) * (h as int) * 3,
                            n * 4 == (w as int) * (h as int) * 4,
                            (w as int) * (h as int) * 4 <= usize::MAX,
                    ;
                }
                let image = crate::codec::tight::expand_gradient(&self.pf, &data, w, h);
                events.push(VncEvent::RawImage(rect, image));
                proof {
                    assert(events@.subrange(0, old(events)@.len() as int) =~= old(events)@);
                }
            } else if num_colors == 2 {
                proof {
                    assert(size64 == (h as int) * (((w as int) * 1 + 7) / 8) ==> size64 == (
                    h as int) * (((w as int) + 7) / 8)) by (nonlinear_arith);
                    assert((h as int) * (((w as int) + 7) / 8) > 0 ==> w > 0) by (nonlinear_arith);
                }
                let image = crate::codec::tight::expand_mono(
                    &self.pf,
                    alpha,
                    &data,
                    &palette,
                    w,
                    h,
                );
                events.push(VncEvent::RawImage(rect, image));
                proof {
                    assert(events@.subrange(0, old(events)@.len() as int) =~= old(events)@);
                }
            } else {
                proof {
                    assert(((w as int) * 8 + 7) / 8 == w as int) by {
                        vstd::arithmetic::div_mod::lemma_fundamental_div_mod_converse(
                            (w as int) * 8 + 7,
                            8,
                            w as int,
                            7,
                        );
                    }
                    assert(size64 == (h as int) * (w as int) ==> size64 == n) by (nonlinear_arith)
                        requires
                            n == (w as int) * (h as int),
                    ;
                }
                let image = match crate::codec::tight::expand_palette(
                    &self.pf,
                    alpha,
                    &data,
                    &palette,
                    num_colors,
                    n,
                ) {
                    Ok(v) => v,
                    Err(e) => {
                        return Err(e);
                    },
                };
                events.push(VncEvent::RawImage(rect, image));
                proof {
                    assert(events@.subrange(0, old(events)@.len() as int) =~= old(events)@);
                }
            }
            proof {
                let b = old(self).spec_pending();
                let ev0 = old(events)@;
                let pf0 = old(self).spec_pf();
                let q0: int = if nib & 0x4 == 4 {
                    14
                } else {
                    13
                };
                let ncs: int = (b[q0] as int) + 1;
                let pal = b.subrange(q0 + 1, q0 + 1 + 3 * ncs);
                let spec_q: int = if filter == 1 {
                    q0 + 1 + 3 * ncs
                } else {
                    q0
                };
                let spec_size: int = if filter == 1 {
                    (h as int) * (((w as int) * (if ncs == 2 {
                        1int
                    } else {
                        8
                    }) + 7) / 8)
                } else {
                    (w as int) * (h as int) * 3
                };
                if filter == 1 {
                    assert(num_colors as int == ncs);
                    assert(palette@ == pal);
                    assert(q as int == spec_q);
                }
                assert(size as int == spec_size);
                assert(data@.len() == size);
                assert(tight_filter_image(pf0, rect, alpha, filter, ncs, pal, data@, ev0, events@));
                assert(tight_basic_progress(
                    pf0,
                    rect,
                    b,
                    ev0,
                    events@,
                    total as int,
                    alpha,
                    filter,
                    q0,
                ));
                assert(tight_progress(pf0, rect, b, ev0, events@, total as int));
            }
            Ok(Some(total))
        } else {
            Err(VncError::InvalidImageData)
        }
    }

    /// Resets the Tight zlib streams whose bits are set in the control
    /// byte's low nibble.
    fn reset_streams(&mut self, ctrl: u8)
        requires
            old(self).wf(),
        ensures
            final(self).wf(),
            session_obs_eq(*final(self), *old(self)),
            final(self).spec_zrle_stream() == old(self).spec_zrle_stream(),
    {
        let mut i: u8 = 0;
        while i < 4
            invariant
                self.wf(),
                session_obs_eq(*self, *old(self)),
                self.spec_zrle_stream() == old(self).spec_zrle_stream(),
                i <= 4,
            decreases 4 - i,
        {
            if (ctrl >> i) & 1 == 1 {
                let mut d = self.take_tight(i);
                crate::zlib::inflater_reset(&mut d);
                proof {
                    assert(i & 3 == i) by (bit_vector)
                        requires
                            i < 4,
                    ;
                }
                self.put_tight(i, d);
            }
            i = i + 1;
        }
    }

    /// Drops `n` consumed bytes from the front of the buffer.
    fn consume(&mut self, n: usize)
        requires
            n <= old(self).spec_pending().len(),
        ensures
            final(self).spec_pending() == old(self).spec_pending().subrange(
                n as int,
                old(self).spec_pending().len() as int,
            ),
            final(self).spec_phase() == old(self).spec_phase(),
            final(self).spec_screen() == old(self).spec_screen(),
            final(self).spec_pf() == old(self).spec_pf(),
            final(self).spec_name() == old(self).spec_name(),
            final(self).spec_pf_fixed() == old(self).spec_pf_fixed(),
            final(self).wf() == old(self).wf(),
            final(self).tight0 == old(self).tight0 && final(self).tight1 == old(self).tight1
                && final(self).tight2 == old(self).tight2 && final(self).tight3 == old(
                self,
            ).tight3 && final(self).zrle == old(self).zrle,
            final(self).encodings == old(self).encodings,
    {
        let tail = self.pending.split_off(n);
        self.pending = tail;
    }
}


/// Everything of the engine that one step may not silently change: the
/// fixed-format flag and the encodings list. (The phase, screen, pixel
/// format, name and buffer are pinned per case by [`step_progress`].)
pub open spec fn session_config_eq(a: Session, b: Session) -> bool {
    &&& a.spec_pf_fixed() == b.spec_pf_fixed()
    &&& a.spec_encodings() == b.spec_encodings()
}

/// Two engines that differ at most in their zlib-stream state: the whole
/// observable configuration and buffer agree.
pub open spec fn session_obs_eq(a: Session, b: Session) -> bool {
    &&& session_config_eq(a, b)
    &&& a.spec_phase() == b.spec_phase()
    &&& a.spec_screen() == b.spec_screen()
    &&& a.spec_pf() == b.spec_pf()
    &&& a.spec_name() == b.spec_name()
    &&& a.spec_pending() == b.spec_pending()
}

/// The four Tight streams are untouched.
pub open spec fn tight_streams_eq(a: Session, b: Session) -> bool {
    a.spec_tight_streams() == b.spec_tight_streams()
}

/// All five persistent zlib streams are untouched.
pub open spec fn streams_eq(a: Session, b: Session) -> bool {
    tight_streams_eq(a, b) && a.spec_zrle_stream() == b.spec_zrle_stream()
}

/// The phase after one rectangle of a batch of `n` was decoded.
pub open spec fn rects_next(n: u16) -> Phase {
    if n <= 1 {
        Phase::Ready
    } else {
        Phase::Rects((n - 1) as u16)
    }
}

/// One `RawImage` event with exactly these pixel bytes was appended.
pub open spec fn pushed_raw_image(ev0: Seq<VncEvent>, ev: Seq<VncEvent>, r: Rect, d: Seq<u8>) -> bool {
    &&& ev.len() == ev0.len() + 1
    &&& ev.subrange(0, ev0.len() as int) == ev0
    &&& (ev.last() matches VncEvent::RawImage(r2, px) && r2 == r && px@ == d)
}

/// The three messages written once ServerInit's name has arrived: the
/// fixed pixel format (if one was set), the encodings list, and a full
/// non-incremental update request over the announced screen.
pub open spec fn init_write_bytes(pre: Session) -> Seq<u8> {
    (if pre.spec_pf_fixed() {
        client_msg_bytes(ClientMsg::SetPixelFormat(pre.spec_pf()))
    } else {
        Seq::<u8>::empty()
    }) + client_msg_bytes(ClientMsg::SetEncodings(pre.spec_encodings())) + client_msg_bytes(
        ClientMsg::FramebufferUpdateRequest(
            Rect { x: 0, y: 0, width: pre.spec_screen().width, height: pre.spec_screen().height },
            0,
        ),
    )
}

/// The events of one decoded ZRLE rectangle: one `RawImage` per tile of
/// the 64-grid, in row-major order, each tile's bytes a [`tile_at`] parse
/// for its clipped dimensions.
pub open spec fn zrle_events_ok(
    rect: Rect,
    bpp: int,
    cbpp: int,
    pad: bool,
    ev0: Seq<VncEvent>,
    ev: Seq<VncEvent>,
) -> bool {
    let count = crate::codec::zrle::tile_count(rect.width as int, rect.height as int);
    &&& ev.len() == ev0.len() + count
    &&& ev.subrange(0, ev0.len() as int) == ev0
    &&& forall|i: int|
        0 <= i < count ==> {
            let (tx, ty, tw, th) = crate::codec::zrle::zrle_tile_dims(rect, i);
            &&& (#[trigger] ev[ev0.len() + i]) matches VncEvent::RawImage(r2, px) && r2.x as int
                == tx && r2.y as int == ty && r2.width as int == tw && r2.height as int == th
                && exists|d: Seq<u8>, q: int|
                (#[trigger] crate::codec::zrle::tile_at(d, q, tw, th, bpp, cbpp, pad)) matches
                    Some(v) && v.0 == px@
        }
}

/// One decoded Tight rectangle: the control nibble picks fill, JPEG or a
/// basic filter; a basic payload below twelve bytes travels raw, larger
/// ones zlib-framed with a compact length. `total` is the rectangle's full
/// extent, header included. The inflated bytes are existential: what they
/// expand to is pinned by the filter's image function.
pub open spec fn tight_progress(
    pf: PixelFormat,
    rect: Rect,
    b: Seq<u8>,
    ev0: Seq<VncEvent>,
    ev: Seq<VncEvent>,
    total: int,
) -> bool {
    let w = rect.width as int;
    let h = rect.height as int;
    let a = crate::codec::pixel::alpha_shift_of(pf)->0;
    let ctrl = b[12];
    let nib = ctrl >> 4;
    &&& b.len() >= 13
    &&& crate::codec::pixel::alpha_shift_of(pf) is Some
    &&& if nib == 8 {
        &&& b.len() >= 16
        &&& total == 16
        &&& w * h * 4 <= usize::MAX
        &&& pushed_raw_image(
            ev0,
            ev,
            rect,
            crate::codec::tight::fill_image(pf, a, b[13], b[14], b[15], w * h),
        )
    } else if nib == 9 {
        &&& crate::codec::tight::compact_len_at(b, 13) matches Some((dlen, ds)) && {
            &&& b.len() >= ds + dlen
            &&& total == ds + dlen
            &&& ev.len() == ev0.len() + 1
            &&& ev.subrange(0, ev0.len() as int) == ev0
            &&& (ev.last() matches VncEvent::JpegImage(r2, blob) && r2 == rect && blob@
                == b.subrange(ds, ds + dlen))
        }
    } else if nib & 0x8 == 0 {
        let filter = if nib & 0x4 == 4 {
            b[13]
        } else {
            0
        };
        let q = if nib & 0x4 == 4 {
            14int
        } else {
            13
        };
        &&& (nib & 0x4 == 4 ==> b.len() >= 14)
        &&& filter == 0 || filter == 1 || filter == 2
        &&& tight_basic_progress(pf, rect, b, ev0, ev, total, a, filter, q)
    } else {
        false
    }
}

/// The basic Tight sub-modes, after the filter byte: the copy and gradient
/// filters carry three bytes per pixel; the palette filter carries its
/// colours and one bit per pixel for two colours, one byte otherwise.
pub open spec fn tight_basic_progress(
    pf: PixelFormat,
    rect: Rect,
    b: Seq<u8>,
    ev0: Seq<VncEvent>,
    ev: Seq<VncEvent>,
    total: int,
    a: u32,
    filter: u8,
    q0: int,
) -> bool {
    let w = rect.width as int;
    let h = rect.height as int;
    let nc = (b[q0] as int) + 1;
    let palette = b.subrange(q0 + 1, q0 + 1 + 3 * nc);
    let q = if filter == 1 {
        q0 + 1 + 3 * nc
    } else {
        q0
    };
    let size = if filter == 1 {
        h * ((w * (if nc == 2 {
            1int
        } else {
            8
        }) + 7) / 8)
    } else {
        w * h * 3
    };
    &&& (filter == 1 ==> b.len() > q0 && q <= b.len())
    &&& if size == 0 {
        total == q && ev == ev0
    } else {
        &&& w * h * 4 <= usize::MAX
        &&& size <= crate::codec::zrle::MAX_TILE_DATA
        &&& exists|data: Seq<u8>|
            {
                &&& data.len() == size
                &&& (size < 12 ==> data == b.subrange(q, q + size) && total == q + size)
                &&& (size >= 12 ==> (crate::codec::tight::compact_len_at(b, q) matches Some(
                    (clen, cs),
                ) && b.len() >= cs + clen && total == cs + clen))
                &&& #[trigger] tight_filter_image(pf, rect, a, filter, nc, palette, data, ev0, ev)
            }
    }
}

/// Which image one basic Tight filter expands to.
pub open spec fn tight_filter_image(
    pf: PixelFormat,
    rect: Rect,
    a: u32,
    filter: u8,
    nc: int,
    palette: Seq<u8>,
    data: Seq<u8>,
    ev0: Seq<VncEvent>,
    ev: Seq<VncEvent>,
) -> bool {
    let w = rect.width as int;
    let h = rect.height as int;
    if filter == 0 {
        pushed_raw_image(ev0, ev, rect, crate::codec::tight::copy_image(pf, a, data, w * h))
    } else if filter == 2 {
        pushed_raw_image(ev0, ev, rect, crate::codec::tight::gradient_image(data, pf, w, h))
    } else if nc == 2 {
        pushed_raw_image(ev0, ev, rect, crate::codec::tight::mono_image(pf, a, data, palette, w, h))
    } else {
        &&& crate::codec::tight::palette_indices_ok(data, w * h, nc)
        &&& pushed_raw_image(
            ev0,
            ev,
            rect,
            crate::codec::tight::palette_image(pf, a, data, palette, w * h),
        )
    }
}

/// One whole step of the engine, state by state: what a complete protocol
/// element at the head of the buffer does to the engine, which events it
/// emits and which bytes it writes back.
#[verifier::opaque]
pub open spec fn step_progress(
    pre: Session,
    post: Session,
    ev0: Seq<VncEvent>,
    ev: Seq<VncEvent>,
    wr0: Seq<u8>,
    wr: Seq<u8>,
) -> bool {
    let b = pre.spec_pending();
    &&& session_config_eq(pre, post)
    &&& match pre.spec_phase() {
        Phase::ServerInit => {
            let (w, h, spf, nlen) = server_init_of(b.subrange(0, 24));
            &&& streams_eq(pre, post)
            &&& b.len() >= 24
            &&& valid_bits_per_pixel(b[4])
            &&& post.spec_screen() == (Screen { width: w, height: h })
            &&& post.spec_phase() == Phase::ServerName(nlen)
            &&& post.spec_pending() == b.skip(24)
            &&& post.spec_pf() == (if pre.spec_pf_fixed() {
                pre.spec_pf()
            } else {
                spf
            })
            &&& post.spec_name() == pre.spec_name()
            &&& ev == (if pre.spec_pf_fixed() {
                ev0.push(VncEvent::SetResolution(Screen { width: w, height: h }))
            } else {
                ev0.push(VncEvent::SetResolution(Screen { width: w, height: h })).push(
                    VncEvent::SetPixelFormat(spf),
                )
            })
            &&& wr == wr0
        },
        Phase::ServerName(len) => {
            &&& streams_eq(pre, post)
            &&& b.len() >= len
            &&& vstd::utf8::valid_utf8(b.subrange(0, len as int))
            &&& vstd::utf8::encode_utf8(post.spec_name()) == b.subrange(0, len as int)
            &&& post.spec_phase() is Ready
            &&& post.spec_pending() == b.skip(len as int)
            &&& post.spec_screen() == pre.spec_screen()
            &&& post.spec_pf() == pre.spec_pf()
            &&& ev == ev0
            &&& wr == wr0 + init_write_bytes(pre)
        },
        Phase::Ready => {
            &&& streams_eq(pre, post)
            &&& b.len() >= 1
            &&& post.spec_screen() == pre.spec_screen()
            &&& post.spec_pf() == pre.spec_pf()
            &&& post.spec_name() == pre.spec_name()
            &&& wr == wr0
            &&& if b[0] == 0 {
                &&& b.len() >= 4
                &&& post.spec_phase() == (if be16_at(b, 2) > 0 {
                    Phase::Rects(be16_at(b, 2))
                } else {
                    Phase::Ready
                })
                &&& post.spec_pending() == b.skip(4)
                &&& ev == ev0
            } else if b[0] == 2 {
                &&& post.spec_phase() is Ready
                &&& post.spec_pending() == b.skip(1)
                &&& ev == ev0.push(VncEvent::Bell)
            } else if b[0] == 3 {
                let len = be32_at(b, 4) as int;
                &&& b.len() >= 8
                &&& b.len() >= 8 + len
                &&& post.spec_phase() is Ready
                &&& post.spec_pending() == b.skip(8 + len)
                &&& ev.len() == ev0.len() + 1
                &&& ev.subrange(0, ev0.len() as int) == ev0
                &&& (ev.last() matches VncEvent::Text(t) && t@
                    == crate::handshake::utf8_lossy_chars(b.subrange(8, 8 + len)))
            } else {
                false
            }
        },
        Phase::Rects(n) => {
            let rect = Rect {
                x: be16_at(b, 0),
                y: be16_at(b, 2),
                width: be16_at(b, 4),
                height: be16_at(b, 6),
            };
            let tag = be32_at(b, 8);
            &&& n >= 1
            &&& b.len() >= 12
            &&& crate::config::encoding_of_tag(tag) is Some
            &&& post.spec_screen() == pre.spec_screen()
            &&& post.spec_pf() == pre.spec_pf()
            &&& post.spec_name() == pre.spec_name()
            &&& wr == wr0
            &&& rect_progress(
                pre,
                post,
                ev0,
                ev,
                rect,
                crate::config::encoding_of_tag(tag)->0,
                n,
            )
        },
    }
}

/// One decoded rectangle, by encoding. `b` still starts at the 12-byte
/// rectangle header; each case fixes the rectangle's total extent, what is
/// emitted, and the phase that follows (the batch count falls by one;
/// LastRect ends the batch early).
pub open spec fn rect_progress(
    pre: Session,
    post: Session,
    ev0: Seq<VncEvent>,
    ev: Seq<VncEvent>,
    rect: Rect,
    enc: VncEncoding,
    n: u16,
) -> bool {
    let b = pre.spec_pending();
    let w = rect.width as int;
    let h = rect.height as int;
    match enc {
        VncEncoding::Raw => {
            let size = crate::codec::raw::raw_payload_len(pre.spec_pf(), rect);
            &&& streams_eq(pre, post)
            &&& size <= usize::MAX
            &&& b.len() >= 12 + size
            &&& pushed_raw_image(ev0, ev, rect, b.subrange(12, 12 + size))
            &&& post.spec_pending() == b.skip(12 + size)
            &&& post.spec_phase() == rects_next(n)
        },
        VncEncoding::CopyRect => {
            &&& streams_eq(pre, post)
            &&& b.len() >= 16
            &&& ev == ev0.push(
                VncEvent::Copy(
                    rect,
                    Rect {
                        x: be16_at(b, 12),
                        y: be16_at(b, 14),
                        width: rect.width,
                        height: rect.height,
                    },
                ),
            )
            &&& post.spec_pending() == b.skip(16)
            &&& post.spec_phase() == rects_next(n)
        },
        VncEncoding::Tight => {
            &&& post.spec_zrle_stream() == pre.spec_zrle_stream()
            &&& exists|total: int|
                {
                    &&& 12 < total <= b.len()
                    &&& #[trigger] tight_progress(pre.spec_pf(), rect, b, ev0, ev, total)
                    &&& post.spec_pending() == b.skip(total)
                    &&& post.spec_phase() == rects_next(n)
                }
        },
        VncEncoding::Trle => {
            &&& streams_eq(pre, post)
            &&& if w == 0 || h == 0 {
                &&& ev == ev0
                &&& post.spec_pending() == b.skip(12)
                &&& post.spec_phase() == rects_next(n)
            } else {
                let bpp = (pre.spec_pf().bits_per_pixel as int) / 8;
                &&& crate::codec::pixel::zrle_compression_of(pre.spec_pf()) matches Some(
                    (cbpp, pad),
                ) && (crate::codec::zrle::tile_at(b, 12, w, h, bpp, cbpp, pad) matches Some(v) && {
                    &&& pushed_raw_image(ev0, ev, rect, v.0)
                    &&& post.spec_pending() == b.skip(v.1)
                    &&& post.spec_phase() == rects_next(n)
                })
            }
        },
        VncEncoding::Zrle => {
            let len = be32_at(b, 12) as int;
            &&& tight_streams_eq(pre, post)
            &&& b.len() >= 16
            &&& b.len() >= 16 + len
            &&& post.spec_pending() == b.skip(16 + len)
            &&& post.spec_phase() == rects_next(n)
            &&& if w == 0 || h == 0 {
                len == 0 && ev == ev0
            } else {
                let bpp = (pre.spec_pf().bits_per_pixel as int) / 8;
                &&& crate::codec::pixel::zrle_compression_of(pre.spec_pf()) matches Some(
                    (cbpp, pad),
                ) && zrle_events_ok(rect, bpp, cbpp, pad, ev0, ev)
                &&& rect.x as int + w <= 0x10000
                &&& rect.y as int + h <= 0x10000
            }
        },
        VncEncoding::CursorPseudo => {
            &&& streams_eq(pre, post)
            &&& if w == 0 || h == 0 {
                &&& ev.len() == ev0.len() + 1
                &&& ev.subrange(0, ev0.len() as int) == ev0
                &&& (ev.last() matches VncEvent::SetCursor(r2, d) && r2 == rect && d@.len() == 0)
                &&& post.spec_pending() == b.skip(12)
                &&& post.spec_phase() == rects_next(n)
            } else {
                let aidx = crate::codec::pixel::cursor_alpha_index_of(pre.spec_pf());
                let plen = w * h * 4;
                let mlen = ((w + 7) / 8) * h;
                &&& pre.spec_pf().bits_per_pixel == 32
                &&& aidx is Some
                &&& plen <= usize::MAX
                &&& b.len() >= 12 + plen + mlen
                &&& ev.len() == ev0.len() + 1
                &&& ev.subrange(0, ev0.len() as int) == ev0
                &&& (ev.last() matches VncEvent::SetCursor(r2, d) && r2 == rect && d@
                    == crate::codec::cursor::cursor_image(
                    b.subrange(12, 12 + plen),
                    b.subrange(12 + plen, 12 + plen + mlen),
                    w,
                    h,
                    aidx->0,
                ))
                &&& post.spec_pending() == b.skip(12 + plen + mlen)
                &&& post.spec_phase() == rects_next(n)
            }
        },
        VncEncoding::DesktopSizePseudo => {
            &&& streams_eq(pre, post)
            &&& ev == ev0.push(
                VncEvent::SetResolution(Screen { width: rect.width, height: rect.height }),
            )
            &&& post.spec_pending() == b.skip(12)
            &&& post.spec_phase() == rects_next(n)
        },
        VncEncoding::LastRectPseudo => {
            &&& streams_eq(pre, post)
            &&& ev == ev0
            &&& post.spec_pending() == b.skip(12)
            &&& post.spec_phase() is Ready
        },
    }
}

/// When the buffer holds no complete protocol element and the engine asks
/// for more bytes. For TRLE the tile parse itself decides.
#[verifier::opaque]
pub open spec fn step_stall(s: Session) -> bool {
    let b = s.spec_pending();
    match s.spec_phase() {
        Phase::ServerInit => b.len() < 24,
        Phase::ServerName(len) => b.len() < len,
        Phase::Ready => b.len() < 1 || (b[0] == 0 && b.len() < 4) || (b[0] == 3 && (b.len() < 8
            || b.len() < 8 + be32_at(b, 4))),
        Phase::Rects(n) => b.len() < 12 || rect_stall(s, b),
    }
}

/// A rectangle whose payload has not fully arrived.
pub open spec fn rect_stall(s: Session, b: Seq<u8>) -> bool {
    let rect = Rect { x: be16_at(b, 0), y: be16_at(b, 2), width: be16_at(b, 4), height: be16_at(b, 6) };
    let w = rect.width as int;
    let h = rect.height as int;
    match crate::config::encoding_of_tag(be32_at(b, 8)) {
        Some(enc) => match enc {
            VncEncoding::Raw => {
                let size = crate::codec::raw::raw_payload_len(s.spec_pf(), rect);
                size <= usize::MAX && b.len() < 12 + size
            },
            VncEncoding::CopyRect => b.len() < 16,
            VncEncoding::Tight => tight_stall(s.spec_pf(), rect, b),
            VncEncoding::Trle => !(w == 0 || h == 0) && b.len()
                <= crate::codec::zrle::MAX_TILE_DATA && {
                let bpp = (s.spec_pf().bits_per_pixel as int) / 8;
                crate::codec::pixel::zrle_compression_of(s.spec_pf()) matches Some((cbpp, pad))
                    && crate::codec::zrle::tile_at(b, 12, w, h, bpp, cbpp, pad) is None
            },
            VncEncoding::Zrle => b.len() < 16 || b.len() < 16 + be32_at(b, 12) as int,
            VncEncoding::CursorPseudo => !(w == 0 || h == 0) && s.spec_pf().bits_per_pixel == 32
                && crate::codec::pixel::cursor_alpha_index_of(s.spec_pf()) is Some && w * h * 4
                <= usize::MAX && b.len() < 12 + w * h * 4 + ((w + 7) / 8) * h,
            VncEncoding::DesktopSizePseudo => false,
            VncEncoding::LastRectPseudo => false,
        },
        None => false,
    }
}

/// A Tight rectangle whose bytes have not fully arrived, mirroring the
/// rectangle's extent computation.
pub open spec fn tight_stall(pf: PixelFormat, rect: Rect, b: Seq<u8>) -> bool {
    let w = rect.width as int;
    let h = rect.height as int;
    let ctrl = b[12];
    let nib = ctrl >> 4;
    &&& crate::codec::pixel::alpha_shift_of(pf) is Some
    &&& if b.len() < 13 {
        true
    } else if nib == 8 {
        b.len() < 16
    } else if nib == 9 {
        match crate::codec::tight::compact_len_at(b, 13) {
            Some((dlen, ds)) => b.len() < ds + dlen,
            None => true,
        }
    } else if nib & 0x8 == 0 {
        if nib & 0x4 == 4 && b.len() < 14 {
            true
        } else {
            let filter = if nib & 0x4 == 4 {
                b[13]
            } else {
                0
            };
            let q0 = if nib & 0x4 == 4 {
                14int
            } else {
                13
            };
            if filter == 0 || filter == 2 {
                tight_data_stall(b, q0, w * h * 3)
            } else if filter == 1 {
                if b.len() <= q0 {
                    true
                } else {
                    let nc = (b[q0] as int) + 1;
                    let q = q0 + 1 + 3 * nc;
                    if b.len() < q {
                        true
                    } else {
                        tight_data_stall(
                            b,
                            q,
                            h * ((w * (if nc == 2 {
                                1int
                            } else {
                                8
                            }) + 7) / 8),
                        )
                    }
                }
            } else {
                false
            }
        }
    } else {
        false
    }
}

/// Whether a basic Tight payload of `size` bytes at `q` is incomplete.
pub open spec fn tight_data_stall(b: Seq<u8>, q: int, size: int) -> bool {
    if size == 0 {
        false
    } else if size < 12 {
        b.len() < q + size
    } else {
        match crate::codec::tight::compact_len_at(b, q) {
            Some((clen, cs)) => b.len() < cs + clen,
            None => true,
        }
    }
}

/// Which error a step ends with, and on exactly which input.
#[verifier::opaque]
pub open spec fn step_fail(s: Session, e: VncError) -> bool {
    let b = s.spec_pending();
    match s.spec_phase() {
        Phase::ServerInit => b.len() >= 24 && !valid_bits_per_pixel(b[4]) && e
            is WrongPixelFormat,
        Phase::ServerName(len) => b.len() >= len && !vstd::utf8::valid_utf8(
            b.subrange(0, len as int),
        ) && (e matches VncError::General(m) && m@ == bad_name_msg()),
        Phase::Ready => b.len() >= 1 && (b[0] == 1 || b[0] > 3) && e is WrongServerMessage,
        Phase::Rects(n) => b.len() >= 12 && {
            if crate::config::encoding_of_tag(be32_at(b, 8)) is None {
                e is WrongServerMessage
            } else {
                e is InvalidImageData
            }
        },
    }
}

/// The engine exactly as before, with the fed chunk appended to its
/// buffer.
pub open spec fn appended_state(pre: Session, s0: Session, chunk: Seq<u8>) -> bool {
    &&& session_config_eq(pre, s0)
    &&& s0.spec_phase() == pre.spec_phase()
    &&& s0.spec_screen() == pre.spec_screen()
    &&& s0.spec_pf() == pre.spec_pf()
    &&& s0.spec_name() == pre.spec_name()
    &&& s0.spec_pending() == pre.spec_pending() + chunk
}

/// What a successful feed promises: some number of steps ran from the
/// fed state to the final one, producing exactly the returned events and
/// writes, and no further complete element is buffered.
pub open spec fn feed_ok_post(
    pre: Session,
    post: Session,
    chunk: Seq<u8>,
    out_ev: Seq<VncEvent>,
    out_wr: Seq<u8>,
) -> bool {
    exists|s0: Session, n: nat|
        {
            &&& appended_state(pre, s0, chunk)
            &&& #[trigger] feed_chain(s0, post, Seq::empty(), out_ev, Seq::empty(), out_wr, n)
            &&& step_stall(post)
        }
}

/// What a failed feed promises: some number of steps ran from the fed
/// state to one whose next element fails with exactly this error.
pub open spec fn feed_err_post(pre: Session, chunk: Seq<u8>, e: VncError) -> bool {
    exists|s0: Session, mid: Session, ev: Seq<VncEvent>, wr: Seq<u8>, n: nat|
        {
            &&& appended_state(pre, s0, chunk)
            &&& #[trigger] feed_chain(s0, mid, Seq::empty(), ev, Seq::empty(), wr, n)
            &&& step_fail(mid, e)
        }
}

/// `n` successful steps lead from one engine state to another, events and
/// writes accumulating along the way.
pub open spec fn feed_chain(
    s0: Session,
    s1: Session,
    ev0: Seq<VncEvent>,
    ev1: Seq<VncEvent>,
    wr0: Seq<u8>,
    wr1: Seq<u8>,
    n: nat,
) -> bool
    decreases n,
{
    if n == 0 {
        s1 == s0 && ev1 == ev0 && wr1 == wr0
    } else {
        exists|mid: Session, evm: Seq<VncEvent>, wrm: Seq<u8>|
            feed_chain(s0, mid, ev0, evm, wr0, wrm, (n - 1) as nat) && #[trigger] step_progress(
                mid,
                s1,
                evm,
                ev1,
                wrm,
                wr1,
            )
    }
}

/// What the compressed-pixel rule guarantees about its result: it fits the
/// byte width of the pixel, and alpha-first only arises for three-byte
/// pixels inside four-byte formats.
pub proof fn zrle_compression_facts(pf: PixelFormat, cbpp: int, pad: bool)
    requires
        crate::codec::pixel::zrle_compression_of(pf) == Some((cbpp, pad)),
    ensures
        1 <= cbpp <= (pf.bits_per_pixel as int) / 8,
        pad ==> cbpp + 1 <= 4,
        valid_bits_per_pixel(pf.bits_per_pixel),
        1 <= (pf.bits_per_pixel as int) / 8 <= 4,
{
}

} // verus!
