//! Client-side implementation of the Remote Framebuffer (RFB) protocol used
//! by VNC: version and security negotiation, VNC challenge/response
//! authentication, client/server message codecs, and the Raw, CopyRect,
//! Tight, ZRLE, TRLE, Cursor and DesktopSize rectangle decoders.
//!
//! All protocol logic is written over plain byte buffers so that it can be
//! driven by any reliable byte transport; an application supplies the bytes
//! read from its connection and writes back the bytes the protocol produces.

pub mod codec;
pub mod config;

pub use codec::zrle::copy_indexed;
pub use config::PixelFormat;
pub use config::VncEncoding;
pub use config::VncVersion;
pub use error::VncError;
pub use event::ClientKeyEvent;
pub use event::ClientMouseEvent;
pub use event::Rect;
pub use event::Screen;
pub use event::VncEvent;
pub use event::X11Event;
pub use security::SecurityType;
pub mod event;
pub mod handshake;
pub mod messages;
pub mod error;
pub mod security;
pub mod session;
pub mod zlib;
pub mod wire;
