//! Events exchanged with the application: what the server reports to the
//! renderer, and what the application sends back as input.

use vstd::prelude::*;
use crate::config::PixelFormat;

verus! {

/// A rectangle of the framebuffer: position and size in pixels.
#[derive(Debug, Clone, Copy, PartialEq, Eq, Structural)]
pub struct Rect {
    /// Horizontal position of the left edge.
    pub x: u16,
    /// Vertical position of the top edge.
    pub y: u16,
    /// Width in pixels.
    pub width: u16,
    /// Height in pixels.
    pub height: u16,
}

impl Rect {
    /// A rectangle from its four coordinates.
    pub fn new(x: u16, y: u16, width: u16, height: u16) -> (r: Rect)
        ensures
            r == (Rect { x, y, width, height }),
    {
        Rect { x, y, width, height }
    }
}

/// The dimensions of the remote screen.
#[derive(Debug, Clone, Copy, PartialEq, Eq, Structural)]
pub struct Screen {
    /// Width in pixels.
    pub width: u16,
    /// Height in pixels.
    pub height: u16,
}

impl Screen {
    /// A screen from its dimensions.
    pub fn new(width: u16, height: u16) -> (r: Screen)
        ensures
            r == (Screen { width, height }),
    {
        Screen { width, height }
    }
}

/// What the server reports to the application. Image payloads are byte
/// vectors laid out in the session's pixel format.
#[derive(Debug, Clone, PartialEq)]
pub enum VncEvent {
    /// The screen dimensions changed (or were first announced).
    SetResolution(Screen),
    /// The session adopted the server's pixel format.
    SetPixelFormat(PixelFormat),
    /// Decoded pixels for a rectangle.
    RawImage(Rect, Vec<u8>),
    /// Copy the source rectangle (second) onto the destination (first).
    Copy(Rect, Rect),
    /// A JPEG-compressed rectangle, handed on undecoded.
    JpegImage(Rect, Vec<u8>),
    /// The cursor shape: its rectangle and pixels with alpha applied.
    SetCursor(Rect, Vec<u8>),
    /// The server rang the bell.
    Bell,
    /// The server shared its clipboard text.
    Text(String),
    /// A failure surfaced to the application, as text.
    Error(String),
}

/// A key press or release from the application.
#[derive(Debug, Clone, Copy, PartialEq, Eq, Structural)]
pub struct ClientKeyEvent {
    /// X11 keysym of the key.
    pub keycode: u32,
    /// True when pressed, false when released.
    pub down: bool,
}

impl ClientKeyEvent {
    /// A key event from its keysym and direction.
    pub fn new(keycode: u32, down: bool) -> (r: ClientKeyEvent)
        ensures
            r == (ClientKeyEvent { keycode, down }),
    {
        ClientKeyEvent { keycode, down }
    }
}

/// A pointer move or button change from the application.
#[derive(Debug, Clone, Copy, PartialEq, Eq, Structural)]
pub struct ClientMouseEvent {
    /// Horizontal pointer position.
    pub position_x: u16,
    /// Vertical pointer position.
    pub position_y: u16,
    /// Mask of the buttons held down.
    pub bottons: u8,
}

impl ClientMouseEvent {
    /// A pointer event from its position and button mask.
    pub fn new(position_x: u16, position_y: u16, bottons: u8) -> (r: ClientMouseEvent)
        ensures
            r == (ClientMouseEvent { position_x, position_y, bottons }),
    {
        ClientMouseEvent { position_x, position_y, bottons }
    }
}

/// Input the application sends towards the server.
#[derive(Debug, Clone, PartialEq)]
pub enum X11Event {
    /// Ask for an incremental framebuffer update.
    Refresh,
    /// Ask for a full, non-incremental framebuffer update.
    FullRefresh,
    /// A key press or release.
    KeyEvent(ClientKeyEvent),
    /// A pointer move or button change.
    PointerEvent(ClientMouseEvent),
    /// Share clipboard text with the server.
    CopyText(String),
}

} // verus!
