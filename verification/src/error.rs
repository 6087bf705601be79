//! Error taxonomy of the client.
//!
//! Every fallible operation of this crate reports one of these variants.
//! Transport failures are carried as text in `IoError`, so that the protocol
//! logic itself stays free of any transport type.

use vstd::prelude::*;

verus! {

/// The errors a VNC client operation can end with.
#[derive(Debug, Clone)]
pub enum VncError {
    /// Authentication is required but no password was provided.
    NoPassword,
    /// No VNC encoding was selected before building the client.
    NoEncoding,
    /// The server offered a security type this client does not know.
    InvalidSecurityType(u8),
    /// The server rejected the VNC-Auth response.
    WrongPassword,
    /// The connection is not in the state the operation needs.
    ConnectError,
    /// A pixel format that this client cannot interpret.
    WrongPixelFormat,
    /// A server message of an unknown or unsupported kind.
    WrongServerMessage,
    /// Rectangle payload bytes that cannot be decoded.
    InvalidImageData,
    /// The client is not started or was already closed.
    ClientNotRunning,
    /// An error reported by the byte transport, as text.
    IoError(String),
    /// A failure reported by the server, with its message.
    General(String),
}

} // verus!
