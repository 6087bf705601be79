//! The handshake state machine: version exchange, security negotiation and
//! VNC challenge/response authentication.
//!
//! The machine is driven with bytes: [`Handshake::needed`] says how many
//! bytes the current state consumes, [`Handshake::input_bytes`] hands them
//! in and returns what to write back, and [`Handshake::input_credential`]
//! answers a password request. The driver owns the transport; the machine
//! never does I/O.

use vstd::prelude::*;
use crate::config::{VncVersion, version_of_banner, banner_bytes, min_version};
use crate::error::VncError;
use crate::security::{SecurityType, security_type_of_num, auth_response, auth_response_of};
use crate::wire::be32_at;

verus! {

/// Relies on `String::from_utf8_lossy`: the characters it decodes from a
/// byte sequence, a function of the bytes alone.
pub uninterp spec fn utf8_lossy_chars(b: Seq<u8>) -> Seq<char>;

/// Relies on `String::from_utf8_lossy`: decodes bytes as UTF-8, replacing
/// invalid sequences.
#[verifier::external_body]
pub fn utf8_lossy(b: &Vec<u8>) -> (r: String)
    ensures
        r@ == utf8_lossy_chars(b@),
{
    String::from_utf8_lossy(b.as_slice()).to_string()
}

/// Relies on `String::from_utf8`: succeeds exactly on valid UTF-8, and
/// the returned string's UTF-8 encoding is the input bytes.
#[verifier::external_body]
pub fn utf8_strict(b: &Vec<u8>) -> (r: Option<String>)
    ensures
        r is Some <==> vstd::utf8::valid_utf8(b@),
        r matches Some(s) ==> vstd::utf8::encode_utf8(s@) == b@,
{
    String::from_utf8(b.clone()).ok()
}

/// Where the handshake stands, and what it waits for.
pub enum HandshakeState {
    /// Waiting for the server's 12-byte version banner.
    AwaitVersion,
    /// RFB 3.3: waiting for the server's single 32-bit security type.
    AwaitSecurity33,
    /// RFB 3.7/3.8: waiting for the one-byte count of security types.
    AwaitSecurityCount,
    /// RFB 3.7/3.8: waiting for that many security-type bytes.
    AwaitSecurityList(u8),
    /// RFB 3.8, None security: waiting for the 4-byte SecurityResult.
    AwaitNoneResult,
    /// VNC-Auth was chosen: the driver must supply the password.
    NeedCredential,
    /// Waiting for the 16-byte VNC-Auth challenge.
    AwaitChallenge(Vec<u8>),
    /// Waiting for the 4-byte authentication result.
    AwaitAuthResult,
    /// A failure was announced: waiting for the 4-byte reason length.
    AwaitReasonLen,
    /// Waiting for the reason string itself.
    AwaitReason(u32),
    /// The handshake succeeded.
    Done,
    /// The handshake failed; no further input is accepted.
    Failed,
}

/// What one step of the machine asks the driver to do.
pub struct HandshakeOutput {
    /// Bytes to write to the transport, possibly none.
    pub to_write: Vec<u8>,
    /// True when the driver must call `input_credential` next.
    pub want_credential: bool,
    /// True when the handshake is complete.
    pub done: bool,
}

/// The handshake machine. The client's best version is fixed at creation;
/// the negotiated version is the minimum of it and the server's offer.
pub struct Handshake {
    state: HandshakeState,
    max_version: VncVersion,
    version: VncVersion,
}

impl Handshake {
    /// The current state.
    pub closed spec fn st(&self) -> HandshakeState {
        self.state
    }

    /// The negotiated version (the client's best one until the banners
    /// were exchanged).
    pub closed spec fn spec_version(&self) -> VncVersion {
        self.version
    }

    /// The client's best version.
    pub closed spec fn spec_max_version(&self) -> VncVersion {
        self.max_version
    }

    /// Starts a handshake offering at most `max_version`.
    pub fn new(max_version: VncVersion) -> (r: Handshake)
        ensures
            r.st() is AwaitVersion,
            r.spec_max_version() == max_version,
    {
        Handshake { state: HandshakeState::AwaitVersion, max_version, version: max_version }
    }

    /// The negotiated version.
    pub fn version(&self) -> (r: VncVersion)
        ensures
            r == self.spec_version(),
    {
        self.version
    }

    /// Whether the handshake is complete.
    pub fn is_done(&self) -> (r: bool)
        ensures
            r == (self.st() is Done),
    {
        matches!(self.state, HandshakeState::Done)
    }

    /// How many transport bytes the current state consumes. Zero means the
    /// machine does not want bytes: it waits for a credential, or it is
    /// finished.
    pub fn needed(&self) -> (r: usize)
        ensures
            r as int == spec_needed(self.st()),
    {
        match &self.state {
            HandshakeState::AwaitVersion => 12,
            HandshakeState::AwaitSecurity33 => 4,
            HandshakeState::AwaitSecurityCount => 1,
            HandshakeState::AwaitSecurityList(n) => *n as usize,
            HandshakeState::AwaitNoneResult => 4,
            HandshakeState::NeedCredential => 0,
            HandshakeState::AwaitChallenge(_) => 16,
            HandshakeState::AwaitAuthResult => 4,
            HandshakeState::AwaitReasonLen => 4,
            HandshakeState::AwaitReason(n) => *n as usize,
            HandshakeState::Done => 0,
            HandshakeState::Failed => 0,
        }
    }

    /// Answers the credential request. `None` means no password is
    /// available, which fails the handshake with `NoPassword`.
    pub fn input_credential(&mut self, password: Option<Vec<u8>>) -> (r: Result<
        HandshakeOutput,
        VncError,
    >)
        requires
            old(self).st() is NeedCredential,
        ensures
            final(self).spec_version() == old(self).spec_version(),
            r is Ok <==> password is Some,
            r is Ok ==> (final(self).st() matches HandshakeState::AwaitChallenge(pw) && pw@
                == password->0@ && r->Ok_0.to_write@.len() == 0 && !r->Ok_0.want_credential
                && !r->Ok_0.done),
            r is Err ==> r->Err_0 is NoPassword && final(self).st() is Failed,
    {
        match password {
            Some(pw) => {
                self.state = HandshakeState::AwaitChallenge(pw);
                Ok(HandshakeOutput { to_write: Vec::new(), want_credential: false, done: false })
            },
            None => {
                self.state = HandshakeState::Failed;
                Err(VncError::NoPassword)
            },
        }
    }

    /// Feeds the bytes the current state asked for and advances the
    /// machine. The contract pins each transition: which state follows,
    /// what is written back, and exactly which error ends the handshake.
    pub fn input_bytes(&mut self, b: Vec<u8>) -> (r: Result<HandshakeOutput, VncError>)
        requires
            spec_needed(old(self).st()) > 0,
            b@.len() == spec_needed(old(self).st()),
        ensures
            final(self).spec_max_version() == old(self).spec_max_version(),
            step_post(*old(self), b@, *final(self), r),
    {
        match &self.state {
            HandshakeState::AwaitVersion => {
                let server = VncVersion::from_banner(&b);
                let negotiated = self.max_version.min(server);
                self.version = negotiated;
                if matches!(negotiated, VncVersion::RFB33) {
                    self.state = HandshakeState::AwaitSecurity33;
                } else {
                    self.state = HandshakeState::AwaitSecurityCount;
                }
                Ok(
                    HandshakeOutput {
                        to_write: negotiated.to_banner(),
                        want_credential: false,
                        done: false,
                    },
                )
            },
            HandshakeState::AwaitSecurity33 => {
                let t = crate::wire::read_u32_be(&b, 0);
                if t == 0 {
                    self.state = HandshakeState::AwaitReasonLen;
                    self.empty_step()
                } else if t == 1 {
                    self.state = HandshakeState::Done;
                    Ok(
                        HandshakeOutput {
                            to_write: Vec::new(),
                            want_credential: false,
                            done: true,
                        },
                    )
                } else if t == 2 {
                    self.state = HandshakeState::NeedCredential;
                    Ok(
                        HandshakeOutput {
                            to_write: Vec::new(),
                            want_credential: true,
                            done: false,
                        },
                    )
                } else {
                    self.state = HandshakeState::Failed;
                    if t <= 255 && matches!(SecurityType::try_from_u8(t as u8), Ok(_)) {
                        Err(unimplemented_security_error())
                    } else {
                        Err(VncError::InvalidSecurityType(t as u8))
                    }
                }
            },
            HandshakeState::AwaitSecurityCount => {
                let n = b[0];
                if n == 0 {
                    self.state = HandshakeState::AwaitReasonLen;
                    self.empty_step()
                } else {
                    self.state = HandshakeState::AwaitSecurityList(n);
                    self.empty_step()
                }
            },
            HandshakeState::AwaitSecurityList(_) => {
                let mut has_none = false;
                let mut has_vnc_auth = false;
                let n: usize = b.len();
                for i in 0..n
                    invariant
                        n == b@.len(),
                        has_none == has_sec_type(b@.subrange(0, i as int), 1),
                        has_vnc_auth == has_sec_type(b@.subrange(0, i as int), 2),
                {
                    proof {
                        assert(b@.subrange(0, i + 1).drop_last() =~= b@.subrange(0, i as int));
                    }
                    if b[i] == 1 {
                        has_none = true;
                    }
                    if b[i] == 2 {
                        has_vnc_auth = true;
                    }
                }
                proof {
                    assert(b@.subrange(0, n as int) =~= b@);
                }
                let version = self.version;
                if has_none {
                    match version {
                        VncVersion::RFB33 => {
                            self.state = HandshakeState::Done;
                            Ok(
                                HandshakeOutput {
                                    to_write: Vec::new(),
                                    want_credential: false,
                                    done: true,
                                },
                            )
                        },
                        VncVersion::RFB37 => {
                            self.state = HandshakeState::Done;
                            let w1: Vec<u8> = vec![1u8];
                            proof {
                                assert(w1@ =~= seq![1u8]);
                            }
                            Ok(
                                HandshakeOutput {
                                    to_write: w1,
                                    want_credential: false,
                                    done: true,
                                },
                            )
                        },
                        VncVersion::RFB38 => {
                            self.state = HandshakeState::AwaitNoneResult;
                            let w1: Vec<u8> = vec![1u8];
                            proof {
                                assert(w1@ =~= seq![1u8]);
                            }
                            Ok(
                                HandshakeOutput {
                                    to_write: w1,
                                    want_credential: false,
                                    done: false,
                                },
                            )
                        },
                    }
                } else if has_vnc_auth {
                    self.state = HandshakeState::NeedCredential;
                    let to_write: Vec<u8> = if matches!(version, VncVersion::RFB33) {
                        Vec::new()
                    } else {
                        vec![2u8]
                    };
                    proof {
                        if !(version is RFB33) {
                            assert(to_write@ =~= seq![2u8]);
                        } else {
                            assert(to_write@ =~= Seq::<u8>::empty());
                        }
                    }
                    Ok(HandshakeOutput { to_write, want_credential: true, done: false })
                } else {
                    self.state = HandshakeState::Failed;
                    Err(unimplemented_security_error())
                }
            },
            HandshakeState::AwaitNoneResult => {
                let t = crate::wire::read_u32_be(&b, 0);
                if t == 0 {
                    self.state = HandshakeState::Done;
                    Ok(
                        HandshakeOutput {
                            to_write: Vec::new(),
                            want_credential: false,
                            done: true,
                        },
                    )
                } else {
                    self.state = HandshakeState::AwaitReasonLen;
                    self.empty_step()
                }
            },
            HandshakeState::AwaitChallenge(password) => {
                let response = auth_response(password, &b);
                self.state = HandshakeState::AwaitAuthResult;
                Ok(HandshakeOutput { to_write: response, want_credential: false, done: false })
            },
            HandshakeState::AwaitAuthResult => {
                let t = crate::wire::read_u32_be(&b, 0);
                if t == 0 {
                    self.state = HandshakeState::Done;
                    Ok(
                        HandshakeOutput {
                            to_write: Vec::new(),
                            want_credential: false,
                            done: true,
                        },
                    )
                } else if matches!(self.version, VncVersion::RFB37) {
                    self.state = HandshakeState::Failed;
                    Err(VncError::WrongPassword)
                } else {
                    self.state = HandshakeState::AwaitReasonLen;
                    self.empty_step()
                }
            },
            HandshakeState::AwaitReasonLen => {
                let len = crate::wire::read_u32_be(&b, 0);
                self.state = HandshakeState::AwaitReason(len);
                self.empty_step()
            },
            HandshakeState::AwaitReason(_) => {
                self.state = HandshakeState::Failed;
                Err(VncError::General(utf8_lossy(&b)))
            },
            _ => {
                proof {
                    assert(false);
                }
                self.state = HandshakeState::Failed;
                Err(VncError::ConnectError)
            },
        }
    }

    /// A step that writes nothing and goes on.
    fn empty_step(&self) -> (r: Result<HandshakeOutput, VncError>)
        ensures
            (r matches Ok(o) && o.to_write@.len() == 0 && !o.want_credential && !o.done),
    {
        Ok(HandshakeOutput { to_write: Vec::new(), want_credential: false, done: false })
    }
}

/// The error for a recognised security type this client does not
/// implement.
pub fn unimplemented_security_error() -> (r: VncError)
    ensures
        (r matches VncError::General(m) && m@ == unimplemented_security_msg()),
{
    let m = vnc_auth_only_message();
    VncError::General(m)
}

/// The message text of the unimplemented-security-type error.
pub open spec fn unimplemented_security_msg() -> Seq<char> {
    "Security type apart from Vnc Auth has not been implemented"@
}

/// Builds the unimplemented-security-type message.
fn vnc_auth_only_message() -> (r: String)
    ensures
        r@ == unimplemented_security_msg(),
{
    let s: &str = "Security type apart from Vnc Auth has not been implemented";
    s.to_owned()
}

/// Whether a security-type list offers the given tag.
pub open spec fn has_sec_type(b: Seq<u8>, tag: u8) -> bool
    decreases b.len(),
{
    if b.len() == 0 {
        false
    } else {
        has_sec_type(b.drop_last(), tag) || b.last() == tag
    }
}

/// How many bytes each state consumes.
pub open spec fn spec_needed(st: HandshakeState) -> int {
    match st {
        HandshakeState::AwaitVersion => 12,
        HandshakeState::AwaitSecurity33 => 4,
        HandshakeState::AwaitSecurityCount => 1,
        HandshakeState::AwaitSecurityList(n) => n as int,
        HandshakeState::AwaitNoneResult => 4,
        HandshakeState::NeedCredential => 0,
        HandshakeState::AwaitChallenge(_) => 16,
        HandshakeState::AwaitAuthResult => 4,
        HandshakeState::AwaitReasonLen => 4,
        HandshakeState::AwaitReason(n) => n as int,
        HandshakeState::Done => 0,
        HandshakeState::Failed => 0,
    }
}

/// The whole contract of one byte-fed step, state by state.
pub open spec fn step_post(
    pre: Handshake,
    b: Seq<u8>,
    post: Handshake,
    r: Result<HandshakeOutput, VncError>,
) -> bool {
    match pre.st() {
        HandshakeState::AwaitVersion => {
            let negotiated = min_version(pre.spec_max_version(), version_of_banner(b));
            &&& post.spec_version() == negotiated
            &&& (r matches Ok(o) && o.to_write@ == banner_bytes(negotiated) && !o.want_credential
                && !o.done)
            &&& post.st() == (if negotiated is RFB33 {
                HandshakeState::AwaitSecurity33
            } else {
                HandshakeState::AwaitSecurityCount
            })
        },
        HandshakeState::AwaitSecurity33 => {
            let t = be32_at(b, 0);
            &&& post.spec_version() == pre.spec_version()
            &&& if t == 0 {
                post.st() is AwaitReasonLen && (r matches Ok(o) && o.to_write@.len() == 0
                    && !o.want_credential && !o.done)
            } else if t == 1 {
                post.st() is Done && (r matches Ok(o) && o.to_write@.len() == 0
                    && !o.want_credential && o.done)
            } else if t == 2 {
                post.st() is NeedCredential && (r matches Ok(o) && o.to_write@.len() == 0
                    && o.want_credential && !o.done)
            } else if t <= 255 && security_type_of_num(t as u8) is Some {
                post.st() is Failed && (r matches Err(e) && (e matches VncError::General(m) && m@
                    == unimplemented_security_msg()))
            } else {
                post.st() is Failed && r == Err::<HandshakeOutput, VncError>(
                    VncError::InvalidSecurityType(t as u8),
                )
            }
        },
        HandshakeState::AwaitSecurityCount => {
            &&& post.spec_version() == pre.spec_version()
            &&& (r matches Ok(o) && o.to_write@.len() == 0 && !o.want_credential && !o.done)
            &&& post.st() == (if b[0] == 0 {
                HandshakeState::AwaitReasonLen
            } else {
                HandshakeState::AwaitSecurityList(b[0])
            })
        },
        HandshakeState::AwaitSecurityList(_) => {
            &&& post.spec_version() == pre.spec_version()
            &&& if has_sec_type(b, 1) {
                match pre.spec_version() {
                    VncVersion::RFB33 => post.st() is Done && (r matches Ok(o)
                        && o.to_write@.len() == 0 && o.done),
                    VncVersion::RFB37 => post.st() is Done && (r matches Ok(o) && o.to_write@
                        == seq![1u8] && o.done),
                    VncVersion::RFB38 => post.st() is AwaitNoneResult && (r matches Ok(o)
                        && o.to_write@ == seq![1u8] && !o.done),
                }
            } else if has_sec_type(b, 2) {
                post.st() is NeedCredential && (r matches Ok(o) && o.want_credential && !o.done
                    && o.to_write@ == (if pre.spec_version() is RFB33 {
                    Seq::<u8>::empty()
                } else {
                    seq![2u8]
                }))
            } else {
                post.st() is Failed && (r matches Err(e) && (e matches VncError::General(m) && m@
                    == unimplemented_security_msg()))
            }
        },
        HandshakeState::AwaitNoneResult => {
            &&& post.spec_version() == pre.spec_version()
            &&& if be32_at(b, 0) == 0 {
                post.st() is Done && (r matches Ok(o) && o.to_write@.len() == 0 && o.done)
            } else {
                post.st() is AwaitReasonLen && (r matches Ok(o) && o.to_write@.len() == 0
                    && !o.done)
            }
        },
        HandshakeState::AwaitChallenge(pw) => {
            &&& post.spec_version() == pre.spec_version()
            &&& post.st() is AwaitAuthResult
            &&& (r matches Ok(o) && o.to_write@ == auth_response_of(pw@, b) && !o.want_credential
                && !o.done)
        },
        HandshakeState::AwaitAuthResult => {
            let t = be32_at(b, 0);
            &&& post.spec_version() == pre.spec_version()
            &&& if t == 0 {
                post.st() is Done && (r matches Ok(o) && o.to_write@.len() == 0 && o.done)
            } else if pre.spec_version() is RFB37 {
                post.st() is Failed && r == Err::<HandshakeOutput, VncError>(
                    VncError::WrongPassword,
                )
            } else {
                post.st() is AwaitReasonLen && (r matches Ok(o) && o.to_write@.len() == 0
                    && !o.done)
            }
        },
        HandshakeState::AwaitReasonLen => {
            &&& post.spec_version() == pre.spec_version()
            &&& post.st() == HandshakeState::AwaitReason(be32_at(b, 0))
            &&& (r matches Ok(o) && o.to_write@.len() == 0 && !o.want_credential && !o.done)
        },
        HandshakeState::AwaitReason(_) => {
            &&& post.st() is Failed
            &&& (r matches Err(e) && (e matches VncError::General(m) && m@ == utf8_lossy_chars(
                b,
            )))
        },
        _ => false,
    }
}

} // verus!
