//! Security-type negotiation and VNC challenge/response authentication.
//!
//! VNC-Auth builds an 8-byte DES key from the password — zero-padded or
//! truncated to 8 bytes and then **bit-reversed per byte**, an idiosyncrasy
//! of VNC — and encrypts the 16-byte server challenge as two independent
//! DES-ECB blocks.

use vstd::prelude::*;
use des::cipher::{BlockCipherEncrypt, KeyInit};
use crate::error::VncError;
use crate::wire::sub_bytes;

verus! {

/// The security types of the RFB handshake. `None` and `VncAuth` are
/// implemented; the others are recognised tags that this client refuses
/// with a `General` error during negotiation.
#[derive(Debug, Clone, Copy, PartialEq, Eq, Structural)]
pub enum SecurityType {
    Invalid,
    NoneAuth,
    VncAuth,
    RA2,
    RA2ne,
    Tight,
    Ultra,
    Tls,
    VeNCrypt,
    GtkVncSasl,
    Md5Hash,
    ColinDeanXvp,
}

/// The wire byte of a security type.
pub open spec fn security_type_num(t: SecurityType) -> u8 {
    match t {
        SecurityType::Invalid => 0,
        SecurityType::NoneAuth => 1,
        SecurityType::VncAuth => 2,
        SecurityType::RA2 => 5,
        SecurityType::RA2ne => 6,
        SecurityType::Tight => 16,
        SecurityType::Ultra => 17,
        SecurityType::Tls => 18,
        SecurityType::VeNCrypt => 19,
        SecurityType::GtkVncSasl => 20,
        SecurityType::Md5Hash => 21,
        SecurityType::ColinDeanXvp => 22,
    }
}

/// The security type a wire byte stands for, if it is a recognised tag.
pub open spec fn security_type_of_num(n: u8) -> Option<SecurityType> {
    if n == 0 {
        Some(SecurityType::Invalid)
    } else if n == 1 {
        Some(SecurityType::NoneAuth)
    } else if n == 2 {
        Some(SecurityType::VncAuth)
    } else if n == 5 {
        Some(SecurityType::RA2)
    } else if n == 6 {
        Some(SecurityType::RA2ne)
    } else if n == 16 {
        Some(SecurityType::Tight)
    } else if n == 17 {
        Some(SecurityType::Ultra)
    } else if n == 18 {
        Some(SecurityType::Tls)
    } else if n == 19 {
        Some(SecurityType::VeNCrypt)
    } else if n == 20 {
        Some(SecurityType::GtkVncSasl)
    } else if n == 21 {
        Some(SecurityType::Md5Hash)
    } else if n == 22 {
        Some(SecurityType::ColinDeanXvp)
    } else {
        None
    }
}

impl SecurityType {
    /// Maps a wire byte to its security type; an unrecognised byte is a
    /// hard `InvalidSecurityType` error.
    pub fn try_from_u8(n: u8) -> (r: Result<SecurityType, VncError>)
        ensures
            security_type_of_num(n) is Some <==> r is Ok,
            r is Ok ==> security_type_of_num(n) == Some(r->Ok_0) && security_type_num(r->Ok_0)
                == n,
            r is Err ==> r->Err_0 == VncError::InvalidSecurityType(n),
    {
        if n == 0 {
            Ok(SecurityType::Invalid)
        } else if n == 1 {
            Ok(SecurityType::NoneAuth)
        } else if n == 2 {
            Ok(SecurityType::VncAuth)
        } else if n == 5 {
            Ok(SecurityType::RA2)
        } else if n == 6 {
            Ok(SecurityType::RA2ne)
        } else if n == 16 {
            Ok(SecurityType::Tight)
        } else if n == 17 {
            Ok(SecurityType::Ultra)
        } else if n == 18 {
            Ok(SecurityType::Tls)
        } else if n == 19 {
            Ok(SecurityType::VeNCrypt)
        } else if n == 20 {
            Ok(SecurityType::GtkVncSasl)
        } else if n == 21 {
            Ok(SecurityType::Md5Hash)
        } else if n == 22 {
            Ok(SecurityType::ColinDeanXvp)
        } else {
            Err(VncError::InvalidSecurityType(n))
        }
    }

    /// The wire byte of this security type.
    pub fn to_u8(self) -> (r: u8)
        ensures
            r == security_type_num(self),
    {
        match self {
            SecurityType::Invalid => 0,
            SecurityType::NoneAuth => 1,
            SecurityType::VncAuth => 2,
            SecurityType::RA2 => 5,
            SecurityType::RA2ne => 6,
            SecurityType::Tight => 16,
            SecurityType::Ultra => 17,
            SecurityType::Tls => 18,
            SecurityType::VeNCrypt => 19,
            SecurityType::GtkVncSasl => 20,
            SecurityType::Md5Hash => 21,
            SecurityType::ColinDeanXvp => 22,
        }
    }
}

/// A byte with its bits reversed: the most significant bit swaps with the
/// least significant one, and so on inwards.
pub open spec fn reverse_bits(c: u8) -> u8 {
    (((c >> 7) & 1) | (((c >> 6) & 1) << 1) | (((c >> 5) & 1) << 2) | (((c >> 4) & 1) << 3) | (((c
        >> 3) & 1) << 4) | (((c >> 2) & 1) << 5) | (((c >> 1) & 1) << 6) | ((c & 1) << 7)) as u8
}

/// The VNC-Auth DES key of a password: its first 8 bytes, zero-padded when
/// shorter, each byte bit-reversed.
pub open spec fn auth_key_of(password: Seq<u8>) -> Seq<u8> {
    Seq::new(
        8,
        |i: int|
            reverse_bits(
                if i < password.len() {
                    password[i]
                } else {
                    0
                },
            ),
    )
}

/// What a DES-ECB block encryption returns for a key and one 8-byte block.
pub uninterp spec fn des_block_of(key: Seq<u8>, block: Seq<u8>) -> Seq<u8>;

/// The 16-byte VNC-Auth response: the two challenge halves, each encrypted
/// as an independent DES-ECB block under the bit-reversed password key.
pub open spec fn auth_response_of(password: Seq<u8>, challenge: Seq<u8>) -> Seq<u8> {
    des_block_of(auth_key_of(password), challenge.subrange(0, 8)) + des_block_of(
        auth_key_of(password),
        challenge.subrange(8, 16),
    )
}

/// Reverses the bits of one byte.
pub fn reverse_bits_exec(c: u8) -> (r: u8)
    ensures
        r == reverse_bits(c),
{
    ((c >> 7) & 1) | (((c >> 6) & 1) << 1) | (((c >> 5) & 1) << 2) | (((c >> 4) & 1) << 3) | (((c
        >> 3) & 1) << 4) | (((c >> 2) & 1) << 5) | (((c >> 1) & 1) << 6) | ((c & 1) << 7)
}

/// Derives the 8-byte VNC-Auth DES key from the password bytes.
pub fn auth_key(password: &Vec<u8>) -> (r: Vec<u8>)
    ensures
        r@ == auth_key_of(password@),
        r@.len() == 8,
{
    let mut r: Vec<u8> = Vec::new();
    for i in 0..8usize
        invariant
            r@.len() == i,
            forall|j: int| 0 <= j < i ==> r@[j] == auth_key_of(password@)[j],
    {
        let c: u8 = if i < password.len() {
            password[i]
        } else {
            0
        };
        r.push(reverse_bits_exec(c));
    }
    assert(r@ =~= auth_key_of(password@));
    r
}

/// An empty password derives the all-zero DES key.
pub proof fn lemma_empty_password_key()
    ensures
        auth_key_of(Seq::<u8>::empty()) =~= seq![0u8, 0, 0, 0, 0, 0, 0, 0],
{
    assert((((0u8 >> 7) & 1) | (((0u8 >> 6) & 1) << 1) | (((0u8 >> 5) & 1) << 2) | (((0u8 >> 4) & 1)
        << 3) | (((0u8 >> 3) & 1) << 4) | (((0u8 >> 2) & 1) << 5) | (((0u8 >> 1) & 1) << 6) | ((0u8
        & 1) << 7)) as u8 == 0) by (bit_vector);
    assert(reverse_bits(0) == 0);
}

/// Relies on `des::Des` (`KeyInit::new_from_slice` and
/// `BlockCipherEncrypt::encrypt_block`): DES-ECB encryption of one 8-byte
/// block, a function of the key and block bytes alone.
#[verifier::external_body]
fn des_encrypt_block(key: &Vec<u8>, block: &Vec<u8>) -> (r: Vec<u8>)
    requires
        key@.len() == 8,
        block@.len() == 8,
    ensures
        r@ == des_block_of(key@, block@),
        r@.len() == 8,
{
    let cipher = des::Des::new_from_slice(key.as_slice()).unwrap();
    let mut b: des::cipher::Block<des::Des> = Default::default();
    b.copy_from_slice(block.as_slice());
    cipher.encrypt_block(&mut b);
    b.to_vec()
}

/// Computes the 16-byte VNC-Auth response for a challenge: each half is
/// encrypted as an independent DES-ECB block under the password key.
pub fn auth_response(password: &Vec<u8>, challenge: &Vec<u8>) -> (r: Vec<u8>)
    requires
        challenge@.len() == 16,
    ensures
        r@ == auth_response_of(password@, challenge@),
        r@.len() == 16,
{
    let key = auth_key(password);
    let c0 = sub_bytes(challenge, 0, 8);
    let c1 = sub_bytes(challenge, 8, 16);
    let mut r = des_encrypt_block(&key, &c0);
    let mut r1 = des_encrypt_block(&key, &c1);
    r.append(&mut r1);
    r
}

} // verus!
