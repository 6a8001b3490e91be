//! Wire-level messages between client and server, and the hand-rolled
//! byte framing of the client hello.
//!
//! The client hello is one byte of version-and-flag — the version in the
//! upper seven bits, a certificate-present flag in the lowest bit — and,
//! when the flag is set, a two-byte little-endian length of the RSA
//! modulus, a one-byte length of the public exponent, then the modulus and
//! exponent bytes themselves, both little-endian.

use crate::config::CURRENT_VERSION;
use crate::errors::Error;
use crate::ident::Identifier;
use crate::treebuilder::TreeChange;
use vstd::bytes::{spec_u16_from_le_bytes, spec_u16_to_le_bytes, u16_from_le_bytes, u16_to_le_bytes};
use vstd::prelude::*;
use vstd::slice::{slice_subrange, slice_to_vec};

verus! {

/// Everything that crosses the wire, in either direction.
#[derive(Debug)]
pub enum Message {
    /// Version, and optionally the client's RSA public key as little-endian
    /// modulus and exponent bytes.
    ClientHello(u8, Option<(Vec<u8>, Vec<u8>)>),
    /// A nonce encrypted with the client's public key.
    ServerAuth(Vec<u8>),
    /// The nonce decrypted.
    ClientAuth(Vec<u8>),
    /// Session number and validity time in seconds, sent after
    /// authentication.
    ServerAccept(u64, u16),
    ServerRefreshPermissions,
    /// One tree edit to apply and broadcast.
    ServerChange(TreeChange),
    /// Human-readable status or error for a client.
    ServerLog(String),
    /// The client's content hash, compared against the server's to detect
    /// divergence.
    ClientHash(u64),
    /// A request to press the button node with this id.
    ClientTrigger(Identifier),
    ClientAddPermissions(Vec<u8>, Vec<u8>),
}

/// Whether a message is a `ClientHello` carrying a certificate.
pub fn client_hello_has_rsa_key(message: &Message) -> (r: bool)
    ensures
        r == (message matches Message::ClientHello(_, Some(_))),
{
    match message {
        Message::ClientHello(_, Some(_)) => true,
        _ => false,
    }
}

/// Builds the RSA public key from a `ClientHello` carrying a certificate.
///
/// Any other message fails with `DecodeError`. Whether the carried bytes
/// form a valid key is the RSA library's validation, a pure function of
/// the bytes named by `rsa_key_accepted`: the key is returned exactly when
/// the bytes are accepted, and a rejection surfaces as `Foreign`.
pub fn client_hello_rsa_key(message: &Message) -> (r: Result<rsa::RsaPublicKey, Error>)
    ensures
        !(message matches Message::ClientHello(_, Some(_))) ==> (r matches Err(
            Error::DecodeError(_),
        )),
        message matches Message::ClientHello(_, Some((n, e))) ==> ((r is Ok <==> rsa_key_accepted(
            n@,
            e@,
        )) && (!rsa_key_accepted(n@, e@) ==> r matches Err(Error::Foreign(_)))),
{
    match message {
        Message::ClientHello(_, Some((n, e))) => {
            match rsa_key_from_le_bytes(n.as_slice(), e.as_slice()) {
                Ok(key) => Ok(key),
                Err(text) => Err(Error::Foreign(text)),
            }
        },
        _ => Err(Error::DecodeError("client hello carries no certificate")),
    }
}

/// The byte frame of a client hello with a certificate: the version
/// shifted left once with the flag bit set, the two-byte little-endian
/// modulus length, the one-byte exponent length, then modulus and exponent
/// bytes.
pub open spec fn serialized_hello(version: u8, n: Seq<u8>, e: Seq<u8>) -> Seq<u8> {
    seq![(version << 1) | 1] + spec_u16_to_le_bytes(n.len() as u16) + seq![e.len() as u8] + n + e
}

/// Serializes a client hello carrying a certificate, given as the
/// little-endian bytes of modulus and exponent. A 2048-bit key yields at
/// most 256 modulus bytes and 3 exponent bytes; larger inputs do not fit
/// the frame.
pub fn serialize(version: u8, n_bytes: &Vec<u8>, e_bytes: &Vec<u8>) -> (r: Vec<u8>)
    requires
        n_bytes@.len() <= 256,
        e_bytes@.len() <= 3,
    ensures
        r@ == serialized_hello(version, n_bytes@, e_bytes@),
{
    let mut buf: Vec<u8> = Vec::new();
    buf.push((version << 1) | 1);
    let mut len_bytes = u16_to_le_bytes(n_bytes.len() as u16);
    buf.append(&mut len_bytes);
    buf.push(e_bytes.len() as u8);
    let mut n_copy = slice_to_vec(n_bytes.as_slice());
    buf.append(&mut n_copy);
    let mut e_copy = slice_to_vec(e_bytes.as_slice());
    buf.append(&mut e_copy);
    proof {
        assert(buf@ =~= serialized_hello(version, n_bytes@, e_bytes@));
    }
    buf
}

/// Serializes a client hello without a certificate: one byte, the version
/// shifted left once with the flag bit clear.
pub fn serialize_without_cert(version: u8) -> (r: [u8; 1])
    ensures
        r@ == seq![version << 1],
{
    [version << 1]
}

/// What a well-formed client hello frame holds: the version (which must be
/// current) and, when the flag bit is set, the modulus and exponent bytes.
/// Anything else — a wrong version, a truncated frame, trailing bytes —
/// is malformed.
pub open spec fn client_hello_frame(bytes: Seq<u8>) -> Option<(u8, Option<(Seq<u8>, Seq<u8>)>)> {
    if bytes.len() == 0 {
        None
    } else {
        let version = (bytes[0] & 0xfe) >> 1;
        if version != CURRENT_VERSION {
            None
        } else if bytes[0] & 1 == 0 {
            if bytes.len() == 1 {
                Some((version, None))
            } else {
                None
            }
        } else if bytes.len() < 4 {
            None
        } else {
            let n_size = spec_u16_from_le_bytes(bytes.subrange(1, 3)) as int;
            let e_size = bytes[3] as int;
            if bytes.len() == 4 + n_size + e_size {
                Some(
                    (
                        version,
                        Some(
                            (
                                bytes.subrange(4, 4 + n_size),
                                bytes.subrange(4 + n_size, bytes.len() as int),
                            ),
                        ),
                    ),
                )
            } else {
                None
            }
        }
    }
}

/// Parses one client hello frame, exactly as `client_hello_frame` reads it;
/// a malformed frame fails with `DecodeError`.
pub fn deserialize(bytes: &[u8]) -> (r: Result<(u8, Option<(Vec<u8>, Vec<u8>)>), Error>)
    ensures
        (match client_hello_frame(bytes@) {
            Some((version, cert)) => r is Ok && r->Ok_0.0 == version && (match cert {
                None => r->Ok_0.1 is None,
                Some(parts) => (r->Ok_0.1 matches Some((n, e)) && n@ == parts.0 && e@ == parts.1),
            }),
            None => r matches Err(Error::DecodeError(_)),
        }),
{
    if bytes.len() == 0 {
        return Err(Error::DecodeError("empty client hello frame"));
    }
    let b0 = bytes[0];
    let version = (b0 & 0xfe) >> 1;
    if version != CURRENT_VERSION {
        return Err(Error::DecodeError("unsupported protocol version"));
    }
    if b0 & 1 == 0 {
        if bytes.len() == 1 {
            return Ok((version, None));
        }
        return Err(Error::DecodeError("trailing bytes after bare client hello"));
    }
    if bytes.len() < 4 {
        return Err(Error::DecodeError("truncated client hello header"));
    }
    let n_size = u16_from_le_bytes(slice_subrange(bytes, 1, 3)) as usize;
    let e_size = bytes[3] as usize;
    if bytes.len() != 4 + n_size + e_size {
        return Err(Error::DecodeError("client hello length does not match its header"));
    }
    let n_bytes = slice_to_vec(slice_subrange(bytes, 4, 4 + n_size));
    let e_bytes = slice_to_vec(slice_subrange(bytes, 4 + n_size, bytes.len()));
    Ok((version, Some((n_bytes, e_bytes))))
}

/// A serialized client hello with a certificate parses back to exactly the
/// version and key bytes it was built from.
pub proof fn lemma_hello_round_trip(n: Seq<u8>, e: Seq<u8>)
    requires
        n.len() <= 256,
        e.len() <= 3,
    ensures
        client_hello_frame(serialized_hello(CURRENT_VERSION, n, e)) == Some(
            (CURRENT_VERSION, Some((n, e))),
        ),
{
    let bytes = serialized_hello(CURRENT_VERSION, n, e);
    vstd::bytes::lemma_auto_spec_u16_to_from_le_bytes();
    assert(spec_u16_to_le_bytes(n.len() as u16).len() == 2);
    assert(bytes[0] == (CURRENT_VERSION << 1) | 1);
    assert(((1u8 << 1) | 1) == 3u8) by (bit_vector);
    assert((3u8 & 0xfe) >> 1 == 1u8) by (bit_vector);
    assert((3u8 & 1) == 1u8) by (bit_vector);
    assert(bytes.subrange(1, 3) =~= spec_u16_to_le_bytes(n.len() as u16));
    assert(spec_u16_from_le_bytes(spec_u16_to_le_bytes(n.len() as u16)) == n.len() as u16);
    assert(bytes[3] == e.len() as u8);
    assert(bytes.len() == 4 + n.len() + e.len());
    assert(bytes.subrange(4, 4 + n.len() as int) =~= n);
    assert(bytes.subrange(4 + n.len() as int, bytes.len() as int) =~= e);
}

/// A serialized bare client hello parses back to the version alone.
pub proof fn lemma_bare_hello_round_trip()
    ensures
        client_hello_frame(seq![CURRENT_VERSION << 1]) == Some(
            (CURRENT_VERSION, None::<(Seq<u8>, Seq<u8>)>),
        ),
{
    let bytes = seq![CURRENT_VERSION << 1];
    assert((1u8 << 1) == 2u8) by (bit_vector);
    assert((2u8 & 0xfe) >> 1 == 1u8) by (bit_vector);
    assert((2u8 & 1) == 0u8) by (bit_vector);
}

#[verifier::external_type_specification]
#[verifier::external_body]
pub struct ExRsaPublicKey(rsa::RsaPublicKey);

/// Whether the RSA library accepts these little-endian modulus and
/// exponent bytes as a public key. `RsaPublicKey::new`'s validation reads
/// its arguments alone — bit size, exponent range, parity — so acceptance
/// is a pure function of the bytes; its full statement is the library's
/// own, so it is only named here.
pub uninterp spec fn rsa_key_accepted(n: Seq<u8>, e: Seq<u8>) -> bool;

/// Relies on `rsa::RsaPublicKey::new`, applied to the little-endian values
/// of the two byte strings (`rsa::BigUint::from_bytes_le` converts the
/// arguments): it validates modulus and exponent, succeeding exactly on
/// the pairs `rsa_key_accepted` names; a rejection is carried as its debug
/// text.
#[verifier::external_body]
fn rsa_key_from_le_bytes(n: &[u8], e: &[u8]) -> (r: Result<rsa::RsaPublicKey, String>)
    ensures
        r is Ok <==> rsa_key_accepted(n@, e@),
{
    rsa::RsaPublicKey::new(rsa::BigUint::from_bytes_le(n), rsa::BigUint::from_bytes_le(e))
        .map_err(|err| format!("{:?}", err))
}

} // verus!
