//! Shared secrets between this node and the owner of a public key.

use crate::hex::{hex_lower, to_hex};
use crate::identity::Secp256k1PubKey;
use vstd::prelude::*;

verus! {

/// The length of a private key, and of a shared secret.
pub const SECRET_SIZE: usize = 32;

/// Whether 32 bytes are a private key of secp256k1: not all zero, and below
/// the order of the curve.
pub uninterp spec fn is_secret_key(bytes: Seq<u8>) -> bool;

/// `secp256k1::SecretKey::from_secret_bytes`: whether it reads a private key
/// from the bytes.
#[verifier::external_body]
fn reads_as_secret_key(bytes: &[u8; 32]) -> (ok: bool)
    ensures
        ok == is_secret_key(bytes@),
{
    secp256k1::SecretKey::from_secret_bytes(*bytes).is_ok()
}

/// The secret that elliptic-curve Diffie-Hellman on secp256k1 derives from a
/// private key and a compressed public key, or nothing where the second is
/// not the compressed form of a public key.
pub uninterp spec fn ecdh_secret(private_key: Seq<u8>, public_key: Seq<u8>) -> Option<Seq<u8>>;

/// `secp256k1::ecdh::SharedSecret::new` on the keys that
/// `PublicKey::from_byte_array_compressed` and `SecretKey::from_secret_bytes`
/// read from the bytes given, then `SharedSecret::to_secret_bytes`. The
/// private key is one that `from_secret_bytes` reads, so nothing comes back
/// only where the public key is not read.
#[verifier::external_body]
fn ecdh(private_key: &[u8; 32], public_key: &[u8; 33]) -> (secret: Option<[u8; 32]>)
    requires
        is_secret_key(private_key@),
    ensures
        ecdh_secret(private_key@, public_key@) == match secret {
            Some(bytes) => Some(bytes@),
            None => None,
        },
{
    let point = secp256k1::PublicKey::from_byte_array_compressed(*public_key).ok()?;
    let scalar = secp256k1::SecretKey::from_secret_bytes(*private_key).ok()?;
    Some(secp256k1::ecdh::SharedSecret::new(&point, &scalar).to_secret_bytes())
}

/// The bytes given as this node's private key are not a private key.
#[derive(Clone, Copy, Debug, PartialEq, Eq, Structural)]
pub struct InvalidSecretKey;

/// The counterpart's key is not a key that a secret can be derived from.
#[derive(Clone, Copy, Debug, PartialEq, Eq, Structural)]
pub struct InvalidPublicKey;

/// This node's private key: read and checked once when the node starts, and
/// never handed out again.
pub struct NodeKey {
    bytes: [u8; 32],
}

impl View for NodeKey {
    type V = Seq<u8>;

    closed spec fn view(&self) -> Seq<u8> {
        self.bytes@
    }
}

impl NodeKey {
    /// Every node key is a private key: nothing else is ever made into one.
    #[verifier::type_invariant]
    spec fn is_private_key(self) -> bool {
        is_secret_key(self.bytes@)
    }

    /// What `new` has checked of a key.
    pub open spec fn wf(&self) -> bool {
        is_secret_key(self@)
    }

    /// Takes 32 bytes as this node's private key, if they are one. A node
    /// that is given anything else fails here, when it starts, and not
    /// later in answer to a client.
    pub fn new(bytes: [u8; 32]) -> (r: Result<Self, InvalidSecretKey>)
        ensures
            r is Ok <==> is_secret_key(bytes@),
            r matches Ok(key) ==> key@ == bytes@ && key.wf(),
    {
        if reads_as_secret_key(&bytes) {
            Ok(NodeKey { bytes })
        } else {
            Err(InvalidSecretKey)
        }
    }
}

/// A secret shared by this node and one owner.
pub struct SharedSecret {
    bytes: [u8; 32],
}

impl View for SharedSecret {
    type V = Seq<u8>;

    closed spec fn view(&self) -> Seq<u8> {
        self.bytes@
    }
}

impl SharedSecret {
    pub fn new(bytes: [u8; 32]) -> (secret: Self)
        ensures
            secret@ == bytes@,
    {
        SharedSecret { bytes }
    }

    /// The secret as it is sent: 64 lowercase hexadecimal digits.
    pub fn to_hex(&self) -> (text: String)
        ensures
            text@ == hex_lower(self@),
            text@.len() == 2 * SECRET_SIZE,
    {
        to_hex(&self.bytes)
    }
}

/// Derives the secret that this node shares with the owner of a public key.
/// The secret depends on the two keys alone. The node's key was checked when
/// it was made, so a failure is the counterpart's key.
pub fn derive(node: &NodeKey, counterpart: &Secp256k1PubKey) -> (r: Result<
    SharedSecret,
    InvalidPublicKey,
>)
    ensures
        r is Ok <==> ecdh_secret(node@, counterpart@) is Some,
        r matches Ok(secret) ==> ecdh_secret(node@, counterpart@) == Some(secret@),
{
    proof {
        use_type_invariant(node);
    }
    let point = counterpart.compressed();
    match ecdh(&node.bytes, &point) {
        Some(bytes) => Ok(SharedSecret { bytes }),
        None => Err(InvalidPublicKey),
    }
}

} // verus!
