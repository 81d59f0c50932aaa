//! Owner identities: secp256k1 public keys in their compressed encoding.
//!
//! A key has one text: the lowercase hexadecimal of its 33 compressed bytes.
//! Any other spelling of a key (uppercase digits, the uncompressed point) is
//! refused rather than normalized, so that equal keys always name the same
//! storage namespace.

use crate::hex::{hex_lower, is_hex_of, lemma_hex_lower_is_injective, to_hex};
use vstd::prelude::*;

verus! {

/// The length of a compressed public key.
pub const PUBLIC_KEY_SIZE: usize = 33;

/// `secp256k1::PublicKey`, of which nothing is known here: `into_inner`
/// hands one out, and no verified code reads it.
#[verifier::external_type_specification]
#[verifier::external_body]
pub struct ExPublicKey(secp256k1::PublicKey);

/// The compressed serialization of the key that secp256k1 reads from a text,
/// or nothing where it reads no key.
pub uninterp spec fn compressed_point(text: Seq<char>) -> Option<Seq<u8>>;

/// `<secp256k1::PublicKey as FromStr>::from_str`, then `PublicKey::serialize`
/// on the key read. The text may spell the point in any way that secp256k1
/// accepts; the bytes that come back are always its compressed form.
#[verifier::external_body]
fn parse_point(text: &str) -> (point: Option<[u8; 33]>)
    ensures
        compressed_point(text@) == match point {
            Some(bytes) => Some(bytes@),
            None => None,
        },
{
    match text.parse::<secp256k1::PublicKey>() {
        Ok(key) => Some(key.serialize()),
        Err(_) => None,
    }
}

/// Whether a text is the canonical text of a key: secp256k1 reads a key from
/// it, and it is the lowercase hexadecimal of that key's compressed bytes.
pub open spec fn is_key_text(text: Seq<char>) -> bool {
    compressed_point(text) matches Some(bytes) && hex_lower(bytes) == text
}

/// The compressed bytes of the key that a canonical text spells.
pub open spec fn key_of_text(text: Seq<char>) -> Seq<u8>
    recommends
        is_key_text(text),
{
    compressed_point(text)->0
}

/// Whether bytes are the compressed form of a key: there are 33 of them, and
/// secp256k1 reads from their text the key that serializes to them.
pub open spec fn is_key_bytes(bytes: Seq<u8>) -> bool {
    &&& bytes.len() == PUBLIC_KEY_SIZE
    &&& compressed_point(hex_lower(bytes)) == Some(bytes)
}

/// The text or the bytes were not the canonical encoding of a public key.
#[derive(Clone, Copy, Debug, PartialEq, Eq, Structural)]
pub struct InvalidKeyEncoding;

/// An owner identity: a valid secp256k1 public key, held as its compressed
/// bytes.
#[derive(Clone, Copy, Debug)]
pub struct Secp256k1PubKey {
    bytes: [u8; 33],
}

impl View for Secp256k1PubKey {
    type V = Seq<u8>;

    closed spec fn view(&self) -> Seq<u8> {
        self.bytes@
    }
}

impl Secp256k1PubKey {
    /// The key's bytes are the compressed form of a point that secp256k1
    /// accepts.
    pub open spec fn wf(&self) -> bool {
        is_key_bytes(self@)
    }

    /// Reads a key from its canonical text, and from nothing else.
    pub fn try_from(value: &str) -> (r: Result<Self, InvalidKeyEncoding>)
        ensures
            r is Ok <==> is_key_text(value@),
            r matches Ok(key) ==> key@ == key_of_text(value@) && key.wf(),
    {
        match parse_point(value) {
            None => Err(InvalidKeyEncoding),
            Some(bytes) => {
                if is_hex_of(value, &bytes) {
                    Ok(Secp256k1PubKey { bytes })
                } else {
                    Err(InvalidKeyEncoding)
                }
            },
        }
    }

    /// Reads a key from its compressed bytes.
    pub fn from_bytes(bytes: &[u8]) -> (r: Result<Self, InvalidKeyEncoding>)
        ensures
            r is Ok <==> is_key_bytes(bytes@),
            r matches Ok(key) ==> key@ == bytes@ && key.wf(),
    {
        if bytes.len() != PUBLIC_KEY_SIZE {
            return Err(InvalidKeyEncoding);
        }
        let text = to_hex(bytes);
        let r = Self::try_from(text.as_str());
        proof {
            if is_key_text(text@) {
                lemma_hex_lower_is_injective(key_of_text(text@), bytes@);
            }
        }
        r
    }

    /// The key's compressed bytes.
    pub fn to_bytes(&self) -> (bytes: Vec<u8>)
        ensures
            bytes@ == self@,
            bytes@.len() == PUBLIC_KEY_SIZE,
    {
        let mut bytes: Vec<u8> = Vec::new();
        let mut i: usize = 0;
        while i < 33
            invariant
                0 <= i <= 33,
                bytes@ == self@.take(i as int),
            decreases 33 - i,
        {
            bytes.push(self.bytes[i]);
            assert(bytes@ =~= self@.take(i + 1));
            i += 1;
        }
        assert(self@.take(33) =~= self@);
        bytes
    }

    /// The key's compressed bytes, as an array.
    pub fn compressed(&self) -> (bytes: [u8; 33])
        ensures
            bytes@ == self@,
    {
        self.bytes
    }

    /// The key's canonical text.
    pub fn to_string(&self) -> (text: String)
        ensures
            text@ == hex_lower(self@),
            text@.len() == 2 * PUBLIC_KEY_SIZE,
    {
        to_hex(&self.bytes)
    }

    /// `secp256k1::PublicKey::from_byte_array_compressed` on the key's bytes:
    /// the key as secp256k1 holds it, for callers that hand it on to that
    /// crate. A well-formed key always converts: its bytes are those that
    /// secp256k1 read from their own text, and it reads such a text by this
    /// same function. Nothing else is stated of the value, which is opaque
    /// here.
    #[verifier::external_body]
    pub fn into_inner(&self) -> (key: Option<secp256k1::PublicKey>)
        ensures
            self.wf() ==> key is Some,
    {
        secp256k1::PublicKey::from_byte_array_compressed(self.bytes).ok()
    }
}

/// A public key as it reaches the gateway: raw bytes that nothing has
/// checked yet, or a key that was read and found valid.
pub enum PubKey {
    Secp256k1Bytes(Vec<u8>),
    Secp256k1(Secp256k1PubKey),
}

impl PubKey {
    /// The bytes that the value holds, checked or not.
    pub open spec fn bytes(&self) -> Seq<u8> {
        match self {
            PubKey::Secp256k1Bytes(bytes) => bytes@,
            PubKey::Secp256k1(key) => key@,
        }
    }

    /// The valid key that the value stands for: raw bytes are read as a
    /// compressed key, a key that was read already is handed back.
    pub fn resolve(&self) -> (r: Result<Secp256k1PubKey, InvalidKeyEncoding>)
        ensures
            match self {
                PubKey::Secp256k1Bytes(bytes) => r is Ok <==> is_key_bytes(bytes@),
                PubKey::Secp256k1(_) => r is Ok,
            },
            r matches Ok(key) ==> key@ == self.bytes(),
    {
        match self {
            PubKey::Secp256k1Bytes(bytes) => Secp256k1PubKey::from_bytes(bytes.as_slice()),
            PubKey::Secp256k1(key) => Ok(*key),
        }
    }
}

/// Reading a key's text back gives the same key: for a canonical text `s`,
/// the text of the key read from `s` is `s` itself, so parsing it again reads
/// the same key.
pub proof fn lemma_key_text_round_trip(text: Seq<char>)
    requires
        is_key_text(text),
    ensures
        hex_lower(key_of_text(text)) == text,
        is_key_text(hex_lower(key_of_text(text))),
        key_of_text(hex_lower(key_of_text(text))) == key_of_text(text),
{
}

/// A key has one canonical text: two canonical texts of the same key are the
/// same text.
pub proof fn lemma_key_text_is_unique(a: Seq<char>, b: Seq<char>)
    requires
        is_key_text(a),
        is_key_text(b),
        key_of_text(a) == key_of_text(b),
    ensures
        a == b,
{
}

} // verus!
