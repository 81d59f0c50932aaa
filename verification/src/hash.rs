//! Content hashes and lookup keys.
//!
//! A hash is 32 bytes together with the algorithm that produced them. Its
//! text is the lowercase hexadecimal of those bytes, and no other spelling is
//! read as a hash.

use crate::hex::{all_hex_digits, hex_decoded, hex_lower, is_hex_of, is_lower_hex_digit, to_hex};
use crate::text::same_bytes;
use vstd::prelude::*;
use vstd::utf8::encode_utf8;

verus! {

/// The length of a digest, for both algorithms.
pub const HASH_SIZE: usize = 32;

/// Why bytes or a text were not read as a hash.
#[derive(Clone, Copy, Debug, PartialEq, Eq, Structural)]
pub enum HashError {
    /// The bytes are not exactly one digest long.
    InvalidHashLength,
    /// The text is not the canonical text of a digest.
    InvalidHashEncoding,
}

/// Whether a text is the canonical text of a digest: 64 lowercase
/// hexadecimal digits.
pub open spec fn is_digest_text(text: Seq<char>) -> bool {
    &&& text.len() == 2 * HASH_SIZE
    &&& forall|i: int| 0 <= i < text.len() ==> is_lower_hex_digit(#[trigger] text[i])
}

/// `blake3::Hash::from_hex`: reads a digest from exactly 64 hexadecimal
/// digits of either case, and from nothing else.
#[verifier::external_body]
fn digest_from_hex(text: &[u8]) -> (digest: Option<[u8; 32]>)
    ensures
        digest is Some <==> (text@.len() == 64 && all_hex_digits(text@)),
        digest matches Some(bytes) ==> bytes@ == hex_decoded(text@),
{
    match blake3::Hash::from_hex(text) {
        Ok(hash) => Some(*hash.as_bytes()),
        Err(_) => None,
    }
}

/// `blake3::Hash::to_hex`: the digest in lowercase hexadecimal.
#[verifier::external_body]
fn digest_to_hex(bytes: &[u8; 32]) -> (text: String)
    ensures
        text@ == hex_lower(bytes@),
{
    blake3::Hash::from_bytes(*bytes).to_hex().to_string()
}

/// A text of lowercase hexadecimal digits is the text of the bytes that it
/// spells.
proof fn lemma_digest_text_spells_itself(text: Seq<char>)
    requires
        is_digest_text(text),
    ensures
        encode_utf8(text).len() == 64,
        all_hex_digits(encode_utf8(text)),
        hex_lower(hex_decoded(encode_utf8(text))) == text,
{
    let bytes = encode_utf8(text);
    assert(vstd::utf8::is_ascii_chars(text));
    vstd::utf8::is_ascii_chars_encode_utf8(text);
    assert forall|i: int| 0 <= i < text.len() implies bytes[i] == text[i] as u8 && (text[i]
        as u8) as char == text[i] by {
        assert(is_lower_hex_digit(text[i]));
    }
    let spelled = hex_lower(hex_decoded(bytes));
    assert forall|k: int| 0 <= k < 64 implies spelled[k] == text[k] by {
        let i = k / 2;
        assert(is_lower_hex_digit(text[2 * i]));
        assert(is_lower_hex_digit(text[2 * i + 1]));
        assert(bytes[2 * i] == text[2 * i] as u8);
        assert(bytes[2 * i + 1] == text[2 * i + 1] as u8);
    }
    assert(spelled =~= text);
}

/// The text of any bytes holds lowercase hexadecimal digits only.
proof fn lemma_hex_lower_is_lowercase(bytes: Seq<u8>)
    ensures
        forall|i: int|
            0 <= i < hex_lower(bytes).len() ==> is_lower_hex_digit(#[trigger] hex_lower(bytes)[i]),
{
}

/// Reads a digest from its canonical text.
fn parse_digest(text: &str) -> (r: Option<[u8; 32]>)
    ensures
        r is Some <==> is_digest_text(text@),
        r matches Some(bytes) ==> hex_lower(bytes@) == text@,
{
    proof {
        if is_digest_text(text@) {
            lemma_digest_text_spells_itself(text@);
        }
    }
    match digest_from_hex(text.as_bytes()) {
        None => None,
        Some(bytes) => {
            proof {
                lemma_hex_lower_is_lowercase(bytes@);
            }
            if is_hex_of(text, &bytes) {
                Some(bytes)
            } else {
                None
            }
        },
    }
}

/// Copies a digest out of a slice that is exactly one digest long.
fn digest_from_slice(bytes: &[u8]) -> (r: Option<[u8; 32]>)
    ensures
        r is Some <==> bytes@.len() == HASH_SIZE,
        r matches Some(digest) ==> digest@ == bytes@,
{
    if bytes.len() != HASH_SIZE {
        return None;
    }
    let mut digest = [0u8; 32];
    let mut i: usize = 0;
    while i < HASH_SIZE
        invariant
            0 <= i <= HASH_SIZE,
            bytes@.len() == HASH_SIZE,
            forall|k: int| 0 <= k < i ==> digest@[k] == bytes@[k],
        decreases HASH_SIZE - i,
    {
        digest[i] = bytes[i];
        i += 1;
    }
    assert(digest@ =~= bytes@);
    Some(digest)
}

fn digest_to_vec(digest: &[u8; 32]) -> (bytes: Vec<u8>)
    ensures
        bytes@ == digest@,
{
    let mut bytes: Vec<u8> = Vec::new();
    let mut i: usize = 0;
    while i < HASH_SIZE
        invariant
            0 <= i <= HASH_SIZE,
            bytes@ == digest@.take(i as int),
        decreases HASH_SIZE - i,
    {
        bytes.push(digest[i]);
        assert(bytes@ =~= digest@.take(i + 1));
        i += 1;
    }
    assert(digest@.take(32) =~= digest@);
    bytes
}

/// A whole-content digest, as used to address an object.
#[derive(Clone, Copy, Debug)]
pub struct Blake3Hash(pub [u8; 32]);

impl View for Blake3Hash {
    type V = Seq<u8>;

    open spec fn view(&self) -> Seq<u8> {
        self.0@
    }
}

impl Blake3Hash {
    /// Takes raw bytes as a digest, if there are exactly 32 of them.
    pub fn from_bytes(bytes: &[u8]) -> (r: Result<Self, HashError>)
        ensures
            r is Ok <==> bytes@.len() == HASH_SIZE,
            r matches Ok(hash) ==> hash@ == bytes@,
            r matches Err(e) ==> e == HashError::InvalidHashLength,
    {
        match digest_from_slice(bytes) {
            Some(digest) => Ok(Blake3Hash(digest)),
            None => Err(HashError::InvalidHashLength),
        }
    }

    /// Reads a digest from its canonical text.
    pub fn from_hex(text: &str) -> (r: Result<Self, HashError>)
        ensures
            r is Ok <==> is_digest_text(text@),
            r matches Ok(hash) ==> hex_lower(hash@) == text@,
            r matches Err(e) ==> e == HashError::InvalidHashEncoding,
    {
        match parse_digest(text) {
            Some(digest) => Ok(Blake3Hash(digest)),
            None => Err(HashError::InvalidHashEncoding),
        }
    }

    pub fn to_bytes(&self) -> (bytes: Vec<u8>)
        ensures
            bytes@ == self@,
    {
        digest_to_vec(&self.0)
    }

    /// The digest's canonical text.
    pub fn to_string(&self) -> (text: String)
        ensures
            text@ == hex_lower(self@),
    {
        digest_to_hex(&self.0)
    }
}

/// The root of a streaming verification tree, as used to retrieve an object
/// piece by piece.
#[derive(Clone, Copy, Debug)]
pub struct BaoHash(pub [u8; 32]);

impl View for BaoHash {
    type V = Seq<u8>;

    open spec fn view(&self) -> Seq<u8> {
        self.0@
    }
}

impl BaoHash {
    /// Takes raw bytes as a digest, if there are exactly 32 of them.
    pub fn try_from(value: &[u8]) -> (r: Result<Self, HashError>)
        ensures
            r is Ok <==> value@.len() == HASH_SIZE,
            r matches Ok(hash) ==> hash@ == value@,
            r matches Err(e) ==> e == HashError::InvalidHashLength,
    {
        match digest_from_slice(value) {
            Some(digest) => Ok(BaoHash(digest)),
            None => Err(HashError::InvalidHashLength),
        }
    }

    /// Reads a digest from its canonical text.
    pub fn from_hex(text: &str) -> (r: Result<Self, HashError>)
        ensures
            r is Ok <==> is_digest_text(text@),
            r matches Ok(hash) ==> hex_lower(hash@) == text@,
            r matches Err(e) ==> e == HashError::InvalidHashEncoding,
    {
        match parse_digest(text) {
            Some(digest) => Ok(BaoHash(digest)),
            None => Err(HashError::InvalidHashEncoding),
        }
    }

    pub fn to_bytes(&self) -> (bytes: Vec<u8>)
        ensures
            bytes@ == self@,
    {
        digest_to_vec(&self.0)
    }

    /// The digest's canonical text.
    pub fn to_string(&self) -> (text: String)
        ensures
            text@ == hex_lower(self@),
    {
        digest_to_hex(&self.0)
    }
}

/// The two algorithms that produce content hashes.
#[derive(Clone, Copy, Debug, PartialEq, Eq, Structural)]
pub enum Algorithm {
    Blake3,
    Bao,
}

/// A content hash with the algorithm that produced it: raw bytes that
/// nothing has checked yet, or a digest.
#[derive(Clone, Debug)]
pub enum Hash {
    Blake3Bytes(Vec<u8>),
    BaoBytes(Vec<u8>),
    Blake3(Blake3Hash),
    Bao(BaoHash),
}

impl Hash {
    /// The algorithm that the hash is tagged with.
    pub open spec fn algorithm(&self) -> Algorithm {
        match self {
            Hash::Blake3Bytes(_) | Hash::Blake3(_) => Algorithm::Blake3,
            Hash::BaoBytes(_) | Hash::Bao(_) => Algorithm::Bao,
        }
    }

    /// The bytes that the hash holds, checked or not.
    pub open spec fn bytes(&self) -> Seq<u8> {
        match self {
            Hash::Blake3Bytes(bytes) => bytes@,
            Hash::BaoBytes(bytes) => bytes@,
            Hash::Blake3(hash) => hash@,
            Hash::Bao(hash) => hash@,
        }
    }

    /// Whether the hash is a digest rather than raw bytes.
    pub open spec fn is_digest(&self) -> bool {
        self is Blake3 || self is Bao
    }

    /// Exec form of `algorithm`.
    pub fn tag(&self) -> (algorithm: Algorithm)
        ensures
            algorithm == self.algorithm(),
    {
        match self {
            Hash::Blake3Bytes(_) => Algorithm::Blake3,
            Hash::Blake3(_) => Algorithm::Blake3,
            Hash::BaoBytes(_) => Algorithm::Bao,
            Hash::Bao(_) => Algorithm::Bao,
        }
    }

    /// The digest that the hash stands for, under the same algorithm: raw
    /// bytes are taken as a digest if there are exactly 32 of them, a digest
    /// is handed back.
    pub fn resolve(&self) -> (r: Result<Hash, HashError>)
        ensures
            r is Ok <==> self.bytes().len() == HASH_SIZE,
            r matches Ok(hash) ==> {
                &&& hash.is_digest()
                &&& hash.algorithm() == self.algorithm()
                &&& hash.bytes() == self.bytes()
            },
            r matches Err(e) ==> e == HashError::InvalidHashLength,
    {
        match self {
            Hash::Blake3Bytes(bytes) => match Blake3Hash::from_bytes(bytes.as_slice()) {
                Ok(hash) => Ok(Hash::Blake3(hash)),
                Err(e) => Err(e),
            },
            Hash::BaoBytes(bytes) => match BaoHash::try_from(bytes.as_slice()) {
                Ok(hash) => Ok(Hash::Bao(hash)),
                Err(e) => Err(e),
            },
            Hash::Blake3(hash) => Ok(Hash::Blake3(*hash)),
            Hash::Bao(hash) => Ok(Hash::Bao(*hash)),
        }
    }

    /// The bytes that the hash holds.
    pub fn to_bytes(&self) -> (bytes: Vec<u8>)
        ensures
            bytes@ == self.bytes(),
    {
        match self {
            Hash::Blake3Bytes(bytes) => bytes.clone(),
            Hash::BaoBytes(bytes) => bytes.clone(),
            Hash::Blake3(hash) => hash.to_bytes(),
            Hash::Bao(hash) => hash.to_bytes(),
        }
    }

    /// Whether two hashes address the same content: they hold the same bytes
    /// and carry the same algorithm. Hashes of different algorithms never
    /// match, whatever their bytes.
    pub fn same_content(&self, other: &Hash) -> (same: bool)
        ensures
            same == (self.algorithm() == other.algorithm() && self.bytes() == other.bytes()),
    {
        let tagged_alike = match (self.tag(), other.tag()) {
            (Algorithm::Blake3, Algorithm::Blake3) => true,
            (Algorithm::Bao, Algorithm::Bao) => true,
            _ => false,
        };
        if !tagged_alike {
            return false;
        }
        let left = self.to_bytes();
        let right = other.to_bytes();
        same_bytes(left.as_slice(), right.as_slice())
    }

    /// The text of the bytes that the hash holds: for a digest, its
    /// canonical text.
    pub fn to_string(&self) -> (text: String)
        ensures
            text@ == hex_lower(self.bytes()),
    {
        match self {
            Hash::Blake3Bytes(bytes) => to_hex(bytes.as_slice()),
            Hash::BaoBytes(bytes) => to_hex(bytes.as_slice()),
            Hash::Blake3(hash) => hash.to_string(),
            Hash::Bao(hash) => hash.to_string(),
        }
    }
}

/// How an object is addressed within one owner's namespace: by the hash of
/// its content, or by a name.
#[derive(Clone, Debug)]
pub enum Lookup {
    Hash(Hash),
    Name(String),
}

impl Lookup {
    /// The text of a lookup key: the text of a hash, or the name itself.
    pub open spec fn text(&self) -> Seq<char> {
        match self {
            Lookup::Hash(hash) => hex_lower(hash.bytes()),
            Lookup::Name(name) => name@,
        }
    }

    /// Renders the key, whatever its variant.
    pub fn to_string(&self) -> (text: String)
        ensures
            text@ == self.text(),
    {
        match self {
            Lookup::Hash(hash) => hash.to_string(),
            Lookup::Name(name) => name.clone(),
        }
    }
}

} // verus!
