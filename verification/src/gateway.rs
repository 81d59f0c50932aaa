//! The gateway's own decisions around the storage backend: which requests
//! are let through, in what typed form, and how every failure is reported.
//!
//! The backend itself and the transport stay outside. A request is first
//! planned here from the strings that arrived; the caller then does the
//! backend work that the plan names, and hands the outcome back to be
//! concluded into a response.

use crate::hash::{is_digest_text, Blake3Hash, HashError, Lookup};
use crate::hex::hex_lower;
use crate::identity::{is_key_text, key_of_text, Secp256k1PubKey};
use crate::name::{canonical_form, canonicalize, decodable, is_canonical, NameError};
use crate::secret::{ecdh_secret, NodeKey, SECRET_SIZE};
use vstd::prelude::*;
use vstd::string::StringExecFns;

verus! {

/// Every way in which a request fails.
#[derive(Debug)]
pub enum GatewayError {
    /// The owner is not the canonical text of a public key.
    InvalidKeyEncoding,
    /// Raw hash bytes are not one digest long.
    InvalidHashLength,
    /// The hash is not the canonical text of a digest.
    InvalidHashEncoding,
    /// The name decodes, but is not the canonical spelling of its text.
    AmbiguousName { got: String, expected: String },
    /// The name does not decode.
    MalformedEncoding,
    /// No secret can be derived with the counterpart's key.
    InvalidPublicKey,
    /// The backend holds no such object.
    NotFound,
    /// The backend failed, with its own account of why.
    BackendError(String),
    /// Reading the inbound stream failed in the middle of an upload.
    StreamReadError(String),
}

/// The class of status that a failure is answered with.
#[derive(Clone, Copy, Debug, PartialEq, Eq, Structural)]
pub enum StatusClass {
    BadRequest,
    NotFound,
    ServerError,
}

impl GatewayError {
    /// Failed validation is the client's fault, a missing object is reported
    /// as missing, and everything else is the server's failure.
    pub open spec fn class(&self) -> StatusClass {
        match self {
            GatewayError::InvalidKeyEncoding
            | GatewayError::InvalidHashLength
            | GatewayError::InvalidHashEncoding
            | GatewayError::AmbiguousName { .. }
            | GatewayError::MalformedEncoding
            | GatewayError::InvalidPublicKey => StatusClass::BadRequest,
            GatewayError::NotFound => StatusClass::NotFound,
            GatewayError::BackendError(_) | GatewayError::StreamReadError(_) => {
                StatusClass::ServerError
            },
        }
    }

    /// Exec form of `class`.
    pub fn status_class(&self) -> (class: StatusClass)
        ensures
            class == self.class(),
    {
        match self {
            GatewayError::InvalidKeyEncoding => StatusClass::BadRequest,
            GatewayError::InvalidHashLength => StatusClass::BadRequest,
            GatewayError::InvalidHashEncoding => StatusClass::BadRequest,
            GatewayError::AmbiguousName { .. } => StatusClass::BadRequest,
            GatewayError::MalformedEncoding => StatusClass::BadRequest,
            GatewayError::InvalidPublicKey => StatusClass::BadRequest,
            GatewayError::NotFound => StatusClass::NotFound,
            GatewayError::BackendError(_) => StatusClass::ServerError,
            GatewayError::StreamReadError(_) => StatusClass::ServerError,
        }
    }

    /// The status code that the failure is answered with.
    pub fn status_code(&self) -> (code: u16)
        ensures
            code == match self.class() {
                StatusClass::BadRequest => 400u16,
                StatusClass::NotFound => 404u16,
                StatusClass::ServerError => 500u16,
            },
    {
        match self.status_class() {
            StatusClass::BadRequest => 400,
            StatusClass::NotFound => 404,
            StatusClass::ServerError => 500,
        }
    }

    /// What the message says went wrong, after its opening words.
    pub open spec fn reason(&self) -> Seq<char> {
        match self {
            GatewayError::InvalidKeyEncoding => "the owner is not a canonical public key"@,
            GatewayError::InvalidHashLength => "the hash is not 32 bytes long"@,
            GatewayError::InvalidHashEncoding => "the hash is not a canonical digest"@,
            GatewayError::AmbiguousName { expected, .. } => {
                "Provided file name contains characters that have not been encoded. It should be: "@
                    + expected@
            },
            GatewayError::MalformedEncoding => "the name does not decode"@,
            GatewayError::InvalidPublicKey => "no secret can be derived with this key"@,
            GatewayError::NotFound => "no such object"@,
            GatewayError::BackendError(detail) => detail@,
            GatewayError::StreamReadError(detail) => detail@,
        }
    }

    /// The words that every message opens with, whatever failed.
    pub open spec fn opening(&self) -> Seq<char> {
        "Something went wrong: "@
    }

    /// The message for the client: the common opening, then what went wrong.
    /// An ambiguous name is answered with the spelling to use instead.
    pub fn message(&self) -> (text: String)
        ensures
            text@ == self.opening() + self.reason(),
    {
        match self {
            GatewayError::AmbiguousName { expected, .. } => {
                let reason = String::from_str(
                    "Provided file name contains characters that have not been encoded. It should be: ",
                ).concat(expected.as_str());
                String::from_str("Something went wrong: ").concat(reason.as_str())
            },
            GatewayError::InvalidKeyEncoding => String::from_str("Something went wrong: ").concat(
                "the owner is not a canonical public key",
            ),
            GatewayError::InvalidHashLength => String::from_str("Something went wrong: ").concat(
                "the hash is not 32 bytes long",
            ),
            GatewayError::InvalidHashEncoding => String::from_str("Something went wrong: ").concat(
                "the hash is not a canonical digest",
            ),
            GatewayError::MalformedEncoding => String::from_str("Something went wrong: ").concat(
                "the name does not decode",
            ),
            GatewayError::InvalidPublicKey => String::from_str("Something went wrong: ").concat(
                "no secret can be derived with this key",
            ),
            GatewayError::NotFound => String::from_str("Something went wrong: ").concat(
                "no such object",
            ),
            GatewayError::BackendError(detail) => String::from_str(
                "Something went wrong: ",
            ).concat(detail.as_str()),
            GatewayError::StreamReadError(detail) => String::from_str(
                "Something went wrong: ",
            ).concat(detail.as_str()),
        }
    }
}

/// The failure that a refused name is reported as.
pub fn name_failure(error: NameError) -> (failure: GatewayError)
    ensures
        match error {
            NameError::MalformedEncoding => failure is MalformedEncoding,
            NameError::AmbiguousName { got, expected } => failure == (GatewayError::AmbiguousName {
                got,
                expected,
            }),
        },
{
    match error {
        NameError::MalformedEncoding => GatewayError::MalformedEncoding,
        NameError::AmbiguousName { got, expected } => GatewayError::AmbiguousName { got, expected },
    }
}

/// The failure that a refused hash is reported as.
pub fn hash_failure(error: HashError) -> (failure: GatewayError)
    ensures
        match error {
            HashError::InvalidHashLength => failure is InvalidHashLength,
            HashError::InvalidHashEncoding => failure is InvalidHashEncoding,
        },
{
    match error {
        HashError::InvalidHashLength => GatewayError::InvalidHashLength,
        HashError::InvalidHashEncoding => GatewayError::InvalidHashEncoding,
    }
}

/// A write that passed validation: whose namespace it goes to, and under
/// which name, if any.
pub struct WriteRequest {
    pub owner: Secp256k1PubKey,
    pub name: Option<String>,
}

/// A read that passed validation.
pub struct ReadRequest {
    pub owner: Secp256k1PubKey,
    pub key: Lookup,
}

/// A delete that passed validation.
pub struct DeleteRequest {
    pub owner: Secp256k1PubKey,
    pub hash: Blake3Hash,
}

/// Whether an optional name may be used as it is.
pub open spec fn name_passes(name: Option<&str>) -> bool {
    name matches Some(n) ==> is_canonical(n@)
}

/// Validates a write before any byte of it is forwarded. The name, where
/// there is one, is checked first, then the owner.
pub fn plan_write(owner: &str, name: Option<&str>) -> (r: Result<WriteRequest, GatewayError>)
    ensures
        match r {
            Ok(request) => {
                &&& name_passes(name)
                &&& is_key_text(owner@)
                &&& request.owner@ == key_of_text(owner@)
                &&& request.owner.wf()
                &&& match (name, request.name) {
                    (Some(given), Some(kept)) => kept@ == given@,
                    (None, None) => true,
                    _ => false,
                }
            },
            Err(GatewayError::MalformedEncoding) => name matches Some(n) && !decodable(n@),
            Err(GatewayError::AmbiguousName { got, expected }) => {
                &&& name matches Some(n)
                &&& decodable(n@)
                &&& !is_canonical(n@)
                &&& got@ == n@
                &&& expected@ == canonical_form(n@)
            },
            Err(GatewayError::InvalidKeyEncoding) => name_passes(name) && !is_key_text(owner@),
            Err(_) => false,
        },
{
    let kept = match name {
        Some(given) => {
            match canonicalize(given) {
                Ok(_) => Some(given.to_owned()),
                Err(error) => {
                    return Err(name_failure(error));
                },
            }
        },
        None => None,
    };
    match Secp256k1PubKey::try_from(owner) {
        Ok(key) => Ok(WriteRequest { owner: key, name: kept }),
        Err(_) => Err(GatewayError::InvalidKeyEncoding),
    }
}

/// Validates a read by hash: the owner first, then the hash.
pub fn plan_read_by_hash(owner: &str, hash: &str) -> (r: Result<ReadRequest, GatewayError>)
    ensures
        match r {
            Ok(request) => {
                &&& is_key_text(owner@)
                &&& is_digest_text(hash@)
                &&& request.owner@ == key_of_text(owner@)
                &&& request.owner.wf()
                &&& request.key matches Lookup::Hash(crate::hash::Hash::Blake3(digest))
                &&& hex_lower(digest@) == hash@
            },
            Err(GatewayError::InvalidKeyEncoding) => !is_key_text(owner@),
            Err(GatewayError::InvalidHashEncoding) => is_key_text(owner@) && !is_digest_text(
                hash@,
            ),
            Err(_) => false,
        },
{
    let key = match Secp256k1PubKey::try_from(owner) {
        Ok(key) => key,
        Err(_) => {
            return Err(GatewayError::InvalidKeyEncoding);
        },
    };
    match Blake3Hash::from_hex(hash) {
        Ok(digest) => Ok(ReadRequest { owner: key, key: Lookup::Hash(crate::hash::Hash::Blake3(digest)) }),
        Err(error) => Err(hash_failure(error)),
    }
}

/// Validates a read by name: the name first, then the owner.
pub fn plan_read_by_name(owner: &str, name: &str) -> (r: Result<ReadRequest, GatewayError>)
    ensures
        match r {
            Ok(request) => {
                &&& is_canonical(name@)
                &&& is_key_text(owner@)
                &&& request.owner@ == key_of_text(owner@)
                &&& request.owner.wf()
                &&& request.key matches Lookup::Name(kept)
                &&& kept@ == name@
            },
            Err(GatewayError::MalformedEncoding) => !decodable(name@),
            Err(GatewayError::AmbiguousName { got, expected }) => {
                &&& decodable(name@)
                &&& !is_canonical(name@)
                &&& got@ == name@
                &&& expected@ == canonical_form(name@)
            },
            Err(GatewayError::InvalidKeyEncoding) => is_canonical(name@) && !is_key_text(owner@),
            Err(_) => false,
        },
{
    match canonicalize(name) {
        Ok(_) => {},
        Err(error) => {
            return Err(name_failure(error));
        },
    }
    match Secp256k1PubKey::try_from(owner) {
        Ok(key) => Ok(ReadRequest { owner: key, key: Lookup::Name(name.to_owned()) }),
        Err(_) => Err(GatewayError::InvalidKeyEncoding),
    }
}

/// Validates a delete: the owner first, then the hash.
pub fn plan_delete(owner: &str, hash: &str) -> (r: Result<DeleteRequest, GatewayError>)
    ensures
        match r {
            Ok(request) => {
                &&& is_key_text(owner@)
                &&& is_digest_text(hash@)
                &&& request.owner@ == key_of_text(owner@)
                &&& request.owner.wf()
                &&& hex_lower(request.hash@) == hash@
            },
            Err(GatewayError::InvalidKeyEncoding) => !is_key_text(owner@),
            Err(GatewayError::InvalidHashEncoding) => is_key_text(owner@) && !is_digest_text(
                hash@,
            ),
            Err(_) => false,
        },
{
    let key = match Secp256k1PubKey::try_from(owner) {
        Ok(key) => key,
        Err(_) => {
            return Err(GatewayError::InvalidKeyEncoding);
        },
    };
    match Blake3Hash::from_hex(hash) {
        Ok(digest) => Ok(DeleteRequest { owner: key, hash: digest }),
        Err(error) => Err(hash_failure(error)),
    }
}

/// How the backend's part of a write ended.
pub enum WriteOutcome {
    /// Every segment was stored; this is the hash of the whole content.
    Stored(Blake3Hash),
    /// The backend failed.
    BackendFailed(String),
    /// The inbound stream failed before its end.
    StreamFailed(String),
}

/// How the backend's part of a read or a delete ended.
pub enum StoreOutcome {
    /// The object was there, and the work was done.
    Done,
    /// The backend holds no such object.
    Missing,
    /// The backend failed.
    Failed(String),
}

/// The response to a write: the canonical text of the content's hash.
pub fn conclude_write(outcome: WriteOutcome) -> (r: Result<String, GatewayError>)
    ensures
        match outcome {
            WriteOutcome::Stored(hash) => r matches Ok(text) && text@ == hex_lower(hash@),
            WriteOutcome::BackendFailed(detail) => r matches Err(GatewayError::BackendError(d))
                && d@ == detail@,
            WriteOutcome::StreamFailed(detail) => r matches Err(GatewayError::StreamReadError(d))
                && d@ == detail@,
        },
{
    match outcome {
        WriteOutcome::Stored(hash) => Ok(hash.to_string()),
        WriteOutcome::BackendFailed(detail) => Err(GatewayError::BackendError(detail)),
        WriteOutcome::StreamFailed(detail) => Err(GatewayError::StreamReadError(detail)),
    }
}

/// The failure, if any, that a read or a delete ended in. An object that is
/// not there is reported as missing, never as a failure of the backend.
pub fn conclude_lookup(outcome: StoreOutcome) -> (r: Result<(), GatewayError>)
    ensures
        match outcome {
            StoreOutcome::Done => r is Ok,
            StoreOutcome::Missing => r matches Err(GatewayError::NotFound),
            StoreOutcome::Failed(detail) => r matches Err(GatewayError::BackendError(d)) && d@
                == detail@,
        },
{
    match outcome {
        StoreOutcome::Done => Ok(()),
        StoreOutcome::Missing => Err(GatewayError::NotFound),
        StoreOutcome::Failed(detail) => Err(GatewayError::BackendError(detail)),
    }
}

/// The response to a delete: the hash that was deleted, echoed in its
/// canonical text.
pub fn conclude_delete(request: &DeleteRequest, outcome: StoreOutcome) -> (r: Result<
    String,
    GatewayError,
>)
    ensures
        match outcome {
            StoreOutcome::Done => r matches Ok(text) && text@ == hex_lower(request.hash@),
            StoreOutcome::Missing => r matches Err(GatewayError::NotFound),
            StoreOutcome::Failed(detail) => r matches Err(GatewayError::BackendError(d)) && d@
                == detail@,
        },
{
    match conclude_lookup(outcome) {
        Ok(_) => Ok(request.hash.to_string()),
        Err(error) => Err(error),
    }
}

/// The secret that this node shares with the owner of the key that `counterpart`
/// spells, as 64 lowercase hexadecimal digits.
pub fn shared_secret(node: &NodeKey, counterpart: &str) -> (r: Result<String, GatewayError>)
    ensures
        match r {
            Ok(text) => {
                &&& is_key_text(counterpart@)
                &&& ecdh_secret(node@, key_of_text(counterpart@)) matches Some(secret)
                &&& text@ == hex_lower(secret)
                &&& text@.len() == 2 * SECRET_SIZE
            },
            Err(GatewayError::InvalidKeyEncoding) => !is_key_text(counterpart@),
            Err(GatewayError::InvalidPublicKey) => is_key_text(counterpart@) && ecdh_secret(
                node@,
                key_of_text(counterpart@),
            ) is None,
            Err(_) => false,
        },
{
    let key = match Secp256k1PubKey::try_from(counterpart) {
        Ok(key) => key,
        Err(_) => {
            return Err(GatewayError::InvalidKeyEncoding);
        },
    };
    match crate::secret::derive(node, &key) {
        Ok(secret) => Ok(secret.to_hex()),
        Err(_) => Err(GatewayError::InvalidPublicKey),
    }
}

} // verus!
