use std::collections::HashMap;

use carbonado_node::gateway::{
    conclude_delete, conclude_lookup, conclude_write, hash_failure, name_failure, plan_delete,
    plan_read_by_hash, plan_read_by_name, plan_write, shared_secret, GatewayError, StatusClass,
    StoreOutcome, WriteOutcome,
};
use carbonado_node::hash::{Blake3Hash, HashError, Lookup};
use carbonado_node::identity::Secp256k1PubKey;
use carbonado_node::name::NameError;
use carbonado_node::secret::NodeKey;
use carbonado_node::segment::segment_all;

const OWNER: &str = "0279be667ef9dcbbac55a06295ce870b07029bfcdb2dce28d959f2815b16f81798";
const OTHER_OWNER: &str = "03a34b99f22c790c4e36b2b3c2c35a36db06226e41c692fc82b8b56ac1c540c5bd";
const DIGEST: &str = "af1349b9f5f9a1a6a0404dea36dcc9499bcb25c9adc112b7cc9a93cae41f3262";

/// A store in memory, keyed by owner and content hash, that answers as the
/// storage backend does.
struct Store {
    objects: HashMap<(Vec<u8>, Vec<u8>), Vec<Vec<u8>>>,
    broken: bool,
}

impl Store {
    fn new() -> Store {
        Store { objects: HashMap::new(), broken: false }
    }

    fn write(&mut self, owner: &Secp256k1PubKey, segments: Vec<Vec<u8>>) -> WriteOutcome {
        if self.broken {
            return WriteOutcome::BackendFailed("disk full".to_string());
        }
        let hash = Blake3Hash(*blake3::hash(&segments.concat()).as_bytes());
        self.objects.insert((owner.to_bytes(), hash.to_bytes()), segments);
        WriteOutcome::Stored(hash)
    }

    fn delete(&mut self, owner: &Secp256k1PubKey, hash: &[u8]) -> StoreOutcome {
        if self.broken {
            return StoreOutcome::Failed("disk gone".to_string());
        }
        match self.objects.remove(&(owner.to_bytes(), hash.to_vec())) {
            Some(_) => StoreOutcome::Done,
            None => StoreOutcome::Missing,
        }
    }
}

#[test]
fn deleting_what_was_never_written_is_not_found() {
    let mut store = Store::new();
    let request = plan_delete(OWNER, DIGEST).unwrap();
    let outcome = store.delete(&request.owner, &request.hash.to_bytes());
    let response = conclude_delete(&request, outcome);
    assert!(matches!(response, Err(GatewayError::NotFound)));
    assert_eq!(response.unwrap_err().status_code(), 404);
}

#[test]
fn a_written_object_is_deleted_once_and_within_its_owner_only() {
    let mut store = Store::new();
    let write = plan_write(OWNER, None).unwrap();
    let stored = conclude_write(store.write(&write.owner, segment_all(&[b"hello".to_vec()]))).unwrap();
    assert_eq!(stored, blake3::hash(b"hello").to_hex().as_str());

    let elsewhere = plan_delete(OTHER_OWNER, &stored).unwrap();
    let outcome = store.delete(&elsewhere.owner, &elsewhere.hash.to_bytes());
    assert!(matches!(conclude_delete(&elsewhere, outcome), Err(GatewayError::NotFound)));

    let request = plan_delete(OWNER, &stored).unwrap();
    let outcome = store.delete(&request.owner, &request.hash.to_bytes());
    assert_eq!(conclude_delete(&request, outcome).unwrap(), stored);
    let outcome = store.delete(&request.owner, &request.hash.to_bytes());
    assert!(matches!(conclude_delete(&request, outcome), Err(GatewayError::NotFound)));
}

#[test]
fn a_failing_backend_is_a_server_error() {
    let mut store = Store::new();
    store.broken = true;
    let request = plan_delete(OWNER, DIGEST).unwrap();
    let outcome = store.delete(&request.owner, &request.hash.to_bytes());
    match conclude_delete(&request, outcome) {
        Err(GatewayError::BackendError(detail)) => assert_eq!(detail, "disk gone"),
        other => panic!("{other:?}"),
    }
    let write = plan_write(OWNER, None).unwrap();
    match conclude_write(store.write(&write.owner, Vec::new())) {
        Err(error) => {
            assert!(matches!(error, GatewayError::BackendError(_)));
            assert_eq!(error.status_code(), 500);
            assert_eq!(error.message(), "Something went wrong: disk full");
        }
        other => panic!("{other:?}"),
    }
}

#[test]
fn a_broken_upload_is_a_stream_read_error() {
    match conclude_write(WriteOutcome::StreamFailed("connection reset".to_string())) {
        Err(error) => {
            assert!(matches!(error, GatewayError::StreamReadError(_)));
            assert_eq!(error.status_class(), StatusClass::ServerError);
            assert_eq!(error.message(), "Something went wrong: connection reset");
        }
        other => panic!("{other:?}"),
    }
}

#[test]
fn lookups_conclude_by_what_the_backend_found() {
    assert!(conclude_lookup(StoreOutcome::Done).is_ok());
    assert!(matches!(conclude_lookup(StoreOutcome::Missing), Err(GatewayError::NotFound)));
    assert!(matches!(
        conclude_lookup(StoreOutcome::Failed("x".to_string())),
        Err(GatewayError::BackendError(_))
    ));
}

#[test]
fn a_write_needs_a_canonical_owner() {
    let request = plan_write(OWNER, None).unwrap();
    assert_eq!(request.owner.to_string(), OWNER);
    assert!(request.name.is_none());
    assert!(matches!(plan_write(&OWNER.to_uppercase(), None), Err(GatewayError::InvalidKeyEncoding)));
    assert!(matches!(plan_write("", None), Err(GatewayError::InvalidKeyEncoding)));
}

#[test]
fn a_named_write_checks_the_name_before_the_owner() {
    let request = plan_write(OWNER, Some("my%20file.txt")).unwrap();
    assert_eq!(request.name.as_deref(), Some("my%20file.txt"));
    match plan_write("not a key", Some("my file.txt")) {
        Err(GatewayError::AmbiguousName { got, expected }) => {
            assert_eq!(got, "my file.txt");
            assert_eq!(expected, "my%20file.txt");
        }
        other => panic!("{:?}", other.err()),
    }
    assert!(matches!(plan_write("not a key", Some("%zz")), Err(GatewayError::MalformedEncoding)));
    assert!(matches!(
        plan_write("not a key", Some("my%20file.txt")),
        Err(GatewayError::InvalidKeyEncoding)
    ));
}

#[test]
fn a_read_by_hash_checks_the_owner_before_the_hash() {
    let request = plan_read_by_hash(OWNER, DIGEST).unwrap();
    assert_eq!(request.owner.to_string(), OWNER);
    assert_eq!(request.key.to_string(), DIGEST);
    assert!(matches!(request.key, Lookup::Hash(carbonado_node::hash::Hash::Blake3(_))));
    assert!(matches!(plan_read_by_hash("nobody", "no hash"), Err(GatewayError::InvalidKeyEncoding)));
    assert!(matches!(plan_read_by_hash(OWNER, "no hash"), Err(GatewayError::InvalidHashEncoding)));
    assert!(matches!(
        plan_read_by_hash(OWNER, &DIGEST.to_uppercase()),
        Err(GatewayError::InvalidHashEncoding)
    ));
}

#[test]
fn a_read_by_name_checks_the_name_before_the_owner() {
    let request = plan_read_by_name(OWNER, "my%20file.txt").unwrap();
    assert_eq!(request.owner.to_string(), OWNER);
    assert!(matches!(&request.key, Lookup::Name(name) if name == "my%20file.txt"));
    match plan_read_by_name("nobody", "a+b") {
        Err(GatewayError::AmbiguousName { got, expected }) => {
            assert_eq!(got, "a+b");
            assert_eq!(expected, "a%2Bb");
        }
        other => panic!("{:?}", other.err()),
    }
    assert!(matches!(plan_read_by_name("nobody", "%FF"), Err(GatewayError::MalformedEncoding)));
    assert!(matches!(plan_read_by_name("nobody", "fine"), Err(GatewayError::InvalidKeyEncoding)));
}

#[test]
fn a_delete_checks_the_owner_before_the_hash() {
    let request = plan_delete(OWNER, DIGEST).unwrap();
    assert_eq!(request.hash.to_string(), DIGEST);
    assert!(matches!(plan_delete("nobody", "no hash"), Err(GatewayError::InvalidKeyEncoding)));
    assert!(matches!(plan_delete(OWNER, "no hash"), Err(GatewayError::InvalidHashEncoding)));
}

#[test]
fn every_failure_has_its_status_and_its_message() {
    let ambiguous = GatewayError::AmbiguousName {
        got: "my file.txt".to_string(),
        expected: "my%20file.txt".to_string(),
    };
    let cases = [
        (GatewayError::InvalidKeyEncoding, 400, "Something went wrong: the owner is not a canonical public key"),
        (GatewayError::InvalidHashLength, 400, "Something went wrong: the hash is not 32 bytes long"),
        (GatewayError::InvalidHashEncoding, 400, "Something went wrong: the hash is not a canonical digest"),
        (ambiguous, 400, "Something went wrong: Provided file name contains characters that have not been encoded. It should be: my%20file.txt"),
        (GatewayError::MalformedEncoding, 400, "Something went wrong: the name does not decode"),
        (GatewayError::InvalidPublicKey, 400, "Something went wrong: no secret can be derived with this key"),
        (GatewayError::NotFound, 404, "Something went wrong: no such object"),
        (GatewayError::BackendError("boom".to_string()), 500, "Something went wrong: boom"),
        (GatewayError::StreamReadError("reset".to_string()), 500, "Something went wrong: reset"),
    ];
    for (error, code, message) in cases {
        assert_eq!(error.status_code(), code, "{error:?}");
        assert_eq!(error.message(), message);
        let class = match code {
            400 => StatusClass::BadRequest,
            404 => StatusClass::NotFound,
            _ => StatusClass::ServerError,
        };
        assert_eq!(error.status_class(), class);
    }
}

#[test]
fn refusals_keep_their_kind_when_reported() {
    assert!(matches!(name_failure(NameError::MalformedEncoding), GatewayError::MalformedEncoding));
    let error = NameError::AmbiguousName { got: "a b".to_string(), expected: "a%20b".to_string() };
    match name_failure(error) {
        GatewayError::AmbiguousName { got, expected } => {
            assert_eq!(got, "a b");
            assert_eq!(expected, "a%20b");
        }
        other => panic!("{other:?}"),
    }
    assert!(matches!(hash_failure(HashError::InvalidHashLength), GatewayError::InvalidHashLength));
    assert!(matches!(hash_failure(HashError::InvalidHashEncoding), GatewayError::InvalidHashEncoding));
}

#[test]
fn the_shared_secret_is_derived_from_a_canonical_key_only() {
    let node = NodeKey::new([0x33u8; 32]).unwrap();
    let text = shared_secret(&node, OWNER).unwrap();
    assert_eq!(text.len(), 64);
    let scalar = secp256k1::SecretKey::from_secret_bytes([0x33u8; 32]).unwrap();
    let point: secp256k1::PublicKey = OWNER.parse().unwrap();
    let expected = secp256k1::ecdh::SharedSecret::new(&point, &scalar);
    assert_eq!(text, expected.display_secret().to_string());
    assert!(matches!(
        shared_secret(&node, &OWNER.to_uppercase()),
        Err(GatewayError::InvalidKeyEncoding)
    ));
    assert!(matches!(shared_secret(&node, ""), Err(GatewayError::InvalidKeyEncoding)));
    assert!(NodeKey::new([0u8; 32]).is_err());
}
