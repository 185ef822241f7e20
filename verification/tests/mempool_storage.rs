use std::time::{Duration, SystemTime};
use tezedge_node::mempool_storage::{
    MempoolKey, MempoolOperationType, MempoolStorage, OperationMessage, SchemaError, StorageError,
    LEN_KEY,
};
use tezedge_node::persistent::PersistentStorage;

fn hex(bytes: &[u8]) -> String {
    bytes.iter().map(|b| format!("{:02x}", b)).collect()
}

fn sample_operation() -> OperationMessage {
    OperationMessage::new(vec![0u8; 32], b"abc".to_vec())
}

#[test]
fn operation_type_tags() {
    assert_eq!(MempoolOperationType::Pending.to_u8(), 0);
    assert_eq!(MempoolOperationType::KnownValid.to_u8(), 1);
    assert_eq!(MempoolOperationType::from_u8(0), Some(MempoolOperationType::Pending));
    assert_eq!(MempoolOperationType::from_u8(1), Some(MempoolOperationType::KnownValid));
    assert_eq!(MempoolOperationType::from_u8(2), None);
    assert_eq!(MempoolOperationType::from_u8(255), None);
}

#[test]
fn key_encodes_tag_then_hash() {
    let key = MempoolKey::new(MempoolOperationType::KnownValid, vec![7u8; 32]);
    let bytes = key.encode().unwrap();
    assert_eq!(bytes.len(), LEN_KEY);
    assert_eq!(bytes[0], 1);
    assert_eq!(&bytes[1..], &[7u8; 32][..]);

    let pending = MempoolKey::new(MempoolOperationType::Pending, (0u8..32).collect());
    let bytes = pending.encode().unwrap();
    assert_eq!(bytes[0], 0);
    assert_eq!(bytes[32], 31);
}

#[test]
fn key_with_wrong_hash_length_is_refused() {
    let short = MempoolKey::new(MempoolOperationType::Pending, vec![1u8; 31]);
    assert!(matches!(short.encode(), Err(SchemaError::EncodeError)));
    let long = MempoolKey::new(MempoolOperationType::Pending, vec![1u8; 33]);
    assert!(matches!(long.encode(), Err(SchemaError::EncodeError)));
    let empty = MempoolKey::new(MempoolOperationType::KnownValid, vec![]);
    assert!(matches!(empty.encode(), Err(SchemaError::EncodeError)));
}

#[test]
fn key_decodes_what_it_encoded() {
    let hash: Vec<u8> = (100u8..132).collect();
    let key = MempoolKey::new(MempoolOperationType::KnownValid, hash.clone());
    let bytes = key.encode().unwrap();
    let decoded = MempoolKey::decode(&bytes).unwrap();
    assert_eq!(decoded.operation_type, MempoolOperationType::KnownValid);
    assert_eq!(decoded.operation_hash, hash);
    assert_eq!(decoded.encode().unwrap(), bytes);
}

#[test]
fn key_decoding_errors() {
    assert!(matches!(MempoolKey::decode(&[0u8; 32]), Err(SchemaError::DecodeError)));
    assert!(matches!(MempoolKey::decode(&[0u8; 34]), Err(SchemaError::DecodeError)));
    assert!(matches!(MempoolKey::decode(&[]), Err(SchemaError::DecodeError)));
    let mut bad_tag = vec![2u8];
    bad_tag.extend_from_slice(&[0u8; 32]);
    assert!(matches!(MempoolKey::decode(&bad_tag), Err(SchemaError::DecodeError)));
}

#[test]
fn operation_bytes_and_hash() {
    let op = sample_operation();
    let mut expected = vec![0u8; 32];
    expected.extend_from_slice(b"abc");
    assert_eq!(op.as_bytes(), expected);
    assert_eq!(
        hex(&op.message_hash()),
        "5db827e5e925e6b933a86596a0446c345c0d74d77f55a751ade5d7c7162eead8"
    );
    let empty = OperationMessage::new(vec![], vec![]);
    assert_eq!(
        hex(&empty.message_hash()),
        "0e5751c026e543b2e8ab2eb06099daa1d1e5df47778f7787faab45cdf12fe3a8"
    );
}

#[test]
fn get_after_put_returns_the_operation() {
    let mut store = PersistentStorage::new();
    let storage = MempoolStorage::new(&store);
    let op = sample_operation();
    let hash = op.message_hash();
    assert!(storage.get(&store, MempoolOperationType::Pending, hash.clone()).unwrap().is_none());
    storage.put_pending(&mut store, sample_operation(), SystemTime::now()).unwrap();
    let found = storage.get(&store, MempoolOperationType::Pending, hash.clone()).unwrap().unwrap();
    assert_eq!(found.branch, op.branch);
    assert_eq!(found.data, op.data);
    // The other part of the mempool is untouched.
    assert!(storage.get(&store, MempoolOperationType::KnownValid, hash).unwrap().is_none());
}

#[test]
fn storages_on_one_store_share_it() {
    let mut store = PersistentStorage::new();
    let first = MempoolStorage::new(&store);
    let second = MempoolStorage::new(&store);
    let copy = first.clone();
    let op = sample_operation();
    first.put_known_valid(&mut store, sample_operation(), SystemTime::UNIX_EPOCH).unwrap();
    let seen = second.get(&store, MempoolOperationType::KnownValid, op.message_hash()).unwrap().unwrap();
    assert_eq!(seen.data, op.data);
    let seen = copy.get(&store, MempoolOperationType::KnownValid, op.message_hash()).unwrap().unwrap();
    assert_eq!(seen.branch, op.branch);
    // Another store is another mempool.
    let other_store = PersistentStorage::new();
    assert!(second.get(&other_store, MempoolOperationType::KnownValid, op.message_hash()).unwrap().is_none());
}

#[test]
fn put_known_valid_and_put_replace() {
    let mut store = PersistentStorage::new();
    let storage = MempoolStorage::new(&store);
    let op = OperationMessage::new(vec![9u8; 32], vec![1, 2, 3, 4]);
    let hash = op.message_hash();
    let later = SystemTime::UNIX_EPOCH + Duration::from_secs(1_000);
    storage.put_known_valid(&mut store, OperationMessage::new(vec![9u8; 32], vec![1, 2, 3, 4]), later).unwrap();
    storage.put(&mut store, MempoolOperationType::KnownValid, OperationMessage::new(vec![9u8; 32], vec![1, 2, 3, 4]), SystemTime::UNIX_EPOCH).unwrap();
    let found = storage.get(&store, MempoolOperationType::KnownValid, hash.clone()).unwrap().unwrap();
    assert_eq!(found.data, vec![1, 2, 3, 4]);
    assert!(storage.get(&store, MempoolOperationType::Pending, hash).unwrap().is_none());
    // A different operation is stored under its own hash.
    storage.put_pending(&mut store, sample_operation(), later).unwrap();
    let other = storage.get(&store, MempoolOperationType::Pending, sample_operation().message_hash()).unwrap().unwrap();
    assert_eq!(other.data, b"abc".to_vec());
}

#[test]
fn get_with_wrong_hash_length_fails() {
    let store = PersistentStorage::new();
    let storage = MempoolStorage::new(&store);
    let res = storage.get(&store, MempoolOperationType::Pending, vec![0u8; 20]);
    assert!(matches!(res, Err(StorageError::DBError { error: SchemaError::EncodeError })));
}

#[test]
fn distinct_keys_have_distinct_bytes() {
    let hash = vec![5u8; 32];
    let pending = MempoolKey::new(MempoolOperationType::Pending, hash.clone()).encode().unwrap();
    let valid = MempoolKey::new(MempoolOperationType::KnownValid, hash).encode().unwrap();
    assert_ne!(pending, valid);
    let other = MempoolKey::new(MempoolOperationType::Pending, vec![6u8; 32]).encode().unwrap();
    assert_ne!(pending, other);
}

#[test]
fn bytes_decode_then_encode_to_themselves() {
    let mut bytes = vec![1u8];
    bytes.extend((0u8..32).rev());
    let key = MempoolKey::decode(&bytes).unwrap();
    assert_eq!(key.operation_type, MempoolOperationType::KnownValid);
    assert_eq!(key.encode().unwrap(), bytes);
}

#[test]
fn storage_column_name() {
    assert_eq!(MempoolStorage::name(), "mempool_storage");
}
