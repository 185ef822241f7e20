//! Storage of mempool operations, keyed by operation type and operation hash.

use crate::bytes::append_bytes;
use crate::hashes::{blake2b_256, digest_256, HASH_LEN};
use crate::persistent::PersistentStorage;
use std::time::SystemTime;
use vstd::prelude::*;
use vstd::slice::{slice_subrange, slice_to_vec};

verus! {

#[verifier::external_type_specification]
#[verifier::external_body]
pub struct ExSystemTime(SystemTime);

/// Length in bytes of the operation-type tag at the start of a key.
pub const LEN_TYPE: usize = 1;

/// Length in bytes of an operation hash.
pub const LEN_HASH: usize = HASH_LEN;

/// Length in bytes of an encoded key.
pub const LEN_KEY: usize = 33;

/// Index of the operation-type tag in an encoded key.
pub const IDX_TYPE: usize = 0;

/// Index of the first byte of the operation hash in an encoded key.
pub const IDX_HASH: usize = 1;

/// Which part of the mempool an operation belongs to.
#[derive(Clone, Copy, Debug, PartialEq, Eq, Structural)]
pub enum MempoolOperationType {
    Pending,
    KnownValid,
}

impl MempoolOperationType {
    /// The one-byte tag of this operation type.
    pub open spec fn tag(self) -> u8 {
        match self {
            MempoolOperationType::Pending => 0,
            MempoolOperationType::KnownValid => 1,
        }
    }

    /// The operation type whose tag is `num`, if any.
    pub open spec fn of_tag(num: u8) -> Option<MempoolOperationType> {
        if num == 0 {
            Some(MempoolOperationType::Pending)
        } else if num == 1 {
            Some(MempoolOperationType::KnownValid)
        } else {
            None
        }
    }

    pub fn to_u8(&self) -> (num: u8)
        ensures
            num == self.tag(),
    {
        match self {
            MempoolOperationType::Pending => 0,
            MempoolOperationType::KnownValid => 1,
        }
    }

    pub fn from_u8(num: u8) -> (res: Option<MempoolOperationType>)
        ensures
            res == MempoolOperationType::of_tag(num),
    {
        if num == 0 {
            Some(MempoolOperationType::Pending)
        } else if num == 1 {
            Some(MempoolOperationType::KnownValid)
        } else {
            None
        }
    }
}

/// Why a key or value could not be turned into bytes or back.
#[derive(Clone, Copy, Debug, PartialEq, Eq, Structural)]
pub enum SchemaError {
    EncodeError,
    DecodeError,
}

/// The key under which a mempool operation is stored.
pub struct MempoolKey {
    pub operation_type: MempoolOperationType,
    pub operation_hash: Vec<u8>,
}

impl View for MempoolKey {
    type V = (MempoolOperationType, Seq<u8>);

    open spec fn view(&self) -> (MempoolOperationType, Seq<u8>) {
        (self.operation_type, self.operation_hash@)
    }
}

/// The bytes of a key: the type tag followed by the hash.
pub open spec fn key_bytes(operation_type: MempoolOperationType, hash: Seq<u8>) -> Seq<u8> {
    seq![operation_type.tag()] + hash
}

/// What encoding a key gives: its bytes when the hash has the length of an
/// operation hash, an encoding error otherwise.
pub open spec fn spec_encode_key(key: (MempoolOperationType, Seq<u8>)) -> Result<Seq<u8>, SchemaError> {
    if key.1.len() == LEN_HASH {
        Ok(key_bytes(key.0, key.1))
    } else {
        Err(SchemaError::EncodeError)
    }
}

/// What decoding bytes gives: a key when there are exactly `LEN_KEY` bytes
/// and the first one is a known type tag, a decoding error otherwise.
pub open spec fn spec_decode_key(bytes: Seq<u8>) -> Result<(MempoolOperationType, Seq<u8>), SchemaError> {
    if bytes.len() == LEN_KEY {
        match MempoolOperationType::of_tag(bytes[IDX_TYPE as int]) {
            Some(t) => Ok((t, bytes.subrange(IDX_HASH as int, LEN_KEY as int))),
            None => Err(SchemaError::DecodeError),
        }
    } else {
        Err(SchemaError::DecodeError)
    }
}

impl MempoolKey {
    pub fn new(operation_type: MempoolOperationType, operation_hash: Vec<u8>) -> (key: MempoolKey)
        ensures
            key@ == (operation_type, operation_hash@),
    {
        MempoolKey { operation_type, operation_hash }
    }

    pub fn encode(&self) -> (res: Result<Vec<u8>, SchemaError>)
        ensures
            match (res, spec_encode_key(self@)) {
                (Ok(bytes), Ok(expected)) => bytes@ == expected,
                (Err(e), Err(expected)) => e == expected,
                _ => false,
            },
    {
        if self.operation_hash.len() == LEN_HASH {
            let mut bytes: Vec<u8> = Vec::with_capacity(LEN_KEY);
            bytes.push(self.operation_type.to_u8());
            append_bytes(&mut bytes, self.operation_hash.as_slice());
            Ok(bytes)
        } else {
            Err(SchemaError::EncodeError)
        }
    }

    pub fn decode(bytes: &[u8]) -> (res: Result<MempoolKey, SchemaError>)
        ensures
            match (res, spec_decode_key(bytes@)) {
                (Ok(key), Ok(expected)) => key@ == expected,
                (Err(e), Err(expected)) => e == expected,
                _ => false,
            },
    {
        if bytes.len() == LEN_KEY {
            let operation_type = match MempoolOperationType::from_u8(bytes[IDX_TYPE]) {
                Some(t) => t,
                None => return Err(SchemaError::DecodeError),
            };
            let operation_hash = slice_to_vec(slice_subrange(bytes, IDX_HASH, LEN_KEY));
            Ok(MempoolKey { operation_type, operation_hash })
        } else {
            Err(SchemaError::DecodeError)
        }
    }
}

/// The tags of the two operation types are 0 and 1, and each tag names its
/// type back; no other byte is a tag.
pub proof fn law_operation_type_tags(num: u8)
    ensures
        MempoolOperationType::Pending.tag() == 0u8,
        MempoolOperationType::KnownValid.tag() == 1u8,
        MempoolOperationType::of_tag(MempoolOperationType::Pending.tag()) == Some(MempoolOperationType::Pending),
        MempoolOperationType::of_tag(MempoolOperationType::KnownValid.tag()) == Some(MempoolOperationType::KnownValid),
        num > 1 ==> MempoolOperationType::of_tag(num) is None,
{
}

/// An encoded key is 33 bytes: the type's tag, then the hash unchanged.
pub proof fn law_key_layout(key: (MempoolOperationType, Seq<u8>))
    ensures
        spec_encode_key(key) matches Ok(bytes) ==> {
            &&& bytes.len() == LEN_KEY
            &&& bytes[0] == key.0.tag()
            &&& bytes.subrange(1, LEN_KEY as int) == key.1
        },
        key.1.len() == LEN_HASH <==> spec_encode_key(key) is Ok,
{
    if key.1.len() == LEN_HASH {
        assert(key_bytes(key.0, key.1).subrange(1, LEN_KEY as int) =~= key.1);
    }
}

/// Decoding the encoding of a key gives the key back.
pub proof fn law_decode_after_encode(key: (MempoolOperationType, Seq<u8>))
    requires
        key.1.len() == LEN_HASH,
    ensures
        spec_encode_key(key) == Ok::<Seq<u8>, SchemaError>(key_bytes(key.0, key.1)),
        spec_decode_key(key_bytes(key.0, key.1)) == Ok::<(MempoolOperationType, Seq<u8>), SchemaError>(key),
{
    let bytes = key_bytes(key.0, key.1);
    assert(bytes.subrange(IDX_HASH as int, LEN_KEY as int) =~= key.1);
}

/// Encoding a decoded key gives the decoded bytes back.
pub proof fn law_encode_after_decode(bytes: Seq<u8>)
    ensures
        spec_decode_key(bytes) matches Ok(key) ==> spec_encode_key(key) == Ok::<Seq<u8>, SchemaError>(bytes),
{
    if let Ok(key) = spec_decode_key(bytes) {
        assert(key_bytes(key.0, key.1) =~= bytes);
    }
}

/// Two keys with hashes of the same length have the same bytes only if they
/// are the same key.
pub proof fn law_key_bytes_injective(
    t1: MempoolOperationType,
    h1: Seq<u8>,
    t2: MempoolOperationType,
    h2: Seq<u8>,
)
    requires
        h1.len() == h2.len(),
        key_bytes(t1, h1) == key_bytes(t2, h2),
    ensures
        t1 == t2,
        h1 == h2,
{
    assert(key_bytes(t1, h1)[0] == t1.tag());
    assert(key_bytes(t2, h2)[0] == t2.tag());
    assert(h1 =~= key_bytes(t1, h1).subrange(1, h1.len() as int + 1));
    assert(h2 =~= key_bytes(t2, h2).subrange(1, h2.len() as int + 1));
}

/// A mempool operation: the hash of the block it branches from and its
/// signed content.
pub struct OperationMessage {
    pub branch: Vec<u8>,
    pub data: Vec<u8>,
}

impl View for OperationMessage {
    type V = (Seq<u8>, Seq<u8>);

    open spec fn view(&self) -> (Seq<u8>, Seq<u8>) {
        (self.branch@, self.data@)
    }
}

/// The binary form of an operation: the branch followed by the data.
pub open spec fn operation_bytes(operation: (Seq<u8>, Seq<u8>)) -> Seq<u8> {
    operation.0 + operation.1
}

/// The binary form of an operation holds its branch, then its data, each
/// unchanged; the hash of the operation is Blake2b-256 of exactly those
/// bytes.
pub proof fn law_operation_bytes_are_branch_then_data(branch: Seq<u8>, data: Seq<u8>)
    ensures
        operation_bytes((branch, data)).len() == branch.len() + data.len(),
        operation_bytes((branch, data)).subrange(0, branch.len() as int) == branch,
        operation_bytes((branch, data)).subrange(branch.len() as int, branch.len() + data.len() as int) == data,
        operation_hash((branch, data)) == blake2b_256(branch + data),
{
    assert(operation_bytes((branch, data)).subrange(0, branch.len() as int) =~= branch);
    assert(operation_bytes((branch, data)).subrange(branch.len() as int, branch.len() + data.len() as int) =~= data);
}

/// The hash of an operation: Blake2b-256 of its binary form.
pub open spec fn operation_hash(operation: (Seq<u8>, Seq<u8>)) -> Seq<u8> {
    blake2b_256(operation_bytes(operation))
}

impl OperationMessage {
    pub fn new(branch: Vec<u8>, data: Vec<u8>) -> (operation: OperationMessage)
        ensures
            operation@ == (branch@, data@),
    {
        OperationMessage { branch, data }
    }

    pub fn as_bytes(&self) -> (bytes: Vec<u8>)
        ensures
            bytes@ == operation_bytes(self@),
    {
        let mut bytes: Vec<u8> = Vec::new();
        append_bytes(&mut bytes, self.branch.as_slice());
        append_bytes(&mut bytes, self.data.as_slice());
        bytes
    }

    pub fn message_hash(&self) -> (hash: Vec<u8>)
        ensures
            hash@ == operation_hash(self@),
            hash@.len() == LEN_HASH,
    {
        let bytes = self.as_bytes();
        digest_256(bytes.as_slice())
    }

    /// A copy of this operation.
    pub fn duplicate(&self) -> (copy: OperationMessage)
        ensures
            copy@ == self@,
    {
        OperationMessage {
            branch: slice_to_vec(self.branch.as_slice()),
            data: slice_to_vec(self.data.as_slice()),
        }
    }
}

/// What is stored for a mempool operation: the operation and the time until
/// which it is kept.
pub struct MempoolValue {
    operation: OperationMessage,
    time_to_live: SystemTime,
}

/// What the storage reports when it fails.
#[derive(Clone, Copy, Debug, PartialEq, Eq, Structural)]
pub enum StorageError {
    DBError { error: SchemaError },
}

/// The mempool operations held by a storage: for each key, the operation and
/// the time until which it is kept.
pub type MempoolContents = Map<(MempoolOperationType, Seq<u8>), ((Seq<u8>, Seq<u8>), SystemTime)>;

/// The contents after storing `operation` under `operation_type` and its hash.
pub open spec fn spec_put(
    contents: MempoolContents,
    operation_type: MempoolOperationType,
    operation: (Seq<u8>, Seq<u8>),
    time_to_live: SystemTime,
) -> MempoolContents {
    contents.insert((operation_type, operation_hash(operation)), (operation, time_to_live))
}

/// What looking up `operation_type` and `hash` gives: an encoding error for a
/// hash that is not `LEN_HASH` bytes long, else the stored operation if any.
pub open spec fn spec_get(
    contents: MempoolContents,
    operation_type: MempoolOperationType,
    hash: Seq<u8>,
) -> Result<Option<(Seq<u8>, Seq<u8>)>, StorageError> {
    if hash.len() != LEN_HASH {
        Err(StorageError::DBError { error: SchemaError::EncodeError })
    } else if contents.contains_key((operation_type, hash)) {
        Ok(Some(contents[(operation_type, hash)].0))
    } else {
        Ok(None)
    }
}

/// The mempool operations held by a store: for each key, the operation and
/// the time until which it is kept.
pub closed spec fn mempool_contents(store: PersistentStorage) -> MempoolContents {
    Map::new(
        |k: (MempoolOperationType, Seq<u8>)|
            k.1.len() == LEN_HASH && store.mempool_column().contains_key(key_bytes(k.0, k.1)),
        |k: (MempoolOperationType, Seq<u8>)|
            {
                let v = store.mempool_column()[key_bytes(k.0, k.1)];
                (v.operation@, v.time_to_live)
            },
    )
}

/// A store whose mempool column is empty holds no mempool operations.
pub proof fn law_empty_column_has_no_operations(store: PersistentStorage)
    requires
        store.mempool_column() == Map::<Seq<u8>, MempoolValue>::empty(),
    ensures
        mempool_contents(store) == MempoolContents::empty(),
{
    assert(mempool_contents(store) =~= MempoolContents::empty());
}

/// Every key of a store's mempool holds a hash of `LEN_HASH` bytes.
pub proof fn law_stored_hashes_have_hash_length(store: PersistentStorage, key: (MempoolOperationType, Seq<u8>))
    ensures
        mempool_contents(store).contains_key(key) ==> key.1.len() == LEN_HASH,
{
}

/// Operation metadata storage: a handle on the mempool column of a
/// `PersistentStorage`. It keeps nothing itself, so every handle on a store,
/// and every copy of a handle, reads what any of them wrote to that store.
#[derive(Clone, Copy)]
pub struct MempoolStorage {}

impl MempoolStorage {
    /// The name of the column of the key-value store that holds the mempool.
    pub fn name() -> (name: &'static str)
        ensures
            name@ == "mempool_storage"@,
    {
        "mempool_storage"
    }

    /// A handle on the mempool of `persistent_storage`; it writes nothing.
    pub fn new(persistent_storage: &PersistentStorage) -> (storage: MempoolStorage) {
        MempoolStorage {}
    }

    pub fn put_pending(&self, persistent_storage: &mut PersistentStorage, message: OperationMessage, time_to_live: SystemTime) -> (res: Result<(), StorageError>)
        ensures
            res is Ok,
            operation_hash(message@).len() == LEN_HASH,
            mempool_contents(*final(persistent_storage)) == spec_put(mempool_contents(*old(persistent_storage)), MempoolOperationType::Pending, message@, time_to_live),
    {
        self.put(persistent_storage, MempoolOperationType::Pending, message, time_to_live)
    }

    pub fn put_known_valid(&self, persistent_storage: &mut PersistentStorage, message: OperationMessage, time_to_live: SystemTime) -> (res: Result<(), StorageError>)
        ensures
            res is Ok,
            operation_hash(message@).len() == LEN_HASH,
            mempool_contents(*final(persistent_storage)) == spec_put(mempool_contents(*old(persistent_storage)), MempoolOperationType::KnownValid, message@, time_to_live),
    {
        self.put(persistent_storage, MempoolOperationType::KnownValid, message, time_to_live)
    }

    /// Stores `operation` in the store's mempool under `operation_type` and
    /// the operation's hash.
    pub fn put(&self, persistent_storage: &mut PersistentStorage, operation_type: MempoolOperationType, operation: OperationMessage, time_to_live: SystemTime) -> (res: Result<(), StorageError>)
        ensures
            res is Ok,
            operation_hash(operation@).len() == LEN_HASH,
            mempool_contents(*final(persistent_storage)) == spec_put(mempool_contents(*old(persistent_storage)), operation_type, operation@, time_to_live),
    {
        let ghost old_contents = mempool_contents(*persistent_storage);
        let ghost op = operation@;
        let key = MempoolKey { operation_type, operation_hash: operation.message_hash() };
        let ghost k = key@;
        let bytes = match key.encode() {
            Ok(bytes) => bytes,
            Err(error) => return Err(StorageError::DBError { error }),
        };
        let ghost kb = bytes@;
        assert(kb == key_bytes(k.0, k.1));
        let value = MempoolValue { operation, time_to_live };
        persistent_storage.mempool_put(bytes, value);
        proof {
            let expected = spec_put(old_contents, operation_type, op, time_to_live);
            assert forall|kk: (MempoolOperationType, Seq<u8>)| #[trigger] mempool_contents(*persistent_storage).contains_key(kk) <==> expected.contains_key(kk) by {
                if kk.1.len() == LEN_HASH && key_bytes(kk.0, kk.1) == kb {
                    law_key_bytes_injective(kk.0, kk.1, k.0, k.1);
                }
            }
            assert forall|kk: (MempoolOperationType, Seq<u8>)| #[trigger] mempool_contents(*persistent_storage).contains_key(kk) implies mempool_contents(*persistent_storage)[kk] == expected[kk] by {
                if key_bytes(kk.0, kk.1) == kb {
                    law_key_bytes_injective(kk.0, kk.1, k.0, k.1);
                }
            }
            assert(mempool_contents(*persistent_storage) =~= expected);
        }
        Ok(())
    }

    /// The operation stored in the store's mempool under `operation_type`
    /// and `operation_hash`.
    pub fn get(&self, persistent_storage: &PersistentStorage, operation_type: MempoolOperationType, operation_hash: Vec<u8>) -> (res: Result<Option<OperationMessage>, StorageError>)
        ensures
            match (res, spec_get(mempool_contents(*persistent_storage), operation_type, operation_hash@)) {
                (Ok(Some(found)), Ok(Some(expected))) => found@ == expected,
                (Ok(None), Ok(None)) => true,
                (Err(e), Err(expected)) => e == expected,
                _ => false,
            },
    {
        let key = MempoolKey { operation_type, operation_hash };
        let ghost k = key@;
        let bytes = match key.encode() {
            Ok(bytes) => bytes,
            Err(error) => return Err(StorageError::DBError { error }),
        };
        match persistent_storage.mempool_get(bytes.as_slice()) {
            Some(value) => Ok(Some(value.operation.duplicate())),
            None => Ok(None),
        }
    }
}

/// Reading a key right after storing an operation under it gives the
/// operation back.
pub proof fn law_get_after_put(
    contents: MempoolContents,
    operation_type: MempoolOperationType,
    operation: (Seq<u8>, Seq<u8>),
    time_to_live: SystemTime,
)
    requires
        operation_hash(operation).len() == LEN_HASH,
    ensures
        spec_get(spec_put(contents, operation_type, operation, time_to_live), operation_type, operation_hash(operation))
            == Ok::<Option<(Seq<u8>, Seq<u8>)>, StorageError>(Some(operation)),
{
}

/// Storing an operation leaves what is read under every other key unchanged.
pub proof fn law_put_keeps_other_keys(
    contents: MempoolContents,
    operation_type: MempoolOperationType,
    operation: (Seq<u8>, Seq<u8>),
    time_to_live: SystemTime,
    other_type: MempoolOperationType,
    other_hash: Seq<u8>,
)
    requires
        (other_type, other_hash) != (operation_type, operation_hash(operation)),
    ensures
        spec_get(spec_put(contents, operation_type, operation, time_to_live), other_type, other_hash)
            == spec_get(contents, other_type, other_hash),
{
}

} // verus!
