//! The state database: the operations applied to it, their encoding into
//! writes of its three tables, and the meaning of those tables.

use vstd::prelude::*;
use vstd::string::*;
use vstd::bytes::*;
use vstd::utf8::*;
use crate::paths::{join, join_path};
use crate::types::FileMetadata;

verus! {

/// One change to the state database.
#[derive(Clone, Debug, PartialEq, Eq)]
pub enum DbOp {
    /// Record (or replace) the metadata of the file at a path.
    UpsertFile(String, FileMetadata),
    /// Set the number of files sharing a vaulted content.
    SetCasRefcount(crate::types::Hash, u64),
    /// Record that an inode is a hard link into the vault.
    MarkInodeVaulted(u64),
    /// Forget the file at a path.
    RemoveFileFromIndex(String),
    /// Forget that an inode is a hard link into the vault.
    UnmarkInodeVaulted(u64),
    /// Forget the reference count of a content.
    RemoveCasRefcount(crate::types::Hash),
}

/// The tables of the state database.
#[derive(Clone, Copy, Debug, PartialEq, Eq, Structural)]
pub enum Table {
    /// Path bytes to file metadata.
    FileIndex,
    /// Hash bytes to a little-endian `u64` reference count.
    CasIndex,
    /// Little-endian inode bytes to a one-byte mark.
    VaultedInodes,
}

/// The name under which a table is stored.
pub open spec fn table_name_spec(table: Table) -> Seq<char> {
    match table {
        Table::FileIndex => "file_index"@,
        Table::CasIndex => "cas_index"@,
        Table::VaultedInodes => "vaulted_inodes"@,
    }
}

/// The name under which a table is stored.
pub fn table_name(table: Table) -> (name: &'static str)
    ensures
        name@ == table_name_spec(table),
{
    match table {
        Table::FileIndex => "file_index",
        Table::CasIndex => "cas_index",
        Table::VaultedInodes => "vaulted_inodes",
    }
}

/// The value stored for a vaulted inode.
pub open spec fn vaulted_mark() -> Seq<u8> {
    seq![1u8]
}

/// A write to one table; the metadata of a file is stored in the database's
/// own serialized form, which the caller produces.
#[derive(Debug, PartialEq, Eq)]
pub enum TableWrite {
    Insert { table: Table, key: Vec<u8>, value: Vec<u8> },
    InsertMetadata { key: Vec<u8>, metadata: FileMetadata },
    Remove { table: Table, key: Vec<u8> },
}

/// A table write as plain values.
pub enum WriteView {
    Insert(Table, Seq<u8>, Seq<u8>),
    InsertMetadata(Seq<u8>, FileMetadata),
    Remove(Table, Seq<u8>),
}

impl View for TableWrite {
    type V = WriteView;

    open spec fn view(&self) -> WriteView {
        match self {
            TableWrite::Insert { table, key, value } => WriteView::Insert(*table, key@, value@),
            TableWrite::InsertMetadata { key, metadata } => WriteView::InsertMetadata(
                key@,
                *metadata,
            ),
            TableWrite::Remove { table, key } => WriteView::Remove(*table, key@),
        }
    }
}

/// The key of a path: its UTF-8 bytes.
pub open spec fn path_key_spec(path: Seq<char>) -> Seq<u8> {
    encode_utf8(path)
}

/// The table write that carries out one operation.
pub open spec fn op_write(op: DbOp) -> WriteView {
    match op {
        DbOp::UpsertFile(path, metadata) => WriteView::InsertMetadata(
            path_key_spec(path@),
            metadata,
        ),
        DbOp::SetCasRefcount(hash, count) => WriteView::Insert(
            Table::CasIndex,
            hash@,
            spec_u64_to_le_bytes(count),
        ),
        DbOp::MarkInodeVaulted(inode) => WriteView::Insert(
            Table::VaultedInodes,
            spec_u64_to_le_bytes(inode),
            vaulted_mark(),
        ),
        DbOp::RemoveFileFromIndex(path) => WriteView::Remove(Table::FileIndex, path_key_spec(path@)),
        DbOp::UnmarkInodeVaulted(inode) => WriteView::Remove(
            Table::VaultedInodes,
            spec_u64_to_le_bytes(inode),
        ),
        DbOp::RemoveCasRefcount(hash) => WriteView::Remove(Table::CasIndex, hash@),
    }
}

/// The key under which a path is indexed.
pub fn path_key(path: &String) -> (key: Vec<u8>)
    ensures
        key@ == path_key_spec(path@),
{
    path.as_str().as_bytes_vec()
}

/// The key under which a hash's reference count is stored.
pub fn hash_key(hash: &crate::types::Hash) -> (key: Vec<u8>)
    ensures
        key@ == hash@,
{
    let mut key: Vec<u8> = Vec::new();
    let mut i: usize = 0;
    while i < 32
        invariant
            i <= 32,
            hash@.len() == 32,
            key@ == hash@.take(i as int),
        decreases 32 - i,
    {
        key.push(hash[i]);
        i += 1;
        assert(key@ =~= hash@.take(i as int));
    }
    assert(hash@.take(32) =~= hash@);
    key
}

/// The key under which an inode's mark is stored.
pub fn inode_key(inode: u64) -> (key: Vec<u8>)
    ensures
        key@ == spec_u64_to_le_bytes(inode),
{
    u64_to_le_bytes(inode)
}

/// The table write that carries out `op`.
pub fn encode_op(op: &DbOp) -> (write: TableWrite)
    ensures
        write@ == op_write(*op),
{
    match op {
        DbOp::UpsertFile(path, metadata) => TableWrite::InsertMetadata {
            key: path_key(path),
            metadata: *metadata,
        },
        DbOp::SetCasRefcount(hash, count) => TableWrite::Insert {
            table: Table::CasIndex,
            key: hash_key(hash),
            value: u64_to_le_bytes(*count),
        },
        DbOp::MarkInodeVaulted(inode) => {
            let mut value: Vec<u8> = Vec::new();
            value.push(1u8);
            assert(value@ =~= vaulted_mark());
            TableWrite::Insert {
                table: Table::VaultedInodes,
                key: inode_key(*inode),
                value,
            }
        },
        DbOp::RemoveFileFromIndex(path) => TableWrite::Remove {
            table: Table::FileIndex,
            key: path_key(path),
        },
        DbOp::UnmarkInodeVaulted(inode) => TableWrite::Remove {
            table: Table::VaultedInodes,
            key: inode_key(*inode),
        },
        DbOp::RemoveCasRefcount(hash) => TableWrite::Remove {
            table: Table::CasIndex,
            key: hash_key(hash),
        },
    }
}

/// The writes of one batch: those of each operation, in order, to be
/// committed in a single transaction (none at all for an empty batch).
pub fn plan_batch_write(ops: &Vec<DbOp>) -> (writes: Vec<TableWrite>)
    ensures
        writes@.len() == ops@.len(),
        forall|i: int| 0 <= i < ops@.len() ==> #[trigger] writes@[i]@ == op_write(ops@[i]),
{
    let mut writes: Vec<TableWrite> = Vec::new();
    let mut i: usize = 0;
    while i < ops.len()
        invariant
            i <= ops.len(),
            writes@.len() == i,
            forall|j: int| 0 <= j < i ==> #[trigger] writes@[j]@ == op_write(ops@[j]),
        decreases ops.len() - i,
    {
        writes.push(encode_op(&ops[i]));
        i += 1;
    }
    writes
}

/// The reference count read back from the stored value of a hash (no value:
/// zero). A stored value must be 8 bytes long.
pub fn refcount_from_stored(stored: Option<&[u8]>) -> (count: u64)
    requires
        stored is Some ==> stored->0@.len() == 8,
    ensures
        count == (match stored {
            Some(bytes) => spec_u64_from_le_bytes(bytes@),
            None => 0,
        }),
{
    match stored {
        Some(bytes) => u64_from_le_bytes(bytes),
        None => 0,
    }
}

/// The path of the state database under a home directory:
/// `<home>/.imprint/state.redb`.
pub open spec fn default_db_path_spec(home: Seq<char>) -> Seq<char> {
    join_path(join_path(home, ".imprint"@), "state.redb"@)
}

/// The path of the state database under the given home directory.
pub fn default_db_path(home: &str) -> (path: String)
    ensures
        path@ == default_db_path_spec(home@),
{
    let imprint = join(home, ".imprint");
    join(imprint.as_str(), "state.redb")
}

/// The contents of the three tables.
pub struct StoreModel {
    pub files: Map<Seq<u8>, FileMetadata>,
    pub cas: Map<Seq<u8>, Seq<u8>>,
    pub vaulted: Map<Seq<u8>, Seq<u8>>,
}

/// The tables after one write: an insert replaces the key's value, a remove
/// drops the key.
pub open spec fn apply_write(store: StoreModel, write: WriteView) -> StoreModel {
    match write {
        WriteView::InsertMetadata(key, metadata) => StoreModel {
            files: store.files.insert(key, metadata),
            ..store
        },
        WriteView::Insert(table, key, value) => match table {
            Table::CasIndex => StoreModel { cas: store.cas.insert(key, value), ..store },
            Table::VaultedInodes => StoreModel { vaulted: store.vaulted.insert(key, value), ..store },
            Table::FileIndex => store,
        },
        WriteView::Remove(table, key) => match table {
            Table::FileIndex => StoreModel { files: store.files.remove(key), ..store },
            Table::CasIndex => StoreModel { cas: store.cas.remove(key), ..store },
            Table::VaultedInodes => StoreModel { vaulted: store.vaulted.remove(key), ..store },
        },
    }
}

/// The tables after the writes of a batch, applied in order.
pub open spec fn apply_writes(store: StoreModel, writes: Seq<WriteView>) -> StoreModel
    decreases writes.len(),
{
    if writes.len() == 0 {
        store
    } else {
        apply_write(apply_writes(store, writes.drop_last()), writes.last())
    }
}

/// The metadata recorded for a path.
pub open spec fn stored_metadata(store: StoreModel, path: Seq<char>) -> Option<FileMetadata> {
    if store.files.contains_key(path_key_spec(path)) {
        Some(store.files[path_key_spec(path)])
    } else {
        None
    }
}

/// The reference count recorded for a hash (zero when none is).
pub open spec fn stored_refcount(store: StoreModel, hash: Seq<u8>) -> u64 {
    if store.cas.contains_key(hash) {
        spec_u64_from_le_bytes(store.cas[hash])
    } else {
        0
    }
}

/// Whether an inode is recorded as a hard link into the vault.
pub open spec fn stored_vaulted(store: StoreModel, inode: u64) -> bool {
    store.vaulted.contains_key(spec_u64_to_le_bytes(inode))
}

/// Every stored reference count is the 8-byte encoding of a count.
pub open spec fn counts_well_formed(store: StoreModel) -> bool {
    forall|k: Seq<u8>| #[trigger] store.cas.contains_key(k) ==> store.cas[k].len() == 8
}

/// Read after write: once an operation's write is applied, reading the
/// entry it names gives back what it wrote (the metadata, the count, the
/// mark), or nothing for a removal.
pub proof fn law_read_back_after_write(store: StoreModel, op: DbOp)
    ensures
        ({
            let after = apply_write(store, op_write(op));
            match op {
                DbOp::UpsertFile(path, metadata) => stored_metadata(after, path@) == Some(
                    metadata,
                ),
                DbOp::RemoveFileFromIndex(path) => stored_metadata(after, path@) is None,
                DbOp::SetCasRefcount(hash, count) => stored_refcount(after, hash@) == count,
                DbOp::RemoveCasRefcount(hash) => stored_refcount(after, hash@) == 0,
                DbOp::MarkInodeVaulted(inode) => stored_vaulted(after, inode),
                DbOp::UnmarkInodeVaulted(inode) => !stored_vaulted(after, inode),
            }
        }),
{
    vstd::bytes::lemma_auto_spec_u64_to_from_le_bytes();
}

/// Writes stay well formed: every stored reference count keeps 8 bytes.
pub proof fn law_counts_stay_well_formed(store: StoreModel, op: DbOp)
    requires
        counts_well_formed(store),
    ensures
        counts_well_formed(apply_write(store, op_write(op))),
{
    vstd::bytes::lemma_auto_spec_u64_to_from_le_bytes();
}

/// Entries are independent: an operation leaves the entry of every other
/// path, hash and inode as it was.
pub proof fn law_other_entries_unchanged(
    store: StoreModel,
    op: DbOp,
    path: Seq<char>,
    hash: Seq<u8>,
    inode: u64,
)
    ensures
        ({
            let after = apply_write(store, op_write(op));
            &&& (match op {
                DbOp::UpsertFile(p, _) => p@ != path,
                DbOp::RemoveFileFromIndex(p) => p@ != path,
                _ => true,
            }) ==> stored_metadata(after, path) == stored_metadata(store, path)
            &&& (match op {
                DbOp::SetCasRefcount(h, _) => h@ != hash,
                DbOp::RemoveCasRefcount(h) => h@ != hash,
                _ => true,
            }) ==> stored_refcount(after, hash) == stored_refcount(store, hash)
            &&& (match op {
                DbOp::MarkInodeVaulted(i) => i != inode,
                DbOp::UnmarkInodeVaulted(i) => i != inode,
                _ => true,
            }) ==> stored_vaulted(after, inode) == stored_vaulted(store, inode)
        }),
{
    vstd::bytes::lemma_auto_spec_u64_to_from_le_bytes();
    match op {
        DbOp::UpsertFile(p, _) => {
            if p@ != path {
                encode_utf8_decode_utf8(p@);
                encode_utf8_decode_utf8(path);
            }
        },
        DbOp::RemoveFileFromIndex(p) => {
            if p@ != path {
                encode_utf8_decode_utf8(p@);
                encode_utf8_decode_utf8(path);
            }
        },
        DbOp::MarkInodeVaulted(i) => {
            assert(spec_u64_from_le_bytes(spec_u64_to_le_bytes(i)) == i);
            assert(spec_u64_from_le_bytes(spec_u64_to_le_bytes(inode)) == inode);
        },
        DbOp::UnmarkInodeVaulted(i) => {
            assert(spec_u64_from_le_bytes(spec_u64_to_le_bytes(i)) == i);
            assert(spec_u64_from_le_bytes(spec_u64_to_le_bytes(inode)) == inode);
        },
        _ => {},
    }
}

/// The tables after operations carried out one at a time, each in its own
/// transaction, in order.
pub open spec fn apply_ops(store: StoreModel, ops: Seq<DbOp>) -> StoreModel
    decreases ops.len(),
{
    if ops.len() == 0 {
        store
    } else {
        apply_write(apply_ops(store, ops.drop_last()), op_write(ops.last()))
    }
}

/// A batch is its operations in sequence: committing the writes that
/// `plan_batch_write` gives for `ops` in one transaction leaves the tables
/// as carrying out the operations one at a time would.
pub proof fn law_batch_equals_single_writes(store: StoreModel, ops: Seq<DbOp>, writes: Seq<WriteView>)
    requires
        writes.len() == ops.len(),
        forall|i: int| 0 <= i < ops.len() ==> #[trigger] writes[i] == op_write(ops[i]),
    ensures
        apply_writes(store, writes) == apply_ops(store, ops),
    decreases ops.len(),
{
    if ops.len() > 0 {
        let w = writes.drop_last();
        let o = ops.drop_last();
        assert forall|i: int| 0 <= i < o.len() implies #[trigger] w[i] == op_write(o[i]) by {
            assert(writes[i] == op_write(ops[i]));
        }
        law_batch_equals_single_writes(store, o, w);
        assert(writes.last() == op_write(ops.last())) by {
            assert(writes[writes.len() - 1] == op_write(ops[ops.len() - 1]));
        }
    }
}

} // verus!
