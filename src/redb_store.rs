use vstd::prelude::*;

use crate::kv::{
    artifact_path_for, bytes_opt, is_listing, keys_of,
    lemma_keys_of_listing, lookup, Contents, KVStore, StorageError,
};
use redb::ReadableTable;

verus! {

#[verifier::external_type_specification]
#[verifier::external_body]
pub struct ExRedbDatabase(redb::Database);

#[verifier::external_type_specification]
#[verifier::external_body]
pub struct ExRedbError(redb::Error);

/// The committed entries of the table `TABLE_NAME` of a redb database; empty while the
/// table does not exist.
pub uninterp spec fn redb_entries(db: redb::Database) -> Map<Seq<char>, Seq<u8>>;

/// Name of the one table the store keeps its entries in.
pub const TABLE_NAME: &'static str = "default";

/// A store in a page-based table file with explicit read and write transactions (redb).
pub struct RedbStore {
    db: redb::Database,
    artifact: String,
}

/// Relies on redb::Error's `Display`: carries the engine's message, and tells its I/O and
/// corruption failures apart.
#[verifier::external_body]
fn from_redb(e: redb::Error) -> StorageError {
    match e {
        redb::Error::Io(io) => StorageError::Io(io.to_string()),
        redb::Error::Corrupted(msg) => StorageError::Corruption(msg),
        other => StorageError::Backend(other.to_string()),
    }
}

/// Relies on redb's `Database::create`: opens the database file at `path`, creating it
/// when missing.
#[verifier::external_body]
fn create_database(path: &str) -> (r: Result<redb::Database, redb::Error>) {
    redb::Database::create(path).map_err(redb::Error::from)
}

/// Relies on redb's `WriteTransaction::open_table` and `commit`: creates the table when it is
/// missing, and changes no entry.
#[verifier::external_body]
fn ensure_table(db: &mut redb::Database, table: &str) -> (r: Result<(), redb::Error>)
    ensures
        redb_entries(*final(db)) == redb_entries(*old(db)),
{
    let tx = db.begin_write()?;
    tx.open_table(redb::TableDefinition::<&str, &[u8]>::new(table))?;
    tx.commit().map_err(redb::Error::from)
}

/// Relies on redb's `Table::insert` in a write transaction (`Database::begin_write`,
/// `WriteTransaction::commit`): committed, or, on failure, the transaction is dropped unapplied.
#[verifier::external_body]
fn put_committed(db: &mut redb::Database, table: &str, k: &str, v: &[u8]) -> (r: Result<(), redb::Error>)
    requires
        table@ == TABLE_NAME@,
    ensures
        r is Ok ==> redb_entries(*final(db)) == redb_entries(*old(db)).insert(k@, v@),
        r is Err ==> redb_entries(*final(db)) == redb_entries(*old(db)),
{
    let tx = db.begin_write()?;
    tx.open_table(redb::TableDefinition::<&str, &[u8]>::new(table))
        .and_then(|mut t| t.insert(k, v).map(|_| ()).map_err(Into::into))?;
    tx.commit().map_err(redb::Error::from)
}

/// Relies on redb's `Table::remove` in a write transaction (`Database::begin_write`,
/// `WriteTransaction::commit`): committed, or, on failure, the transaction is dropped unapplied.
#[verifier::external_body]
fn delete_committed(db: &mut redb::Database, table: &str, k: &str) -> (r: Result<(), redb::Error>)
    requires
        table@ == TABLE_NAME@,
    ensures
        r is Ok ==> redb_entries(*final(db)) == redb_entries(*old(db)).remove(k@),
        r is Err ==> redb_entries(*final(db)) == redb_entries(*old(db)),
{
    let tx = db.begin_write()?;
    tx.open_table(redb::TableDefinition::<&str, &[u8]>::new(table))
        .and_then(|mut t| t.remove(k).map(|_| ()).map_err(Into::into))?;
    tx.commit().map_err(redb::Error::from)
}

/// Relies on redb's `ReadableTable::get` in a read transaction (`Database::begin_read`):
/// the committed value under `k`.
#[verifier::external_body]
fn get_committed(db: &redb::Database, table: &str, k: &str) -> (r: Result<Option<Vec<u8>>, redb::Error>)
    requires
        table@ == TABLE_NAME@,
    ensures
        r matches Ok(v) ==> bytes_opt(v) == lookup(redb_entries(*db), k@),
{
    let tx = db.begin_read()?;
    let t = tx.open_table(redb::TableDefinition::<&str, &[u8]>::new(table))?;
    t.get(k).map(|x| x.map(|g| g.value().to_vec())).map_err(redb::Error::from)
}

/// Relies on redb's `ReadableTable::iter` in a read transaction (`Database::begin_read`):
/// visits each committed entry of the table once.
#[verifier::external_body]
fn entries_committed(db: &redb::Database, table: &str) -> (r: Result<Vec<(String, Vec<u8>)>, redb::Error>)
    requires
        table@ == TABLE_NAME@,
    ensures
        r matches Ok(l) ==> is_listing(l@, redb_entries(*db)),
{
    let tx = db.begin_read()?;
    let t = tx.open_table(redb::TableDefinition::<&str, &[u8]>::new(table))?;
    let iter = t.iter()?;
    iter.map(|x| x.map(|(k, v)| (k.value().to_owned(), v.value().to_vec())))
        .collect::<Result<_, _>>()
        .map_err(redb::Error::from)
}

impl RedbStore {
    /// Path of the artifact file.
    pub fn artifact_path(&self) -> (r: &str)
        ensures
            r@ == self.artifact(),
    {
        self.artifact.as_str()
    }
}

impl KVStore for RedbStore {
    closed spec fn contents(&self) -> Contents {
        redb_entries(self.db)
    }

    closed spec fn artifact(&self) -> Seq<char> {
        self.artifact@
    }

    open spec fn extension_spec() -> Seq<char> {
        seq!['r', 'e', 'd', 'b']
    }

    fn extension() -> (r: &'static str) {
        let r = "redb";
        proof {
            reveal_strlit("redb");
        }
        r
    }

    fn new(path: &str) -> (r: Result<Self, StorageError>) {
        let artifact = artifact_path_for(path, Self::extension());
        let mut db = match create_database(artifact.as_str()) {
            Ok(db) => db,
            Err(e) => return Err(from_redb(e)),
        };
        match ensure_table(&mut db, TABLE_NAME) {
            Ok(()) => Ok(RedbStore { db, artifact }),
            Err(e) => Err(from_redb(e)),
        }
    }

    fn insert(&mut self, k: &str, v: &[u8]) -> (r: Result<(), StorageError>) {
        match put_committed(&mut self.db, TABLE_NAME, k, v) {
            Ok(()) => Ok(()),
            Err(e) => Err(from_redb(e)),
        }
    }

    fn get(&self, k: &str) -> (r: Result<Option<Vec<u8>>, StorageError>) {
        match get_committed(&self.db, TABLE_NAME, k) {
            Ok(v) => Ok(v),
            Err(e) => Err(from_redb(e)),
        }
    }

    fn remove(&mut self, k: &str) -> (r: Result<(), StorageError>) {
        match delete_committed(&mut self.db, TABLE_NAME, k) {
            Ok(()) => Ok(()),
            Err(e) => Err(from_redb(e)),
        }
    }

    fn list(&self) -> (r: Result<Vec<(String, Vec<u8>)>, StorageError>) {
        match entries_committed(&self.db, TABLE_NAME) {
            Ok(l) => Ok(l),
            Err(e) => Err(from_redb(e)),
        }
    }

    fn keys(&self) -> (r: Result<Vec<String>, StorageError>) {
        match self.list() {
            Ok(entries) => {
                let ghost listed = entries@;
                let keys = keys_of(entries);
                proof {
                    lemma_keys_of_listing(listed, keys@, self.contents());
                }
                Ok(keys)
            },
            Err(e) => Err(e),
        }
    }
}

} // verus!
