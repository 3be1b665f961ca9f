use vstd::prelude::*;

use crate::kv::{
    artifact_path, artifact_path_for, bytes_opt, is_listing, keys_of,
    lemma_keys_of_listing, lookup, Contents, KVStore, StorageError,
};
use heed::types::{Str, UnalignedSlice};

verus! {

#[verifier::external_type_specification]
#[verifier::external_body]
pub struct ExEnv(heed::Env);

#[verifier::external_type_specification]
#[verifier::external_body]
#[verifier::reject_recursive_types(KC)]
#[verifier::reject_recursive_types(DC)]
pub struct ExDatabase<KC, DC>(heed::Database<KC, DC>);

#[verifier::external_type_specification]
#[verifier::external_body]
pub struct ExStr(Str);

#[verifier::external_type_specification]
#[verifier::external_body]
#[verifier::reject_recursive_types(T)]
pub struct ExUnalignedSlice<T>(UnalignedSlice<T>);

#[verifier::external_type_specification]
#[verifier::external_body]
pub struct ExHeedError(heed::Error);

/// The committed entries of the unnamed main database of an LMDB environment.
pub uninterp spec fn lmdb_entries(env: heed::Env) -> Map<Seq<char>, Seq<u8>>;

/// Address space declared when the environment is opened: 1 GiB.
pub const LMDB_MAP_SIZE: usize = 1073741824;

/// A store in a memory-mapped, single-writer transactional B-tree (LMDB through heed).
/// Its artifact is a directory, which must exist before the store is opened. heed hands
/// out one shared environment per directory, so the store refuses an artifact that this
/// process has opened before: each store is the only handle on its entries. The check and
/// the open are two steps, so two threads must not open the same root at the same moment.
pub struct LmdbStore {
    env: heed::Env,
    db: heed::Database<Str, UnalignedSlice<u8>>,
    artifact: String,
}

/// Relies on heed::Error's `Display`: carries the engine's message, and tells its I/O
/// failures apart.
#[verifier::external_body]
fn from_heed(e: heed::Error) -> StorageError {
    match e {
        heed::Error::Io(io) => StorageError::Io(io.to_string()),
        other => StorageError::Backend(other.to_string()),
    }
}

/// Relies on heed's `EnvOpenOptions::open`: opens the environment in the directory `path`
/// with the given map size. It panics on a path holding a NUL character.
#[verifier::external_body]
fn open_env(path: &str, map_size: usize) -> (r: Result<heed::Env, heed::Error>)
    requires
        !path@.contains('\0'),
{
    heed::EnvOpenOptions::new().map_size(map_size).open(path)
}

/// Relies on heed's `env_closing_event`: whether this process has already opened an
/// environment in the directory `path`. heed keeps every environment it opened under its
/// canonical path, and `EnvOpenOptions::open` hands that one out again.
#[verifier::external_body]
fn env_opened_before(path: &str) -> (r: bool) {
    std::path::Path::new(path).canonicalize().map_or(false, |p| heed::env_closing_event(p).is_some())
}

/// Relies on heed's `Env::create_database(None)`: the unnamed main database of `env`,
/// which opening leaves as it was on disk.
#[verifier::external_body]
fn main_database(env: &heed::Env) -> (r: Result<heed::Database<Str, UnalignedSlice<u8>>, heed::Error>) {
    env.create_database(None)
}

/// Relies on heed's `Database::put` in a write transaction (`Env::write_txn`, `RwTxn::commit`):
/// the entry is written and committed, or, on failure, the transaction is aborted.
#[verifier::external_body]
fn put_committed(store: &mut LmdbStore, k: &str, v: &[u8]) -> (r: Result<(), heed::Error>)
    ensures
        final(store).artifact == old(store).artifact,
        r is Ok ==> lmdb_entries(final(store).env) == lmdb_entries(old(store).env).insert(k@, v@),
        r is Err ==> lmdb_entries(final(store).env) == lmdb_entries(old(store).env),
{
    let mut tx = store.env.write_txn()?;
    store.db.put(&mut tx, k, v)?;
    tx.commit()
}

/// Relies on heed's `Database::delete` in a write transaction (`Env::write_txn`, `RwTxn::commit`):
/// the entry, if present, is deleted and committed; on failure the transaction is aborted.
#[verifier::external_body]
fn delete_committed(store: &mut LmdbStore, k: &str) -> (r: Result<(), heed::Error>)
    ensures
        final(store).artifact == old(store).artifact,
        r is Ok ==> lmdb_entries(final(store).env) == lmdb_entries(old(store).env).remove(k@),
        r is Err ==> lmdb_entries(final(store).env) == lmdb_entries(old(store).env),
{
    let mut tx = store.env.write_txn()?;
    store.db.delete(&mut tx, k)?;
    tx.commit()
}

/// Relies on heed's `Database::get` in a read transaction (`Env::read_txn`):
/// the committed value under `k`.
#[verifier::external_body]
fn get_committed(store: &LmdbStore, k: &str) -> (r: Result<Option<Vec<u8>>, heed::Error>)
    ensures
        r matches Ok(v) ==> bytes_opt(v) == lookup(lmdb_entries(store.env), k@),
{
    let tx = store.env.read_txn()?;
    store.db.get(&tx, k).map(|x| x.map(|b| b.to_vec()))
}

/// Relies on heed's `Database::iter` in a read transaction (`Env::read_txn`):
/// a cursor walk that visits each committed entry once.
#[verifier::external_body]
fn entries_committed(store: &LmdbStore) -> (r: Result<Vec<(String, Vec<u8>)>, heed::Error>)
    ensures
        r matches Ok(l) ==> is_listing(l@, lmdb_entries(store.env)),
{
    let tx = store.env.read_txn()?;
    let iter = store.db.iter(&tx)?;
    iter.map(|x| x.map(|(k, v)| (k.to_owned(), v.to_vec()))).collect()
}

/// Whether `s` holds a NUL character.
fn holds_nul(s: &str) -> (r: bool)
    ensures
        r == s@.contains('\0'),
{
    let n = s.unicode_len();
    let mut i: usize = 0;
    while i < n
        invariant
            n == s@.len(),
            i <= n,
            forall|j: int| 0 <= j < i ==> s@[j] != '\0',
        decreases n - i,
    {
        if s.get_char(i) == '\0' {
            return true;
        }
        i = i + 1;
    }
    false
}

impl LmdbStore {
    /// Path of the artifact directory.
    pub fn artifact_path(&self) -> (r: &str)
        ensures
            r@ == self.artifact(),
    {
        self.artifact.as_str()
    }
}

impl KVStore for LmdbStore {
    closed spec fn contents(&self) -> Contents {
        lmdb_entries(self.env)
    }

    closed spec fn artifact(&self) -> Seq<char> {
        self.artifact@
    }

    open spec fn extension_spec() -> Seq<char> {
        seq!['m', 'd', 'b']
    }

    fn extension() -> (r: &'static str) {
        let r = "mdb";
        proof {
            reveal_strlit("mdb");
        }
        r
    }

    fn new(path: &str) -> (r: Result<Self, StorageError>)
        ensures
            artifact_path(path@, Self::extension_spec()).contains('\0') ==> (r matches Err(
                StorageError::Io(_),
            )),
    {
        let artifact = artifact_path_for(path, Self::extension());
        if holds_nul(artifact.as_str()) {
            return Err(StorageError::Io(String::from_str("path holds a NUL character")));
        }
        if env_opened_before(artifact.as_str()) {
            return Err(StorageError::Backend(String::from_str("environment already open in this process")));
        }
        let env = match open_env(artifact.as_str(), LMDB_MAP_SIZE) {
            Ok(env) => env,
            Err(e) => return Err(from_heed(e)),
        };
        let db = match main_database(&env) {
            Ok(db) => db,
            Err(e) => return Err(from_heed(e)),
        };
        Ok(LmdbStore { env, db, artifact })
    }

    fn insert(&mut self, k: &str, v: &[u8]) -> (r: Result<(), StorageError>) {
        match put_committed(self, k, v) {
            Ok(()) => Ok(()),
            Err(e) => Err(from_heed(e)),
        }
    }

    fn get(&self, k: &str) -> (r: Result<Option<Vec<u8>>, StorageError>) {
        match get_committed(self, k) {
            Ok(v) => Ok(v),
            Err(e) => Err(from_heed(e)),
        }
    }

    fn remove(&mut self, k: &str) -> (r: Result<(), StorageError>) {
        match delete_committed(self, k) {
            Ok(()) => Ok(()),
            Err(e) => Err(from_heed(e)),
        }
    }

    fn list(&self) -> (r: Result<Vec<(String, Vec<u8>)>, StorageError>) {
        match entries_committed(self) {
            Ok(l) => Ok(l),
            Err(e) => Err(from_heed(e)),
        }
    }

    fn keys(&self) -> (r: Result<Vec<String>, StorageError>) {
        match self.list() {
            Ok(entries) => {
                let ghost listed = entries@;
                let keys = keys_of(entries);
                proof {
                    lemma_keys_of_listing(listed, keys@, self.contents());
                }
                Ok(keys)
            },
            Err(e) => Err(e),
        }
    }
}

} // verus!
