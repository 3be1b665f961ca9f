use cat_panel_backend::kv::{KVStore, StorageError};
use cat_panel_backend::lmdb::LmdbStore;
use cat_panel_backend::persy_store::{listing_of, PersyStore};
use cat_panel_backend::redb_store::RedbStore;
use tempfile::TempDir;

/// A fresh directory, and a logical root inside it for a store.
fn fresh_root() -> (TempDir, String) {
    let dir = tempfile::tempdir().unwrap();
    let root = dir.path().join("store").to_str().unwrap().to_owned();
    (dir, root)
}

/// A fresh logical root whose LMDB artifact directory already exists.
fn fresh_lmdb_root(prefix: &str) -> (TempDir, String) {
    let dir = tempfile::Builder::new().prefix(prefix).suffix(".mdb").tempdir().unwrap();
    let path = dir.path().to_str().unwrap().to_owned();
    let root = path.strip_suffix(".mdb").unwrap().to_owned();
    (dir, root)
}

fn round_trip<S: KVStore>(store: &mut S) {
    store.insert("k", b"value").unwrap();
    assert_eq!(store.get("k").unwrap(), Some(b"value".to_vec()));
    assert!(store.has_key("k").unwrap());
    assert_eq!(store.get("absent").unwrap(), None);
    assert!(!store.has_key("absent").unwrap());
}

fn overwrite<S: KVStore>(store: &mut S) {
    store.insert("k", b"v1").unwrap();
    store.insert("k", b"v2").unwrap();
    assert_eq!(store.get("k").unwrap(), Some(b"v2".to_vec()));
    let list = store.list().unwrap();
    let under_k: Vec<_> = list.iter().filter(|(k, _)| k == "k").collect();
    assert_eq!(under_k.len(), 1);
    assert_eq!(under_k[0].1, b"v2".to_vec());
}

fn deletion<S: KVStore>(store: &mut S) {
    store.insert("k", b"v").unwrap();
    store.remove("k").unwrap();
    assert_eq!(store.get("k").unwrap(), None);
    assert!(!store.has_key("k").unwrap());
    // removing an absent key is no error
    store.remove("k").unwrap();
    store.remove("never").unwrap();
}

fn listing<S: KVStore>(store: &mut S) {
    assert!(store.list().unwrap().is_empty());
    assert!(store.keys().unwrap().is_empty());
    store.insert("a", b"1").unwrap();
    store.insert("b", b"").unwrap();
    store.insert("c", &[0u8, 255, 7]).unwrap();
    let mut list = store.list().unwrap();
    list.sort();
    assert_eq!(
        list,
        vec![
            ("a".to_owned(), b"1".to_vec()),
            ("b".to_owned(), Vec::new()),
            ("c".to_owned(), vec![0u8, 255, 7]),
        ]
    );
    let mut keys = store.keys().unwrap();
    keys.sort();
    assert_eq!(keys, vec!["a".to_owned(), "b".to_owned(), "c".to_owned()]);
}

#[test]
fn lmdb_round_trip() {
    let (_dir, root) = fresh_lmdb_root("rt");
    round_trip(&mut LmdbStore::new(&root).unwrap());
}

#[test]
fn redb_round_trip() {
    let (_dir, root) = fresh_root();
    round_trip(&mut RedbStore::new(&root).unwrap());
}

#[test]
fn persy_round_trip() {
    let (_dir, root) = fresh_root();
    round_trip(&mut PersyStore::new(&root).unwrap());
}

#[test]
fn lmdb_overwrite() {
    let (_dir, root) = fresh_lmdb_root("ow");
    overwrite(&mut LmdbStore::new(&root).unwrap());
}

#[test]
fn redb_overwrite() {
    let (_dir, root) = fresh_root();
    overwrite(&mut RedbStore::new(&root).unwrap());
}

#[test]
fn persy_overwrite() {
    let (_dir, root) = fresh_root();
    overwrite(&mut PersyStore::new(&root).unwrap());
}

#[test]
fn lmdb_deletion() {
    let (_dir, root) = fresh_lmdb_root("del");
    deletion(&mut LmdbStore::new(&root).unwrap());
}

#[test]
fn redb_deletion() {
    let (_dir, root) = fresh_root();
    deletion(&mut RedbStore::new(&root).unwrap());
}

#[test]
fn persy_deletion() {
    let (_dir, root) = fresh_root();
    deletion(&mut PersyStore::new(&root).unwrap());
}

#[test]
fn lmdb_listing() {
    let (_dir, root) = fresh_lmdb_root("ls");
    listing(&mut LmdbStore::new(&root).unwrap());
}

#[test]
fn redb_listing() {
    let (_dir, root) = fresh_root();
    listing(&mut RedbStore::new(&root).unwrap());
}

#[test]
fn persy_listing() {
    let (_dir, root) = fresh_root();
    listing(&mut PersyStore::new(&root).unwrap());
}

#[test]
fn reopening_keeps_entries() {
    let (_dir, root) = fresh_root();
    {
        let mut store = RedbStore::new(&root).unwrap();
        store.insert("kept", b"yes").unwrap();
    }
    let store = RedbStore::new(&root).unwrap();
    assert_eq!(store.get("kept").unwrap(), Some(b"yes".to_vec()));

    let (_dir2, root2) = fresh_root();
    {
        let mut store = PersyStore::new(&root2).unwrap();
        store.insert("kept", b"yes").unwrap();
    }
    let store = PersyStore::new(&root2).unwrap();
    assert_eq!(store.get("kept").unwrap(), Some(b"yes".to_vec()));
}

#[test]
fn artifacts_carry_their_extension() {
    let (_dir, root) = fresh_root();
    let redb = RedbStore::new(&root).unwrap();
    let persy = PersyStore::new(&root).unwrap();
    assert_eq!(redb.artifact_path(), format!("{}.redb", root));
    assert_eq!(persy.artifact_path(), format!("{}.persy", root));
    let (_dir2, lroot) = fresh_lmdb_root("ext");
    let lmdb = LmdbStore::new(&lroot).unwrap();
    assert_eq!(lmdb.artifact_path(), format!("{}.mdb", lroot));
}

#[test]
fn variants_on_one_root_do_not_share_data() {
    let (_dir, root) = fresh_lmdb_root("iso");
    let mut lmdb = LmdbStore::new(&root).unwrap();
    let mut redb = RedbStore::new(&root).unwrap();
    let persy = PersyStore::new(&root).unwrap();
    lmdb.insert("k", b"from lmdb").unwrap();
    redb.insert("k", b"from redb").unwrap();
    assert_eq!(lmdb.get("k").unwrap(), Some(b"from lmdb".to_vec()));
    assert_eq!(redb.get("k").unwrap(), Some(b"from redb".to_vec()));
    assert_eq!(persy.get("k").unwrap(), None);
    assert_ne!(lmdb.artifact_path(), redb.artifact_path());
    assert_ne!(redb.artifact_path(), persy.artifact_path());
}

#[test]
fn lmdb_without_artifact_directory_fails() {
    let (_dir, root) = fresh_root();
    assert!(matches!(LmdbStore::new(&root), Err(StorageError::Io(_))));
}

#[test]
fn persy_segment_is_kept_per_key() {
    let (_dir, root) = fresh_root();
    let mut store = PersyStore::new(&root).unwrap();
    assert!(!store.segment_exists("k").unwrap());
    store.insert("k", b"v").unwrap();
    assert!(store.segment_exists("k").unwrap());
    store.remove("k").unwrap();
    assert!(!store.segment_exists("k").unwrap());
}

#[test]
fn cache_scenario_on_memory_mapped_store() {
    let (_dir, root) = fresh_lmdb_root("cache");
    let mut store = LmdbStore::new(&root).unwrap();
    store.insert("mod/a", b"console.log(1)").unwrap();
    assert_eq!(store.get("mod/a").unwrap(), Some(b"console.log(1)".to_vec()));
    store.remove("mod/a").unwrap();
    assert_eq!(store.get("mod/a").unwrap(), None);
    assert_eq!(store.list().unwrap(), Vec::<(String, Vec<u8>)>::new());
}

#[test]
fn lmdb_refuses_a_second_open_in_the_process() {
    let (_dir, root) = fresh_lmdb_root("twice");
    let mut first = LmdbStore::new(&root).unwrap();
    first.insert("k", b"v").unwrap();
    assert!(matches!(LmdbStore::new(&root), Err(StorageError::Backend(_))));
    assert_eq!(first.get("k").unwrap(), Some(b"v".to_vec()));
}

#[test]
fn lmdb_refuses_nul_in_path() {
    assert!(matches!(LmdbStore::new("/tmp/bad\0root"), Err(StorageError::Io(_))));
}

#[test]
fn persy_index_names_are_no_keys() {
    let (_dir, root) = fresh_root();
    let mut store = PersyStore::new(&root).unwrap();
    assert!(store.insert("+_Mindex", b"v").is_err());
    assert!(store.insert("+_Dindex", b"v").is_err());
    assert_eq!(store.get("+_Mindex").unwrap(), None);
    assert!(!store.has_key("+_Dindex").unwrap());
    store.remove("+_Mindex").unwrap();
    store.insert("+_Xfine", b"v").unwrap();
    assert_eq!(store.get("+_Xfine").unwrap(), Some(b"v".to_vec()));
    assert!(!store.segment_exists("+_Mindex").unwrap());
}

#[test]
fn persy_absent_segment_steps() {
    let (_dir, root) = fresh_root();
    let mut store = PersyStore::new(&root).unwrap();
    store.insert("k", b"v").unwrap();
    assert_eq!(store.get_present("k", false).unwrap(), None);
    assert_eq!(store.get_present("k", true).unwrap(), Some(b"v".to_vec()));
    store.remove_present("k", false).unwrap();
    assert_eq!(store.get("k").unwrap(), Some(b"v".to_vec()));
    store.remove_present("k", true).unwrap();
    assert_eq!(store.get("k").unwrap(), None);
}

#[test]
fn listing_leaves_out_empty_segments() {
    let names = vec!["a".to_owned(), "empty".to_owned(), "b".to_owned()];
    let records = vec![Some(b"1".to_vec()), None, Some(Vec::new())];
    assert_eq!(
        listing_of(&names, &records),
        vec![("a".to_owned(), b"1".to_vec()), ("b".to_owned(), Vec::new())]
    );
    assert!(listing_of(&Vec::new(), &Vec::new()).is_empty());
}
