use vstd::prelude::*;

use crate::kv::{artifact_path, extension_dot, file_name_range, KVStore};
use crate::lmdb::LmdbStore;
use crate::persy_store::PersyStore;
use crate::redb_store::RedbStore;

verus! {

/// The three storage variants.
#[derive(PartialEq, Eq, Structural, Clone, Copy, Debug)]
pub enum BackendKind {
    /// Memory-mapped transactional B-tree: `LmdbStore`.
    Lmdb,
    /// Segment log: `PersyStore`.
    Persy,
    /// Page-based table file: `RedbStore`.
    Redb,
}

/// The default backend of a platform: the memory-mapped B-tree where files may be sparse,
/// since its declared address space then costs no disk; the table file elsewhere.
pub fn platform_default(sparse_files: bool) -> (r: BackendKind)
    ensures
        r == (if sparse_files { BackendKind::Lmdb } else { BackendKind::Redb }),
{
    if sparse_files {
        BackendKind::Lmdb
    } else {
        BackendKind::Redb
    }
}

/// The extension that a variant gives its artifact.
pub open spec fn extension_of(kind: BackendKind) -> Seq<char> {
    match kind {
        BackendKind::Lmdb => LmdbStore::extension_spec(),
        BackendKind::Persy => PersyStore::extension_spec(),
        BackendKind::Redb => RedbStore::extension_spec(),
    }
}

/// The extension that a variant gives its artifact.
pub fn extension_for(kind: BackendKind) -> (r: &'static str)
    ensures
        r@ == extension_of(kind),
{
    match kind {
        BackendKind::Lmdb => LmdbStore::extension(),
        BackendKind::Persy => PersyStore::extension(),
        BackendKind::Redb => RedbStore::extension(),
    }
}

/// Two different variants opened on the same logical root use different artifacts, so
/// neither reads the other's data. This holds of every root that names a file; a root
/// such as `..` names none and is used unchanged by every variant.
pub proof fn law_extension_isolation(root: Seq<char>, a: BackendKind, b: BackendKind)
    requires
        a != b,
        file_name_range(root) is Some,
    ensures
        extension_of(a) != extension_of(b),
        artifact_path(root, extension_of(a)) != artifact_path(root, extension_of(b)),
{
    let range = file_name_range(root)->Some_0;
    let stem_end = match extension_dot(root, range.1) {
        Some(i) => i,
        None => range.1,
    };
    let prefix = root.subrange(0, stem_end) + seq!['.'];
    assert(artifact_path(root, extension_of(a)) == prefix + extension_of(a));
    assert(artifact_path(root, extension_of(b)) == prefix + extension_of(b));
    assert(extension_of(a).len() != extension_of(b).len());
    assert((prefix + extension_of(a)).len() != (prefix + extension_of(b)).len());
}

} // verus!
