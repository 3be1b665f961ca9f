use vstd::prelude::*;

use crate::kv::{
    artifact_path_for, bytes_opt, is_listing, keys_of, lemma_keys_of_listing, lookup, Contents,
    KVStore, StorageError,
};

verus! {

#[verifier::external_type_specification]
#[verifier::external_body]
pub struct ExPersy(persy::Persy);

#[verifier::external_type_specification]
#[verifier::external_body]
pub struct ExPersyError(persy::PersyError);

/// Every committed segment of a persy file, the index segments included: each segment's
/// name and its records in scan order.
pub uninterp spec fn persy_segments(p: persy::Persy) -> Map<Seq<char>, Seq<Seq<u8>>>;

/// Whether persy keeps segments of this name for its indexes: names that start with `+_M`
/// or `+_D`. Such a name is never a key of the store.
pub open spec fn is_index_name(k: Seq<char>) -> bool {
    k.len() >= 3 && k[0] == '+' && k[1] == '_' && (k[2] == 'M' || k[2] == 'D')
}

/// The first record of a segment, if it holds one.
pub open spec fn first_of(records: Seq<Seq<u8>>) -> Option<Seq<u8>> {
    if records.len() > 0 {
        Some(records[0])
    } else {
        None
    }
}

/// The entries a segment map stands for: each segment that is no index segment and holds a
/// record, with its first record.
pub open spec fn first_records(segments: Map<Seq<char>, Seq<Seq<u8>>>) -> Contents {
    Map::new(
        |k: Seq<char>| !is_index_name(k) && segments.contains_key(k) && segments[k].len() > 0,
        |k: Seq<char>| segments[k][0],
    )
}

/// A store in a segment log (persy): each key is a segment that holds its value as one record.
pub struct PersyStore {
    db: persy::Persy,
    artifact: String,
}

/// Relies on persy::PersyError's `Display`: carries the engine's message, and tells its I/O
/// failures apart.
#[verifier::external_body]
fn from_persy(e: persy::PersyError) -> StorageError {
    match e {
        persy::PersyError::Io { from } => StorageError::Io(from.to_string()),
        other => StorageError::Backend(other.to_string()),
    }
}

/// Relies on persy's `OpenOptions::open` with `create(true)`: opens the file at `path`,
/// creating it when missing.
#[verifier::external_body]
fn open_or_create(path: &str) -> (r: Result<persy::Persy, persy::PersyError>) {
    persy::OpenOptions::new().create(true).open(path).map_err(|e| e.persy_error())
}

/// Relies on persy's `Persy::exists_segment`: whether a segment of that name is committed.
#[verifier::external_body]
fn segment_exists(p: &persy::Persy, k: &str) -> (r: Result<bool, persy::PersyError>)
    requires
        !is_index_name(k@),
    ensures
        r matches Ok(b) ==> b == persy_segments(*p).contains_key(k@),
{
    p.exists_segment(k).map_err(|e| e.persy_error())
}

/// Relies on persy's `Persy::scan`: the first committed record of the segment `k`, which
/// must exist.
#[verifier::external_body]
fn first_record(p: &persy::Persy, k: &str) -> (r: Result<Option<Vec<u8>>, persy::PersyError>)
    requires
        !is_index_name(k@),
    ensures
        r matches Ok(v) ==> persy_segments(*p).contains_key(k@) && bytes_opt(v) == first_of(
            persy_segments(*p)[k@],
        ),
{
    p.scan(k).map(|mut i| i.next().map(|(_, data)| data)).map_err(|e| e.persy_error())
}

/// Relies on persy's `Transaction::create_segment` and `insert`, committed with
/// `Transaction::commit`: a new segment `k` holding the one record `v`. It fails, changing
/// nothing, where `k` exists. `create_segment` panics on an index segment name.
#[verifier::external_body]
fn create_segment_with(p: &mut persy::Persy, k: &str, v: &[u8]) -> (r: Result<(), persy::PersyError>)
    requires
        !is_index_name(k@),
    ensures
        r is Ok ==> persy_segments(*final(p)) == persy_segments(*old(p)).insert(k@, seq![v@]),
        r is Err ==> persy_segments(*final(p)) == persy_segments(*old(p)),
{
    let mut tx = p.begin().map_err(|e| e.persy_error())?;
    let seg = tx.create_segment(k).map_err(|e| e.persy_error())?;
    tx.insert(seg, v).map_err(|e| e.persy_error())?;
    tx.commit().map_err(|e| e.persy_error())
}

/// Relies on persy's `Transaction::drop_segment`, `create_segment` and `insert`, committed
/// with `Transaction::commit`: the segment `k` is replaced by one holding the one record `v`.
/// It fails, changing nothing, where `k` does not exist. `create_segment` panics on an index
/// segment name.
#[verifier::external_body]
fn recreate_segment_with(p: &mut persy::Persy, k: &str, v: &[u8]) -> (r: Result<(), persy::PersyError>)
    requires
        !is_index_name(k@),
    ensures
        r is Ok ==> persy_segments(*final(p)) == persy_segments(*old(p)).insert(k@, seq![v@]),
        r is Err ==> persy_segments(*final(p)) == persy_segments(*old(p)),
{
    let mut tx = p.begin().map_err(|e| e.persy_error())?;
    tx.drop_segment(k).map_err(|e| e.persy_error())?;
    let seg = tx.create_segment(k).map_err(|e| e.persy_error())?;
    tx.insert(seg, v).map_err(|e| e.persy_error())?;
    tx.commit().map_err(|e| e.persy_error())
}

/// Relies on persy's `Transaction::drop_segment`, committed with `Transaction::commit`:
/// the segment `k` is gone. It fails, changing nothing, where `k` does not exist.
#[verifier::external_body]
fn drop_segment(p: &mut persy::Persy, k: &str) -> (r: Result<(), persy::PersyError>)
    requires
        !is_index_name(k@),
    ensures
        r is Ok ==> persy_segments(*final(p)) == persy_segments(*old(p)).remove(k@),
        r is Err ==> persy_segments(*final(p)) == persy_segments(*old(p)),
{
    let mut tx = p.begin().map_err(|e| e.persy_error())?;
    tx.drop_segment(k).map_err(|e| e.persy_error())?;
    tx.commit().map_err(|e| e.persy_error())
}

/// Relies on persy's `Persy::list_segments`: the name of each committed segment that is no
/// index segment, once.
#[verifier::external_body]
fn segment_names(p: &persy::Persy) -> (r: Result<Vec<String>, persy::PersyError>)
    ensures
        r matches Ok(l) ==> {
            &&& forall|i: int|
                0 <= i < l@.len() ==> persy_segments(*p).contains_key((#[trigger] l@[i])@)
                    && !is_index_name(l@[i]@)
            &&& forall|i: int, j: int|
                0 <= i < j < l@.len() ==> (#[trigger] l@[i])@ != (#[trigger] l@[j])@
            &&& forall|k: Seq<char>|
                #[trigger] persy_segments(*p).contains_key(k) && !is_index_name(k) ==> exists|i: int|
                    0 <= i < l@.len() && (#[trigger] l@[i])@ == k
        },
{
    p.list_segments().map(|v| v.into_iter().map(|(k, _)| k).collect()).map_err(|e| e.persy_error())
}

/// Whether `k` is a name persy keeps for its indexes.
pub fn is_index_key(k: &str) -> (r: bool)
    ensures
        r == is_index_name(k@),
{
    k.unicode_len() >= 3 && k.get_char(0) == '+' && k.get_char(1) == '_' && (k.get_char(2) == 'M'
        || k.get_char(2) == 'D')
}

/// `entry` is the segment `names[i]` with its present first record `records[i]`.
pub open spec fn entry_from(entry: (String, Vec<u8>), names: Seq<String>, records: Seq<Option<Vec<u8>>>, i: int) -> bool {
    0 <= i < names.len() && records[i] is Some && entry.0@ == names[i]@ && entry.1@ == records[i]->Some_0@
}

/// `entry` is some segment `names[i]` with its present first record `records[i]`.
pub open spec fn has_source(entry: (String, Vec<u8>), names: Seq<String>, records: Seq<Option<Vec<u8>>>) -> bool {
    exists|i: int| #[trigger] entry_from(entry, names, records, i)
}

/// Every entry of `out` is some segment `names[i]` with its present first record `records[i]`.
pub open spec fn kept_sound(out: Seq<(String, Vec<u8>)>, names: Seq<String>, records: Seq<Option<Vec<u8>>>) -> bool {
    forall|j: int| 0 <= j < out.len() ==> #[trigger] has_source(out[j], names, records)
}

/// Every segment `names[i]` whose first record `records[i]` is present has an entry in `out`.
pub open spec fn kept_complete(out: Seq<(String, Vec<u8>)>, names: Seq<String>, records: Seq<Option<Vec<u8>>>) -> bool {
    forall|i: int|
        0 <= i < names.len() && (#[trigger] records[i]) is Some ==> exists|j: int|
            0 <= j < out.len() && (#[trigger] out[j]).0@ == names[i]@ && out[j].1@
                == records[i]->Some_0@
}

/// Where the names are distinct, so are the keys of `out`.
pub open spec fn kept_distinct(out: Seq<(String, Vec<u8>)>, names: Seq<String>) -> bool {
    (forall|a: int, b: int|
        0 <= a < b < names.len() ==> (#[trigger] names[a])@ != (#[trigger] names[b])@) ==> (
    forall|a: int, b: int| 0 <= a < b < out.len() ==> (#[trigger] out[a]).0@ != (#[trigger] out[b]).0@)
}

/// `out` holds, for each segment `names[i]` whose first record `records[i]` is present, that
/// name with that record, and nothing else; where the names are distinct, so are its keys.
pub open spec fn kept_entries(
    out: Seq<(String, Vec<u8>)>,
    names: Seq<String>,
    records: Seq<Option<Vec<u8>>>,
) -> bool {
    &&& kept_sound(out, names, records)
    &&& kept_complete(out, names, records)
    &&& kept_distinct(out, names)
}

proof fn lemma_kept_entries(
    out: Seq<(String, Vec<u8>)>,
    names: Seq<String>,
    records: Seq<Option<Vec<u8>>>,
    idx: Seq<int>,
)
    requires
        names.len() == records.len(),
        out.len() == idx.len(),
        forall|j: int|
            0 <= j < idx.len() ==> 0 <= #[trigger] idx[j] < names.len() && records[idx[j]] is Some
                && out[j].0@ == names[idx[j]]@ && out[j].1@ == records[idx[j]]->Some_0@,
        forall|a: int, b: int| 0 <= a < b < idx.len() ==> #[trigger] idx[a] < #[trigger] idx[b],
        forall|k: int|
            0 <= k < names.len() && records[k] is Some ==> #[trigger] idx.contains(k),
    ensures
        kept_entries(out, names, records),
{
    lemma_kept_sound(out, names, records, idx);
    lemma_kept_complete(out, names, records, idx);
    lemma_kept_distinct(out, names, records, idx);
}

proof fn lemma_kept_sound(
    out: Seq<(String, Vec<u8>)>,
    names: Seq<String>,
    records: Seq<Option<Vec<u8>>>,
    idx: Seq<int>,
)
    requires
        names.len() == records.len(),
        out.len() == idx.len(),
        forall|j: int|
            0 <= j < idx.len() ==> 0 <= #[trigger] idx[j] < names.len() && records[idx[j]] is Some
                && out[j].0@ == names[idx[j]]@ && out[j].1@ == records[idx[j]]->Some_0@,
        forall|a: int, b: int| 0 <= a < b < idx.len() ==> #[trigger] idx[a] < #[trigger] idx[b],
        forall|k: int|
            0 <= k < names.len() && records[k] is Some ==> #[trigger] idx.contains(k),
    ensures
        kept_sound(out, names, records),
{
    assert forall|j: int| 0 <= j < out.len() implies #[trigger] has_source(out[j], names, records) by {
        assert(entry_from(out[j], names, records, idx[j]));
    }
}

proof fn lemma_kept_complete(
    out: Seq<(String, Vec<u8>)>,
    names: Seq<String>,
    records: Seq<Option<Vec<u8>>>,
    idx: Seq<int>,
)
    requires
        names.len() == records.len(),
        out.len() == idx.len(),
        forall|j: int|
            0 <= j < idx.len() ==> 0 <= #[trigger] idx[j] < names.len() && records[idx[j]] is Some
                && out[j].0@ == names[idx[j]]@ && out[j].1@ == records[idx[j]]->Some_0@,
        forall|a: int, b: int| 0 <= a < b < idx.len() ==> #[trigger] idx[a] < #[trigger] idx[b],
        forall|k: int|
            0 <= k < names.len() && records[k] is Some ==> #[trigger] idx.contains(k),
    ensures
        kept_complete(out, names, records),
{
    assert forall|k: int| 0 <= k < names.len() && (#[trigger] records[k]) is Some implies exists|j: int|
        0 <= j < out.len() && (#[trigger] out[j]).0@ == names[k]@ && out[j].1@
            == records[k]->Some_0@ by {
        assert(idx.contains(k));
        let j = choose|j: int| 0 <= j < idx.len() && idx[j] == k;
        assert(out[j].0@ == names[k]@);
    }
}

proof fn lemma_kept_distinct(
    out: Seq<(String, Vec<u8>)>,
    names: Seq<String>,
    records: Seq<Option<Vec<u8>>>,
    idx: Seq<int>,
)
    requires
        names.len() == records.len(),
        out.len() == idx.len(),
        forall|j: int|
            0 <= j < idx.len() ==> 0 <= #[trigger] idx[j] < names.len() && records[idx[j]] is Some
                && out[j].0@ == names[idx[j]]@ && out[j].1@ == records[idx[j]]->Some_0@,
        forall|a: int, b: int| 0 <= a < b < idx.len() ==> #[trigger] idx[a] < #[trigger] idx[b],
        forall|k: int|
            0 <= k < names.len() && records[k] is Some ==> #[trigger] idx.contains(k),
    ensures
        kept_distinct(out, names),
{
    if forall|a: int, b: int|
        0 <= a < b < names.len() ==> (#[trigger] names[a])@ != (#[trigger] names[b])@ {
        assert forall|a: int, b: int| 0 <= a < b < out.len() implies (#[trigger] out[a]).0@
            != (#[trigger] out[b]).0@ by {
            assert(idx[a] < idx[b]);
            assert(names[idx[a]]@ != names[idx[b]]@);
        }
    }
}

/// The listing of segments `names` whose first records are `records`; a segment that holds
/// no record stands for no entry and is left out.
pub fn listing_of(names: &Vec<String>, records: &Vec<Option<Vec<u8>>>) -> (r: Vec<(String, Vec<u8>)>)
    requires
        names@.len() == records@.len(),
    ensures
        kept_entries(r@, names@, records@),
{
    let mut out: Vec<(String, Vec<u8>)> = Vec::new();
    let ghost mut idx: Seq<int> = Seq::empty();
    let mut i: usize = 0;
    while i < names.len()
        invariant
            names@.len() == records@.len(),
            i <= names@.len(),
            out@.len() == idx.len(),
            forall|j: int|
                0 <= j < idx.len() ==> 0 <= #[trigger] idx[j] < i && records@[idx[j]] is Some
                    && out@[j].0@ == names@[idx[j]]@ && out@[j].1@ == records@[idx[j]]->Some_0@,
            forall|a: int, b: int| 0 <= a < b < idx.len() ==> #[trigger] idx[a] < #[trigger] idx[b],
            forall|k: int|
                0 <= k < i && records@[k] is Some ==> #[trigger] idx.contains(k),
        decreases names@.len() - i,
    {
        match &records[i] {
            Some(v) => {
                let name = names[i].clone();
                let value = v.clone();
                let ghost old_idx = idx;
                out.push((name, value));
                proof {
                    idx = idx.push(i as int);
                    assert(idx[idx.len() - 1] == i);
                    assert forall|k: int| 0 <= k <= i && records@[k] is Some implies #[trigger] idx.contains(k) by {
                        if k < i {
                            assert(old_idx.contains(k));
                            let j = choose|j: int| 0 <= j < old_idx.len() && old_idx[j] == k;
                            assert(idx[j] == k);
                        } else {
                            assert(idx[idx.len() - 1] == k);
                        }
                    }
                }
            },
            None => {},
        }
        i = i + 1;
    }
    proof {
        lemma_kept_entries(out@, names@, records@, idx);
    }
    out
}

proof fn lemma_first_records_insert(segments: Map<Seq<char>, Seq<Seq<u8>>>, k: Seq<char>, v: Seq<u8>)
    requires
        !is_index_name(k),
    ensures
        first_records(segments.insert(k, seq![v])) == first_records(segments).insert(k, v),
{
    assert(first_records(segments.insert(k, seq![v])) =~= first_records(segments).insert(k, v));
}

proof fn lemma_first_records_remove(segments: Map<Seq<char>, Seq<Seq<u8>>>, k: Seq<char>)
    ensures
        first_records(segments.remove(k)) == first_records(segments).remove(k),
{
    assert(first_records(segments.remove(k)) =~= first_records(segments).remove(k));
}

impl PersyStore {
    /// The committed segments of the store's file.
    pub closed spec fn segments(&self) -> Map<Seq<char>, Seq<Seq<u8>>> {
        persy_segments(self.db)
    }

    /// Path of the artifact file.
    pub fn artifact_path(&self) -> (r: &str)
        ensures
            r@ == self.artifact(),
    {
        self.artifact.as_str()
    }

    /// Whether a segment named `k` exists, holding a record or not. An index segment name
    /// is never a key, and is reported absent without asking the engine.
    pub fn segment_exists(&self, k: &str) -> (r: Result<bool, StorageError>)
        ensures
            is_index_name(k@) ==> r == Ok::<bool, StorageError>(false),
            !is_index_name(k@) ==> (r matches Ok(b) ==> b == self.segments().contains_key(k@)),
    {
        if is_index_key(k) {
            return Ok(false);
        }
        match segment_exists(&self.db, k) {
            Ok(b) => Ok(b),
            Err(e) => Err(from_persy(e)),
        }
    }

    /// The read of `k` once its segment's existence is known: `present` is that answer. An
    /// absent segment gives no value without asking the engine again.
    pub fn get_present(&self, k: &str, present: bool) -> (r: Result<Option<Vec<u8>>, StorageError>)
        ensures
            !present ==> r matches Ok(None),
            present ==> (r matches Ok(v) ==> bytes_opt(v) == lookup(self.contents(), k@)),
    {
        if !present || is_index_key(k) {
            return Ok(None);
        }
        match first_record(&self.db, k) {
            Ok(v) => Ok(v),
            Err(e) => Err(from_persy(e)),
        }
    }

    /// The removal of `k` once its segment's existence is known: `present` is that answer.
    /// An absent segment needs no removal, which is no error.
    pub fn remove_present(&mut self, k: &str, present: bool) -> (r: Result<(), StorageError>)
        ensures
            final(self).artifact() == old(self).artifact(),
            !present ==> (r is Ok && final(self).segments() == old(self).segments()),
            present && r is Ok ==> final(self).contents() == old(self).contents().remove(k@),
            r is Err ==> final(self).segments() == old(self).segments(),
    {
        if !present || is_index_key(k) {
            proof {
                if is_index_name(k@) {
                    assert(old(self).contents().remove(k@) =~= old(self).contents());
                }
            }
            return Ok(());
        }
        let r = drop_segment(&mut self.db, k);
        proof {
            lemma_first_records_remove(persy_segments(old(self).db), k@);
        }
        match r {
            Ok(()) => Ok(()),
            Err(e) => Err(from_persy(e)),
        }
    }
}

impl KVStore for PersyStore {
    open spec fn contents(&self) -> Contents {
        first_records(self.segments())
    }

    closed spec fn artifact(&self) -> Seq<char> {
        self.artifact@
    }

    open spec fn extension_spec() -> Seq<char> {
        seq!['p', 'e', 'r', 's', 'y']
    }

    fn extension() -> (r: &'static str) {
        let r = "persy";
        proof {
            reveal_strlit("persy");
        }
        r
    }

    fn new(path: &str) -> (r: Result<Self, StorageError>) {
        let artifact = artifact_path_for(path, Self::extension());
        match open_or_create(artifact.as_str()) {
            Ok(db) => Ok(PersyStore { db, artifact }),
            Err(e) => Err(from_persy(e)),
        }
    }

    /// Refuses a key that persy reserves for its indexes.
    fn insert(&mut self, k: &str, v: &[u8]) -> (r: Result<(), StorageError>)
        ensures
            is_index_name(k@) ==> r is Err,
    {
        if is_index_key(k) {
            return Err(StorageError::Backend(String::from_str("key is reserved for persy's indexes")));
        }
        let present = match segment_exists(&self.db, k) {
            Ok(b) => b,
            Err(e) => return Err(from_persy(e)),
        };
        let written = if present {
            recreate_segment_with(&mut self.db, k, v)
        } else {
            create_segment_with(&mut self.db, k, v)
        };
        proof {
            lemma_first_records_insert(persy_segments(old(self).db), k@, v@);
        }
        match written {
            Ok(()) => Ok(()),
            Err(e) => Err(from_persy(e)),
        }
    }

    fn get(&self, k: &str) -> (r: Result<Option<Vec<u8>>, StorageError>) {
        match self.segment_exists(k) {
            Ok(present) => self.get_present(k, present),
            Err(e) => Err(e),
        }
    }

    fn remove(&mut self, k: &str) -> (r: Result<(), StorageError>) {
        let present = match self.segment_exists(k) {
            Ok(b) => b,
            Err(e) => return Err(e),
        };
        proof {
            if !present {
                assert(old(self).contents().remove(k@) =~= old(self).contents());
            }
        }
        self.remove_present(k, present)
    }

    fn list(&self) -> (r: Result<Vec<(String, Vec<u8>)>, StorageError>) {
        let names = match segment_names(&self.db) {
            Ok(names) => names,
            Err(e) => return Err(from_persy(e)),
        };
        let ghost segs = persy_segments(self.db);
        let mut records: Vec<Option<Vec<u8>>> = Vec::new();
        let mut i: usize = 0;
        while i < names.len()
            invariant
                segs == persy_segments(self.db),
                i <= names@.len(),
                records@.len() == i,
                forall|j: int|
                    0 <= j < names@.len() ==> segs.contains_key((#[trigger] names@[j])@)
                        && !is_index_name(names@[j]@),
                forall|j: int|
                    0 <= j < i ==> bytes_opt(#[trigger] records@[j]) == first_of(segs[names@[j]@]),
            decreases names@.len() - i,
        {
            match first_record(&self.db, names[i].as_str()) {
                Ok(v) => records.push(v),
                Err(e) => return Err(from_persy(e)),
            }
            i = i + 1;
        }
        let out = listing_of(&names, &records);
        proof {
            let c = first_records(segs);
            assert forall|j: int| 0 <= j < out@.len() implies lookup(c, (#[trigger] out@[j]).0@)
                == Some(out@[j].1@) by {
                assert(has_source(out@[j], names@, records@));
                let k = choose|k: int| #[trigger] entry_from(out@[j], names@, records@, k);
                assert(bytes_opt(records@[k]) == first_of(segs[names@[k]@]));
            }
            assert forall|k: Seq<char>| #[trigger] c.contains_key(k) implies exists|j: int|
                0 <= j < out@.len() && (#[trigger] out@[j]).0@ == k by {
                assert(segs.contains_key(k) && !is_index_name(k) && segs[k].len() > 0);
                let m = choose|m: int| 0 <= m < names@.len() && (#[trigger] names@[m])@ == k;
                assert(bytes_opt(records@[m]) == first_of(segs[names@[m]@]));
                assert(records@[m] is Some);
            }
        }
        Ok(out)
    }

    fn keys(&self) -> (r: Result<Vec<String>, StorageError>) {
        match self.list() {
            Ok(entries) => {
                let ghost listed = entries@;
                let keys = keys_of(entries);
                proof {
                    lemma_keys_of_listing(listed, keys@, self.contents());
                }
                Ok(keys)
            },
            Err(e) => Err(e),
        }
    }
}

} // verus!
