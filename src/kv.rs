use vstd::prelude::*;

verus! {

/// Failure reported by a storage backend.
#[derive(Debug)]
pub enum StorageError {
    /// The filesystem refused an operation, with its message.
    Io(String),
    /// Stored data does not have the shape this library writes.
    Corruption(String),
    /// Any other failure of the engine, with its message.
    Backend(String),
}

/// Contents of a store: key text to value bytes.
pub type Contents = Map<Seq<char>, Seq<u8>>;

/// What `get(key)` reports on a store holding `contents`.
pub open spec fn lookup(contents: Contents, key: Seq<char>) -> Option<Seq<u8>> {
    if contents.contains_key(key) {
        Some(contents[key])
    } else {
        None
    }
}

/// The bytes held by an optional vector.
pub open spec fn bytes_opt(v: Option<Vec<u8>>) -> Option<Seq<u8>> {
    match v {
        Some(b) => Some(b@),
        None => None,
    }
}

/// `entries` holds every entry of `contents` exactly once, and nothing else.
pub open spec fn is_listing(entries: Seq<(String, Vec<u8>)>, contents: Contents) -> bool {
    &&& forall|i: int|
        0 <= i < entries.len() ==> lookup(contents, (#[trigger] entries[i]).0@) == Some(
            entries[i].1@,
        )
    &&& forall|i: int, j: int|
        0 <= i < j < entries.len() ==> (#[trigger] entries[i]).0@ != (#[trigger] entries[j]).0@
    &&& forall|k: Seq<char>|
        #[trigger] contents.contains_key(k) ==> exists|i: int|
            0 <= i < entries.len() && (#[trigger] entries[i]).0@ == k
}

/// `keys` holds every key of `contents` exactly once, and nothing else.
pub open spec fn is_key_listing(keys: Seq<String>, contents: Contents) -> bool {
    &&& forall|i: int| 0 <= i < keys.len() ==> contents.contains_key((#[trigger] keys[i])@)
    &&& forall|i: int, j: int|
        0 <= i < j < keys.len() ==> (#[trigger] keys[i])@ != (#[trigger] keys[j])@
    &&& forall|k: Seq<char>|
        #[trigger] contents.contains_key(k) ==> exists|i: int|
            0 <= i < keys.len() && (#[trigger] keys[i])@ == k
}

/// Index just past the last `/` of `p[..n]`, or 0: where the last path segment starts.
pub open spec fn segment_start(p: Seq<char>, n: int) -> int
    decreases n,
{
    if n <= 0 {
        0
    } else if p[n - 1] == '/' {
        n
    } else {
        segment_start(p, n - 1)
    }
}

/// End of the file name of `p[..n]`: trailing separators and trailing `.` components
/// are not part of it.
pub open spec fn name_end(p: Seq<char>, n: int) -> int
    decreases n,
{
    if n <= 0 {
        0
    } else if p[n - 1] == '/' {
        name_end(p, n - 1)
    } else if n >= 2 && p[n - 1] == '.' && p[n - 2] == '/' {
        name_end(p, n - 1)
    } else {
        n
    }
}

/// Where the file name of `root` stands, if it has one: a last segment that is empty,
/// `.` or `..` names no file.
pub open spec fn file_name_range(root: Seq<char>) -> Option<(int, int)> {
    let e = name_end(root, root.len() as int);
    let s = segment_start(root, e);
    let name = root.subrange(s, e);
    if e == s || name == seq!['.'] || name == seq!['.', '.'] {
        None
    } else {
        Some((s, e))
    }
}

/// Position of the dot that starts the extension of the last path segment of `p[..n]`:
/// the last dot of that segment, unless it is the segment's first character.
pub open spec fn extension_dot(p: Seq<char>, n: int) -> Option<int>
    decreases n,
{
    if n <= 0 {
        None
    } else if p[n - 1] == '/' {
        None
    } else if p[n - 1] == '.' && n - 1 > segment_start(p, n - 1) {
        Some(n - 1)
    } else {
        extension_dot(p, n - 1)
    }
}

/// The artifact a backend with extension `ext` uses for the logical root `root`: the path
/// up to the stem of its file name, then `.` and `ext`, so an extension the file name had
/// is replaced. A root that names no file is kept as it is.
pub open spec fn artifact_path(root: Seq<char>, ext: Seq<char>) -> Seq<char> {
    match file_name_range(root) {
        None => root,
        Some(range) => {
            let stem_end = match extension_dot(root, range.1) {
                Some(i) => i,
                None => range.1,
            };
            root.subrange(0, stem_end) + seq!['.'] + ext
        },
    }
}

proof fn lemma_segment_start_bound(p: Seq<char>, n: int)
    requires
        0 <= n <= p.len(),
    ensures
        0 <= segment_start(p, n) <= n,
    decreases n,
{
    if n > 0 && p[n - 1] != '/' {
        lemma_segment_start_bound(p, n - 1);
    }
}

proof fn lemma_segment_start_in_run(p: Seq<char>, start: int, m: int)
    requires
        0 <= start <= m <= p.len(),
        start == 0 || p[start - 1] == '/',
        forall|j: int| start <= j < m ==> p[j] != '/',
    ensures
        segment_start(p, m) == start,
    decreases m,
{
    if m > start {
        lemma_segment_start_in_run(p, start, m - 1);
    }
}

/// Derives the artifact path of a backend from a logical root.
pub fn artifact_path_for(root: &str, ext: &str) -> (r: String)
    ensures
        r@ == artifact_path(root@, ext@),
{
    let n = root.unicode_len();
    // drop trailing separators and `.` components
    let mut e: usize = n;
    while e > 0 && (root.get_char(e - 1) == '/' || (e >= 2 && root.get_char(e - 1) == '.'
        && root.get_char(e - 2) == '/'))
        invariant
            0 <= e <= n,
            n == root@.len(),
            name_end(root@, n as int) == name_end(root@, e as int),
        decreases e,
    {
        e = e - 1;
    }
    assert(name_end(root@, e as int) == e);
    // find where the last segment starts
    let mut start: usize = e;
    while start > 0 && root.get_char(start - 1) != '/'
        invariant
            0 <= start <= e <= n,
            n == root@.len(),
            forall|j: int| start <= j < e ==> root@[j] != '/',
            segment_start(root@, e as int) == segment_start(root@, start as int),
        decreases start,
    {
        start = start - 1;
    }
    proof {
        lemma_segment_start_in_run(root@, start as int, e as int);
    }
    let len = e - start;
    let no_name = len == 0 || (len == 1 && root.get_char(start) == '.') || (len == 2
        && root.get_char(start) == '.' && root.get_char(start + 1) == '.');
    proof {
        let name = root@.subrange(start as int, e as int);
        if len == 1 && name[0] == '.' {
            assert(name =~= seq!['.']);
        }
        if len == 2 && name[0] == '.' && name[1] == '.' {
            assert(name =~= seq!['.', '.']);
        }
        if name == seq!['.'] {
            assert(name[0] == '.');
        }
        if name == seq!['.', '.'] {
            assert(name[0] == '.' && name[1] == '.');
        }
        assert(name.len() == len);
        assert(seq!['.'].len() == 1);
        assert(seq!['.', '.'].len() == 2);
    }
    if no_name {
        return String::from_str(root);
    }
    // scan the last segment backwards for its extension dot
    let mut i: usize = e;
    let mut dot: Option<usize> = None;
    while i > start && dot.is_none()
        invariant
            start <= i <= e <= n,
            n == root@.len(),
            start == segment_start(root@, e as int),
            start == 0 || root@[start - 1] == '/',
            forall|j: int| start <= j < e ==> root@[j] != '/',
            dot is None ==> extension_dot(root@, e as int) == extension_dot(root@, i as int),
            dot matches Some(d) ==> extension_dot(root@, e as int) == Some(d as int) && d < e,
        decreases i,
    {
        let c = root.get_char(i - 1);
        assert(segment_start(root@, i - 1) == start) by {
            lemma_segment_start_in_run(root@, start as int, (i - 1) as int);
        }
        if c == '.' && i - 1 > start {
            dot = Some(i - 1);
        }
        i = i - 1;
    }
    assert(dot is None ==> extension_dot(root@, i as int) == None::<int>);
    let stem = match dot {
        Some(d) => root.substring_char(0, d),
        None => root.substring_char(0, e),
    };
    let mut r = String::from_str(stem);
    r.append(".");
    r.append(ext);
    proof {
        reveal_strlit(".");
    }
    r
}

/// The contract shared by every storage backend: a map from key text to value bytes,
/// kept in one on-disk artifact that the store owns alone.
///
/// Each mutating call is one transaction of the engine: on success the change is
/// committed, on failure the contents are as they were.
pub trait KVStore: Sized {
    /// The committed entries.
    spec fn contents(&self) -> Contents;

    /// Path of the on-disk artifact.
    spec fn artifact(&self) -> Seq<char>;

    /// The extension this variant gives its artifact.
    spec fn extension_spec() -> Seq<char>;

    /// The extension this variant gives its artifact.
    fn extension() -> (r: &'static str)
        ensures
            r@ == Self::extension_spec(),
    ;

    /// Opens the store rooted at `path`. Its artifact is `artifact_path(path, extension)`;
    /// the engine initialises it when it holds no store yet, and an existing store keeps its
    /// entries. Directories above the artifact are not created.
    fn new(path: &str) -> (r: Result<Self, StorageError>)
        ensures
            r matches Ok(s) ==> s.artifact() == artifact_path(path@, Self::extension_spec()),
    ;

    /// Writes `v` under `k`, replacing any earlier value.
    fn insert(&mut self, k: &str, v: &[u8]) -> (r: Result<(), StorageError>)
        ensures
            final(self).artifact() == old(self).artifact(),
            r is Ok ==> final(self).contents() == old(self).contents().insert(k@, v@),
            r is Err ==> final(self).contents() == old(self).contents(),
    ;

    /// The value stored under `k`, if any.
    fn get(&self, k: &str) -> (r: Result<Option<Vec<u8>>, StorageError>)
        ensures
            r matches Ok(v) ==> bytes_opt(v) == lookup(self.contents(), k@),
    ;

    /// Whether a value is stored under `k`.
    fn has_key(&self, k: &str) -> (r: Result<bool, StorageError>)
        ensures
            r matches Ok(b) ==> b == self.contents().contains_key(k@),
    {
        match self.get(k) {
            Ok(v) => Ok(v.is_some()),
            Err(e) => Err(e),
        }
    }

    /// Deletes the entry under `k`; an absent key is no error.
    fn remove(&mut self, k: &str) -> (r: Result<(), StorageError>)
        ensures
            final(self).artifact() == old(self).artifact(),
            r is Ok ==> final(self).contents() == old(self).contents().remove(k@),
            r is Err ==> final(self).contents() == old(self).contents(),
    ;

    /// Every entry, each once, in an order the backend chooses.
    fn list(&self) -> (r: Result<Vec<(String, Vec<u8>)>, StorageError>)
        ensures
            r matches Ok(l) ==> is_listing(l@, self.contents()),
    ;

    /// Every key, each once, in an order the backend chooses.
    fn keys(&self) -> (r: Result<Vec<String>, StorageError>)
        ensures
            r matches Ok(l) ==> is_key_listing(l@, self.contents()),
    ;
}

/// The keys of a listing, in its order.
pub fn keys_of(entries: Vec<(String, Vec<u8>)>) -> (r: Vec<String>)
    ensures
        r@.len() == entries@.len(),
        forall|i: int| 0 <= i < r@.len() ==> (#[trigger] r@[i])@ == entries@[i].0@,
{
    let mut out: Vec<String> = Vec::new();
    let mut rest = entries;
    let ghost all = rest@;
    let mut i: usize = 0;
    while i < rest.len()
        invariant
            rest@ == all,
            i <= all.len(),
            out@.len() == i,
            forall|j: int| 0 <= j < i ==> (#[trigger] out@[j])@ == all[j].0@,
        decreases all.len() - i,
    {
        let k = rest[i].0.clone();
        out.push(k);
        i = i + 1;
    }
    out
}

/// A listing of `contents` gives a key listing of it.
pub proof fn lemma_keys_of_listing(entries: Seq<(String, Vec<u8>)>, keys: Seq<String>, contents: Contents)
    requires
        is_listing(entries, contents),
        keys.len() == entries.len(),
        forall|i: int| 0 <= i < keys.len() ==> (#[trigger] keys[i])@ == entries[i].0@,
    ensures
        is_key_listing(keys, contents),
{
    assert forall|i: int| 0 <= i < keys.len() implies contents.contains_key((#[trigger] keys[i])@) by {
        assert(lookup(contents, entries[i].0@) == Some(entries[i].1@));
    }
    assert forall|i: int, j: int| 0 <= i < j < keys.len() implies (#[trigger] keys[i])@ != (
    #[trigger] keys[j])@ by {
        assert(entries[i].0@ != entries[j].0@);
    }
    assert forall|k: Seq<char>| #[trigger] contents.contains_key(k) implies exists|i: int|
        0 <= i < keys.len() && (#[trigger] keys[i])@ == k by {
        let i = choose|i: int| 0 <= i < entries.len() && (#[trigger] entries[i]).0@ == k;
        assert(keys[i]@ == k);
    }
}

/// After `insert(k, v)` succeeds, `get(k)` reports `v`, whatever the store held before.
pub proof fn law_insert_then_get(contents: Contents, k: Seq<char>, v: Seq<u8>)
    ensures
        lookup(contents.insert(k, v), k) == Some(v),
{
}

/// After `insert(k, v1)` and then `insert(k, v2)` succeed, `get(k)` reports `v2`, and a
/// listing of the store holds exactly one entry under `k`, with `v2`.
pub proof fn law_overwrite(
    contents: Contents,
    k: Seq<char>,
    v1: Seq<u8>,
    v2: Seq<u8>,
    entries: Seq<(String, Vec<u8>)>,
)
    requires
        is_listing(entries, contents.insert(k, v1).insert(k, v2)),
    ensures
        lookup(contents.insert(k, v1).insert(k, v2), k) == Some(v2),
        exists|i: int| 0 <= i < entries.len() && (#[trigger] entries[i]).0@ == k && entries[i].1@ == v2,
        forall|i: int, j: int|
            0 <= i < entries.len() && 0 <= j < entries.len() && (#[trigger] entries[i]).0@ == k
                && (#[trigger] entries[j]).0@ == k ==> i == j,
{
    let after = contents.insert(k, v1).insert(k, v2);
    assert(after.contains_key(k));
    let i = choose|i: int| 0 <= i < entries.len() && (#[trigger] entries[i]).0@ == k;
    assert(lookup(after, entries[i].0@) == Some(entries[i].1@));
    assert forall|a: int, b: int|
        0 <= a < entries.len() && 0 <= b < entries.len() && (#[trigger] entries[a]).0@ == k
            && (#[trigger] entries[b]).0@ == k implies a == b by {
        if a < b {
            assert(entries[a].0@ != entries[b].0@);
        } else if b < a {
            assert(entries[b].0@ != entries[a].0@);
        }
    }
}

/// After `remove(k)` succeeds, `get(k)` reports nothing and `has_key(k)` is false.
pub proof fn law_remove_then_get(contents: Contents, k: Seq<char>)
    ensures
        lookup(contents.remove(k), k) == None::<Seq<u8>>,
        !contents.remove(k).contains_key(k),
{
}

} // verus!
