use vstd::prelude::*;

use crate::kv::{lookup, Contents, KVStore, StorageError};
use crate::specifier::{
    file_path_of, resolution, resolve_import, url_file_path, ModuleSpecifier, ResolutionError,
};
use deno_ast::MediaType;

verus! {

#[verifier::external_type_specification]
pub struct ExMediaType(MediaType);

/// The media type that deno_ast reads from the file name that ends `path`.
pub uninterp spec fn media_type_from_path(path: Seq<char>) -> MediaType;

/// The code that deno_ast's transpiler emits, with its default options, for `code` read as
/// UTF-8 source, without a leading byte-order mark, of media type `media` of the module
/// serialized as `specifier`; `None` where the code is no UTF-8, or cannot be parsed or
/// emitted.
pub uninterp spec fn transpiled(specifier: Seq<char>, code: Seq<u8>, media: MediaType) -> Option<Seq<u8>>;

/// How the execution engine treats a module's code.
#[derive(PartialEq, Eq, Structural, Clone, Copy, Debug)]
pub enum ModuleType {
    JavaScript,
    Json,
}

/// A module ready for the execution engine.
#[derive(Debug)]
pub struct ModuleSource {
    /// The code to execute.
    pub code: Vec<u8>,
    pub module_type: ModuleType,
    /// The specifier as requested.
    pub module_url_specified: String,
    /// The specifier as resolved.
    pub module_url_found: String,
}

/// Failure to load a module.
#[derive(Debug)]
pub enum LoadError {
    /// No file or embedded resource at the path given.
    NotFound(String),
    /// The scheme given is none of `file`, `http`, `https`, `embed`.
    UnsupportedProtocol(String),
    /// Fetching the module failed, with the transport's message.
    NetworkFailure(String),
    /// The path given has no extension of a recognised source kind.
    UnknownSourceKind(String),
    /// The transformation of the source failed, with its message.
    SourceTransformError(String),
    /// The module cache failed.
    Storage(StorageError),
}

/// How code of a media type becomes executable: its module type, and whether it must be
/// transformed first; `None` for a kind that is not recognised.
pub open spec fn source_kind(media: MediaType) -> Option<(ModuleType, bool)> {
    match media {
        MediaType::JavaScript => Some((ModuleType::JavaScript, false)),
        MediaType::Mjs => Some((ModuleType::JavaScript, false)),
        MediaType::Cjs => Some((ModuleType::JavaScript, false)),
        MediaType::Jsx => Some((ModuleType::JavaScript, true)),
        MediaType::TypeScript => Some((ModuleType::JavaScript, true)),
        MediaType::Mts => Some((ModuleType::JavaScript, true)),
        MediaType::Cts => Some((ModuleType::JavaScript, true)),
        MediaType::Dts => Some((ModuleType::JavaScript, true)),
        MediaType::Dmts => Some((ModuleType::JavaScript, true)),
        MediaType::Dcts => Some((ModuleType::JavaScript, true)),
        MediaType::Tsx => Some((ModuleType::JavaScript, true)),
        MediaType::Json => Some((ModuleType::Json, false)),
        _ => None,
    }
}

/// What the code of a module becomes.
pub enum Assembly {
    /// An executable module of this type, with this code.
    Ready(ModuleType, Seq<u8>),
    /// The source kind is not recognised.
    UnknownKind,
    /// The transformation failed.
    TransformFailed,
}

/// What `code`, fetched for the module serialized as `href` and classified by `path`, becomes.
pub open spec fn assembly(href: Seq<char>, path: Seq<char>, code: Seq<u8>) -> Assembly {
    let media = media_type_from_path(path);
    match source_kind(media) {
        None => Assembly::UnknownKind,
        Some(kind) => if !kind.1 {
            Assembly::Ready(kind.0, code)
        } else {
            match transpiled(href, code, media) {
                Some(c) => Assembly::Ready(kind.0, c),
                None => Assembly::TransformFailed,
            }
        },
    }
}

/// `m` is the module `href` with this type and code.
pub open spec fn module_is(m: ModuleSource, href: Seq<char>, t: ModuleType, code: Seq<u8>) -> bool {
    &&& m.code@ == code
    &&& m.module_type == t
    &&& m.module_url_specified@ == href
    &&& m.module_url_found@ == href
}

/// `r` reports the assembly `a` of the module `href`.
pub open spec fn reports(r: Result<ModuleSource, LoadError>, href: Seq<char>, a: Assembly) -> bool {
    match a {
        Assembly::Ready(t, c) => r matches Ok(m) && module_is(m, href, t, c),
        Assembly::UnknownKind => r matches Err(LoadError::UnknownSourceKind(_)),
        Assembly::TransformFailed => r matches Err(LoadError::SourceTransformError(_)),
    }
}

/// Relies on deno_ast's `MediaType::from_path`.
#[verifier::external_body]
fn media_type_of(path: &str) -> (r: MediaType)
    ensures
        r == media_type_from_path(path@),
{
    MediaType::from_path(std::path::Path::new(path))
}

/// Relies on deno_ast's `strip_bom`, `parse_module` and `ParsedSource::transpile`, with
/// default options; the byte-order mark is dropped first, as `parse_module` expects.
#[verifier::external_body]
fn transpile(spec: &ModuleSpecifier, code: &[u8], media: MediaType) -> (r: Result<Vec<u8>, String>)
    ensures
        r matches Ok(c) ==> transpiled(spec.parts().0, code@, media) == Some(c@),
        r is Err ==> transpiled(spec.parts().0, code@, media) is None,
{
    let text = deno_ast::strip_bom(String::from_utf8(code.to_vec()).map_err(|e| e.to_string())?);
    let params = deno_ast::ParseParams { specifier: spec.url.clone(), text: text.into(), media_type: media, capture_tokens: false, scope_analysis: false, maybe_syntax: None };
    let parsed = deno_ast::parse_module(params).map_err(|e| e.to_string())?;
    let emitted = parsed.transpile(&Default::default(), &Default::default(), &Default::default());
    emitted.map(|t| t.into_source().text.into_bytes()).map_err(|e| e.to_string())
}

/// The module type of code of a media type, and whether it must be transformed first.
pub fn classify(media: MediaType) -> (r: Option<(ModuleType, bool)>)
    ensures
        r == source_kind(media),
{
    match media {
        MediaType::JavaScript | MediaType::Mjs | MediaType::Cjs => Some((ModuleType::JavaScript, false)),
        MediaType::Jsx | MediaType::TypeScript | MediaType::Mts | MediaType::Cts | MediaType::Dts
        | MediaType::Dmts | MediaType::Dcts | MediaType::Tsx => Some((ModuleType::JavaScript, true)),
        MediaType::Json => Some((ModuleType::Json, false)),
        _ => None,
    }
}

/// Builds the module from its code of the given media type: plain kinds keep their code,
/// the others are transformed.
pub fn assemble_media(spec: &ModuleSpecifier, media: MediaType, code: Vec<u8>) -> (r: Result<ModuleSource, LoadError>)
    ensures
        reports(r, spec.parts().0, match source_kind(media) {
            None => Assembly::UnknownKind,
            Some(kind) => if !kind.1 {
                Assembly::Ready(kind.0, code@)
            } else {
                match transpiled(spec.parts().0, code@, media) {
                    Some(c) => Assembly::Ready(kind.0, c),
                    None => Assembly::TransformFailed,
                }
            },
        }),
{
    let (module_type, transform) = match classify(media) {
        Some(kind) => kind,
        None => return Err(LoadError::UnknownSourceKind(String::from_str(spec.path()))),
    };
    let code = if transform {
        match transpile(spec, code.as_slice(), media) {
            Ok(c) => c,
            Err(msg) => return Err(LoadError::SourceTransformError(msg)),
        }
    } else {
        code
    };
    let specified = String::from_str(spec.as_str());
    let found = String::from_str(spec.as_str());
    Ok(ModuleSource { code, module_type, module_url_specified: specified, module_url_found: found })
}

/// Builds the module from its code, classified by the file name that ends `path`.
pub fn assemble(spec: &ModuleSpecifier, path: &str, code: Vec<u8>) -> (r: Result<ModuleSource, LoadError>)
    ensures
        reports(r, spec.parts().0, assembly(spec.parts().0, path@, code@)),
{
    let media = media_type_of(path);
    assemble_media(spec, media, code)
}

/// Whether two texts are equal.
fn same_text(a: &str, b: &str) -> (r: bool)
    ensures
        r == (a@ == b@),
{
    let n = a.unicode_len();
    if n != b.unicode_len() {
        return false;
    }
    let mut i: usize = 0;
    while i < n
        invariant
            n == a@.len(),
            n == b@.len(),
            i <= n,
            forall|j: int| 0 <= j < i ==> a@[j] == b@[j],
        decreases n - i,
    {
        if a.get_char(i) != b.get_char(i) {
            return false;
        }
        i = i + 1;
    }
    assert(a@ =~= b@);
    true
}

/// `p` without its leading slashes.
pub open spec fn trim_slashes(p: Seq<char>) -> Seq<char>
    decreases p.len(),
{
    if p.len() > 0 && p[0] == '/' {
        trim_slashes(p.drop_first())
    } else {
        p
    }
}

/// `p` without its leading slashes.
pub fn trim_leading_slashes(p: &str) -> (r: &str)
    ensures
        r@ == trim_slashes(p@),
{
    let n = p.unicode_len();
    let mut i: usize = 0;
    assert(p@.subrange(0, n as int) =~= p@);
    while i < n && p.get_char(i) == '/'
        invariant
            n == p@.len(),
            i <= n,
            trim_slashes(p@) == trim_slashes(p@.subrange(i as int, n as int)),
        decreases n - i,
    {
        assert(p@.subrange(i as int, n as int).drop_first() =~= p@.subrange(i + 1, n as int));
        i = i + 1;
    }
    let r = p.substring_char(i, n);
    assert(trim_slashes(r@) == r@);
    r
}

/// How a scheme's modules are obtained.
pub enum Route {
    /// Read from the local filesystem.
    Local,
    /// Taken from the module cache, or fetched over the network.
    Remote,
    /// Looked up in the embedded resource table.
    Embedded,
    /// Not served.
    Unsupported,
}

/// How modules of the scheme `scheme` are obtained.
pub open spec fn route_of(scheme: Seq<char>) -> Route {
    if scheme == "file"@ {
        Route::Local
    } else if scheme == "http"@ || scheme == "https"@ {
        Route::Remote
    } else if scheme == "embed"@ {
        Route::Embedded
    } else {
        Route::Unsupported
    }
}

/// What the caller does next to obtain a module's code.
#[derive(Debug)]
pub enum LoadStep {
    /// Read the local file at this path and hand its bytes to `complete_read`.
    ReadFile(String),
    /// Fetch this URL and hand the outcome to `complete_fetch`.
    Fetch(String),
    /// Look this path up in the embedded resource table and hand the result to `complete_read`.
    LookupEmbedded(String),
    /// The module was in the cache; nothing is left to do.
    Ready(ModuleSource),
}

/// `r` is the step for the cached code `code` of the module `href` at `path`.
pub open spec fn cached_step(r: Result<LoadStep, LoadError>, href: Seq<char>, a: Assembly) -> bool {
    match a {
        Assembly::Ready(t, c) => r matches Ok(LoadStep::Ready(m)) && module_is(m, href, t, c),
        Assembly::UnknownKind => r matches Err(LoadError::UnknownSourceKind(_)),
        Assembly::TransformFailed => r matches Err(LoadError::SourceTransformError(_)),
    }
}

/// Resolves, and loads, script modules. Remote modules are cached in the store `S`, keyed by
/// the path of their specifier; local and embedded ones never are.
pub struct TypescriptModuleLoader<S: KVStore> {
    cache: S,
}

impl<S: KVStore> TypescriptModuleLoader<S> {
    /// The entries of the module cache.
    pub closed spec fn cache_contents(&self) -> Contents {
        self.cache.contents()
    }

    /// A loader that caches remote modules in `cache`.
    pub fn new(cache: S) -> (r: Self)
        ensures
            r.cache_contents() == cache.contents(),
    {
        TypescriptModuleLoader { cache }
    }

    /// The module cache.
    pub fn cache(&self) -> (r: &S)
        ensures
            r.contents() == self.cache_contents(),
    {
        &self.cache
    }

    /// Resolves `specifier` against `referrer` by relative-reference resolution.
    pub fn resolve(&self, specifier: &str, referrer: &str) -> (r: Result<ModuleSpecifier, ResolutionError>)
        ensures
            r matches Ok(s) ==> resolution(specifier@, referrer@) == Some(s.parts()),
            r matches Err(e) ==> resolution(specifier@, referrer@) is None
                && (e matches ResolutionError::MalformedSpecifier(t) && t@ == specifier@),
    {
        resolve_import(specifier, referrer)
    }

    /// First stage of loading `spec`, dispatched on its scheme. A remote module found in
    /// the cache is finished here; an unsupported scheme fails before the cache is read.
    pub fn begin_load(&self, spec: &ModuleSpecifier) -> (r: Result<LoadStep, LoadError>)
        ensures
            route_of(spec.parts().1) is Local ==> match url_file_path(spec.parts().0) {
                Some(p) => r matches Ok(LoadStep::ReadFile(q)) && q@ == p,
                None => r matches Err(LoadError::NotFound(_)),
            },
            route_of(spec.parts().1) is Embedded ==> (r matches Ok(LoadStep::LookupEmbedded(q)) && q@
                == trim_slashes(spec.parts().2)),
            route_of(spec.parts().1) is Unsupported ==> (r matches Err(LoadError::UnsupportedProtocol(s))
                && s@ == spec.parts().1),
            route_of(spec.parts().1) is Remote && !(r matches Err(LoadError::Storage(_))) ==> match lookup(
                self.cache_contents(),
                spec.parts().2,
            ) {
                Some(code) => cached_step(r, spec.parts().0, assembly(spec.parts().0, spec.parts().2, code)),
                None => r matches Ok(LoadStep::Fetch(h)) && h@ == spec.parts().0,
            },
    {
        let scheme = spec.scheme();
        proof {
            reveal_strlit("file");
            reveal_strlit("http");
            reveal_strlit("https");
            reveal_strlit("embed");
        }
        if same_text(scheme, "file") {
            match file_path_of(spec) {
                Some(p) => Ok(LoadStep::ReadFile(p)),
                None => Err(LoadError::NotFound(String::from_str(spec.as_str()))),
            }
        } else if same_text(scheme, "http") || same_text(scheme, "https") {
            match self.cache.get(spec.path()) {
                Ok(cached) => self.step_for_cached(spec, cached),
                Err(e) => Err(LoadError::Storage(e)),
            }
        } else if same_text(scheme, "embed") {
            Ok(LoadStep::LookupEmbedded(String::from_str(trim_leading_slashes(spec.path()))))
        } else {
            Err(LoadError::UnsupportedProtocol(String::from_str(scheme)))
        }
    }

    /// The step for a remote module once the cache has answered: `cached` is what it holds
    /// under the module's path. A hit is finished here; a miss asks for a fetch.
    pub fn step_for_cached(&self, spec: &ModuleSpecifier, cached: Option<Vec<u8>>) -> (r: Result<LoadStep, LoadError>)
        ensures
            cached is None ==> (r matches Ok(LoadStep::Fetch(h)) && h@ == spec.parts().0),
            cached matches Some(c) ==> cached_step(r, spec.parts().0, assembly(spec.parts().0, spec.parts().2, c@)),
    {
        match cached {
            Some(code) => match assemble(spec, spec.path(), code) {
                Ok(m) => Ok(LoadStep::Ready(m)),
                Err(e) => Err(e),
            },
            None => Ok(LoadStep::Fetch(String::from_str(spec.as_str()))),
        }
    }

    /// Last stage of loading a local or embedded module: `found` holds the code read at
    /// `path`, or `None` where nothing is there. The cache is not used.
    pub fn complete_read(&self, spec: &ModuleSpecifier, path: &str, found: Option<Vec<u8>>) -> (r: Result<ModuleSource, LoadError>)
        ensures
            found is None ==> (r matches Err(LoadError::NotFound(p)) && p@ == path@),
            found matches Some(code) ==> reports(r, spec.parts().0, assembly(spec.parts().0, path@, code@)),
    {
        match found {
            Some(code) => assemble(spec, path, code),
            None => Err(LoadError::NotFound(String::from_str(path))),
        }
    }

    /// Last stage of loading a remote module: `fetched` is the outcome of fetching it. Fetched
    /// code is written to the cache under the specifier's path before it is classified.
    pub fn complete_fetch(&mut self, spec: &ModuleSpecifier, fetched: Result<Vec<u8>, String>) -> (r: Result<ModuleSource, LoadError>)
        ensures
            fetched is Err ==> (r matches Err(LoadError::NetworkFailure(_))) && final(self).cache_contents()
                == old(self).cache_contents(),
            fetched matches Ok(code) ==> if r matches Err(LoadError::Storage(_)) {
                final(self).cache_contents() == old(self).cache_contents()
            } else {
                &&& final(self).cache_contents() == old(self).cache_contents().insert(spec.parts().2, code@)
                &&& reports(r, spec.parts().0, assembly(spec.parts().0, spec.parts().2, code@))
            },
    {
        let code = match fetched {
            Ok(code) => code,
            Err(msg) => return Err(LoadError::NetworkFailure(msg)),
        };
        let key = spec.path();
        match self.cache.insert(key, code.as_slice()) {
            Ok(()) => assemble(spec, key, code),
            Err(e) => Err(LoadError::Storage(e)),
        }
    }
}

/// Code of a kind that needs no transformation reaches the execution engine byte for byte.
pub proof fn law_plain_kinds_unmodified(href: Seq<char>, path: Seq<char>, code: Seq<u8>)
    requires
        source_kind(media_type_from_path(path)) matches Some(kind) && !kind.1,
    ensures
        assembly(href, path, code) matches Assembly::Ready(_, c) && c == code,
{
}

/// Two fetches of one remote module that race, each written to the cache when it arrives:
/// whichever order they land in, the cache then holds one entry under the module's key,
/// equal to one of the two fetched codes, and every other entry as before.
pub proof fn law_racing_fetches(cache: Contents, key: Seq<char>, first: Seq<u8>, second: Seq<u8>)
    ensures
        ({
            let after = cache.insert(key, first).insert(key, second);
            &&& lookup(after, key) == Some(second)
            &&& after.dom() == cache.dom().insert(key)
            &&& forall|k: Seq<char>| k != key ==> #[trigger] lookup(after, k) == lookup(cache, k)
        }),
{
    assert(cache.insert(key, first).insert(key, second).dom() =~= cache.dom().insert(key));
}

} // verus!
