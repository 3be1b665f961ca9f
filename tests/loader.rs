use cat_panel_backend::kv::KVStore;
use cat_panel_backend::loader::{
    classify, trim_leading_slashes, LoadError, LoadStep, ModuleType, TypescriptModuleLoader,
};
use cat_panel_backend::redb_store::RedbStore;
use cat_panel_backend::specifier::{ModuleSpecifier, ResolutionError, UrlFault};
use deno_ast::MediaType;
use tempfile::TempDir;

fn loader() -> (TempDir, TypescriptModuleLoader<RedbStore>) {
    let dir = tempfile::tempdir().unwrap();
    let root = dir.path().join("remote_script").to_str().unwrap().to_owned();
    let store = RedbStore::new(&root).unwrap();
    (dir, TypescriptModuleLoader::new(store))
}

fn spec(text: &str) -> ModuleSpecifier {
    ModuleSpecifier::parse(text).unwrap()
}

#[test]
fn parse_gives_scheme_and_path() {
    let s = spec("https://host/a/b.ts");
    assert_eq!(s.as_str(), "https://host/a/b.ts");
    assert_eq!(s.scheme(), "https");
    assert_eq!(s.path(), "/a/b.ts");
    assert!(matches!(ModuleSpecifier::parse("./rel.ts"), Err(UrlFault::RelativeWithoutBase)));
    assert!(matches!(ModuleSpecifier::parse("http://[bad"), Err(UrlFault::Malformed)));
}

#[test]
fn resolve_relative_and_absolute() {
    let (_dir, l) = loader();
    let r = l.resolve("./c.js", "https://host/a/b.ts").unwrap();
    assert_eq!(r.as_str(), "https://host/a/c.js");
    let r = l.resolve("../d.ts", "file:///x/y/z.ts").unwrap();
    assert_eq!(r.as_str(), "file:///x/d.ts");
    let r = l.resolve("embed:/php/info.ts", "file:///x/y.ts").unwrap();
    assert_eq!(r.as_str(), "embed:/php/info.ts");
}

#[test]
fn resolve_rejects_malformed() {
    let (_dir, l) = loader();
    match l.resolve("./a.js", "not a url") {
        Err(ResolutionError::MalformedSpecifier(s)) => assert_eq!(s, "./a.js"),
        other => panic!("unexpected {:?}", other.map(|s| s.as_str().to_owned())),
    }
    assert!(l.resolve("http://[bad", "https://host/").is_err());
}

#[test]
fn file_module_is_read_and_kept() {
    let (_dir, l) = loader();
    let s = spec("file:///x/y.js");
    match l.begin_load(&s).unwrap() {
        LoadStep::ReadFile(p) => assert_eq!(p, "/x/y.js"),
        other => panic!("unexpected {:?}", other),
    }
    let m = l.complete_read(&s, "/x/y.js", Some(b"console.log(1)".to_vec())).unwrap();
    assert_eq!(m.code, b"console.log(1)".to_vec());
    assert_eq!(m.module_type, ModuleType::JavaScript);
    assert_eq!(m.module_url_specified, "file:///x/y.js");
    assert_eq!(m.module_url_found, "file:///x/y.js");
    assert!(l.cache().list().unwrap().is_empty());
}

#[test]
fn file_path_is_decoded() {
    let (_dir, l) = loader();
    match l.begin_load(&spec("file:///x/a%20b.js")).unwrap() {
        LoadStep::ReadFile(p) => assert_eq!(p, "/x/a b.js"),
        other => panic!("unexpected {:?}", other),
    }
    assert!(matches!(l.begin_load(&spec("file://remote-host/x.js")), Err(LoadError::NotFound(_))));
}

#[test]
fn missing_file_is_not_found() {
    let (_dir, l) = loader();
    let s = spec("file:///x/missing.js");
    assert!(matches!(l.complete_read(&s, "/x/missing.js", None), Err(LoadError::NotFound(p)) if p == "/x/missing.js"));
}

#[test]
fn embedded_module_skips_cache() {
    let (_dir, l) = loader();
    let s = spec("embed:/a/b.js");
    match l.begin_load(&s).unwrap() {
        LoadStep::LookupEmbedded(p) => assert_eq!(p, "a/b.js"),
        other => panic!("unexpected {:?}", other),
    }
    let m = l.complete_read(&s, "a/b.js", Some(b"export {}".to_vec())).unwrap();
    assert_eq!(m.code, b"export {}".to_vec());
    assert!(l.cache().list().unwrap().is_empty());
}

#[test]
fn unsupported_scheme_fails_untouched() {
    let (_dir, l) = loader();
    let s = spec("ftp://host/a");
    assert!(matches!(l.begin_load(&s), Err(LoadError::UnsupportedProtocol(p)) if p == "ftp"));
    assert!(l.cache().list().unwrap().is_empty());
}

#[test]
fn remote_unknown_kind_fails_after_caching() {
    let (_dir, mut l) = loader();
    let s = spec("https://host/a.unknownext");
    match l.begin_load(&s).unwrap() {
        LoadStep::Fetch(u) => assert_eq!(u, "https://host/a.unknownext"),
        other => panic!("unexpected {:?}", other),
    }
    let r = l.complete_fetch(&s, Ok(b"data".to_vec()));
    assert!(matches!(r, Err(LoadError::UnknownSourceKind(_))));
    assert_eq!(l.cache().get("/a.unknownext").unwrap(), Some(b"data".to_vec()));
}

#[test]
fn remote_module_is_served_from_cache() {
    let (_dir, mut l) = loader();
    let s = spec("http://host/lib/m.js");
    assert!(matches!(l.begin_load(&s).unwrap(), LoadStep::Fetch(_)));
    let m = l.complete_fetch(&s, Ok(b"export const a = 1;".to_vec())).unwrap();
    assert_eq!(m.code, b"export const a = 1;".to_vec());
    match l.begin_load(&s).unwrap() {
        LoadStep::Ready(m) => {
            assert_eq!(m.code, b"export const a = 1;".to_vec());
            assert_eq!(m.module_url_found, "http://host/lib/m.js");
        }
        other => panic!("unexpected {:?}", other),
    }
    // another host with the same path shares the entry
    let other = spec("https://elsewhere/lib/m.js");
    assert!(matches!(l.begin_load(&other).unwrap(), LoadStep::Ready(_)));
}

#[test]
fn network_failure_leaves_cache() {
    let (_dir, mut l) = loader();
    let s = spec("https://host/a.js");
    let r = l.complete_fetch(&s, Err("connection refused".to_owned()));
    assert!(matches!(r, Err(LoadError::NetworkFailure(m)) if m == "connection refused"));
    assert!(l.cache().list().unwrap().is_empty());
}

#[test]
fn racing_fetches_leave_one_entry() {
    let (_dir, mut l) = loader();
    let s = spec("https://host/race.js");
    l.complete_fetch(&s, Ok(b"first".to_vec())).unwrap();
    l.complete_fetch(&s, Ok(b"second".to_vec())).unwrap();
    let list = l.cache().list().unwrap();
    assert_eq!(list, vec![("/race.js".to_owned(), b"second".to_vec())]);
}

#[test]
fn typescript_is_transformed() {
    let (_dir, l) = loader();
    let s = spec("file:///x/y.ts");
    let source = b"const a: number = 1;\nexport default a;\n".to_vec();
    let m = l.complete_read(&s, "/x/y.ts", Some(source.clone())).unwrap();
    assert_ne!(m.code, source);
    let text = String::from_utf8(m.code).unwrap();
    assert!(text.contains("const a = 1"));
    assert!(!text.contains(": number"));
    assert_eq!(m.module_type, ModuleType::JavaScript);
}

#[test]
fn byte_order_mark_is_dropped_before_transform() {
    let (_dir, l) = loader();
    let s = spec("file:///x/bom.ts");
    let mut source = "\u{FEFF}".as_bytes().to_vec();
    source.extend_from_slice(b"const a: number = 1;\n");
    let m = l.complete_read(&s, "/x/bom.ts", Some(source)).unwrap();
    let text = String::from_utf8(m.code).unwrap();
    assert!(text.contains("const a = 1"));
}

#[test]
fn cached_answer_decides_the_step() {
    let (_dir, l) = loader();
    let s = spec("https://host/lib/c.js");
    match l.step_for_cached(&s, None).unwrap() {
        LoadStep::Fetch(u) => assert_eq!(u, "https://host/lib/c.js"),
        other => panic!("unexpected {:?}", other),
    }
    match l.step_for_cached(&s, Some(b"export {}".to_vec())).unwrap() {
        LoadStep::Ready(m) => assert_eq!(m.code, b"export {}".to_vec()),
        other => panic!("unexpected {:?}", other),
    }
    let unknown = spec("https://host/lib/c.txt");
    assert!(matches!(l.step_for_cached(&unknown, Some(b"x".to_vec())), Err(LoadError::UnknownSourceKind(_))));
}

#[test]
fn broken_typescript_fails_transform() {
    let (_dir, l) = loader();
    let s = spec("file:///x/y.ts");
    let r = l.complete_read(&s, "/x/y.ts", Some(b"const = ;;(".to_vec()));
    assert!(matches!(r, Err(LoadError::SourceTransformError(_))));
}

#[test]
fn json_is_kept() {
    let (_dir, l) = loader();
    let s = spec("file:///x/data.json");
    let m = l.complete_read(&s, "/x/data.json", Some(b"{\"a\": 1}".to_vec())).unwrap();
    assert_eq!(m.module_type, ModuleType::Json);
    assert_eq!(m.code, b"{\"a\": 1}".to_vec());
}

#[test]
fn classification_of_media_types() {
    assert_eq!(classify(MediaType::JavaScript), Some((ModuleType::JavaScript, false)));
    assert_eq!(classify(MediaType::Mjs), Some((ModuleType::JavaScript, false)));
    assert_eq!(classify(MediaType::TypeScript), Some((ModuleType::JavaScript, true)));
    assert_eq!(classify(MediaType::Tsx), Some((ModuleType::JavaScript, true)));
    assert_eq!(classify(MediaType::Json), Some((ModuleType::Json, false)));
    assert_eq!(classify(MediaType::Css), None);
    assert_eq!(classify(MediaType::Unknown), None);
}

#[test]
fn leading_slashes_are_trimmed() {
    assert_eq!(trim_leading_slashes("//php/info.ts"), "php/info.ts");
    assert_eq!(trim_leading_slashes("php/info.ts"), "php/info.ts");
    assert_eq!(trim_leading_slashes("/"), "");
}

#[test]
fn test_php_info() {
    let (_dir, l) = loader();
    let main = spec("embed:/php/info.ts");
    match l.begin_load(&main).unwrap() {
        LoadStep::LookupEmbedded(p) => assert_eq!(p, "php/info.ts"),
        other => panic!("unexpected {:?}", other),
    }
}
