use vstd::prelude::*;

verus! {

#[verifier::external_type_specification]
#[verifier::external_body]
pub struct ExUrl(url::Url);

/// Why a text could not be read as a URL.
#[derive(PartialEq, Eq, Structural, Clone, Copy, Debug)]
pub enum UrlFault {
    /// The text is a relative reference, which needs a base.
    RelativeWithoutBase,
    /// Any other reason.
    Malformed,
}

/// Serialization, scheme and path of a URL.
pub type UrlParts = (Seq<char>, Seq<char>, Seq<char>);

/// What parsing `text` as an absolute URL gives.
pub uninterp spec fn parsed_url(text: Seq<char>) -> Result<UrlParts, UrlFault>;

/// What resolving the reference `reference` against the URL serialized as `base` gives.
pub uninterp spec fn joined_url(base: Seq<char>, reference: Seq<char>) -> Result<UrlParts, UrlFault>;

/// The local file path, as text, that a `file` URL serialized as `href` names.
pub uninterp spec fn url_file_path(href: Seq<char>) -> Option<Seq<char>>;

/// A successful reading of a URL.
pub open spec fn ok_parts(p: UrlParts) -> Result<UrlParts, UrlFault> {
    Ok(p)
}

/// A failed reading of a URL.
pub open spec fn fault(f: UrlFault) -> Result<UrlParts, UrlFault> {
    Err(f)
}

/// An absolute, scheme-qualified module specifier.
pub struct ModuleSpecifier {
    pub(crate) url: url::Url,
    href: String,
    scheme: String,
    path: String,
}

/// Failure to resolve a specifier.
#[derive(Debug)]
pub enum ResolutionError {
    /// The specifier is neither absolute nor resolvable against its referrer.
    MalformedSpecifier(String),
}

impl ModuleSpecifier {
    /// Serialization, scheme and path of the specifier.
    pub closed spec fn parts(&self) -> UrlParts {
        (self.href@, self.scheme@, self.path@)
    }

    /// The serialized specifier.
    pub fn as_str(&self) -> (r: &str)
        ensures
            r@ == self.parts().0,
    {
        self.href.as_str()
    }

    /// The scheme, without its `:`.
    pub fn scheme(&self) -> (r: &str)
        ensures
            r@ == self.parts().1,
    {
        self.scheme.as_str()
    }

    /// The path component.
    pub fn path(&self) -> (r: &str)
        ensures
            r@ == self.parts().2,
    {
        self.path.as_str()
    }

    /// Parses an absolute specifier.
    pub fn parse(text: &str) -> (r: Result<ModuleSpecifier, UrlFault>)
        ensures
            r matches Ok(s) ==> parsed_url(text@) == ok_parts(s.parts()),
            r matches Err(f) ==> parsed_url(text@) == fault(f),
    {
        parse_url(text)
    }
}

/// Relies on url's `Url::parse`, and on `Url::as_str`, `scheme` and `path` of its result.
#[verifier::external_body]
fn parse_url(text: &str) -> (r: Result<ModuleSpecifier, UrlFault>)
    ensures
        r matches Ok(s) ==> parsed_url(text@) == ok_parts(s.parts()),
        r matches Err(f) ==> parsed_url(text@) == fault(f),
{
    match url::Url::parse(text) {
        Ok(u) => Ok(ModuleSpecifier { href: u.as_str().to_owned(), scheme: u.scheme().to_owned(), path: u.path().to_owned(), url: u }),
        Err(url::ParseError::RelativeUrlWithoutBase) => Err(UrlFault::RelativeWithoutBase),
        Err(_) => Err(UrlFault::Malformed),
    }
}

/// Relies on url's `Url::join`, and on `Url::as_str`, `scheme` and `path` of its result.
#[verifier::external_body]
fn join_url(base: &ModuleSpecifier, reference: &str) -> (r: Result<ModuleSpecifier, UrlFault>)
    ensures
        r matches Ok(s) ==> joined_url(base.parts().0, reference@) == ok_parts(s.parts()),
        r matches Err(f) ==> joined_url(base.parts().0, reference@) == fault(f),
{
    match base.url.join(reference) {
        Ok(u) => Ok(ModuleSpecifier { href: u.as_str().to_owned(), scheme: u.scheme().to_owned(), path: u.path().to_owned(), url: u }),
        Err(url::ParseError::RelativeUrlWithoutBase) => Err(UrlFault::RelativeWithoutBase),
        Err(_) => Err(UrlFault::Malformed),
    }
}

/// Relies on url's `Url::to_file_path`: the local path a `file` URL names, when it names one
/// and the path is text.
#[verifier::external_body]
pub(crate) fn file_path_of(spec: &ModuleSpecifier) -> (r: Option<String>)
    ensures
        r matches Some(p) ==> url_file_path(spec.parts().0) == Some(p@),
        r is None ==> url_file_path(spec.parts().0) is None,
{
    spec.url.to_file_path().ok().and_then(|p| p.into_os_string().into_string().ok())
}

/// What resolving `specifier` against `referrer` gives: the specifier itself where it is an
/// absolute URL; where it is a relative reference, its resolution against the referrer.
pub open spec fn resolution(specifier: Seq<char>, referrer: Seq<char>) -> Option<UrlParts> {
    match parsed_url(specifier) {
        Ok(p) => Some(p),
        Err(UrlFault::RelativeWithoutBase) => match parsed_url(referrer) {
            Ok(base) => match joined_url(base.0, specifier) {
                Ok(p) => Some(p),
                Err(_) => None,
            },
            Err(_) => None,
        },
        Err(UrlFault::Malformed) => None,
    }
}

/// Resolves `specifier` against `referrer` by relative-reference resolution.
pub fn resolve_import(specifier: &str, referrer: &str) -> (r: Result<ModuleSpecifier, ResolutionError>)
    ensures
        r matches Ok(s) ==> resolution(specifier@, referrer@) == Some(s.parts()),
        r matches Err(e) ==> resolution(specifier@, referrer@) is None
            && (e matches ResolutionError::MalformedSpecifier(t) && t@ == specifier@),
{
    match parse_url(specifier) {
        Ok(s) => Ok(s),
        Err(UrlFault::RelativeWithoutBase) => match parse_url(referrer) {
            Ok(base) => match join_url(&base, specifier) {
                Ok(s) => Ok(s),
                Err(_) => Err(ResolutionError::MalformedSpecifier(String::from_str(specifier))),
            },
            Err(_) => Err(ResolutionError::MalformedSpecifier(String::from_str(specifier))),
        },
        Err(UrlFault::Malformed) => Err(ResolutionError::MalformedSpecifier(String::from_str(specifier))),
    }
}

} // verus!
