use vstd::prelude::*;

verus! {

/// `base` extended by the relative segment `segment`, with one `/` between them.
pub open spec fn join_path(base: Seq<char>, segment: Seq<char>) -> Seq<char> {
    if base.len() == 0 {
        segment
    } else if base.last() == '/' {
        base + segment
    } else {
        base + seq!['/'] + segment
    }
}

/// `base` extended by the relative segment `segment`, with one `/` between them.
pub fn join_segment(base: &str, segment: &str) -> (r: String)
    ensures
        r@ == join_path(base@, segment@),
{
    let n = base.unicode_len();
    let mut r = String::from_str(base);
    if n > 0 && base.get_char(n - 1) != '/' {
        r.append("/");
        proof {
            reveal_strlit("/");
        }
    }
    r.append(segment);
    r
}

/// Settings of the application's working directories.
pub struct GeneralConfig {
    /// Root directory of the application's files.
    pub app_path: String,
}

impl GeneralConfig {
    /// Directory of cached data: `<app_path>/cache`.
    pub fn cache_dir(&self) -> (r: String)
        ensures
            r@ == join_path(self.app_path@, "cache"@),
    {
        join_segment(self.app_path.as_str(), "cache")
    }

    /// Directory of installed components: `<app_path>/components`.
    pub fn components_dir(&self) -> (r: String)
        ensures
            r@ == join_path(self.app_path@, "components"@),
    {
        join_segment(self.app_path.as_str(), "components")
    }

    /// Logical root of the store that caches remote modules: `<app_path>/cache/remote_script`.
    pub fn remote_cache_root(&self) -> (r: String)
        ensures
            r@ == join_path(join_path(self.app_path@, "cache"@), "remote_script"@),
    {
        let cache = self.cache_dir();
        join_segment(cache.as_str(), "remote_script")
    }
}

} // verus!
