use vstd::prelude::*;

use vstd::string::StrSliceExecFns;
use vstd::string::StringExecFns;

verus! {

/// The millisecond timeout used when a request names none.
pub const DEFAULT_TIMEOUT_MS: u64 = 1000;

/// The pieces of a parsed URL that dispatching needs.
#[derive(Debug)]
pub struct UrlParts {
    pub scheme: String,
    pub authority: String,
    pub path: String,
    pub query: Option<String>,
    pub has_authority: bool,
}

/// The mathematical value of `UrlParts`.
#[verifier::ext_equal]
pub struct UrlPartsView {
    pub scheme: Seq<char>,
    pub authority: Seq<char>,
    pub path: Seq<char>,
    pub query: Option<Seq<char>>,
    pub has_authority: bool,
}

impl View for UrlParts {
    type V = UrlPartsView;

    open spec fn view(&self) -> UrlPartsView {
        UrlPartsView {
            scheme: self.scheme@,
            authority: self.authority@,
            path: self.path@,
            query: match &self.query {
                Some(q) => Some(q@),
                None => None,
            },
            has_authority: self.has_authority,
        }
    }
}

/// What `url::Url::parse` extracts from a string; the parse depends on the
/// string alone.
pub uninterp spec fn url_parse(s: Seq<char>) -> Option<UrlPartsView>;

/// Relies on `url::Url::parse` and the accessors `scheme`, `authority`,
/// `path`, `query` and `has_authority`: together they decompose a URL string,
/// and their results are a function of that string.
#[verifier::external_body]
pub fn parse_url(s: &str) -> (r: Option<UrlParts>)
    ensures
        match r {
            Some(p) => url_parse(s@) == Some(p@),
            None => url_parse(s@) == None::<UrlPartsView>,
        },
{
    match url::Url::parse(s) {
        Ok(u) => Some(UrlParts {
            scheme: u.scheme().to_string(),
            authority: u.authority().to_string(),
            path: u.path().to_string(),
            query: u.query().map(|q| q.to_string()),
            has_authority: u.has_authority(),
        }),
        Err(_) => None,
    }
}

/// An upstream cluster to dispatch calls to: the cluster name, the parts of
/// its URL, and the per-call timeout in milliseconds.
#[derive(Debug)]
pub struct Upstream {
    pub name: String,
    pub scheme: String,
    pub authority: String,
    pub path: String,
    pub query: Option<String>,
    pub timeout_ms: u64,
}

/// The mathematical value of an `Upstream`.
#[verifier::ext_equal]
pub struct UpstreamView {
    pub name: Seq<char>,
    pub scheme: Seq<char>,
    pub authority: Seq<char>,
    pub path: Seq<char>,
    pub query: Option<Seq<char>>,
    pub timeout_ms: u64,
}

impl View for Upstream {
    type V = UpstreamView;

    open spec fn view(&self) -> UpstreamView {
        UpstreamView {
            name: self.name@,
            scheme: self.scheme@,
            authority: self.authority@,
            path: self.path@,
            query: match &self.query {
                Some(q) => Some(q@),
                None => None,
            },
            timeout_ms: self.timeout_ms,
        }
    }
}

/// A path taken as a mount directory: unchanged when it already ends in
/// `'/'`, with `'/'` appended otherwise.
pub open spec fn mount_path(p: Seq<char>) -> Seq<char> {
    if p.len() > 0 && p[p.len() - 1] == '/' {
        p
    } else {
        p.push('/')
    }
}

impl Upstream {
    pub fn set_default_timeout(&mut self, timeout: u64)
        ensures
            final(self)@ == (UpstreamView { timeout_ms: timeout, ..old(self)@ }),
    {
        self.timeout_ms = timeout;
    }

    pub fn default_timeout(&self) -> (r: u64)
        ensures
            r == self@.timeout_ms,
    {
        self.timeout_ms
    }

    pub fn name(&self) -> (r: &str)
        ensures
            r@ == self@.name,
    {
        self.name.as_str()
    }

    pub fn scheme(&self) -> (r: &str)
        ensures
            r@ == self@.scheme,
    {
        self.scheme.as_str()
    }

    pub fn authority(&self) -> (r: &str)
        ensures
            r@ == self@.authority,
    {
        self.authority.as_str()
    }

    pub fn path(&self) -> (r: &str)
        ensures
            r@ == self@.path,
    {
        self.path.as_str()
    }

    pub fn query_string(&self) -> (r: Option<&str>)
        ensures
            match r {
                Some(q) => self@.query == Some(q@),
                None => self@.query is None,
            },
    {
        match &self.query {
            Some(q) => Some(q.as_str()),
            None => None,
        }
    }

    pub fn clone(&self) -> (r: Self)
        ensures
            r@ == self@,
    {
        Upstream {
            name: self.name.clone(),
            scheme: self.scheme.clone(),
            authority: self.authority.clone(),
            path: self.path.clone(),
            query: match &self.query {
                Some(q) => Some(q.clone()),
                None => None,
            },
            timeout_ms: self.timeout_ms,
        }
    }
}

/// Builds an `Upstream` from parsed URL parts.
#[derive(Debug)]
pub struct Builder {
    pub parts: UrlParts,
}

impl Builder {
    /// Accepts only URLs that carry an authority, as dispatch needs one.
    pub fn try_from(parts: UrlParts) -> (r: Result<Builder, UrlParts>)
        ensures
            match r {
                Ok(b) => parts@.has_authority && b.parts@ == parts@,
                Err(p) => !parts@.has_authority && p@ == parts@,
            },
    {
        if parts.has_authority {
            Ok(Builder { parts })
        } else {
            Err(parts)
        }
    }

    /// Any specified path is treated as a directory in which further paths
    /// are mounted.
    pub fn build(self, name: &str, timeout: Option<u64>) -> (r: Upstream)
        ensures
            r@.name == name@,
            r@.scheme == self.parts@.scheme,
            r@.authority == self.parts@.authority,
            r@.path == mount_path(self.parts@.path),
            r@.query == self.parts@.query,
            r@.timeout_ms == match timeout {
                Some(t) => t,
                None => DEFAULT_TIMEOUT_MS,
            },
    {
        let Builder { parts } = self;
        let UrlParts { scheme, authority, mut path, query, has_authority: _ } = parts;
        let ghost p0 = path@;
        let n = path.as_str().unicode_len();
        let ends_in_slash = n > 0 && path.as_str().get_char(n - 1) == '/';
        if !ends_in_slash {
            path.append("/");
            proof {
                reveal_strlit("/");
                assert(path@ =~= p0.push('/'));
            }
        }
        Upstream {
            name: name.to_owned(),
            scheme,
            authority,
            path,
            query,
            timeout_ms: match timeout {
                Some(t) => t,
                None => DEFAULT_TIMEOUT_MS,
            },
        }
    }
}

} // verus!
