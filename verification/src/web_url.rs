use vstd::prelude::*;

verus! {

/// The parts of a parsed URL that the engine reads.
#[derive(Debug)]
pub struct UrlParts {
    /// The host, when it is a domain name (not an IP address).
    pub domain: Option<String>,
    pub path: String,
    pub query: Option<String>,
    /// The whole URL as `url` serializes it.
    pub serialized: String,
}

/// The parts of a URL as plain values: domain, path, query, serialization.
pub type UrlPartsView = (Option<Seq<char>>, Seq<char>, Option<Seq<char>>, Seq<char>);

pub open spec fn opt_seq(o: Option<String>) -> Option<Seq<char>> {
    match o {
        Some(s) => Some(s@),
        None => None,
    }
}

impl UrlParts {
    pub open spec fn parts(&self) -> UrlPartsView {
        (opt_seq(self.domain), self.path@, opt_seq(self.query), self.serialized@)
    }
}

pub open spec fn opt_parts(o: Option<UrlParts>) -> Option<UrlPartsView> {
    match o {
        Some(p) => Some(p.parts()),
        None => None,
    }
}

/// What `url::Url::parse` gives for a string: `None` when the string is no
/// valid absolute URL, otherwise the parts of the parsed URL.
pub uninterp spec fn url_parsed(input: Seq<char>) -> Option<UrlPartsView>;

/// What `url::Url::join` gives when the string `link` is resolved against the
/// absolute URL `base`: `None` when `base` or the joined result is no valid
/// URL, otherwise the parts of the joined URL.
pub uninterp spec fn url_joined(base: Seq<char>, link: Seq<char>) -> Option<UrlPartsView>;

/// Parses an absolute URL.
///
/// Calls `url::Url::parse` and reads `domain()`, `path()`, `query()` and
/// `as_str()` of the result. The contract names the outcome; the WHATWG URL
/// algorithm that computes it is not restated.
#[verifier::external_body]
pub(crate) fn parse_url(input: &str) -> (r: Option<UrlParts>)
    ensures
        opt_parts(r) == url_parsed(input@),
{
    match url::Url::parse(input) {
        Ok(u) => Some(UrlParts {
            domain: u.domain().map(|d| d.to_string()),
            path: u.path().to_string(),
            query: u.query().map(|q| q.to_string()),
            serialized: u.as_str().to_string(),
        }),
        Err(_) => None,
    }
}

/// Resolves `link` against the absolute URL `base`.
///
/// Calls `url::Url::parse` on `base`, then `url::Url::join` with `link`, and
/// reads the parts of the result. The contract names the outcome.
#[verifier::external_body]
pub(crate) fn join_url(base: &str, link: &str) -> (r: Option<UrlParts>)
    ensures
        opt_parts(r) == url_joined(base@, link@),
{
    match url::Url::parse(base).and_then(|b| b.join(link)) {
        Ok(u) => Some(UrlParts {
            domain: u.domain().map(|d| d.to_string()),
            path: u.path().to_string(),
            query: u.query().map(|q| q.to_string()),
            serialized: u.as_str().to_string(),
        }),
        Err(_) => None,
    }
}

} // verus!

verus! {

/// What `url::Url::parse` of `base`, then `query_pairs_mut().append_pair`
/// with `key` and `value`, gives as a string: `None` when `base` is no
/// valid absolute URL.
pub uninterp spec fn url_with_pair(base: Seq<char>, key: Seq<char>, value: Seq<char>) -> Option<Seq<char>>;

/// Adds a query pair to a URL. Calls `url::Url::parse` on `base`, then
/// `query_pairs_mut().append_pair(key, value)`, which form-encodes the pair,
/// and serializes the result. The contract names the outcome.
#[verifier::external_body]
pub(crate) fn add_query_pair(base: &str, key: &str, value: &str) -> (r: Option<String>)
    ensures
        match r {
            Some(u) => url_with_pair(base@, key@, value@) == Some(u@),
            None => url_with_pair(base@, key@, value@) is None,
        },
{
    match url::Url::parse(base) {
        Ok(mut u) => {
            u.query_pairs_mut().append_pair(key, value);
            Some(u.as_str().to_string())
        },
        Err(_) => None,
    }
}

} // verus!
