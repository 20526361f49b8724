//! The pieces of a URL that the fetcher reads: host, path and port.

use vstd::prelude::*;

verus! {

/// The components of a parsed absolute URL that the fetcher uses: the host
/// to connect to, the path to request, and the port.
pub struct UrlParts {
    pub host: String,
    pub path: String,
    pub port: u16,
}

/// The mathematical value of a [`UrlParts`].
pub struct UrlPartsView {
    pub host: Seq<char>,
    pub path: Seq<char>,
    pub port: u16,
}

impl View for UrlParts {
    type V = UrlPartsView;

    open spec fn view(&self) -> UrlPartsView {
        UrlPartsView { host: self.host@, path: self.path@, port: self.port }
    }
}

/// What `url::Url::parse` extracts from a string: `None` when the string is
/// not a well-formed absolute URL, has no host, or has no known port;
/// otherwise the `(host, path, port)` components.  The result is a function
/// of the string's characters alone.
pub uninterp spec fn url_parts_spec(s: Seq<char>) -> Option<(Seq<char>, Seq<char>, u16)>;

/// Relies on `url::Url::parse` together with `Url::host_str`, `Url::path`
/// and `Url::port_or_known_default`: which strings parse, and which host,
/// path and port components they carry, depend on the input characters
/// alone.
#[verifier::external_body]
pub(crate) fn parse_url(s: &str) -> (r: Option<UrlParts>)
    ensures
        r is Some <==> url_parts_spec(s@) is Some,
        r matches Some(p) ==> url_parts_spec(s@) == Some((p.host@, p.path@, p.port)),
{
    let u = match url::Url::parse(s) {
        Ok(u) => u,
        Err(_) => return None,
    };
    let host = match u.host_str() {
        Some(h) => h.to_owned(),
        None => return None,
    };
    let port = match u.port_or_known_default() {
        Some(p) => p,
        None => return None,
    };
    Some(UrlParts { host, path: u.path().to_owned(), port })
}

} // verus!
