//! The fetchable request and its wire encoding.

use vstd::prelude::*;
use vstd::string::StringExecFns;

use crate::urlinfo::{parse_url, url_parts_spec, UrlParts, UrlPartsView};

verus! {

/// A request the fetcher knows how to service.  Tagged so that further HTTP
/// verbs can be added as new variants with their own encodings.
pub enum HttpAction {
    Get(UrlParts),
}

/// The mathematical value of an [`HttpAction`].
pub enum HttpActionView {
    Get(UrlPartsView),
}

impl View for HttpAction {
    type V = HttpActionView;

    open spec fn view(&self) -> HttpActionView {
        match self {
            HttpAction::Get(u) => HttpActionView::Get(u@),
        }
    }
}

/// The characters of the GET request sent for url components `u`: the
/// request line, a `Host` header, a fixed `User-Agent` header, an `Accept`
/// header, and the blank-line terminator.  The `Accept` header is
/// deliberately emitted without a `:` separator, and the request line
/// carries two spaces after the path: both belong to the wire format this
/// fetcher emits.
pub open spec fn encoded_request(u: UrlPartsView) -> Seq<char> {
    "GET "@ + u.path + "  HTTP/1.1\r\nHost: "@ + u.host
        + "\r\nUser-Agent: curl/7.37.1\r\nAccept */*\r\n\r\n"@
}

/// The characters of the request sent for an action.
pub open spec fn encoded_action(a: HttpActionView) -> Seq<char> {
    match a {
        HttpActionView::Get(u) => encoded_request(u),
    }
}

/// The bytes put on the wire for an action: the UTF-8 encoding of its
/// request text.
pub open spec fn encoded_bytes(a: HttpActionView) -> Seq<u8> {
    vstd::utf8::encode_utf8(encoded_action(a))
}

/// Serialize an action to the request text it sends.
pub fn body(action: &HttpAction) -> (r: String)
    ensures
        r@ == encoded_action(action@),
{
    match action {
        HttpAction::Get(u) => {
            let mut s = "GET ".to_owned();
            s.append(u.path.as_str());
            s.append("  HTTP/1.1\r\nHost: ");
            s.append(u.host.as_str());
            s.append("\r\nUser-Agent: curl/7.37.1\r\nAccept */*\r\n\r\n");
            proof {
                assert(s@ =~= encoded_request(u@));
            }
            s
        },
    }
}

/// Parse a URL string into the action that fetches it; `None` when the
/// string is not a URL this fetcher can service.
pub fn get_action(url_s: &str) -> (r: Option<HttpAction>)
    ensures
        r is Some <==> url_parts_spec(url_s@) is Some,
        r matches Some(a) ==> (url_parts_spec(url_s@) matches Some(p) && a@
            == HttpActionView::Get(UrlPartsView { host: p.0, path: p.1, port: p.2 })),
{
    match parse_url(url_s) {
        Some(parts) => Some(HttpAction::Get(parts)),
        None => None,
    }
}

} // verus!
