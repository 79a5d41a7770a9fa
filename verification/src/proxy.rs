use vstd::prelude::*;

use crate::error::ProxyError;
use crate::router::opt_text;
use crate::text::{decimal, decimal_text};

verus! {

broadcast use vstd::string::group_string_axioms;

/// `hyper::Uri`, carried through the library as an opaque value.
#[verifier::external_type_specification]
#[verifier::external_body]
pub struct ExUri(hyper::Uri);

/// `hyper::http::uri::InvalidUri`, carried through the library as an opaque value.
#[verifier::external_type_specification]
#[verifier::external_body]
pub struct ExInvalidUri(hyper::http::uri::InvalidUri);

/// Names what parsing a text as a `hyper::Uri` (`Uri::from_str`) gives.
pub uninterp spec fn uri_parse(text: Seq<char>) -> Result<hyper::Uri, hyper::http::uri::InvalidUri>;

/// Calls `<hyper::Uri as FromStr>::from_str`; the contract claims that the
/// outcome depends on the text alone.
#[verifier::external_body]
fn parse_uri(text: &str) -> (r: Result<hyper::Uri, hyper::http::uri::InvalidUri>)
    ensures
        r == uri_parse(text@),
{
    text.parse::<hyper::Uri>()
}

/// Names the host that `hyper::Uri::host` reports for a URI.
pub uninterp spec fn uri_host(u: hyper::Uri) -> Option<Seq<char>>;

/// Calls `hyper::Uri::host` and copies the host it reports.
#[verifier::external_body]
fn host_of(u: &hyper::Uri) -> (r: Option<String>)
    ensures
        opt_text(r) == uri_host(*u),
{
    match u.host() {
        Some(h) => Some(h.to_string()),
        None => None,
    }
}

/// Names the port number that `hyper::Uri::port_u16` reports for a URI.
pub uninterp spec fn uri_port(u: hyper::Uri) -> Option<u16>;

/// Calls `hyper::Uri::port_u16`.
#[verifier::external_body]
fn port_of(u: &hyper::Uri) -> (r: Option<u16>)
    ensures
        r == uri_port(*u),
{
    u.port_u16()
}

/// Names the text that `InvalidUri`'s `Display` writes for an error.
pub uninterp spec fn invalid_uri_text(e: hyper::http::uri::InvalidUri) -> Seq<char>;

/// Formats a `hyper::http::uri::InvalidUri` with its `Display`; the contract
/// claims that the text depends on the error alone.
#[verifier::external_body]
fn format_invalid_uri(e: &hyper::http::uri::InvalidUri) -> (r: String)
    ensures
        r@ == invalid_uri_text(*e),
{
    format!("{}", e)
}

/// The URL a request is forwarded to: the target URL, followed by `?` and the
/// query of the incoming request when it has one.
pub open spec fn forward_text(target_url: Seq<char>, query: Option<Seq<char>>) -> Seq<char> {
    match query {
        Some(q) => target_url + "?"@ + q,
        None => target_url,
    }
}

/// The `Host` header of a forwarded request: the target's host, with `:` and
/// its port number when the target names one; none when the target has no host.
pub open spec fn host_header(host: Option<Seq<char>>, port: Option<u16>) -> Option<Seq<char>> {
    match host {
        Some(h) => Some(
            match port {
                Some(p) => h + ":"@ + decimal(p as nat),
                None => h,
            },
        ),
        None => None,
    }
}

/// The text of an optional string slice.
pub open spec fn opt_str(o: Option<&str>) -> Option<Seq<char>> {
    match o {
        Some(s) => Some(s@),
        None => None,
    }
}

/// The URL to forward to, with the incoming query put back.
pub fn forward_url(target_url: &str, query: Option<&str>) -> (r: String)
    ensures
        r@ == forward_text(target_url@, opt_str(query)),
{
    let url = String::from_str(target_url);
    match query {
        Some(q) => url.concat("?").concat(q),
        None => url,
    }
}

/// Where and how a request is forwarded: the URI it is sent to and the `Host`
/// header it carries, if any.
pub struct ForwardRequest {
    pub uri: hyper::Uri,
    pub host: Option<String>,
}

/// The error for a text that is not a URI.
pub open spec fn uri_error_message(e: hyper::http::uri::InvalidUri) -> Seq<char> {
    "URI parse error: "@ + invalid_uri_text(e)
}

/// Prepares forwarding to `target_url`: both the target and the final URL
/// (with the incoming query) must parse as URIs, else the request fails with
/// an internal error.
pub fn prepare_forward(target_url: &str, query: Option<&str>) -> (r: Result<ForwardRequest, ProxyError>)
    ensures
        match uri_parse(target_url@) {
            Err(e) => r matches Err(ProxyError::InternalError(m)) && m@ == uri_error_message(e),
            Ok(t) => match uri_parse(forward_text(target_url@, opt_str(query))) {
                Err(e) => r matches Err(ProxyError::InternalError(m)) && m@ == uri_error_message(e),
                Ok(f) => r matches Ok(fr) && fr.uri == f && opt_text(fr.host) == host_header(
                    uri_host(t),
                    uri_port(t),
                ),
            },
        },
{
    let target_uri = match parse_uri(target_url) {
        Ok(u) => u,
        Err(e) => {
            return Err(
                ProxyError::InternalError(
                    String::from_str("URI parse error: ").concat(format_invalid_uri(&e).as_str()),
                ),
            );
        },
    };
    let final_url = forward_url(target_url, query);
    let final_uri = match parse_uri(final_url.as_str()) {
        Ok(u) => u,
        Err(e) => {
            return Err(
                ProxyError::InternalError(
                    String::from_str("URI parse error: ").concat(format_invalid_uri(&e).as_str()),
                ),
            );
        },
    };
    let host = match host_of(&target_uri) {
        Some(h) => match port_of(&target_uri) {
            Some(p) => Some(h.concat(":").concat(decimal_text(p as u64).as_str())),
            None => Some(h),
        },
        None => None,
    };
    Ok(ForwardRequest { uri: final_uri, host })
}

} // verus!
