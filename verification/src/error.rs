use vstd::prelude::*;

verus! {

/// `std::io::Error`, carried through the library as an opaque value.
#[verifier::external_type_specification]
#[verifier::external_body]
pub struct ExIoError(std::io::Error);

/// `hyper::Error`, carried through the library as an opaque value.
#[verifier::external_type_specification]
#[verifier::external_body]
pub struct ExHyperError(hyper::Error);

/// `url::ParseError`, carried through the library as an opaque value.
#[verifier::external_type_specification]
#[verifier::external_body]
pub struct ExUrlParseError(url::ParseError);

/// Every way a request or the proxy's start-up can fail.
#[derive(Debug)]
pub enum ProxyError {
    ConfigError(String),
    NetworkError(String),
    HttpError(String),
    RouteError(String),
    IoError(std::io::Error),
    HyperError(hyper::Error),
    UrlParseError(url::ParseError),
    TimeoutError,
    InternalError(String),
    Unauthorized(String),
}

/// HTTP status code a failed request is answered with: 404 when no route
/// matches, 504 when the forwarded request times out, 502 when the exchange
/// with the upstream server fails (a network error, or an error of the HTTP
/// client, which only that exchange produces), 400 for an HTTP error, and 500
/// for anything else.
pub open spec fn status_of(e: ProxyError) -> u16 {
    match e {
        ProxyError::RouteError(_) => 404,
        ProxyError::TimeoutError => 504,
        ProxyError::NetworkError(_) => 502,
        ProxyError::HyperError(_) => 502,
        ProxyError::HttpError(_) => 400,
        _ => 500,
    }
}

impl ProxyError {
    /// The status code and body text of the response that answers a request
    /// which failed with this error.
    pub fn response_parts(&self) -> (r: (u16, &'static str))
        ensures
            r.0 == status_of(*self),
            r.1@ == match *self {
                ProxyError::RouteError(_) => "Route not found"@,
                ProxyError::TimeoutError => "Request timeout"@,
                ProxyError::NetworkError(_) => "Network error"@,
                ProxyError::HyperError(_) => "Network error"@,
                ProxyError::HttpError(_) => "HTTP error"@,
                _ => "Internal server error"@,
            },
    {
        match self {
            ProxyError::RouteError(_) => (404, "Route not found"),
            ProxyError::TimeoutError => (504, "Request timeout"),
            ProxyError::NetworkError(_) => (502, "Network error"),
            ProxyError::HyperError(_) => (502, "Network error"),
            ProxyError::HttpError(_) => (400, "HTTP error"),
            _ => (500, "Internal server error"),
        }
    }
}

/// Names the text that `url::ParseError`'s `Display` writes for an error (a
/// fixed description of each kind of error).
pub uninterp spec fn url_error_text(e: url::ParseError) -> Seq<char>;

/// Formats a `url::ParseError` with its `Display`; the contract claims that
/// the text depends on the error alone.
#[verifier::external_body]
fn format_url_error(e: &url::ParseError) -> (r: String)
    ensures
        r@ == url_error_text(*e),
{
    format!("{}", e)
}

/// Formats a `std::io::Error` with its `Display`. Nothing is stated of the
/// text: it may hold the operating system's description of the error.
#[verifier::external_body]
fn format_io_error(e: &std::io::Error) -> String {
    format!("{}", e)
}

/// Formats a `hyper::Error` with its `Display`. Nothing is stated of the text:
/// it includes the description of the error's cause, which may come from the
/// operating system.
#[verifier::external_body]
fn format_hyper_error(e: &hyper::Error) -> String {
    format!("{}", e)
}

/// The prefix of each error's message and the message it carries.
pub open spec fn message_parts(e: ProxyError) -> (Seq<char>, Seq<char>) {
    match e {
        ProxyError::ConfigError(m) => ("Configuration error: "@, m@),
        ProxyError::NetworkError(m) => ("Network error: "@, m@),
        ProxyError::HttpError(m) => ("HTTP error: "@, m@),
        ProxyError::RouteError(m) => ("Route error: "@, m@),
        ProxyError::IoError(_) => ("IO error: "@, Seq::empty()),
        ProxyError::HyperError(_) => ("Hyper error: "@, Seq::empty()),
        ProxyError::UrlParseError(e) => ("URL parse error: "@, url_error_text(e)),
        ProxyError::TimeoutError => ("Timeout error"@, Seq::empty()),
        ProxyError::InternalError(m) => ("Internal server error: "@, m@),
        ProxyError::Unauthorized(m) => ("Unauthorized: "@, m@),
    }
}

impl ProxyError {
    /// The human-readable description of the error: a fixed prefix naming its
    /// kind, followed by its message (for I/O and HTTP library errors, by their
    /// own description).
    pub fn message(&self) -> (r: String)
        ensures
            match *self {
                ProxyError::IoError(_) | ProxyError::HyperError(_) => r@.len()
                    >= message_parts(*self).0.len() && r@.take(message_parts(*self).0.len() as int)
                    == message_parts(*self).0,
                _ => r@ == message_parts(*self).0 + message_parts(*self).1,
            },
    {
        match self {
            ProxyError::ConfigError(m) => String::from_str("Configuration error: ").concat(m.as_str()),
            ProxyError::NetworkError(m) => String::from_str("Network error: ").concat(m.as_str()),
            ProxyError::HttpError(m) => String::from_str("HTTP error: ").concat(m.as_str()),
            ProxyError::RouteError(m) => String::from_str("Route error: ").concat(m.as_str()),
            ProxyError::IoError(e) => {
                let t = format_io_error(e);
                let r = String::from_str("IO error: ").concat(t.as_str());
                assert(r@.take("IO error: "@.len() as int) =~= "IO error: "@);
                r
            },
            ProxyError::HyperError(e) => {
                let t = format_hyper_error(e);
                let r = String::from_str("Hyper error: ").concat(t.as_str());
                assert(r@.take("Hyper error: "@.len() as int) =~= "Hyper error: "@);
                r
            },
            ProxyError::UrlParseError(e) => {
                let t = format_url_error(e);
                String::from_str("URL parse error: ").concat(t.as_str())
            },
            ProxyError::TimeoutError => {
                let r = String::from_str("Timeout error");
                assert(r@ =~= "Timeout error"@ + Seq::<char>::empty());
                r
            },
            ProxyError::InternalError(m) => String::from_str("Internal server error: ").concat(
                m.as_str(),
            ),
            ProxyError::Unauthorized(m) => String::from_str("Unauthorized: ").concat(m.as_str()),
        }
    }
}

impl From<std::io::Error> for ProxyError {
    fn from(e: std::io::Error) -> (r: Self) {
        ProxyError::IoError(e)
    }
}

impl vstd::std_specs::convert::FromSpecImpl<std::io::Error> for ProxyError {
    open spec fn obeys_from_spec() -> bool {
        true
    }

    open spec fn from_spec(e: std::io::Error) -> ProxyError {
        ProxyError::IoError(e)
    }
}

impl From<hyper::Error> for ProxyError {
    fn from(e: hyper::Error) -> (r: Self) {
        ProxyError::HyperError(e)
    }
}

impl vstd::std_specs::convert::FromSpecImpl<hyper::Error> for ProxyError {
    open spec fn obeys_from_spec() -> bool {
        true
    }

    open spec fn from_spec(e: hyper::Error) -> ProxyError {
        ProxyError::HyperError(e)
    }
}

impl From<url::ParseError> for ProxyError {
    fn from(e: url::ParseError) -> (r: Self) {
        ProxyError::UrlParseError(e)
    }
}

impl vstd::std_specs::convert::FromSpecImpl<url::ParseError> for ProxyError {
    open spec fn obeys_from_spec() -> bool {
        true
    }

    open spec fn from_spec(e: url::ParseError) -> ProxyError {
        ProxyError::UrlParseError(e)
    }
}

} // verus!
