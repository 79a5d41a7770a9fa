use vstd::prelude::*;
use vstd::utf8::encode_utf8;

use crate::config::{clone_strings, texts, TokenValidationConfig};
use crate::error::ProxyError;

verus! {

broadcast use vstd::string::group_string_axioms;

/// The part of an incoming request that token validation reads and rewrites:
/// the raw bytes of its `Authorization` header, if it has one, and what the
/// last validation of the request reported for the log.
pub struct RequestAuth {
    pub authorization: Option<Vec<u8>>,
    pub event: Option<ValidationEvent>,
}

/// What one token validation reports for the log.
pub enum ValidationEvent {
    /// The request has no `Authorization` header.
    MissingHeader { route_path: String },
    /// The header holds a byte that is not visible ASCII.
    InvalidHeader { route_path: String },
    /// The header does not start with `Bearer `.
    InvalidFormat { route_path: String },
    /// The token (the header's bytes after `Bearer `) is not accepted.
    NotListed { route_path: String, token: Vec<u8> },
    /// The token was accepted and replaced; `count` is the new success count.
    Accepted { route_path: String, token: Vec<u8>, replacement: String, count: u64 },
}

/// What an event says.
pub enum EventView {
    MissingHeader(Seq<char>),
    InvalidHeader(Seq<char>),
    InvalidFormat(Seq<char>),
    NotListed(Seq<char>, Seq<u8>),
    Accepted(Seq<char>, Seq<u8>, Seq<char>, u64),
}

/// What an event says.
pub open spec fn event_view(e: ValidationEvent) -> EventView {
    match e {
        ValidationEvent::MissingHeader { route_path } => EventView::MissingHeader(route_path@),
        ValidationEvent::InvalidHeader { route_path } => EventView::InvalidHeader(route_path@),
        ValidationEvent::InvalidFormat { route_path } => EventView::InvalidFormat(route_path@),
        ValidationEvent::NotListed { route_path, token } => EventView::NotListed(route_path@, token@),
        ValidationEvent::Accepted { route_path, token, replacement, count } => EventView::Accepted(
            route_path@,
            token@,
            replacement@,
            count,
        ),
    }
}

/// What an optional event says.
pub open spec fn event_of(o: Option<ValidationEvent>) -> Option<EventView> {
    match o {
        Some(e) => Some(event_view(e)),
        None => None,
    }
}

/// The header bytes of a request, if it has the header.
pub open spec fn auth_header(r: RequestAuth) -> Option<Seq<u8>> {
    match r.authorization {
        Some(v) => Some(v@),
        None => None,
    }
}

/// A byte that may stand in a header value that is read as text
/// (visible ASCII or a horizontal tab).
pub open spec fn is_visible_ascii(b: u8) -> bool {
    (32 <= b && b < 127) || b == 9
}

/// A byte that may stand in a header value at all
/// (anything but a control character other than a horizontal tab, and DEL).
pub open spec fn is_valid_header_byte(b: u8) -> bool {
    (32 <= b && b != 127) || b == 9
}

/// The bytes of `"Bearer "`.
pub open spec fn bearer_prefix() -> Seq<u8> {
    seq![66u8, 101u8, 97u8, 114u8, 101u8, 114u8, 32u8]
}

/// Whether `token` is the UTF-8 encoding of one of the listed tokens.
pub open spec fn token_listed(verified: Seq<Seq<char>>, token: Seq<u8>) -> bool {
    exists|i: int| 0 <= i < verified.len() && encode_utf8(#[trigger] verified[i]) == token
}

/// How token validation ends.
pub enum AuthCheck {
    /// The token is accepted; the header is replaced by these bytes.
    Accepted(Seq<u8>),
    /// The request is refused as unauthorized, with this message.
    Rejected(Seq<char>),
    /// The replacement header cannot be a header value.
    HeaderNotBuilt,
}

/// Token validation of an `Authorization` header against the accepted tokens,
/// replacing an accepted one by `replacement`.
pub open spec fn check_authorization(
    verified: Seq<Seq<char>>,
    replacement: Seq<char>,
    auth: Option<Seq<u8>>,
) -> AuthCheck {
    match auth {
        None => AuthCheck::Rejected("Missing Authorization header"@),
        Some(h) => if !(forall|i: int| 0 <= i < h.len() ==> is_visible_ascii(#[trigger] h[i])) {
            AuthCheck::Rejected("Invalid Authorization header"@)
        } else if !bearer_prefix().is_prefix_of(h) {
            AuthCheck::Rejected("Invalid Bearer token format"@)
        } else if !token_listed(verified, h.skip(7)) {
            AuthCheck::Rejected("Invalid token"@)
        } else {
            let new_header = bearer_prefix() + encode_utf8(replacement);
            if forall|i: int| 0 <= i < new_header.len() ==> is_valid_header_byte(#[trigger] new_header[i]) {
                AuthCheck::Accepted(new_header)
            } else {
                AuthCheck::HeaderNotBuilt
            }
        },
    }
}

/// What validating `auth` with a validator reports for the log: every
/// refusal and every success is reported; a replacement that cannot be a
/// header value is not.
pub open spec fn validation_event(v: ValidatorState, auth: Option<Seq<u8>>) -> Option<EventView> {
    match auth {
        None => Some(EventView::MissingHeader(v.route_path)),
        Some(h) => if !(forall|i: int| 0 <= i < h.len() ==> is_visible_ascii(#[trigger] h[i])) {
            Some(EventView::InvalidHeader(v.route_path))
        } else if !bearer_prefix().is_prefix_of(h) {
            Some(EventView::InvalidFormat(v.route_path))
        } else if !token_listed(v.verified, h.skip(7)) {
            Some(EventView::NotListed(v.route_path, h.skip(7)))
        } else {
            match check_authorization(v.verified, v.qualified[0], auth) {
                AuthCheck::Accepted(_) => Some(
                    EventView::Accepted(
                        v.route_path,
                        h.skip(7),
                        v.qualified[0],
                        next_count(v.success_count),
                    ),
                ),
                _ => None,
            }
        },
    }
}

/// The event a request carries after validation: the new one, or, when the
/// validation reports nothing, the one it carried before.
pub open spec fn event_after(
    v: ValidatorState,
    auth: Option<Seq<u8>>,
    before: Option<EventView>,
) -> Option<EventView> {
    match validation_event(v, auth) {
        Some(e) => Some(e),
        None => before,
    }
}

/// Whether `r` is what validating `auth` with a validator answers: `Ok` for an
/// accepted token, `Unauthorized` with the refusal's message, or an internal
/// error when the replacement cannot be a header value.
pub open spec fn validation_result(v: ValidatorState, auth: Option<Seq<u8>>, r: Result<(), ProxyError>) -> bool {
    match check_authorization(v.verified, v.qualified[0], auth) {
        AuthCheck::Accepted(_) => r is Ok,
        AuthCheck::Rejected(m) => r matches Err(ProxyError::Unauthorized(msg)) && msg@ == m,
        AuthCheck::HeaderNotBuilt => r matches Err(ProxyError::InternalError(msg)) && msg@
            == "Failed to create new auth header"@,
    }
}

/// The state of a validator.
pub struct ValidatorState {
    pub verified: Seq<Seq<char>>,
    pub qualified: Seq<Seq<char>>,
    pub success_count: u64,
    pub route_path: Seq<char>,
}

/// A count of successes, one higher (wrapping at `u64::MAX`).
pub open spec fn next_count(c: u64) -> u64 {
    if c == u64::MAX {
        0
    } else {
        (c + 1) as u64
    }
}

/// Something that decides whether a request may pass and may rewrite it.
pub trait TokenValidator {
    fn validate(&mut self, request: &mut RequestAuth) -> Result<(), ProxyError>;

    fn get_success_count(&self) -> u64;
}

/// Accepts `Bearer` tokens from a list and replaces them by the first
/// qualified token; counts the requests it let pass.
pub struct BearerTokenValidator {
    verified_tokens: Vec<String>,
    qualified_tokens: Vec<String>,
    success_count: u64,
    route_path: String,
}

impl View for BearerTokenValidator {
    type V = ValidatorState;

    closed spec fn view(&self) -> ValidatorState {
        ValidatorState {
            verified: texts(self.verified_tokens@),
            qualified: texts(self.qualified_tokens@),
            success_count: self.success_count,
            route_path: self.route_path@,
        }
    }
}

impl BearerTokenValidator {
    #[verifier::type_invariant]
    spec fn has_tokens(&self) -> bool {
        &&& self.verified_tokens.len() > 0
        &&& self.qualified_tokens.len() > 0
    }

    /// A validator for the route `route_path`; both token lists must be non-empty.
    pub fn new(config: &TokenValidationConfig, route_path: String) -> (r: Result<Self, ProxyError>)
        ensures
            config.qualified_token.len() == 0 ==> (r matches Err(ProxyError::ConfigError(m))
                && m@ == "qualified_token cannot be empty"@),
            config.qualified_token.len() > 0 && config.verified_token.len() == 0 ==> (r matches Err(
                ProxyError::ConfigError(m),
            ) && m@ == "verified_token cannot be empty"@),
            config.qualified_token.len() > 0 && config.verified_token.len() > 0 ==> (r matches Ok(v)
                && v@ == (ValidatorState {
                verified: config@.verified,
                qualified: config@.qualified,
                success_count: 0,
                route_path: route_path@,
            })),
    {
        if config.qualified_token.len() == 0 {
            return Err(ProxyError::ConfigError(String::from_str("qualified_token cannot be empty")));
        }
        if config.verified_token.len() == 0 {
            return Err(ProxyError::ConfigError(String::from_str("verified_token cannot be empty")));
        }
        Ok(BearerTokenValidator {
            verified_tokens: clone_strings(&config.verified_token),
            qualified_tokens: clone_strings(&config.qualified_token),
            success_count: 0,
            route_path,
        })
    }
}

/// The bytes of `"Bearer "`.
fn bearer_bytes() -> (r: Vec<u8>)
    ensures
        r@ == bearer_prefix(),
{
    let mut r: Vec<u8> = Vec::new();
    r.push(66u8);
    r.push(101u8);
    r.push(97u8);
    r.push(114u8);
    r.push(101u8);
    r.push(114u8);
    r.push(32u8);
    assert(r@ =~= bearer_prefix());
    r
}

/// Whether every byte is visible ASCII or a tab.
fn all_visible_ascii(h: &Vec<u8>) -> (r: bool)
    ensures
        r == (forall|i: int| 0 <= i < h@.len() ==> is_visible_ascii(#[trigger] h@[i])),
{
    let mut i: usize = 0;
    while i < h.len()
        invariant
            i <= h.len(),
            forall|j: int| 0 <= j < i ==> is_visible_ascii(#[trigger] h@[j]),
        decreases h.len() - i,
    {
        let b = h[i];
        if !((32 <= b && b < 127) || b == 9) {
            return false;
        }
        i = i + 1;
    }
    true
}

/// Whether every byte may stand in a header value.
fn all_valid_header_bytes(h: &Vec<u8>) -> (r: bool)
    ensures
        r == (forall|i: int| 0 <= i < h@.len() ==> is_valid_header_byte(#[trigger] h@[i])),
{
    let mut i: usize = 0;
    while i < h.len()
        invariant
            i <= h.len(),
            forall|j: int| 0 <= j < i ==> is_valid_header_byte(#[trigger] h@[j]),
        decreases h.len() - i,
    {
        let b = h[i];
        if !((32 <= b && b != 127) || b == 9) {
            return false;
        }
        i = i + 1;
    }
    true
}

/// The bytes of `h` from `start` on.
fn bytes_from(h: &Vec<u8>, start: usize) -> (r: Vec<u8>)
    requires
        start <= h.len(),
    ensures
        r@ == h@.skip(start as int),
{
    let mut r: Vec<u8> = Vec::new();
    let mut i: usize = start;
    while i < h.len()
        invariant
            start <= i <= h.len(),
            r@ == h@.subrange(start as int, i as int),
        decreases h.len() - i,
    {
        r.push(h[i]);
        i = i + 1;
        assert(r@ =~= h@.subrange(start as int, i as int));
    }
    assert(r@ =~= h@.skip(start as int));
    r
}

/// Whether the bytes of `h` from `start` on are exactly `s`.
fn tail_equals(h: &Vec<u8>, start: usize, s: &[u8]) -> (r: bool)
    requires
        start <= h.len(),
    ensures
        r == (h@.skip(start as int) == s@),
{
    if h.len() - start != s.len() {
        assert(h@.skip(start as int).len() != s@.len());
        return false;
    }
    let mut i: usize = 0;
    while i < s.len()
        invariant
            start <= h.len(),
            h.len() - start == s.len(),
            i <= s.len(),
            forall|j: int| 0 <= j < i ==> h@[start + j] == s@[j],
        decreases s.len() - i,
    {
        if h[start + i] != s[i] {
            assert(h@.skip(start as int)[i as int] != s@[i as int]);
            return false;
        }
        i = i + 1;
    }
    assert(h@.skip(start as int) =~= s@);
    true
}

/// Whether `h` starts with `"Bearer "`.
fn has_bearer_prefix(h: &Vec<u8>) -> (r: bool)
    ensures
        r == bearer_prefix().is_prefix_of(h@),
{
    let p = bearer_bytes();
    if h.len() < 7 {
        return false;
    }
    let mut i: usize = 0;
    while i < 7
        invariant
            p@ == bearer_prefix(),
            h.len() >= 7,
            i <= 7,
            forall|j: int| 0 <= j < i ==> h@[j] == p@[j],
        decreases 7 - i,
    {
        if h[i] != p[i] {
            assert(bearer_prefix()[i as int] != h@.subrange(0, 7)[i as int]);
            return false;
        }
        i = i + 1;
    }
    assert(bearer_prefix() =~= h@.subrange(0, 7));
    true
}

/// The header value `"Bearer <token>"`.
fn bearer_header(token: &str) -> (r: Vec<u8>)
    ensures
        r@ == bearer_prefix() + encode_utf8(token@),
{
    let mut r = bearer_bytes();
    let t = token.as_bytes();
    let mut i: usize = 0;
    while i < t.len()
        invariant
            r@ == bearer_prefix() + t@.take(i as int),
            t@ == encode_utf8(token@),
            i <= t.len(),
        decreases t.len() - i,
    {
        r.push(t[i]);
        i = i + 1;
        assert(r@ =~= bearer_prefix() + t@.take(i as int));
    }
    assert(t@.take(t.len() as int) =~= t@);
    r
}

impl BearerTokenValidator {
    /// The route this validator guards.
    pub fn route_path(&self) -> (r: &str)
        ensures
            r@ == self@.route_path,
    {
        self.route_path.as_str()
    }

    /// Whether the bytes of `h` from position 7 on are one of the accepted tokens.
    fn accepts_token(&self, h: &Vec<u8>) -> (r: bool)
        requires
            h.len() >= 7,
        ensures
            r == token_listed(self@.verified, h@.skip(7)),
    {
        let mut i: usize = 0;
        while i < self.verified_tokens.len()
            invariant
                h.len() >= 7,
                i <= self.verified_tokens.len(),
                forall|j: int| 0 <= j < i ==> encode_utf8(#[trigger] self@.verified[j]) != h@.skip(7),
            decreases self.verified_tokens.len() - i,
        {
            let t = self.verified_tokens[i].as_str().as_bytes();
            if tail_equals(h, 7, t) {
                assert(encode_utf8(self@.verified[i as int]) == h@.skip(7));
                return true;
            }
            i = i + 1;
        }
        false
    }
}

impl TokenValidator for BearerTokenValidator {
    /// Checks the request's `Authorization` header; on success replaces its
    /// token by the first qualified token and counts the success.
    fn validate(&mut self, request: &mut RequestAuth) -> (r: Result<(), ProxyError>)
        ensures
            final(self)@.verified == old(self)@.verified,
            final(self)@.qualified == old(self)@.qualified,
            final(self)@.route_path == old(self)@.route_path,
            final(self)@.success_count == if r is Ok {
                next_count(old(self)@.success_count)
            } else {
                old(self)@.success_count
            },
            event_of(final(request).event) == event_after(
                old(self)@,
                auth_header(*old(request)),
                event_of(old(request).event),
            ),
            validation_result(old(self)@, auth_header(*old(request)), r),
            match check_authorization(
                old(self)@.verified,
                old(self)@.qualified[0],
                auth_header(*old(request)),
            ) {
                AuthCheck::Accepted(h) => {
                    &&& r is Ok
                    &&& auth_header(*final(request)) == Some(h)
                },
                AuthCheck::Rejected(m) => {
                    &&& r matches Err(ProxyError::Unauthorized(msg)) && msg@ == m
                    &&& final(request).authorization == old(request).authorization
                },
                AuthCheck::HeaderNotBuilt => {
                    &&& r matches Err(ProxyError::InternalError(msg))
                        && msg@ == "Failed to create new auth header"@
                    &&& final(request).authorization == old(request).authorization
                },
            },
    {
        proof {
            use_type_invariant(&*self);
        }
        let (new_header, token) = match &request.authorization {
            None => {
                request.event = Some(
                    ValidationEvent::MissingHeader { route_path: self.route_path.clone() },
                );
                return Err(ProxyError::Unauthorized(String::from_str("Missing Authorization header")));
            },
            Some(h) => {
                if !all_visible_ascii(h) {
                    request.event = Some(
                        ValidationEvent::InvalidHeader { route_path: self.route_path.clone() },
                    );
                    return Err(
                        ProxyError::Unauthorized(String::from_str("Invalid Authorization header")),
                    );
                }
                if !has_bearer_prefix(h) {
                    request.event = Some(
                        ValidationEvent::InvalidFormat { route_path: self.route_path.clone() },
                    );
                    return Err(
                        ProxyError::Unauthorized(String::from_str("Invalid Bearer token format")),
                    );
                }
                let token = bytes_from(h, 7);
                if !self.accepts_token(h) {
                    request.event = Some(
                        ValidationEvent::NotListed { route_path: self.route_path.clone(), token },
                    );
                    return Err(ProxyError::Unauthorized(String::from_str("Invalid token")));
                }
                let new_header = bearer_header(self.qualified_tokens[0].as_str());
                if !all_valid_header_bytes(&new_header) {
                    return Err(
                        ProxyError::InternalError(String::from_str("Failed to create new auth header")),
                    );
                }
                (new_header, token)
            },
        };
        request.authorization = Some(new_header);
        let count = self.success_count.wrapping_add(1);
        self.success_count = count;
        request.event = Some(
            ValidationEvent::Accepted {
                route_path: self.route_path.clone(),
                token,
                replacement: self.qualified_tokens[0].clone(),
                count,
            },
        );
        Ok(())
    }

    /// How many requests this validator has let pass.
    fn get_success_count(&self) -> (r: u64)
        ensures
            r == self@.success_count,
    {
        self.success_count
    }
}

} // verus!
