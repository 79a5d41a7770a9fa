use vstd::prelude::*;

use crate::config::{clone_routes, rules, Config, RouteConfig, RouteRule, TokenRules};
use crate::error::ProxyError;
use crate::text::{chars_of, str_eq};
use crate::token_validator::{
    auth_header, check_authorization, event_after, event_of, next_count, AuthCheck,
    BearerTokenValidator, RequestAuth, TokenValidator, ValidatorState,
};

verus! {

broadcast use vstd::string::group_string_axioms;

/// The prefix before a trailing `/*`, when the pattern is a wildcard pattern.
pub open spec fn wildcard_prefix(pattern: Seq<char>) -> Option<Seq<char>> {
    if pattern.len() >= 2 && pattern[pattern.len() - 2] == '/' && pattern[pattern.len() - 1] == '*' {
        Some(pattern.take(pattern.len() - 2))
    } else {
        None
    }
}

/// What is left of a request path once a route pattern has matched it:
/// a wildcard pattern `P/*` matches every path that starts with `P` and leaves
/// the rest; any other pattern matches only the identical path and leaves nothing.
pub open spec fn route_match(pattern: Seq<char>, path: Seq<char>) -> Option<Seq<char>> {
    match wildcard_prefix(pattern) {
        Some(prefix) => if prefix.is_prefix_of(path) {
            Some(path.skip(prefix.len() as int))
        } else {
            None
        },
        None => if pattern == path {
            Some(Seq::empty())
        } else {
            None
        },
    }
}

/// The forwarding URL: the target without one trailing `/`, followed by the
/// remaining path, joined by exactly the `/` that the remaining path starts with
/// or one that is added.
pub open spec fn join_target(base: Seq<char>, remaining: Seq<char>) -> Seq<char> {
    let b = if base.len() > 0 && base.last() == '/' {
        base.drop_last()
    } else {
        base
    };
    if remaining.len() == 0 {
        b
    } else if remaining[0] == '/' {
        b + remaining
    } else {
        b.push('/') + remaining
    }
}

/// The text of an optional string.
pub open spec fn opt_text(o: Option<String>) -> Option<Seq<char>> {
    match o {
        Some(s) => Some(s@),
        None => None,
    }
}

/// Whether the first `n` characters of `a` and `b` agree.
fn same_prefix(a: &Vec<char>, b: &Vec<char>, n: usize) -> (r: bool)
    requires
        n <= a.len(),
        n <= b.len(),
    ensures
        r == (a@.take(n as int) == b@.take(n as int)),
{
    let mut i: usize = 0;
    while i < n
        invariant
            n <= a.len(),
            n <= b.len(),
            i <= n,
            forall|j: int| 0 <= j < i ==> a@[j] == b@[j],
        decreases n - i,
    {
        if a[i] != b[i] {
            assert(a@.take(n as int)[i as int] != b@.take(n as int)[i as int]);
            return false;
        }
        i = i + 1;
    }
    assert(a@.take(n as int) =~= b@.take(n as int));
    true
}

/// Matches a request path against one route pattern; see [`route_match`].
pub fn match_route(route_pattern: &str, request_path: &str) -> (r: Option<String>)
    ensures
        opt_text(r) == route_match(route_pattern@, request_path@),
{
    let p = chars_of(route_pattern);
    let q = chars_of(request_path);
    let plen = p.len();
    if plen >= 2 && p[plen - 2] == '/' && p[plen - 1] == '*' {
        let n = plen - 2;
        if n <= q.len() && same_prefix(&p, &q, n) {
            let rest = request_path.substring_char(n, q.len());
            proof {
                assert(p@.take(n as int) =~= q@.take(n as int).take(n as int));
                assert(q@.subrange(0, n as int) =~= q@.take(n as int));
                assert(q@.subrange(n as int, q@.len() as int) =~= q@.skip(n as int));
            }
            Some(String::from_str(rest))
        } else {
            proof {
                if p@.take(n as int).is_prefix_of(q@) {
                    assert(p@.take(n as int) =~= q@.take(n as int));
                }
            }
            None
        }
    } else {
        if plen == q.len() && same_prefix(&p, &q, plen) {
            proof {
                assert(p@ =~= p@.take(plen as int));
                assert(q@ =~= q@.take(plen as int));
            }
            Some(String::new())
        } else {
            proof {
                if p@ == q@ {
                    assert(p@.take(plen as int) =~= q@.take(plen as int));
                }
            }
            None
        }
    }
}

/// Joins a target base URL and the remaining path; see [`join_target`].
pub fn join_target_url(target_base: &str, remaining_path: &str) -> (r: String)
    ensures
        r@ == join_target(target_base@, remaining_path@),
{
    let blen = target_base.unicode_len();
    let mut url = if blen > 0 && target_base.get_char(blen - 1) == '/' {
        String::from_str(target_base.substring_char(0, blen - 1))
    } else {
        String::from_str(target_base)
    };
    proof {
        if blen > 0 {
            assert(target_base@.subrange(0, blen - 1) =~= target_base@.drop_last());
        }
    }
    let rlen = remaining_path.unicode_len();
    if rlen > 0 {
        if remaining_path.get_char(0) != '/' {
            let slash = "/";
            proof {
                reveal_strlit("/");
            }
            url.append(slash);
        }
        url.append(remaining_path);
    }
    proof {
        if rlen > 0 && remaining_path@[0] != '/' {
            assert(seq!['/'] =~= "/"@);
        }
    }
    url
}

/// Names what `url::Url::parse` decides for a text: `Ok` when the text parses
/// as an absolute URL, else the parse error that it reports.
pub uninterp spec fn url_parse_outcome(text: Seq<char>) -> Result<(), url::ParseError>;

/// Calls `url::Url::parse` and keeps only whether it succeeded and, if not, its
/// error. Its contract claims that the outcome depends on the text alone.
#[verifier::external_body]
fn parse_url(text: &str) -> (r: Result<(), url::ParseError>)
    ensures
        r == url_parse_outcome(text@),
{
    match url::Url::parse(text) {
        Ok(_) => Ok(()),
        Err(e) => Err(e),
    }
}

/// Accepts a forwarding URL when it parsed, else reports the parse error.
pub fn accept_parsed_url(url: String, outcome: Result<(), url::ParseError>) -> (r: Result<
    String,
    ProxyError,
>)
    ensures
        match outcome {
            Ok(_) => r == Ok::<String, ProxyError>(url),
            Err(e) => r == Err::<String, ProxyError>(ProxyError::UrlParseError(e)),
        },
{
    match outcome {
        Ok(_) => Ok(url),
        Err(e) => Err(ProxyError::UrlParseError(e)),
    }
}

/// The index of the first route, from `k` on, whose pattern matches `path`.
pub open spec fn first_route(routes: Seq<RouteRule>, path: Seq<char>, k: int) -> Option<int>
    decreases routes.len() - k,
{
    if k < 0 || k >= routes.len() {
        None
    } else if route_match(routes[k].path, path) is Some {
        Some(k)
    } else {
        first_route(routes, path, k + 1)
    }
}

/// What routing a request path gives: no route, or the matching route's index
/// together with its forwarding URL.
pub open spec fn routed(routes: Seq<RouteRule>, path: Seq<char>) -> Option<(int, Seq<char>)> {
    match first_route(routes, path, 0) {
        Some(i) => Some(
            (i, join_target(routes[i].target, route_match(routes[i].path, path).unwrap())),
        ),
        None => None,
    }
}

/// The message of the error for a path that no route matches.
pub open spec fn no_route_message(path: Seq<char>) -> Seq<char> {
    "No route found for path: "@ + path
}

/// Whether `r` is what routing `path` through `routes` gives, the URL checked.
pub open spec fn routing_result(
    routes: Seq<RouteRule>,
    path: Seq<char>,
    r: Result<(String, String), ProxyError>,
) -> bool {
    match routed(routes, path) {
        None => r matches Err(ProxyError::RouteError(m)) && m@ == no_route_message(path),
        Some((i, url)) => match url_parse_outcome(url) {
            Ok(_) => r matches Ok((t, u)) && t@ == routes[i].target && u@ == url,
            Err(e) => r == Err::<(String, String), ProxyError>(ProxyError::UrlParseError(e)),
        },
    }
}

/// The validators that inserting one per route with token rules, in order,
/// leaves in a map keyed by route path (a later route replaces an earlier one
/// with the same path).
pub open spec fn validators_from(routes: Seq<RouteRule>, n: int) -> Map<Seq<char>, ValidatorState>
    decreases n,
{
    if n <= 0 {
        Map::empty()
    } else {
        let m = validators_from(routes, n - 1);
        match routes[n - 1].tokens {
            Some(t) => m.insert(routes[n - 1].path, fresh_validator(t, routes[n - 1].path)),
            None => m,
        }
    }
}

/// A new validator for token rules on a route.
pub open spec fn fresh_validator(t: TokenRules, path: Seq<char>) -> ValidatorState {
    ValidatorState { verified: t.verified, qualified: t.qualified, success_count: 0, route_path: path }
}

/// The configuration error of token rules, if any.
pub open spec fn token_rules_error(t: TokenRules) -> Option<Seq<char>> {
    if t.qualified.len() == 0 {
        Some("qualified_token cannot be empty"@)
    } else if t.verified.len() == 0 {
        Some("verified_token cannot be empty"@)
    } else {
        None
    }
}

/// The configuration error of the first route, from `k` on, whose token rules are wrong.
pub open spec fn first_token_error(routes: Seq<RouteRule>, k: int) -> Option<Seq<char>>
    decreases routes.len() - k,
{
    if k < 0 || k >= routes.len() {
        None
    } else {
        match routes[k].tokens {
            Some(t) => match token_rules_error(t) {
                Some(m) => Some(m),
                None => first_token_error(routes, k + 1),
            },
            None => first_token_error(routes, k + 1),
        }
    }
}

/// The state of a router: its routes in order and its validators by route path.
pub struct RouterState {
    pub routes: Seq<RouteRule>,
    pub validators: Map<Seq<char>, ValidatorState>,
}

/// The views of a list of validators.
pub open spec fn states(vs: Seq<BearerTokenValidator>) -> Seq<ValidatorState> {
    vs.map_values(|v: BearerTokenValidator| v@)
}

/// The map that inserting the validators in order builds.
pub open spec fn validator_map(vs: Seq<ValidatorState>) -> Map<Seq<char>, ValidatorState>
    decreases vs.len(),
{
    if vs.len() == 0 {
        Map::empty()
    } else {
        validator_map(vs.drop_last()).insert(vs.last().route_path, vs.last())
    }
}

/// No two validators guard the same route path.
pub open spec fn distinct_paths(vs: Seq<ValidatorState>) -> bool {
    forall|i: int, j: int|
        0 <= i < vs.len() && 0 <= j < vs.len() && i != j ==> #[trigger] vs[i].route_path
            != #[trigger] vs[j].route_path
}

proof fn lemma_validator_map_lookup(vs: Seq<ValidatorState>)
    requires
        distinct_paths(vs),
    ensures
        forall|i: int|
            0 <= i < vs.len() ==> #[trigger] validator_map(vs).contains_key(vs[i].route_path)
                && validator_map(vs)[vs[i].route_path] == vs[i],
        forall|p: Seq<char>|
            #[trigger] validator_map(vs).contains_key(p) ==> exists|i: int|
                0 <= i < vs.len() && vs[i].route_path == p,
    decreases vs.len(),
{
    if vs.len() > 0 {
        let init = vs.drop_last();
        assert(distinct_paths(init));
        lemma_validator_map_lookup(init);
        assert forall|p: Seq<char>| #[trigger] validator_map(vs).contains_key(p) implies exists|i: int|
            0 <= i < vs.len() && vs[i].route_path == p by {
            if p != vs.last().route_path {
                assert(validator_map(init).contains_key(p));
                let i = choose|i: int| 0 <= i < init.len() && init[i].route_path == p;
                assert(vs[i].route_path == p);
            } else {
                assert(vs[vs.len() - 1].route_path == p);
            }
        }
        assert forall|i: int| 0 <= i < vs.len() implies #[trigger] validator_map(vs).contains_key(
            vs[i].route_path,
        ) && validator_map(vs)[vs[i].route_path] == vs[i] by {
            if i < vs.len() - 1 {
                assert(init[i] == vs[i]);
                assert(validator_map(init).contains_key(init[i].route_path));
                assert(vs[i].route_path != vs[vs.len() - 1].route_path);
            }
        }
    }
}

proof fn lemma_validator_map_update(vs: Seq<ValidatorState>, j: int, x: ValidatorState)
    requires
        distinct_paths(vs),
        0 <= j < vs.len(),
        x.route_path == vs[j].route_path,
    ensures
        validator_map(vs.update(j, x)) == validator_map(vs).insert(x.route_path, x),
        distinct_paths(vs.update(j, x)),
    decreases vs.len(),
{
    let ws = vs.update(j, x);
    assert(distinct_paths(ws)) by {
        assert forall|a: int, b: int|
            0 <= a < ws.len() && 0 <= b < ws.len() && a != b implies #[trigger] ws[a].route_path
            != #[trigger] ws[b].route_path by {
            assert(vs[a].route_path != vs[b].route_path);
        }
    }
    let init = vs.drop_last();
    let last = vs.len() - 1;
    if j == last {
        assert(ws.drop_last() =~= init);
        assert(validator_map(ws) =~= validator_map(vs).insert(x.route_path, x));
    } else {
        assert(distinct_paths(init));
        lemma_validator_map_update(init, j, x);
        assert(ws.drop_last() =~= init.update(j, x));
        assert(vs[j].route_path != vs[last].route_path);
        assert(validator_map(ws) =~= validator_map(vs).insert(x.route_path, x));
    }
}

/// The route path whose validator guards a request path: that of the first
/// matching route, when a validator is registered for it.
pub open spec fn guard_key(state: RouterState, path: Seq<char>) -> Option<Seq<char>> {
    match first_route(state.routes, path, 0) {
        Some(i) => if state.validators.contains_key(state.routes[i].path) {
            Some(state.routes[i].path)
        } else {
            None
        },
        None => None,
    }
}

/// Whether `r` is what guarded routing of `path` answers for a request with
/// `auth`: without a validator for the matched route, what routing answers;
/// with one, its refusal, or, when it accepts, what routing answers.
pub open spec fn guarded_result(
    state: RouterState,
    path: Seq<char>,
    auth: Option<Seq<u8>>,
    r: Result<(String, String), ProxyError>,
) -> bool {
    match guard_key(state, path) {
        None => routing_result(state.routes, path, r),
        Some(key) => {
            let v = state.validators[key];
            match check_authorization(v.verified, v.qualified[0], auth) {
                AuthCheck::Accepted(_) => routing_result(state.routes, path, r),
                AuthCheck::Rejected(m) => r matches Err(ProxyError::Unauthorized(msg)) && msg@ == m,
                AuthCheck::HeaderNotBuilt => r matches Err(ProxyError::InternalError(msg)) && msg@
                    == "Failed to create new auth header"@,
            }
        },
    }
}

/// A validator after one more success.
pub open spec fn counted(v: ValidatorState) -> ValidatorState {
    ValidatorState {
        verified: v.verified,
        qualified: v.qualified,
        success_count: next_count(v.success_count),
        route_path: v.route_path,
    }
}

/// Routes request paths to target URLs, in the order of the configured routes,
/// and validates bearer tokens on the routes that ask for it.
pub struct Router {
    routes: Vec<RouteConfig>,
    token_validators: Vec<BearerTokenValidator>,
}

impl View for Router {
    type V = RouterState;

    closed spec fn view(&self) -> RouterState {
        RouterState {
            routes: rules(self.routes@),
            validators: validator_map(states(self.token_validators@)),
        }
    }
}

/// Registers a validator under its route path, replacing one already there.
fn insert_validator(vs: &mut Vec<BearerTokenValidator>, v: BearerTokenValidator)
    requires
        distinct_paths(states(old(vs)@)),
    ensures
        distinct_paths(states(final(vs)@)),
        validator_map(states(final(vs)@)) == validator_map(states(old(vs)@)).insert(
            v@.route_path,
            v@,
        ),
{
    let ghost before = states(vs@);
    let mut j: usize = 0;
    while j < vs.len()
        invariant
            j <= vs.len(),
            vs@ == old(vs)@,
            before == states(vs@),
            distinct_paths(before),
            forall|k: int| 0 <= k < j ==> #[trigger] before[k].route_path != v@.route_path,
        decreases vs.len() - j,
    {
        if str_eq(vs[j].route_path(), v.route_path()) {
            let ghost x = v@;
            vs.set(j, v);
            proof {
                assert(states(vs@) =~= before.update(j as int, x));
                lemma_validator_map_update(before, j as int, x);
            }
            return;
        }
        j = j + 1;
    }
    let ghost x = v@;
    vs.push(v);
    proof {
        assert(states(vs@) =~= before.push(x));
        assert(states(vs@).drop_last() =~= before);
        assert(distinct_paths(states(vs@))) by {
            let ws = states(vs@);
            assert forall|a: int, b: int|
                0 <= a < ws.len() && 0 <= b < ws.len() && a != b implies #[trigger] ws[a].route_path
                != #[trigger] ws[b].route_path by {
                if a < before.len() && b < before.len() {
                    assert(before[a].route_path != before[b].route_path);
                } else if a < before.len() {
                    assert(before[a].route_path != x.route_path);
                } else {
                    assert(before[b].route_path != x.route_path);
                }
            }
        }
    }
}

impl Router {
    #[verifier::type_invariant]
    spec fn paths_distinct(&self) -> bool {
        distinct_paths(states(self.token_validators@))
    }

    /// A router for the configured routes, with a validator for every route
    /// that has token rules; fails on the first route whose token rules are wrong.
    pub fn new(config: &Config) -> (r: Result<Router, ProxyError>)
        ensures
            match first_token_error(rules(config.routes@), 0) {
                Some(m) => r matches Err(ProxyError::ConfigError(e)) && e@ == m,
                None => r matches Ok(router) && router@ == (RouterState {
                    routes: rules(config.routes@),
                    validators: validators_from(rules(config.routes@), config.routes@.len() as int),
                }),
            },
    {
        let ghost rs = rules(config.routes@);
        let mut validators: Vec<BearerTokenValidator> = Vec::new();
        let mut i: usize = 0;
        assert(validator_map(states(validators@)) =~= validators_from(rs, 0));
        while i < config.routes.len()
            invariant
                rs == rules(config.routes@),
                i <= config.routes.len(),
                distinct_paths(states(validators@)),
                validator_map(states(validators@)) == validators_from(rs, i as int),
                first_token_error(rs, 0) == first_token_error(rs, i as int),
            decreases config.routes.len() - i,
        {
            let route = &config.routes[i];
            match &route.token_validation {
                Some(tc) => {
                    match BearerTokenValidator::new(tc, route.path.clone()) {
                        Ok(v) => {
                            insert_validator(&mut validators, v);
                        },
                        Err(e) => {
                            return Err(e);
                        },
                    }
                },
                None => {},
            }
            i = i + 1;
        }
        let router = Router { routes: clone_routes(&config.routes), token_validators: validators };
        proof {
            assert(router@.routes == rs);
        }
        Ok(router)
    }

    /// Matches a request path against one route pattern; see [`route_match`].
    pub fn matches_route(&self, route_pattern: &str, request_path: &str) -> (r: Option<String>)
        ensures
            opt_text(r) == route_match(route_pattern@, request_path@),
    {
        match_route(route_pattern, request_path)
    }

    /// The forwarding URL for a target and a remaining path, if it parses as a URL.
    pub fn build_target_url(&self, target_base: &str, remaining_path: &str) -> (r: Result<
        String,
        ProxyError,
    >)
        ensures
            match url_parse_outcome(join_target(target_base@, remaining_path@)) {
                Ok(_) => r matches Ok(u) && u@ == join_target(target_base@, remaining_path@),
                Err(e) => r == Err::<String, ProxyError>(ProxyError::UrlParseError(e)),
            },
    {
        let target_url = join_target_url(target_base, remaining_path);
        let outcome = parse_url(target_url.as_str());
        accept_parsed_url(target_url, outcome)
    }

    /// The index of the validator registered for a route path, if any.
    fn validator_index(&self, route_path: &str) -> (r: Option<usize>)
        ensures
            match r {
                Some(j) => j < self.token_validators@.len() && states(self.token_validators@)[j as int].route_path
                    == route_path@,
                None => !self@.validators.contains_key(route_path@),
            },
    {
        proof {
            use_type_invariant(self);
            lemma_validator_map_lookup(states(self.token_validators@));
        }
        let mut j: usize = 0;
        while j < self.token_validators.len()
            invariant
                j <= self.token_validators.len(),
                forall|k: int| 0 <= k < j ==> #[trigger] states(self.token_validators@)[k].route_path != route_path@,
            decreases self.token_validators.len() - j,
        {
            if str_eq(self.token_validators[j].route_path(), route_path) {
                return Some(j);
            }
            j = j + 1;
        }
        None
    }

    /// Like [`Router::find_route`], but first lets the validator of the
    /// matching route, if it has one, check and rewrite the request; a request
    /// that the validator refuses is answered with its error.
    pub fn find_route_and_validate(&mut self, path: &str, request: &mut RequestAuth) -> (r: Result<
        (String, String),
        ProxyError,
    >)
        ensures
            final(self)@.routes == old(self)@.routes,
            guarded_result(old(self)@, path@, auth_header(*old(request)), r),
            match guard_key(old(self)@, path@) {
                None => {
                    &&& routing_result(old(self)@.routes, path@, r)
                    &&& *final(request) == *old(request)
                    &&& final(self)@.validators == old(self)@.validators
                },
                Some(key) => {
                    let v = old(self)@.validators[key];
                    &&& event_of(final(request).event) == event_after(
                        v,
                        auth_header(*old(request)),
                        event_of(old(request).event),
                    )
                    &&& match check_authorization(v.verified, v.qualified[0], auth_header(*old(request))) {
                        AuthCheck::Accepted(h) => {
                            &&& routing_result(old(self)@.routes, path@, r)
                            &&& auth_header(*final(request)) == Some(h)
                            &&& final(self)@.validators == old(self)@.validators.insert(key, counted(v))
                        },
                        AuthCheck::Rejected(m) => {
                            &&& r matches Err(ProxyError::Unauthorized(msg)) && msg@ == m
                            &&& final(request).authorization == old(request).authorization
                            &&& final(self)@.validators == old(self)@.validators
                        },
                        AuthCheck::HeaderNotBuilt => {
                            &&& r matches Err(ProxyError::InternalError(msg))
                                && msg@ == "Failed to create new auth header"@
                            &&& final(request).authorization == old(request).authorization
                            &&& final(self)@.validators == old(self)@.validators
                        },
                    }
                },
            },
    {
        proof {
            use_type_invariant(&*self);
        }
        let ghost rs = rules(self.routes@);
        let ghost vs0 = states(self.token_validators@);
        let mut i: usize = 0;
        while i < self.routes.len()
            invariant
                rs == rules(self.routes@),
                i <= self.routes.len(),
                first_route(rs, path@, 0) == first_route(rs, path@, i as int),
                *self == *old(self),
                *request == *old(request),
                vs0 == states(self.token_validators@),
                distinct_paths(vs0),
            decreases self.routes.len() - i,
        {
            match self.matches_route(self.routes[i].path.as_str(), path) {
                Some(remaining) => {
                    match self.validator_index(self.routes[i].path.as_str()) {
                        Some(j) => {
                            proof {
                                lemma_validator_map_lookup(vs0);
                            }
                            let mut validators: Vec<BearerTokenValidator> = Vec::new();
                            std::mem::swap(&mut validators, &mut self.token_validators);
                            let mut v = validators.remove(j);
                            let checked = v.validate(request);
                            let ghost x = v@;
                            validators.insert(j, v);
                            proof {
                                assert(states(validators@) =~= vs0.update(j as int, x));
                                lemma_validator_map_update(vs0, j as int, x);
                            }
                            self.token_validators = validators;
                            match checked {
                                Ok(()) => {},
                                Err(e) => {
                                    return Err(e);
                                },
                            }
                        },
                        None => {},
                    }
                    let route = &self.routes[i];
                    let target_url = self.build_target_url(route.target.as_str(), remaining.as_str());
                    return match target_url {
                        Ok(u) => Ok((route.target.clone(), u)),
                        Err(e) => Err(e),
                    };
                },
                None => {},
            }
            i = i + 1;
        }
        Err(ProxyError::RouteError(String::from_str("No route found for path: ").concat(path)))
    }

    /// The index of the first route whose pattern matches `path`.
    fn first_match(&self, path: &str) -> (r: Option<usize>)
        ensures
            match r {
                Some(i) => first_route(self@.routes, path@, 0) == Some(i as int)
                    && i < self.routes@.len(),
                None => first_route(self@.routes, path@, 0) is None,
            },
    {
        let ghost rs = rules(self.routes@);
        let mut i: usize = 0;
        while i < self.routes.len()
            invariant
                rs == rules(self.routes@),
                i <= self.routes.len(),
                first_route(rs, path@, 0) == first_route(rs, path@, i as int),
            decreases self.routes.len() - i,
        {
            if self.matches_route(self.routes[i].path.as_str(), path).is_some() {
                return Some(i);
            }
            i = i + 1;
        }
        None
    }

    /// The pattern and target of the first route that matches `path`, if any.
    pub fn matched_route(&self, path: &str) -> (r: Option<(String, String)>)
        ensures
            match first_route(self@.routes, path@, 0) {
                Some(i) => r matches Some((p, t)) && p@ == self@.routes[i].path && t@
                    == self@.routes[i].target,
                None => r is None,
            },
    {
        match self.first_match(path) {
            Some(i) => Some((self.routes[i].path.clone(), self.routes[i].target.clone())),
            None => None,
        }
    }

    /// Whether routing `path` runs a validator: whether the first matching
    /// route's path has one.
    pub fn needs_validation(&self, path: &str) -> (r: bool)
        ensures
            r == guard_key(self@, path@) is Some,
    {
        proof {
            use_type_invariant(self);
            lemma_validator_map_lookup(states(self.token_validators@));
        }
        match self.first_match(path) {
            Some(i) => {
                let found = self.validator_index(self.routes[i].path.as_str());
                proof {
                    if let Some(j) = found {
                        assert(validator_map(states(self.token_validators@)).contains_key(
                            states(self.token_validators@)[j as int].route_path,
                        ));
                    }
                }
                found.is_some()
            },
            None => false,
        }
    }

    /// The target of the first route that matches `path`, and the URL to forward to.
    pub fn find_route(&self, path: &str) -> (r: Result<(String, String), ProxyError>)
        ensures
            routing_result(self@.routes, path@, r),
    {
        let ghost rs = rules(self.routes@);
        let mut i: usize = 0;
        while i < self.routes.len()
            invariant
                rs == rules(self.routes@),
                i <= self.routes.len(),
                first_route(rs, path@, 0) == first_route(rs, path@, i as int),
            decreases self.routes.len() - i,
        {
            let route = &self.routes[i];
            match self.matches_route(route.path.as_str(), path) {
                Some(remaining) => {
                    let target_url = self.build_target_url(route.target.as_str(), remaining.as_str());
                    return match target_url {
                        Ok(u) => Ok((route.target.clone(), u)),
                        Err(e) => Err(e),
                    };
                },
                None => {},
            }
            i = i + 1;
        }
        Err(ProxyError::RouteError(String::from_str("No route found for path: ").concat(path)))
    }
}

} // verus!
