use vstd::prelude::*;

use crate::config::RouteRule;
use crate::error::ProxyError;
use crate::router::{
    first_route, guard_key, guarded_result, join_target, opt_text, route_match, routed,
    routing_result, validators_from, wildcard_prefix, RouterState,
};
use crate::token_validator::{next_count, validation_result};

verus! {

broadcast use vstd::string::group_string_axioms;

/// A wildcard route `P/*` matches a path exactly when the path starts with
/// `P`, and then forwards what follows `P`.
pub proof fn lemma_wildcard_strips_prefix(prefix: Seq<char>, path: Seq<char>)
    ensures
        route_match(prefix + seq!['/', '*'], path) == if prefix.is_prefix_of(path) {
            Some(path.skip(prefix.len() as int))
        } else {
            None
        },
{
    let p = prefix + seq!['/', '*'];
    assert(p[p.len() - 2] == '/');
    assert(p[p.len() - 1] == '*');
    assert(p.take(p.len() - 2) =~= prefix);
}

/// A pattern without a trailing `/*` matches only the identical path, and
/// leaves nothing to forward.
pub proof fn lemma_exact_pattern(pattern: Seq<char>, path: Seq<char>)
    requires
        wildcard_prefix(pattern) is None,
    ensures
        route_match(pattern, path) == if pattern == path {
            Some(Seq::<char>::empty())
        } else {
            None
        },
{
}

/// With nothing left to forward, the forwarding URL is the target itself,
/// without one trailing `/`.
pub proof fn lemma_exact_target(base: Seq<char>)
    ensures
        join_target(base, Seq::empty()) == if base.len() > 0 && base.last() == '/' {
            base.drop_last()
        } else {
            base
        },
{
}

/// One trailing `/` on the target does not change the forwarding URL.
pub proof fn lemma_trailing_slash_ignored(base: Seq<char>, remaining: Seq<char>)
    requires
        base.len() == 0 || base.last() != '/',
    ensures
        join_target(base.push('/'), remaining) == join_target(base, remaining),
{
    assert(base.push('/').drop_last() =~= base);
}

/// A remaining path forwards to the same URL with or without one leading `/`:
/// the target and the path are joined by exactly one `/`.
pub proof fn lemma_single_separator(base: Seq<char>, rest: Seq<char>)
    requires
        rest.len() > 0,
        rest[0] != '/',
    ensures
        join_target(base, seq!['/'] + rest) == join_target(base, rest),
{
    let b = if base.len() > 0 && base.last() == '/' {
        base.drop_last()
    } else {
        base
    };
    assert((seq!['/'] + rest)[0] == '/');
    assert(b + (seq!['/'] + rest) =~= b.push('/') + rest);
}

/// The first route that matches decides: routes after it change nothing.
pub proof fn lemma_first_match_wins(routes: Seq<RouteRule>, extra: Seq<RouteRule>, path: Seq<char>)
    requires
        first_route(routes, path, 0) is Some,
    ensures
        routed(routes + extra, path) == routed(routes, path),
{
    lemma_first_route_prefix(routes, extra, path, 0);
    let i = first_route(routes, path, 0).unwrap();
    lemma_first_route_bounds(routes, path, 0);
    assert((routes + extra)[i] == routes[i]);
}

proof fn lemma_first_route_bounds(routes: Seq<RouteRule>, path: Seq<char>, k: int)
    ensures
        first_route(routes, path, k) matches Some(i) ==> k <= i < routes.len(),
    decreases routes.len() - k,
{
    if 0 <= k < routes.len() && route_match(routes[k].path, path) is None {
        lemma_first_route_bounds(routes, path, k + 1);
    }
}

proof fn lemma_first_route_prefix(
    routes: Seq<RouteRule>,
    extra: Seq<RouteRule>,
    path: Seq<char>,
    k: int,
)
    requires
        0 <= k,
        first_route(routes, path, k) is Some,
    ensures
        first_route(routes + extra, path, k) == first_route(routes, path, k),
    decreases routes.len() - k,
{
    if k < routes.len() {
        assert((routes + extra)[k] == routes[k]);
        if route_match(routes[k].path, path) is None {
            lemma_first_route_prefix(routes, extra, path, k + 1);
        }
    }
}

/// Without token rules on any route, no request is ever checked for a token.
pub proof fn lemma_no_rules_no_checks(routes: Seq<RouteRule>, path: Seq<char>)
    requires
        forall|i: int| 0 <= i < routes.len() ==> (#[trigger] routes[i]).tokens is None,
    ensures
        guard_key(
            RouterState { routes, validators: validators_from(routes, routes.len() as int) },
            path,
        ) is None,
{
    lemma_validators_only_for_rules(routes, routes.len() as int);
}

/// A validator is registered for a route path exactly when some route with
/// that path has token rules.
pub proof fn lemma_validators_only_for_rules(routes: Seq<RouteRule>, n: int)
    requires
        0 <= n <= routes.len(),
    ensures
        forall|p: Seq<char>|
            #[trigger] validators_from(routes, n).contains_key(p) <==> exists|i: int|
                0 <= i < n && routes[i].path == p && routes[i].tokens is Some,
    decreases n,
{
    if n > 0 {
        lemma_validators_only_for_rules(routes, n - 1);
        assert forall|p: Seq<char>| #[trigger] validators_from(routes, n).contains_key(p) <==> exists|
            i: int,
        | 0 <= i < n && routes[i].path == p && routes[i].tokens is Some by {
            if validators_from(routes, n).contains_key(p) && !(routes[n - 1].path == p
                && routes[n - 1].tokens is Some) {
                assert(validators_from(routes, n - 1).contains_key(p));
            }
            if exists|i: int| 0 <= i < n && routes[i].path == p && routes[i].tokens is Some {
                let i = choose|i: int| 0 <= i < n && routes[i].path == p && routes[i].tokens is Some;
                if i < n - 1 {
                    assert(validators_from(routes, n - 1).contains_key(p));
                }
            }
        }
    }
}

/// How many of a series of validations succeeded.
pub open spec fn successes(oks: Seq<bool>) -> nat
    decreases oks.len(),
{
    if oks.len() == 0 {
        0
    } else {
        successes(oks.drop_last()) + if oks.last() {
            1nat
        } else {
            0nat
        }
    }
}

/// A validator's success count, starting from a new validator's 0 and moving
/// as each validation moves it (one more on success, wrapping at `u64::MAX`;
/// unchanged on failure), is the number of successful validations modulo 2^64.
pub proof fn lemma_success_count(counts: Seq<u64>, oks: Seq<bool>)
    requires
        counts.len() == oks.len() + 1,
        counts[0] == 0,
        forall|i: int|
            0 <= i < oks.len() ==> #[trigger] counts[i + 1] == if oks[i] {
                next_count(counts[i])
            } else {
                counts[i]
            },
    ensures
        counts.last() == successes(oks) % 0x1_0000_0000_0000_0000,
    decreases oks.len(),
{
    if oks.len() > 0 {
        let n = oks.len() - 1;
        let cs = counts.drop_last();
        let os = oks.drop_last();
        assert forall|i: int| 0 <= i < os.len() implies #[trigger] cs[i + 1] == if os[i] {
            next_count(cs[i])
        } else {
            cs[i]
        } by {
            assert(counts[i + 1] == if oks[i] {
                next_count(counts[i])
            } else {
                counts[i]
            });
        }
        lemma_success_count(cs, os);
        let s = successes(os);
        let c = counts[n];
        assert(c == s % 0x1_0000_0000_0000_0000);
        assert(counts[n + 1] == if oks[n] {
            next_count(c)
        } else {
            c
        });
        if oks[n] {
            assert(successes(oks) == s + 1);
            assert(next_count(c) == (s + 1) % 0x1_0000_0000_0000_0000) by (nonlinear_arith)
                requires
                    c == s % 0x1_0000_0000_0000_0000,
                    next_count(c) == if c == 0xffff_ffff_ffff_ffff {
                        0
                    } else {
                        c + 1
                    },
            ;
        }
    }
}

/// Where the full router and the demonstration router hold the same routes,
/// both find a route for the same paths, and where the full router's URL
/// parses, both forward to the same URL.
pub proof fn lemma_routers_agree(
    routes: Seq<RouteRule>,
    path: Seq<char>,
    full: Result<(String, String), ProxyError>,
    demo: Option<String>,
)
    requires
        routing_result(routes, path, full),
        opt_text(demo) == match routed(routes, path) {
            Some((_, url)) => Some(url),
            None => None::<Seq<char>>,
        },
    ensures
        (demo is None) <==> (full matches Err(ProxyError::RouteError(_))),
        full matches Ok((_, u)) ==> (demo matches Some(d) && d@ == u@),
{
}

/// Two errors say the same: the same kind with the same message, or the same
/// URL parse error.
pub open spec fn same_error(a: ProxyError, b: ProxyError) -> bool {
    match (a, b) {
        (ProxyError::RouteError(x), ProxyError::RouteError(y)) => x@ == y@,
        (ProxyError::Unauthorized(x), ProxyError::Unauthorized(y)) => x@ == y@,
        (ProxyError::InternalError(x), ProxyError::InternalError(y)) => x@ == y@,
        (ProxyError::UrlParseError(x), ProxyError::UrlParseError(y)) => x == y,
        _ => false,
    }
}

/// Two routing answers say the same: the same target and URL, or errors that
/// say the same.
pub open spec fn same_answer(
    a: Result<(String, String), ProxyError>,
    b: Result<(String, String), ProxyError>,
) -> bool {
    match (a, b) {
        (Ok((t1, u1)), Ok((t2, u2))) => t1@ == t2@ && u1@ == u2@,
        (Err(e1), Err(e2)) => same_error(e1, e2),
        _ => false,
    }
}

/// Routing answers a path in one way only.
pub proof fn lemma_routing_answer_unique(
    routes: Seq<RouteRule>,
    path: Seq<char>,
    a: Result<(String, String), ProxyError>,
    b: Result<(String, String), ProxyError>,
)
    requires
        routing_result(routes, path, a),
        routing_result(routes, path, b),
    ensures
        same_answer(a, b),
{
}

/// Guarded routing is "run the matched route's validator, then route as
/// `find_route` does": with no validator for the matched route (or no
/// matching route) it answers what `find_route` answers; with one, a refusal
/// by the validator is the answer (no later route is tried), and an
/// acceptance gives what `find_route` answers.
pub proof fn lemma_validate_then_route(
    state: RouterState,
    path: Seq<char>,
    auth: Option<Seq<u8>>,
    guarded: Result<(String, String), ProxyError>,
    plain: Result<(String, String), ProxyError>,
    checked: Result<(), ProxyError>,
)
    requires
        guarded_result(state, path, auth, guarded),
        routing_result(state.routes, path, plain),
        match guard_key(state, path) {
            Some(key) => validation_result(state.validators[key], auth, checked),
            None => true,
        },
    ensures
        guard_key(state, path) is None ==> same_answer(guarded, plain),
        guard_key(state, path) is Some && checked is Ok ==> same_answer(guarded, plain),
        guard_key(state, path) is Some && checked is Err ==> (guarded matches Err(g) && same_error(
            g,
            checked->Err_0,
        )),
{
    match guard_key(state, path) {
        None => {
            lemma_routing_answer_unique(state.routes, path, guarded, plain);
        },
        Some(key) => {
            if checked is Ok {
                lemma_routing_answer_unique(state.routes, path, guarded, plain);
            }
        },
    }
}

} // verus!
