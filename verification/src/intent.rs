use vstd::prelude::*;
use vstd::utf8::encode_utf8;

use crate::config::{overridden, Args, Config, RouteRule};
use crate::error::{status_of, ProxyError};
use crate::proxy::{forward_text, host_header};
use crate::router::{
    first_route, guard_key, guarded_result, join_target, route_match, routing_result,
    validators_from, RouterState,
};
use crate::validation_log::masked_bytes;
use crate::text::decimal;
use crate::token_validator::{check_authorization, validation_result, AuthCheck, ValidatorState};

verus! {

broadcast use vstd::string::group_string_axioms;

proof fn lemma_first_route_is(routes: Seq<crate::config::RouteRule>, path: Seq<char>, i: int, k: int)
    requires
        0 <= k <= i < routes.len(),
        route_match(routes[i].path, path) is Some,
        forall|j: int| 0 <= j < i ==> route_match(#[trigger] routes[j].path, path) is None,
    ensures
        first_route(routes, path, k) == Some(i),
    decreases i - k,
{
    if k < i {
        assert(route_match(routes[k].path, path) is None);
        lemma_first_route_is(routes, path, i, k + 1);
    }
}

/// Only the first route that matches a path decides whether a token is
/// checked: when that route has no validator, guarded routing checks no token
/// and answers exactly what plain routing answers, whatever validators later
/// matching routes have.
pub proof fn lemma_unguarded_first_match(
    state: RouterState,
    path: Seq<char>,
    i: int,
    auth: Option<Seq<u8>>,
    r: Result<(String, String), ProxyError>,
)
    requires
        0 <= i < state.routes.len(),
        route_match(state.routes[i].path, path) is Some,
        forall|j: int| 0 <= j < i ==> route_match(#[trigger] state.routes[j].path, path) is None,
        !state.validators.contains_key(state.routes[i].path),
    ensures
        guard_key(state, path) is None,
        guarded_result(state, path, auth, r) <==> routing_result(state.routes, path, r),
{
    lemma_first_route_is(state.routes, path, i, 0);
}

/// When the first route that matches a path has a validator, that validator,
/// and no other, checks the request.
pub proof fn lemma_guarded_first_match(state: RouterState, path: Seq<char>, i: int)
    requires
        0 <= i < state.routes.len(),
        route_match(state.routes[i].path, path) is Some,
        forall|j: int| 0 <= j < i ==> route_match(#[trigger] state.routes[j].path, path) is None,
        state.validators.contains_key(state.routes[i].path),
    ensures
        guard_key(state, path) == Some(state.routes[i].path),
{
    lemma_first_route_is(state.routes, path, i, 0);
}

/// The bytes of `Bearer `.
pub open spec fn bearer_text() -> Seq<u8> {
    seq![66u8, 101u8, 97u8, 114u8, 101u8, 114u8, 32u8]
}

/// A header `Bearer <token>` whose token is listed and made of visible ASCII
/// (bytes 32 to 126) is accepted, and the header becomes `Bearer ` followed by
/// the replacement token, when that replacement is a valid header value.
pub proof fn lemma_listed_token_accepted(
    v: ValidatorState,
    token: Seq<u8>,
    i: int,
    r: Result<(), ProxyError>,
)
    requires
        0 <= i < v.verified.len(),
        encode_utf8(v.verified[i]) == token,
        forall|k: int| 0 <= k < token.len() ==> 32 <= #[trigger] token[k] && token[k] <= 126,
        forall|k: int|
            0 <= k < encode_utf8(v.qualified[0]).len() ==> (32 <= #[trigger] encode_utf8(
                v.qualified[0],
            )[k] && encode_utf8(v.qualified[0])[k] != 127) || encode_utf8(v.qualified[0])[k] == 9,
        validation_result(v, Some(bearer_text() + token), r),
    ensures
        check_authorization(v.verified, v.qualified[0], Some(bearer_text() + token))
            == AuthCheck::Accepted(bearer_text() + encode_utf8(v.qualified[0])),
        r is Ok,
{
    let h = bearer_text() + token;
    assert forall|k: int| 0 <= k < h.len() implies 32 <= #[trigger] h[k] && h[k] <= 126 by {
        if k >= 7 {
            assert(h[k] == token[k - 7]);
        }
    }
    assert(h.subrange(0, 7) =~= bearer_text());
    assert(h.skip(7) =~= token);
    let q = encode_utf8(v.qualified[0]);
    let n = bearer_text() + q;
    assert forall|k: int| 0 <= k < n.len() implies (32 <= #[trigger] n[k] && n[k] != 127) || n[k]
        == 9 by {
        if k >= 7 {
            assert(n[k] == q[k - 7]);
        }
    }
}

/// A header is refused as invalid only when it holds a byte that is neither
/// visible ASCII (32 to 126) nor a tab.
pub proof fn lemma_invalid_header_has_invisible_byte(
    verified: Seq<Seq<char>>,
    replacement: Seq<char>,
    h: Seq<u8>,
)
    requires
        check_authorization(verified, replacement, Some(h)) == AuthCheck::Rejected(
            "Invalid Authorization header"@,
        ),
    ensures
        exists|k: int| 0 <= k < h.len() && !(32 <= #[trigger] h[k] && h[k] <= 126) && h[k] != 9,
{
    reveal_strlit("Invalid Authorization header");
    reveal_strlit("Invalid Bearer token format");
    reveal_strlit("Invalid token");
    if forall|k: int| 0 <= k < h.len() ==> (32 <= #[trigger] h[k] && h[k] <= 126) || h[k] == 9 {
        assert("Invalid Authorization header"@.len() != "Invalid Bearer token format"@.len());
        assert("Invalid Authorization header"@.len() != "Invalid token"@.len());
    }
}

/// The number a decimal numeral stands for.
pub open spec fn numeral_value(s: Seq<char>) -> int
    decreases s.len(),
{
    if s.len() == 0 {
        0
    } else {
        numeral_value(s.drop_last()) * 10 + (s.last() as int - 48)
    }
}

proof fn lemma_digit_value(d: nat)
    requires
        d < 10,
    ensures
        crate::text::digit(d) as int == 48 + d,
{
}

/// The decimal text of a number is a numeral of the digits `0` to `9`,
/// without a leading zero, and read back it is that number.
pub proof fn lemma_decimal_reads_back(n: nat)
    ensures
        numeral_value(decimal(n)) == n,
        decimal(n).len() >= 1,
        forall|k: int| 0 <= k < decimal(n).len() ==> 48 <= #[trigger] (decimal(n)[k] as int) <= 57,
        n > 0 ==> decimal(n)[0] != '0',
    decreases n,
{
    if n < 10 {
        lemma_digit_value(n);
        assert(decimal(n).drop_last() =~= Seq::<char>::empty());
        assert(numeral_value(Seq::<char>::empty()) == 0);
        assert(decimal(n).last() == crate::text::digit(n));
    } else {
        lemma_decimal_reads_back(n / 10);
        let s = decimal(n / 10);
        let d = (n % 10) as nat;
        lemma_digit_value(d);
        assert(decimal(n) == s.push(crate::text::digit(d)));
        assert(decimal(n).drop_last() =~= s);
        assert(decimal(n).last() == crate::text::digit(d));
        assert(numeral_value(decimal(n)) == numeral_value(s) * 10 + (crate::text::digit(d) as int - 48));
        assert((n / 10) * 10 + d == n);
        assert forall|k: int| 0 <= k < decimal(n).len() implies 48 <= #[trigger] (
        decimal(n)[k] as int) <= 57 by {
            if k < s.len() {
                assert(decimal(n)[k] == s[k]);
            }
        }
    }
}

/// The `Host` header for a target with a port is the host, `:`, and a decimal
/// numeral that reads back as the port.
pub proof fn lemma_host_header_port(host: Seq<char>, port: u16)
    ensures
        host_header(Some(host), Some(port)) matches Some(x) && x.take(host.len() as int) == host
            && x[host.len() as int] == ':' && numeral_value(x.skip(host.len() + 1int)) == port,
{
    reveal_strlit(":");
    lemma_decimal_reads_back(port as nat);
    let x = host + ":"@ + decimal(port as nat);
    assert(x.take(host.len() as int) =~= host);
    assert(x.skip(host.len() + 1int) =~= decimal(port as nat));
}

/// A command-line option that is not given leaves the file's value, one that
/// is given replaces it; `--debug` turns debugging on and its absence leaves
/// the file's setting.
pub proof fn lemma_options_override_file(c: Config, args: Args, r: Config)
    requires
        overridden(c, args, r),
    ensures
        args.port is None ==> r.server.port == c.server.port,
        args.port is Some ==> r.server.port == args.port->0,
        args.bind is None ==> r.server.bind@ == c.server.bind@,
        args.bind is Some ==> r.server.bind@ == args.bind->0@,
        args.timeout is None ==> r.server.timeout == c.server.timeout,
        args.timeout is Some ==> r.server.timeout == args.timeout->0,
        !args.debug ==> r.logging.debug == c.logging.debug,
        args.debug ==> r.logging.debug,
        r.logging.access_log == c.logging.access_log,
        r.routes == c.routes,
{
}

/// Putting the same options in place twice gives what putting them in place
/// once gives.
pub proof fn lemma_overrides_idempotent(c: Config, args: Args, r1: Config, r2: Config)
    requires
        overridden(c, args, r1),
        overridden(r1, args, r2),
    ensures
        r2.server.port == r1.server.port,
        r2.server.bind@ == r1.server.bind@,
        r2.server.timeout == r1.server.timeout,
        r2.logging == r1.logging,
        r2.routes == r1.routes,
{
}

/// The forwarding URL ends with the remaining path, unchanged; before it
/// stands the target without one trailing `/`, and a `/` between the two only
/// when the remaining path does not start with one.
pub proof fn lemma_join_keeps_remaining(base: Seq<char>, rest: Seq<char>)
    requires
        rest.len() > 0,
    ensures
        rest.is_suffix_of(join_target(base, rest)),
        (base.len() == 0 || base.last() != '/') ==> base.is_prefix_of(join_target(base, rest)),
        (base.len() > 0 && base.last() == '/') ==> base.drop_last().is_prefix_of(
            join_target(base, rest),
        ),
        join_target(base, rest).len() == base.len() - (if base.len() > 0 && base.last() == '/' {
            1int
        } else {
            0int
        }) + rest.len() + (if rest[0] == '/' {
            0int
        } else {
            1int
        }),
        rest[0] != '/' ==> join_target(base, rest)[join_target(base, rest).len() - rest.len() - 1]
            == '/',
{
    let u = join_target(base, rest);
    let b = if base.len() > 0 && base.last() == '/' {
        base.drop_last()
    } else {
        base
    };
    if rest[0] == '/' {
        assert(u =~= b + rest);
    } else {
        assert(u =~= b.push('/') + rest);
    }
    assert(u.subrange(u.len() - rest.len(), u.len() as int) =~= rest);
    assert(u.subrange(0, b.len() as int) =~= b);
    if base.len() == 0 || base.last() != '/' {
        assert(b == base);
    }
}

/// A matched request path is forwarded with what follows the matched prefix
/// kept unchanged at the end of the URL.
pub proof fn lemma_forwarded_url_ends_with_rest(
    routes: Seq<crate::config::RouteRule>,
    path: Seq<char>,
    i: int,
    r: Result<(String, String), ProxyError>,
)
    requires
        0 <= i < routes.len(),
        route_match(routes[i].path, path) matches Some(rest) && rest.len() > 0,
        forall|j: int| 0 <= j < i ==> route_match(#[trigger] routes[j].path, path) is None,
        routing_result(routes, path, r),
        r is Ok,
    ensures
        route_match(routes[i].path, path).unwrap().is_suffix_of(r->Ok_0.1@),
{
    lemma_first_route_is(routes, path, i, 0);
    lemma_join_keeps_remaining(routes[i].target, route_match(routes[i].path, path).unwrap());
}

/// Each refusal of a header has its own reason: no header at all; a header
/// of visible ASCII that does not start with `Bearer `; and a `Bearer ` header
/// of visible ASCII whose token is not listed.
pub proof fn lemma_refusal_reasons(verified: Seq<Seq<char>>, replacement: Seq<char>, h: Seq<u8>)
    ensures
        check_authorization(verified, replacement, None) == AuthCheck::Rejected(
            "Missing Authorization header"@,
        ),
        (forall|k: int| 0 <= k < h.len() ==> 32 <= #[trigger] h[k] && h[k] <= 126) && !(h.len() >= 7
            && h.take(7) == bearer_text()) ==> check_authorization(verified, replacement, Some(h))
            == AuthCheck::Rejected("Invalid Bearer token format"@),
        (forall|k: int| 0 <= k < h.len() ==> 32 <= #[trigger] h[k] && h[k] <= 126) && h.len() >= 7
            && h.take(7) == bearer_text() && (forall|i: int|
            0 <= i < verified.len() ==> encode_utf8(#[trigger] verified[i]) != h.skip(7))
            ==> check_authorization(verified, replacement, Some(h)) == AuthCheck::Rejected(
            "Invalid token"@,
        ),
{
    if (forall|k: int| 0 <= k < h.len() ==> 32 <= #[trigger] h[k] && h[k] <= 126) && h.len() >= 7
        && h.take(7) == bearer_text() {
        assert(h.subrange(0, 7) =~= h.take(7));
    }
    if (forall|k: int| 0 <= k < h.len() ==> 32 <= #[trigger] h[k] && h[k] <= 126) && !(h.len() >= 7
        && h.take(7) == bearer_text()) && h.len() >= 7 {
        assert(h.subrange(0, 7) =~= h.take(7));
    }
}

/// Of several routes with the same path and token rules, the last one's
/// rules are the ones its validator starts with, with no success counted.
pub proof fn lemma_last_rules_win(routes: Seq<RouteRule>, n: int, i: int)
    requires
        0 <= i < n <= routes.len(),
        routes[i].tokens is Some,
        forall|j: int|
            i < j < n ==> !(#[trigger] routes[j].path == routes[i].path && routes[j].tokens is Some),
    ensures
        validators_from(routes, n).contains_key(routes[i].path),
        validators_from(routes, n)[routes[i].path].verified == routes[i].tokens->0.verified,
        validators_from(routes, n)[routes[i].path].qualified == routes[i].tokens->0.qualified,
        validators_from(routes, n)[routes[i].path].success_count == 0,
        validators_from(routes, n)[routes[i].path].route_path == routes[i].path,
    decreases n - i,
{
    if n > i + 1 {
        lemma_last_rules_win(routes, n - 1, i);
        assert(!(routes[n - 1].path == routes[i].path && routes[n - 1].tokens is Some));
    }
}

/// A failed request is answered 404 when no route matches, 504 when the
/// forwarded request times out, 502 when the exchange with the upstream server
/// fails, 400 for an HTTP error, and 500 otherwise.
pub proof fn lemma_failure_statuses(e: ProxyError)
    ensures
        e is RouteError ==> status_of(e) == 404,
        e is TimeoutError ==> status_of(e) == 504,
        e is NetworkError || e is HyperError ==> status_of(e) == 502,
        e is HttpError ==> status_of(e) == 400,
        !(e is RouteError || e is TimeoutError || e is NetworkError || e is HyperError
            || e is HttpError) ==> status_of(e) == 500,
{
}

/// The log shows a token longer than six bytes as its first three bytes,
/// `***` and its last three bytes, and a shorter one as `***` alone.
pub proof fn lemma_masking(b: Seq<u8>)
    ensures
        b.len() > 6 ==> masked_bytes(b).len() == 9 && masked_bytes(b).take(3) == b.take(3)
            && masked_bytes(b).subrange(3, 6) == seq![42u8, 42u8, 42u8] && masked_bytes(b).skip(6)
            == b.skip(b.len() - 3),
        b.len() <= 6 ==> masked_bytes(b) == seq![42u8, 42u8, 42u8],
{
    if b.len() > 6 {
        let m = masked_bytes(b);
        assert(m.take(3) =~= b.take(3));
        assert(m.subrange(3, 6) =~= seq![42u8, 42u8, 42u8]);
        assert(m.skip(6) =~= b.skip(b.len() - 3));
    }
}

/// The forwarded URL is the target URL, followed, when the incoming request
/// has a query, by `?` and that query unchanged.
pub proof fn lemma_query_kept(target: Seq<char>, query: Option<Seq<char>>)
    ensures
        query is None ==> forward_text(target, query) == target,
        query is Some ==> forward_text(target, query).len() == target.len() + 1 + query->0.len()
            && target.is_prefix_of(forward_text(target, query)) && forward_text(target, query)[target.len() as int]
            == '?' && query->0.is_suffix_of(forward_text(target, query)),
{
    reveal_strlit("?");
    if query is Some {
        let f = forward_text(target, query);
        assert(f.subrange(0, target.len() as int) =~= target);
        assert(f.subrange(f.len() - query->0.len(), f.len() as int) =~= query->0);
    }
}

} // verus!
