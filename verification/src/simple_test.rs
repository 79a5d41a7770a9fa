use vstd::prelude::*;

use crate::config::RouteRule;
use crate::router::{
    first_route, join_target, join_target_url, match_route, opt_text, route_match, routed,
};

verus! {

broadcast use vstd::string::group_string_axioms;

/// A route of the fixed demonstration router: a pattern and a target.
pub struct RouteConfig {
    pub path: String,
    pub target: String,
}

/// The rule a demonstration route states (it never asks for tokens).
pub open spec fn simple_rule(r: RouteConfig) -> RouteRule {
    RouteRule { path: r.path@, target: r.target@, tokens: None }
}

/// A router over three fixed routes that builds target URLs without checking them.
pub struct SimpleRouter {
    routes: Vec<RouteConfig>,
}

impl View for SimpleRouter {
    type V = Seq<RouteRule>;

    closed spec fn view(&self) -> Seq<RouteRule> {
        self.routes@.map_values(|r: RouteConfig| simple_rule(r))
    }
}

/// The fixed routes of the demonstration router.
pub open spec fn demo_routes() -> Seq<RouteRule> {
    seq![
        RouteRule { path: "/api/*"@, target: "https://backend.example.com"@, tokens: None },
        RouteRule { path: "/static/*"@, target: "https://cdn.example.com"@, tokens: None },
        RouteRule { path: "/health"@, target: "https://health.example.com"@, tokens: None },
    ]
}

impl SimpleRouter {
    /// The router over `/api/*`, `/static/*` and `/health`.
    pub fn new() -> (r: Self)
        ensures
            r@ == demo_routes(),
    {
        let mut routes: Vec<RouteConfig> = Vec::new();
        routes.push(
            RouteConfig {
                path: String::from_str("/api/*"),
                target: String::from_str("https://backend.example.com"),
            },
        );
        routes.push(
            RouteConfig {
                path: String::from_str("/static/*"),
                target: String::from_str("https://cdn.example.com"),
            },
        );
        routes.push(
            RouteConfig {
                path: String::from_str("/health"),
                target: String::from_str("https://health.example.com"),
            },
        );
        let r = SimpleRouter { routes };
        assert(r@ =~= demo_routes());
        r
    }

    /// The target URL for `path` by the first matching route, if one matches.
    pub fn find_route(&self, path: &str) -> (r: Option<String>)
        ensures
            opt_text(r) == match routed(self@, path@) {
                Some((_, url)) => Some(url),
                None => None::<Seq<char>>,
            },
    {
        let mut i: usize = 0;
        while i < self.routes.len()
            invariant
                i <= self.routes.len(),
                first_route(self@, path@, 0) == first_route(self@, path@, i as int),
            decreases self.routes.len() - i,
        {
            let route = &self.routes[i];
            match self.matches_route(route.path.as_str(), path) {
                Some(remaining) => {
                    return Some(self.build_target_url(route.target.as_str(), remaining.as_str()));
                },
                None => {},
            }
            i = i + 1;
        }
        None
    }

    /// Matches a request path against one route pattern.
    pub fn matches_route(&self, route_pattern: &str, request_path: &str) -> (r: Option<String>)
        ensures
            opt_text(r) == route_match(route_pattern@, request_path@),
    {
        match_route(route_pattern, request_path)
    }

    /// Joins a target base URL and a remaining path.
    pub fn build_target_url(&self, target_base: &str, remaining_path: &str) -> (r: String)
        ensures
            r@ == join_target(target_base@, remaining_path@),
    {
        join_target_url(target_base, remaining_path)
    }
}

} // verus!
