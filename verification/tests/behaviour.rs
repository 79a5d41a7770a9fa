use rust_proxy::config::{
    Args, Config, LoggingConfig, RouteConfig, ServerConfig, TokenValidationConfig,
};
use rust_proxy::error::ProxyError;
use rust_proxy::proxy::{forward_url, prepare_forward};
use rust_proxy::text::decimal_text;
use rust_proxy::router::{join_target_url, match_route, Router};
use rust_proxy::simple_test::SimpleRouter;
use rust_proxy::token_validator::{BearerTokenValidator, RequestAuth, TokenValidator, ValidationEvent};

fn route(path: &str, target: &str) -> RouteConfig {
    RouteConfig { path: path.to_string(), target: target.to_string(), token_validation: None }
}

fn guarded(path: &str, target: &str, verified: &[&str], qualified: &[&str]) -> RouteConfig {
    RouteConfig {
        path: path.to_string(),
        target: target.to_string(),
        token_validation: Some(TokenValidationConfig {
            verified_token: verified.iter().map(|s| s.to_string()).collect(),
            qualified_token: qualified.iter().map(|s| s.to_string()).collect(),
        }),
    }
}

fn config_with(routes: Vec<RouteConfig>) -> Config {
    Config {
        server: ServerConfig { port: 8888, bind: "0.0.0.0".to_string(), timeout: 10 },
        logging: LoggingConfig { access_log: true, debug: false },
        routes,
    }
}

fn no_args() -> Args {
    Args { config: "config.yaml".to_string(), port: None, bind: None, debug: false, timeout: None }
}

#[test]
fn wildcard_strips_only_the_prefix() {
    assert_eq!(match_route("/api/*", "/api/users/123"), Some("/users/123".to_string()));
    assert_eq!(match_route("/api/*", "/api"), Some("".to_string()));
    assert_eq!(match_route("/api/*", "/apiary"), Some("ary".to_string()));
    assert_eq!(match_route("/api/*", "/other"), None);
}

#[test]
fn exact_pattern_matches_only_itself() {
    assert_eq!(match_route("/health", "/health"), Some("".to_string()));
    assert_eq!(match_route("/health", "/health/x"), None);
    assert_eq!(match_route("/health", "/heal"), None);
}

#[test]
fn target_joined_by_one_slash() {
    assert_eq!(join_target_url("https://a.example.com", "/x"), "https://a.example.com/x");
    assert_eq!(join_target_url("https://a.example.com", "x"), "https://a.example.com/x");
    assert_eq!(join_target_url("https://a.example.com/", "/x"), "https://a.example.com/x");
    assert_eq!(join_target_url("https://a.example.com/", ""), "https://a.example.com");
    assert_eq!(join_target_url("https://a.example.com//", ""), "https://a.example.com/");
}

#[test]
fn prefix_without_slash_boundary_still_matches() {
    let router = Router::new(&config_with(vec![route("/api/*", "https://backend.example.com")])).unwrap();
    let (target, url) = router.find_route("/apiary").unwrap();
    assert_eq!(target, "https://backend.example.com");
    assert_eq!(url, "https://backend.example.com/ary");
}

#[test]
fn first_matching_route_wins() {
    let router = Router::new(&config_with(vec![
        route("/api/v1/*", "https://one.example.com"),
        route("/api/*", "https://two.example.com"),
    ]))
    .unwrap();
    assert_eq!(router.find_route("/api/v1/x").unwrap().1, "https://one.example.com/x");
    assert_eq!(router.find_route("/api/v2/x").unwrap().1, "https://two.example.com/v2/x");
}

#[test]
fn unmatched_path_gives_route_error_message() {
    let router = Router::new(&config_with(vec![route("/api/*", "https://b.example.com")])).unwrap();
    match router.find_route("/unknown") {
        Err(ProxyError::RouteError(m)) => assert_eq!(m, "No route found for path: /unknown"),
        other => panic!("unexpected {:?}", other),
    }
}

#[test]
fn unparsable_target_gives_url_error() {
    let router = Router::new(&config_with(vec![route("/x/*", "not a url")])).unwrap();
    match router.find_route("/x/y") {
        Err(ProxyError::UrlParseError(e)) => {
            assert_eq!(e, url::ParseError::RelativeUrlWithoutBase)
        }
        other => panic!("unexpected {:?}", other),
    }
}

#[test]
fn empty_qualified_tokens_refused() {
    let r = Router::new(&config_with(vec![guarded("/a/*", "https://a.example.com", &["t1"], &[])]));
    match r {
        Err(ProxyError::ConfigError(m)) => assert_eq!(m, "qualified_token cannot be empty"),
        _ => panic!("expected a configuration error"),
    }
}

#[test]
fn empty_verified_tokens_refused() {
    let r = Router::new(&config_with(vec![
        route("/b/*", "https://b.example.com"),
        guarded("/a/*", "https://a.example.com", &[], &["q"]),
    ]));
    match r {
        Err(ProxyError::ConfigError(m)) => assert_eq!(m, "verified_token cannot be empty"),
        _ => panic!("expected a configuration error"),
    }
}

#[test]
fn later_rules_for_same_path_replace_earlier() {
    let mut router = Router::new(&config_with(vec![
        guarded("/a/*", "https://a.example.com", &["old"], &["q1"]),
        guarded("/a/*", "https://b.example.com", &["new"], &["q2"]),
    ]))
    .unwrap();
    let mut old_token = RequestAuth { authorization: Some(b"Bearer old".to_vec()), event: None };
    assert!(matches!(
        router.find_route_and_validate("/a/x", &mut old_token),
        Err(ProxyError::Unauthorized(_))
    ));
    let mut new_token = RequestAuth { authorization: Some(b"Bearer new".to_vec()), event: None };
    let (target, url) = router.find_route_and_validate("/a/x", &mut new_token).unwrap();
    assert_eq!(target, "https://a.example.com");
    assert_eq!(url, "https://a.example.com/x");
    assert_eq!(new_token.authorization, Some(b"Bearer q2".to_vec()));
}

#[test]
fn refused_request_is_left_unchanged() {
    let mut router = Router::new(&config_with(vec![guarded(
        "/a/*",
        "https://a.example.com",
        &["t1"],
        &["q"],
    )]))
    .unwrap();
    let mut request = RequestAuth { authorization: Some(b"Bearer nope".to_vec()), event: None };
    let r = router.find_route_and_validate("/a/x", &mut request);
    match r {
        Err(ProxyError::Unauthorized(m)) => assert_eq!(m, "Invalid token"),
        _ => panic!("expected refusal"),
    }
    assert_eq!(request.authorization, Some(b"Bearer nope".to_vec()));
}

fn validator(verified: &[&str], qualified: &[&str]) -> BearerTokenValidator {
    let config = TokenValidationConfig {
        verified_token: verified.iter().map(|s| s.to_string()).collect(),
        qualified_token: qualified.iter().map(|s| s.to_string()).collect(),
    };
    BearerTokenValidator::new(&config, "/api/test".to_string()).unwrap()
}

fn refusal(v: &mut BearerTokenValidator, header: Option<&[u8]>) -> String {
    let mut request = RequestAuth { authorization: header.map(|h| h.to_vec()), event: None };
    match v.validate(&mut request) {
        Err(ProxyError::Unauthorized(m)) => m,
        other => panic!("unexpected {:?}", other),
    }
}

#[test]
fn each_refusal_has_its_message() {
    let mut v = validator(&["token01"], &["token03"]);
    assert_eq!(refusal(&mut v, None), "Missing Authorization header");
    assert_eq!(refusal(&mut v, Some(b"Bearer tok\x01en")), "Invalid Authorization header");
    assert_eq!(refusal(&mut v, Some(b"Bearer t\xc3\xa9")), "Invalid Authorization header");
    assert_eq!(refusal(&mut v, Some(b"bearer token01")), "Invalid Bearer token format");
    assert_eq!(refusal(&mut v, Some(b"Bearer")), "Invalid Bearer token format");
    assert_eq!(refusal(&mut v, Some(b"Bearer token0")), "Invalid token");
    assert_eq!(refusal(&mut v, Some(b"Bearer  token01")), "Invalid token");
    assert_eq!(v.get_success_count(), 0);
}

#[test]
fn replacement_that_is_no_header_value_is_internal_error() {
    let mut v = validator(&["token01"], &["bad\ntoken"]);
    let mut request = RequestAuth { authorization: Some(b"Bearer token01".to_vec()), event: None };
    match v.validate(&mut request) {
        Err(ProxyError::InternalError(m)) => assert_eq!(m, "Failed to create new auth header"),
        other => panic!("unexpected {:?}", other),
    }
    assert_eq!(request.authorization, Some(b"Bearer token01".to_vec()));
    assert_eq!(v.get_success_count(), 0);
}

#[test]
fn non_ascii_replacement_is_written_as_utf8() {
    let mut v = validator(&["token01"], &["é"]);
    let mut request = RequestAuth { authorization: Some(b"Bearer token01".to_vec()), event: None };
    assert!(v.validate(&mut request).is_ok());
    assert_eq!(request.authorization, Some(b"Bearer \xc3\xa9".to_vec()));
}

#[test]
fn successes_are_counted() {
    let mut v = validator(&["a", "b"], &["q"]);
    for header in [&b"Bearer a"[..], &b"Bearer b"[..], &b"Bearer x"[..], &b"Bearer a"[..]] {
        let mut request = RequestAuth { authorization: Some(header.to_vec()), event: None };
        let _ = v.validate(&mut request);
    }
    assert_eq!(v.get_success_count(), 3);
    assert_eq!(v.route_path(), "/api/test");
}

#[test]
fn error_statuses() {
    assert_eq!(ProxyError::RouteError("x".to_string()).response_parts(), (404, "Route not found"));
    assert_eq!(ProxyError::TimeoutError.response_parts(), (504, "Request timeout"));
    assert_eq!(ProxyError::NetworkError("x".to_string()).response_parts(), (502, "Network error"));
    assert_eq!(ProxyError::HttpError("x".to_string()).response_parts(), (400, "HTTP error"));
    let upstream = ProxyError::HyperError(hyper_error());
    assert_eq!(upstream.response_parts(), (502, "Network error"));
    assert_eq!(
        ProxyError::Unauthorized("x".to_string()).response_parts(),
        (500, "Internal server error")
    );
    assert_eq!(
        ProxyError::ConfigError("x".to_string()).response_parts(),
        (500, "Internal server error")
    );
}

#[test]
fn error_messages() {
    assert_eq!(ProxyError::ConfigError("bad".to_string()).message(), "Configuration error: bad");
    assert_eq!(ProxyError::TimeoutError.message(), "Timeout error");
    assert_eq!(ProxyError::RouteError("r".to_string()).message(), "Route error: r");
    assert_eq!(
        ProxyError::UrlParseError(url::ParseError::EmptyHost).message(),
        "URL parse error: empty host"
    );
    assert_eq!(
        ProxyError::InternalError("i".to_string()).message(),
        "Internal server error: i"
    );
    let io = std::io::Error::new(std::io::ErrorKind::Other, "boom");
    assert_eq!(ProxyError::IoError(io).message(), "IO error: boom");
}

#[test]
fn default_configuration() {
    let c = Config::default();
    assert_eq!(c.server.port, 8888);
    assert_eq!(c.server.bind, "0.0.0.0");
    assert_eq!(c.server.timeout, 10);
    assert!(c.logging.access_log);
    assert!(!c.logging.debug);
    assert!(c.routes.is_empty());
    assert_eq!(c.get_timeout(), std::time::Duration::from_secs(10));
}

#[test]
fn command_line_overrides_file() {
    let mut file = config_with(vec![route("/api/*", "https://b.example.com")]);
    file.server.timeout = 30;
    let args = Args {
        config: "c.yaml".to_string(),
        port: Some(9000),
        bind: Some("127.0.0.1".to_string()),
        debug: true,
        timeout: None,
    };
    let c = Config::resolve(Some(file), &args);
    assert_eq!(c.server.port, 9000);
    assert_eq!(c.server.bind, "127.0.0.1");
    assert_eq!(c.server.timeout, 30);
    assert!(c.logging.debug);
    assert_eq!(c.routes.len(), 1);
    assert_eq!(c.get_timeout(), std::time::Duration::from_secs(30));
}

#[test]
fn defaults_used_without_file() {
    let args = Args { timeout: Some(3), ..no_args() };
    let c = Config::resolve(None, &args);
    assert_eq!(c.server.port, 8888);
    assert_eq!(c.server.bind, "0.0.0.0");
    assert_eq!(c.server.timeout, 3);
    assert!(!c.logging.debug);
}

#[test]
fn query_is_kept() {
    assert_eq!(forward_url("https://b.example.com/x", Some("a=1&b=2")), "https://b.example.com/x?a=1&b=2");
    assert_eq!(forward_url("https://b.example.com/x", None), "https://b.example.com/x");
    assert_eq!(forward_url("https://b.example.com/x", Some("")), "https://b.example.com/x?");
}

#[test]
fn forward_host_header() {
    let f = prepare_forward("http://localhost:8080/x", Some("q=1")).unwrap();
    assert_eq!(f.host, Some("localhost:8080".to_string()));
    assert_eq!(f.uri.to_string(), "http://localhost:8080/x?q=1");
    let g = prepare_forward("https://backend.example.com/users/123", None).unwrap();
    assert_eq!(g.host, Some("backend.example.com".to_string()));
    let h = prepare_forward("/relative/path", None).unwrap();
    assert_eq!(h.host, None);
}

#[test]
fn unparsable_forward_uri() {
    match prepare_forward("http://exa mple.com", None) {
        Err(ProxyError::InternalError(m)) => assert!(m.starts_with("URI parse error: ")),
        _ => panic!("expected an internal error"),
    }
}

#[test]
fn port_numbers_in_decimal() {
    assert_eq!(decimal_text(0), "0");
    assert_eq!(decimal_text(7), "7");
    assert_eq!(decimal_text(80), "80");
    assert_eq!(decimal_text(65535), "65535");
}

#[test]
fn demonstration_router() {
    let router = SimpleRouter::new();
    assert_eq!(router.find_route("/api/users/123"), Some("https://backend.example.com/users/123".to_string()));
    assert_eq!(router.find_route("/api/posts/456"), Some("https://backend.example.com/posts/456".to_string()));
    assert_eq!(
        router.find_route("/static/images/logo.png"),
        Some("https://cdn.example.com/images/logo.png".to_string())
    );
    assert_eq!(router.find_route("/static/css/style.css"), Some("https://cdn.example.com/css/style.css".to_string()));
    assert_eq!(router.find_route("/health"), Some("https://health.example.com".to_string()));
    assert_eq!(router.find_route("/unknown"), None);
    assert_eq!(router.matches_route("/x/*", "/x/y"), Some("/y".to_string()));
    assert_eq!(router.build_target_url("https://h/", "y"), "https://h/y");
}

#[test]
fn conversions_into_proxy_error() {
    assert!(matches!(
        ProxyError::from(url::ParseError::EmptyHost),
        ProxyError::UrlParseError(url::ParseError::EmptyHost)
    ));
    let io = std::io::Error::new(std::io::ErrorKind::Other, "x");
    assert!(matches!(ProxyError::from(io), ProxyError::IoError(_)));
}

/// A `hyper::Error` from a failed upstream exchange: a request to a port that
/// nothing listens on.
fn hyper_error() -> hyper::Error {
    let rt = tokio::runtime::Builder::new_current_thread().enable_all().build().unwrap();
    rt.block_on(async {
        let listener = tokio::net::TcpListener::bind("127.0.0.1:0").await.unwrap();
        let addr = listener.local_addr().unwrap();
        drop(listener);
        let client = hyper::Client::new();
        let uri: hyper::Uri = format!("http://{}/", addr).parse().unwrap();
        client.get(uri).await.unwrap_err()
    })
}

fn log_text(event: &ValidationEvent) -> String {
    String::from_utf8(event.log_message()).unwrap()
}

#[test]
fn validation_log_lines() {
    let mut v = validator(&["token01", "longtoken_abcdef"], &["token03"]);

    let mut missing = RequestAuth { authorization: None, event: None };
    let _ = v.validate(&mut missing);
    let e = missing.event.unwrap();
    assert_eq!(e.level(), "ERROR");
    assert_eq!(log_text(&e), "Token validation error: path=/api/test, reason=missing_authorization_header");

    let mut control = RequestAuth { authorization: Some(b"Bearer \x01".to_vec()), event: None };
    let _ = v.validate(&mut control);
    assert_eq!(
        log_text(&control.event.unwrap()),
        "Token validation error: path=/api/test, reason=invalid_authorization_header"
    );

    let mut basic = RequestAuth { authorization: Some(b"Basic abc".to_vec()), event: None };
    let _ = v.validate(&mut basic);
    assert_eq!(
        log_text(&basic.event.unwrap()),
        "Token validation error: path=/api/test, reason=invalid_bearer_format"
    );

    let mut wrong = RequestAuth { authorization: Some(b"Bearer invalid_token".to_vec()), event: None };
    let _ = v.validate(&mut wrong);
    let e = wrong.event.unwrap();
    assert_eq!(e.level(), "WARN");
    assert_eq!(
        log_text(&e),
        "Token validation failed: path=/api/test, token=inv***ken, reason=not_in_whitelist"
    );

    let mut short = RequestAuth { authorization: Some(b"Bearer abc".to_vec()), event: None };
    let _ = v.validate(&mut short);
    assert_eq!(
        log_text(&short.event.unwrap()),
        "Token validation failed: path=/api/test, token=***, reason=not_in_whitelist"
    );

    let mut good = RequestAuth { authorization: Some(b"Bearer token01".to_vec()), event: None };
    assert!(v.validate(&mut good).is_ok());
    let e = good.event.unwrap();
    assert_eq!(e.level(), "INFO");
    assert!(e.can_render());
    assert_eq!(
        log_text(&e),
        "Token validation success: path=/api/test, token=tok***n01\u{27f6}tok***n03, count=1"
    );

    let mut long = RequestAuth { authorization: Some(b"Bearer longtoken_abcdef".to_vec()), event: None };
    assert!(v.validate(&mut long).is_ok());
    assert_eq!(
        log_text(&long.event.unwrap()),
        "Token validation success: path=/api/test, token=lon***def\u{27f6}tok***n03, count=2"
    );
}

#[test]
fn unbuildable_header_reports_nothing() {
    let mut v = validator(&["token01"], &["bad\ntoken"]);
    let mut request = RequestAuth { authorization: Some(b"Bearer token01".to_vec()), event: None };
    assert!(v.validate(&mut request).is_err());
    assert!(request.event.is_none());
}

#[test]
fn replacement_cut_inside_a_character_cannot_be_logged() {
    let mut v = validator(&["token01"], &["ab\u{e9}cdefg"]);
    let mut request = RequestAuth { authorization: Some(b"Bearer token01".to_vec()), event: None };
    assert!(v.validate(&mut request).is_ok());
    assert!(!request.event.unwrap().can_render());
}

#[test]
fn count_is_number_of_successes() {
    let mut v = validator(&["a"], &["q"]);
    let headers: [&[u8]; 6] = [b"Bearer a", b"Bearer b", b"Bearer a", b"Basic a", b"Bearer a", b"Bearer"];
    let mut expected = 0u64;
    for h in headers {
        let mut request = RequestAuth { authorization: Some(h.to_vec()), event: None };
        if v.validate(&mut request).is_ok() {
            expected += 1;
        }
        assert_eq!(v.get_success_count(), expected);
    }
    assert_eq!(expected, 3);
}

#[test]
fn full_and_demonstration_matchers_agree() {
    let full = Router::new(&config_with(vec![
        route("/api/*", "https://backend.example.com"),
        route("/static/*", "https://cdn.example.com"),
        route("/health", "https://health.example.com"),
    ]))
    .unwrap();
    let demo = SimpleRouter::new();
    for (p, q) in [("/api/*", "/api/x"), ("/api/*", "/apix"), ("/health", "/health"), ("/health", "/x")] {
        assert_eq!(full.matches_route(p, q), demo.matches_route(p, q));
    }
    for path in ["/api/users/123", "/static/images/logo.png", "/health", "/unknown"] {
        let f = full.find_route(path).ok().map(|(_, u)| u);
        assert_eq!(f, demo.find_route(path));
    }
    assert_eq!(
        full.build_target_url("https://h.example.com/", "y").unwrap(),
        demo.build_target_url("https://h.example.com/", "y")
    );
    assert!(matches!(
        full.build_target_url("nope", "y"),
        Err(ProxyError::UrlParseError(url::ParseError::RelativeUrlWithoutBase))
    ));
}

#[test]
fn matched_route_and_validation_need() {
    let router = Router::new(&config_with(vec![
        guarded("/a/*", "https://a.example.com", &["t"], &["q"]),
        route("/b/*", "https://b.example.com"),
    ]))
    .unwrap();
    assert_eq!(
        router.matched_route("/a/x"),
        Some(("/a/*".to_string(), "https://a.example.com".to_string()))
    );
    assert_eq!(router.matched_route("/c"), None);
    assert!(router.needs_validation("/a/x"));
    assert!(!router.needs_validation("/b/x"));
    assert!(!router.needs_validation("/c"));
}

#[test]
fn guarded_routing_is_validation_then_routing() {
    let config = config_with(vec![
        guarded("/a/*", "https://a.example.com", &["t"], &["q"]),
        route("/a/*", "https://later.example.com"),
        route("/b/*", "https://b.example.com"),
    ]);
    let mut router = Router::new(&config).unwrap();
    let plain = router.find_route("/a/x").unwrap();

    let mut refused = RequestAuth { authorization: Some(b"Bearer no".to_vec()), event: None };
    assert!(matches!(
        router.find_route_and_validate("/a/x", &mut refused),
        Err(ProxyError::Unauthorized(m)) if m == "Invalid token"
    ));

    let mut accepted = RequestAuth { authorization: Some(b"Bearer t".to_vec()), event: None };
    assert_eq!(router.find_route_and_validate("/a/x", &mut accepted).unwrap(), plain);

    let mut unguarded = RequestAuth { authorization: Some(b"anything".to_vec()), event: None };
    assert_eq!(
        router.find_route_and_validate("/b/y", &mut unguarded).unwrap(),
        router.find_route("/b/y").unwrap()
    );
    assert_eq!(unguarded.authorization, Some(b"anything".to_vec()));
    assert!(unguarded.event.is_none());
}
