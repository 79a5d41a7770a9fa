use vstd::prelude::*;

verus! {

/// Clones a list of strings; the copy holds the same texts in the same order.
pub fn clone_strings(v: &Vec<String>) -> (r: Vec<String>)
    ensures
        r@ == v@,
{
    let mut r: Vec<String> = Vec::new();
    let mut i: usize = 0;
    while i < v.len()
        invariant
            i <= v.len(),
            r@ == v@.subrange(0, i as int),
        decreases v.len() - i,
    {
        r.push(v[i].clone());
        i = i + 1;
    }
    assert(r@ =~= v@);
    r
}

/// The whole configuration of the proxy.
#[derive(Debug)]
pub struct Config {
    pub server: ServerConfig,
    pub logging: LoggingConfig,
    pub routes: Vec<RouteConfig>,
}

/// Where and how the proxy listens.
#[derive(Debug)]
pub struct ServerConfig {
    pub port: u16,
    pub bind: String,
    /// Timeout of a forwarded request, in seconds.
    pub timeout: u64,
}

/// Which log lines the proxy writes.
#[derive(Debug, Clone, Copy)]
pub struct LoggingConfig {
    pub access_log: bool,
    pub debug: bool,
}

/// One routing rule: a path pattern (`/api/*` or an exact path) and the base
/// URL that matching requests are forwarded to.
#[derive(Debug)]
pub struct RouteConfig {
    pub path: String,
    pub target: String,
    pub token_validation: Option<TokenValidationConfig>,
}

/// Bearer tokens a route accepts (`verified_token`) and the token that
/// replaces an accepted one before forwarding (the first `qualified_token`).
#[derive(Debug)]
pub struct TokenValidationConfig {
    pub verified_token: Vec<String>,
    pub qualified_token: Vec<String>,
}

/// Command-line options; each one that is given overrides the file.
#[derive(Debug)]
pub struct Args {
    pub config: String,
    pub port: Option<u16>,
    pub bind: Option<String>,
    pub debug: bool,
    pub timeout: Option<u64>,
}

/// The texts of a list of strings.
pub open spec fn texts(v: Seq<String>) -> Seq<Seq<char>> {
    v.map_values(|s: String| s@)
}

/// What a token rule says: the accepted tokens and the replacement tokens.
pub struct TokenRules {
    pub verified: Seq<Seq<char>>,
    pub qualified: Seq<Seq<char>>,
}

impl View for TokenValidationConfig {
    type V = TokenRules;

    open spec fn view(&self) -> TokenRules {
        TokenRules { verified: texts(self.verified_token@), qualified: texts(self.qualified_token@) }
    }
}

/// What a routing rule says.
pub struct RouteRule {
    pub path: Seq<char>,
    pub target: Seq<char>,
    pub tokens: Option<TokenRules>,
}

impl View for RouteConfig {
    type V = RouteRule;

    open spec fn view(&self) -> RouteRule {
        RouteRule {
            path: self.path@,
            target: self.target@,
            tokens: match self.token_validation {
                Some(t) => Some(t@),
                None => None,
            },
        }
    }
}

/// The rules of a list of routes, in order.
pub open spec fn rules(routes: Seq<RouteConfig>) -> Seq<RouteRule> {
    routes.map_values(|r: RouteConfig| r@)
}

impl Clone for ServerConfig {
    fn clone(&self) -> (r: Self)
        ensures
            r == *self,
    {
        ServerConfig { port: self.port, bind: self.bind.clone(), timeout: self.timeout }
    }
}

/// Copies a list of routes.
pub fn clone_routes(routes: &Vec<RouteConfig>) -> (r: Vec<RouteConfig>)
    ensures
        rules(r@) == rules(routes@),
{
    let mut r: Vec<RouteConfig> = Vec::new();
    let mut i: usize = 0;
    while i < routes.len()
        invariant
            i <= routes.len(),
            r@.len() == i,
            forall|k: int| 0 <= k < i ==> #[trigger] r@[k]@ == routes@[k]@,
        decreases routes.len() - i,
    {
        r.push(routes[i].clone());
        i = i + 1;
    }
    assert(rules(r@) =~= rules(routes@));
    r
}

impl Clone for Config {
    fn clone(&self) -> (r: Self)
        ensures
            r.server == self.server,
            r.logging == self.logging,
            rules(r.routes@) == rules(self.routes@),
    {
        Config {
            server: self.server.clone(),
            logging: self.logging,
            routes: clone_routes(&self.routes),
        }
    }
}

impl Clone for TokenValidationConfig {
    fn clone(&self) -> (r: Self)
        ensures
            r@ == self@,
    {
        let verified_token = clone_strings(&self.verified_token);
        let qualified_token = clone_strings(&self.qualified_token);
        TokenValidationConfig { verified_token, qualified_token }
    }
}

impl Clone for RouteConfig {
    fn clone(&self) -> (r: Self)
        ensures
            r@ == self@,
    {
        let token_validation = match &self.token_validation {
            Some(t) => Some(t.clone()),
            None => None,
        };
        RouteConfig { path: self.path.clone(), target: self.target.clone(), token_validation }
    }
}

/// `r` is `c` with each command-line option that was given put in place of
/// the file's value; `--debug` can only turn debugging on.
pub open spec fn overridden(c: Config, args: Args, r: Config) -> bool {
    &&& r.server.port == match args.port {
        Some(p) => p,
        None => c.server.port,
    }
    &&& r.server.bind@ == match args.bind {
        Some(b) => b@,
        None => c.server.bind@,
    }
    &&& r.server.timeout == match args.timeout {
        Some(t) => t,
        None => c.server.timeout,
    }
    &&& r.logging.debug == (c.logging.debug || args.debug)
    &&& r.logging.access_log == c.logging.access_log
    &&& r.routes == c.routes
}

/// `r` is the default configuration with the command-line options put in place.
pub open spec fn overridden_default(args: Args, r: Config) -> bool {
    &&& r.server.port == match args.port {
        Some(p) => p,
        None => 8888u16,
    }
    &&& r.server.bind@ == match args.bind {
        Some(b) => b@,
        None => "0.0.0.0"@,
    }
    &&& r.server.timeout == match args.timeout {
        Some(t) => t,
        None => 10u64,
    }
    &&& r.logging.debug == args.debug
    &&& r.logging.access_log
    &&& r.routes@.len() == 0
}

/// Names the `Duration` that `std::time::Duration::from_secs` returns for a
/// number of seconds.
pub uninterp spec fn duration_of_secs(secs: u64) -> std::time::Duration;

/// Calls `std::time::Duration::from_secs`; its contract claims only that the
/// result depends on the number of seconds alone (it is that many whole seconds).
#[verifier::external_body]
fn duration_from_secs(secs: u64) -> (d: std::time::Duration)
    ensures
        d == duration_of_secs(secs),
{
    std::time::Duration::from_secs(secs)
}

impl Default for Config {
    /// Port 8888 on every interface, a 10 second timeout, access log on,
    /// debug log off, no routes.
    fn default() -> (r: Self)
        ensures
            r.server.port == 8888,
            r.server.bind@ == "0.0.0.0"@,
            r.server.timeout == 10,
            r.logging.access_log,
            !r.logging.debug,
            r.routes@.len() == 0,
    {
        Config {
            server: ServerConfig { port: 8888, bind: String::from_str("0.0.0.0"), timeout: 10 },
            logging: LoggingConfig { access_log: true, debug: false },
            routes: Vec::new(),
        }
    }
}

impl Config {
    /// The timeout of a forwarded request.
    pub fn get_timeout(&self) -> (d: std::time::Duration)
        ensures
            d == duration_of_secs(self.server.timeout),
    {
        duration_from_secs(self.server.timeout)
    }

    /// This configuration with every command-line option that was given put in
    /// place of the file's value; `--debug` can only turn debugging on.
    pub fn with_overrides(self, args: &Args) -> (r: Config)
        ensures
            overridden(self, *args, r),
    {
        let mut config = self;
        if let Some(port) = args.port {
            config.server.port = port;
        }
        if let Some(bind) = &args.bind {
            config.server.bind = bind.clone();
        }
        if let Some(timeout) = args.timeout {
            config.server.timeout = timeout;
        }
        if args.debug {
            config.logging.debug = true;
        }
        config
    }

    /// The configuration the proxy runs with: the one read from the file, or
    /// the default one when there is no file, with the command-line options
    /// put in place.
    pub fn resolve(from_file: Option<Config>, args: &Args) -> (r: Config)
        ensures
            match from_file {
                Some(c) => overridden(c, *args, r),
                None => overridden_default(*args, r),
            },
    {
        let base = match from_file {
            Some(c) => c,
            None => Config::default(),
        };
        base.with_overrides(args)
    }
}

} // verus!
