//! Routing, configuration and bearer-token rules of an HTTP/HTTPS forwarding
//! proxy: which route a request path takes, which URL it is forwarded to,
//! which requests a route's token rules let pass and how they are rewritten,
//! and how a failure is answered.
pub mod config;
pub mod error;
pub mod intent;
pub mod laws;
pub mod proxy;
pub mod router;
pub mod simple_test;
pub mod text;
pub mod token_validator;
pub mod validation_log;

pub use config::Config;
pub use error::ProxyError;
pub use router::Router;
