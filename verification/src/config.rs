//! The configuration as it is loaded: the server's address and the list of
//! webhooks, before any of it is validated.

use std::sync::Arc;
use vstd::prelude::*;

verus! {

/// Where the relay listens.
#[derive(Clone, Debug)]
pub struct ServerConfig {
    pub port: String,
    pub host: String,
}

/// One webhook as configured. `logging` may be left out, which means off.
#[derive(Clone, Debug)]
pub struct WebhookConfig {
    pub name: String,
    pub path: String,
    pub url: String,
    pub logging: Option<bool>,
}

/// The whole configuration. The webhooks keep the order in which they were
/// written.
#[derive(Clone, Debug)]
pub struct Config {
    pub server: ServerConfig,
    pub discord: Vec<WebhookConfig>,
}

impl ServerConfig {
    /// The address to listen on: the host, a colon, the port.
    pub fn address(&self) -> (r: String)
        ensures
            r@ == self.host@ + ":"@ + self.port@,
    {
        self.host.clone().concat(":").concat(self.port.as_str())
    }
}

impl WebhookConfig {
    /// Whether requests to this webhook are to be recorded: the configured
    /// value, or off where none was given.
    pub open spec fn logging_enabled(&self) -> bool {
        match self.logging {
            Some(on) => on,
            None => false,
        }
    }

    /// Whether requests to this webhook are to be recorded.
    pub fn wants_logging(&self) -> (r: bool)
        ensures
            r == self.logging_enabled(),
    {
        match self.logging {
            Some(on) => on,
            None => false,
        }
    }
}

impl Config {
    /// Puts the configuration behind a shared pointer, unchanged, so that every
    /// request handler can read it.
    pub fn shared(self) -> (r: Arc<Self>)
        ensures
            *r == self,
    {
        Arc::new(self)
    }
}

} // verus!
