//! The client and its configuration.

use vstd::prelude::*;

verus! {

/// What a request takes from the client's configuration.
#[derive(Clone, Debug)]
pub struct Config {
    /// The address of the API, without a final slash.
    pub base_path: String,
    /// The value of the `User-Agent` header, where one is sent.
    pub user_agent: Option<String>,
    /// The bearer token, where requests are authorized with one.
    pub bearer_access_token: Option<String>,
}

/// Client for the Terminal API.
pub struct Client {
    config: Config,
}

impl Client {
    /// The configuration that the client holds.
    pub closed spec fn config(&self) -> Config {
        self.config
    }

    /// Create a new client with the given configuration.
    pub fn new(config: Config) -> (r: Client)
        ensures
            r.config() == config,
    {
        Client { config }
    }

    /// Get the configuration for the client.
    pub fn get_config(&self) -> (r: &Config)
        ensures
            *r == self.config(),
    {
        &self.config
    }
}

} // verus!
