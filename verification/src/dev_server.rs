//! Settings of the development server.

use vstd::prelude::*;
use vstd::string::*;

verus! {

/// Development server configuration
#[derive(Debug, Clone)]
pub struct DevServerConfig {
    pub port: u16,
    pub watch_patterns: Vec<String>,
}

impl Default for DevServerConfig {
    /// Port 8080, watching the sources and the assets.
    fn default() -> (r: Self)
        ensures
            r.port == 8080,
            r.watch_patterns@.len() == 2,
            r.watch_patterns@[0]@ == "src/**/*.rs"@,
            r.watch_patterns@[1]@ == "assets/**/*"@,
    {
        let mut watch_patterns: Vec<String> = Vec::new();
        watch_patterns.push(String::from_str("src/**/*.rs"));
        watch_patterns.push(String::from_str("assets/**/*"));
        DevServerConfig { port: 8080, watch_patterns }
    }
}

/// Development server
#[derive(Debug, Clone)]
pub struct DevServer {
    config: DevServerConfig,
}

impl DevServer {
    /// The settings that the server was made with.
    pub closed spec fn settings(&self) -> DevServerConfig {
        self.config
    }

    /// A development server with the settings `config`.
    pub fn new(config: DevServerConfig) -> (r: Self)
        ensures
            r.settings() == config,
    {
        DevServer { config }
    }

    /// The settings of this server.
    pub fn config(&self) -> (r: &DevServerConfig)
        ensures
            *r == self.settings(),
    {
        &self.config
    }
}

} // verus!
