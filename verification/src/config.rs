use vstd::prelude::*;

verus! {

/// Configuration for the forward proxy: where to listen locally and
/// which authenticating upstream proxy to relay through.
#[derive(Debug, Clone)]
pub struct ProxyConfig {
    /// Local host to bind to
    pub local_host: String,
    /// Local port to bind to
    pub local_port: u16,
    /// Upstream proxy host
    pub proxy_host: String,
    /// Upstream proxy port
    pub proxy_port: u16,
    /// Upstream proxy username
    pub proxy_user: String,
    /// Upstream proxy password
    pub proxy_password: String,
}

impl ProxyConfig {
    /// Create a new proxy configuration holding exactly the given values.
    pub fn new(
        local_host: String,
        local_port: u16,
        proxy_host: String,
        proxy_port: u16,
        proxy_user: String,
        proxy_password: String,
    ) -> (c: ProxyConfig)
        ensures
            c.local_host@ == local_host@,
            c.local_port == local_port,
            c.proxy_host@ == proxy_host@,
            c.proxy_port == proxy_port,
            c.proxy_user@ == proxy_user@,
            c.proxy_password@ == proxy_password@,
    {
        ProxyConfig {
            local_host,
            local_port,
            proxy_host,
            proxy_port,
            proxy_user,
            proxy_password,
        }
    }
}

} // verus!
