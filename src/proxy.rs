//! Forwarding targets for proxied clients.
use vstd::prelude::*;
use crate::ip::IpAddress;

verus! {

/// A client address and where its requests are forwarded.
#[derive(Clone, Debug)]
pub struct ProxyEndpoint {
    pub forward_url: String,
    pub forward_replace: Option<String>,
    pub client_ip: IpAddress,
}

#[derive(Clone, Debug)]
pub struct ProxyOptions {
    pub proxies: Vec<ProxyEndpoint>,
}

impl Default for ProxyOptions {
    fn default() -> (r: ProxyOptions)
        ensures
            r.proxies@.len() == 0,
    {
        ProxyOptions { proxies: Vec::new() }
    }
}

} // verus!
