//! Proxy configuration and state for SSH transports.
use vstd::prelude::*;

use crate::ssh::auth::clone_opt_string;

verus! {

/// The proxy a connection goes through, if any.
#[derive(Debug, PartialEq, Eq)]
pub enum ProxyConfig {
    Direct,
    Socks4 { address: String, username: Option<String> },
    Socks5 { address: String, username: Option<String>, password: Option<String> },
    HttpConnect { address: String, username: Option<String>, password: Option<String> },
}

/// Progress of a proxy hop.
#[derive(Debug, PartialEq, Eq)]
pub enum ProxyState {
    Disabled,
    Connecting { address: String },
    Connected { address: String },
    Failed { address: String, reason: String },
}

/// The proxy's address; `None` without a proxy.
pub open spec fn proxy_address(p: ProxyConfig) -> Option<Seq<char>> {
    match p {
        ProxyConfig::Direct => None,
        ProxyConfig::Socks4 { address, .. } => Some(address@),
        ProxyConfig::Socks5 { address, .. } => Some(address@),
        ProxyConfig::HttpConnect { address, .. } => Some(address@),
    }
}

pub open spec fn proxy_label(p: ProxyConfig) -> Seq<char> {
    match p {
        ProxyConfig::Direct => "none"@,
        ProxyConfig::Socks4 { .. } => "socks4"@,
        ProxyConfig::Socks5 { .. } => "socks5"@,
        ProxyConfig::HttpConnect { .. } => "http-connect"@,
    }
}

/// The state of the proxy hop once a fake transport is up: connected through
/// the proxy's address, or disabled without one.
pub open spec fn connected_proxy_state(p: ProxyConfig) -> ProxyState {
    match p {
        ProxyConfig::Direct => ProxyState::Disabled,
        ProxyConfig::Socks4 { address, .. } => ProxyState::Connected { address },
        ProxyConfig::Socks5 { address, .. } => ProxyState::Connected { address },
        ProxyConfig::HttpConnect { address, .. } => ProxyState::Connected { address },
    }
}

impl ProxyConfig {
    /// The proxy's address, if there is a proxy.
    pub fn address(&self) -> (a: Option<&str>)
        ensures
            match a {
                Some(s) => proxy_address(*self) == Some(s@),
                None => proxy_address(*self) is None,
            },
    {
        match self {
            ProxyConfig::Direct => None,
            ProxyConfig::Socks4 { address, .. } => Some(address.as_str()),
            ProxyConfig::Socks5 { address, .. } => Some(address.as_str()),
            ProxyConfig::HttpConnect { address, .. } => Some(address.as_str()),
        }
    }

    /// Short name shown in connection plans.
    pub fn label(&self) -> (s: &'static str)
        ensures
            s@ == proxy_label(*self),
    {
        match self {
            ProxyConfig::Direct => "none",
            ProxyConfig::Socks4 { .. } => "socks4",
            ProxyConfig::Socks5 { .. } => "socks5",
            ProxyConfig::HttpConnect { .. } => "http-connect",
        }
    }

    /// The proxy state a live fake transport reports.
    pub fn connected_state(&self) -> (s: ProxyState)
        ensures
            s == connected_proxy_state(*self),
    {
        match self {
            ProxyConfig::Direct => ProxyState::Disabled,
            ProxyConfig::Socks4 { address, .. } => ProxyState::Connected { address: address.clone() },
            ProxyConfig::Socks5 { address, .. } => ProxyState::Connected { address: address.clone() },
            ProxyConfig::HttpConnect { address, .. } => ProxyState::Connected {
                address: address.clone(),
            },
        }
    }
}

impl Default for ProxyConfig {
    fn default() -> (p: ProxyConfig)
        ensures
            p == ProxyConfig::Direct,
    {
        ProxyConfig::Direct
    }
}

impl Clone for ProxyConfig {
    fn clone(&self) -> (c: ProxyConfig)
        ensures
            c == *self,
    {
        match self {
            ProxyConfig::Direct => ProxyConfig::Direct,
            ProxyConfig::Socks4 { address, username } => ProxyConfig::Socks4 {
                address: address.clone(),
                username: clone_opt_string(username),
            },
            ProxyConfig::Socks5 { address, username, password } => ProxyConfig::Socks5 {
                address: address.clone(),
                username: clone_opt_string(username),
                password: clone_opt_string(password),
            },
            ProxyConfig::HttpConnect { address, username, password } => ProxyConfig::HttpConnect {
                address: address.clone(),
                username: clone_opt_string(username),
                password: clone_opt_string(password),
            },
        }
    }
}

impl Clone for ProxyState {
    fn clone(&self) -> (c: ProxyState)
        ensures
            c == *self,
    {
        match self {
            ProxyState::Disabled => ProxyState::Disabled,
            ProxyState::Connecting { address } => ProxyState::Connecting { address: address.clone() },
            ProxyState::Connected { address } => ProxyState::Connected { address: address.clone() },
            ProxyState::Failed { address, reason } => ProxyState::Failed {
                address: address.clone(),
                reason: reason.clone(),
            },
        }
    }
}

} // verus!
