//! The settings of the program.
use vstd::prelude::*;

verus! {

/// All settings: the proxies.
#[derive(Debug)]
pub struct ServiceSettings {
    pub proxies: Vec<ProxySettings>,
}

/// One proxy: the SOCKS5 server behind it, and the names of the processes that go through it.
#[derive(Debug)]
pub struct ProxySettings {
    pub app_names: Vec<String>,
    pub endpoint: String,
}

} // verus!
