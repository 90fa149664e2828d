//! A handle for a test SSH server that is not started.
use vstd::prelude::*;

verus! {

/// Where a test SSH server would listen; no network service is started.
#[derive(Debug, PartialEq, Eq)]
pub struct TestSshServer {
    host: String,
    port: u16,
}

impl TestSshServer {
    pub closed spec fn spec_host(&self) -> Seq<char> {
        self.host@
    }

    pub closed spec fn spec_port(&self) -> u16 {
        self.port
    }

    /// A handle for `host:port`.
    pub fn placeholder(host: &str, port: u16) -> (s: TestSshServer)
        ensures
            s.spec_host() == host@,
            s.spec_port() == port,
    {
        TestSshServer { host: host.to_owned(), port }
    }

    /// The host name or address.
    pub fn host(&self) -> (h: &str)
        ensures
            h@ == self.spec_host(),
    {
        self.host.as_str()
    }

    /// The port.
    pub fn port(&self) -> (p: u16)
        ensures
            p == self.spec_port(),
    {
        self.port
    }
}

impl Clone for TestSshServer {
    fn clone(&self) -> (c: TestSshServer)
        ensures
            c.spec_host() == self.spec_host(),
            c.spec_port() == self.spec_port(),
    {
        TestSshServer { host: self.host.clone(), port: self.port }
    }
}

} // verus!
