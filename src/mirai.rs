//! The addressing part of a client for the mirai HTTP adapter of QQ.

use vstd::prelude::*;
use crate::decimal::{dec, push_dec};

verus! {

/// A mirai endpoint and the account bound to it.
pub struct Mirai {
    host: String,
    port: u32,
    verify_key: String,
    qq: u32,
    session_key: String,
}

/// The settings a mirai client is built from.
pub struct MiraiBuilder {
    host: String,
    port: u32,
    verify_key: String,
    qq: u32,
}

impl MiraiBuilder {
    /// The endpoint's host.
    pub closed spec fn spec_host(&self) -> Seq<char> {
        self.host@
    }

    /// The endpoint's port.
    pub closed spec fn spec_port(&self) -> u32 {
        self.port
    }

    /// The bound account.
    pub closed spec fn spec_qq(&self) -> u32 {
        self.qq
    }

    /// The same settings, bound to account `qq`.
    pub fn bind_qq(self, qq: u32) -> (r: MiraiBuilder)
        ensures
            r.spec_qq() == qq,
            r.spec_host() == self.spec_host(),
            r.spec_port() == self.spec_port(),
    {
        let mut s = self;
        s.qq = qq;
        s
    }

    /// The client for these settings, not yet verified with the endpoint.
    pub fn build(self) -> (r: Mirai)
        ensures
            r.spec_host() == self.spec_host(),
            r.spec_port() == self.spec_port(),
    {
        Mirai {
            host: self.host,
            port: self.port,
            verify_key: self.verify_key,
            qq: self.qq,
            session_key: String::new(),
        }
    }
}

impl Mirai {
    /// The endpoint's host.
    pub closed spec fn spec_host(&self) -> Seq<char> {
        self.host@
    }

    /// The endpoint's port.
    pub closed spec fn spec_port(&self) -> u32 {
        self.port
    }

    /// The settings for the endpoint at `host:port` with key `verify_key`.
    pub fn builder(host: &str, port: u32, verify_key: &str) -> (r: MiraiBuilder)
        ensures
            r.spec_host() == host@,
            r.spec_port() == port,
            r.spec_qq() == 0,
    {
        MiraiBuilder {
            host: String::from_str(host),
            port,
            verify_key: String::from_str(verify_key),
            qq: 0,
        }
    }

    /// The address of `uri` on the endpoint: `http://host:port` and `uri`.
    pub fn get_url(&self, uri: &str) -> (r: String)
        ensures
            r@ == "http://"@ + self.spec_host() + seq![':'] + dec(self.spec_port() as nat) + uri@,
    {
        let mut r = String::from_str("http://");
        r.append(self.host.as_str());
        crate::text::push_char(&mut r, ':');
        push_dec(&mut r, self.port as u64);
        r.append(uri);
        r
    }
}

} // verus!
