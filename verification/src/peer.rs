use vstd::prelude::*;
use crate::http::{bytes_eq, clone_bytes};

verus! {

/// One upstream backend as the policy names it: address, transport, and an
/// optional TLS server-name override. A value is created fresh per proxying
/// decision; the pool keys idle connections by this whole identity.
pub struct UpstreamPeer {
    pub host: Vec<u8>,
    pub port: u16,
    pub tls: bool,
    pub sni: Vec<u8>,
}

pub ghost struct PeerView {
    pub host: Seq<u8>,
    pub port: u16,
    pub tls: bool,
    pub sni: Seq<u8>,
}

impl View for UpstreamPeer {
    type V = PeerView;

    open spec fn view(&self) -> PeerView {
        PeerView { host: self.host@, port: self.port, tls: self.tls, sni: self.sni@ }
    }
}

impl UpstreamPeer {
    pub fn new(host: Vec<u8>, port: u16, tls: bool, sni: Vec<u8>) -> (p: UpstreamPeer)
        ensures
            p@ == (PeerView { host: host@, port, tls, sni: sni@ }),
    {
        UpstreamPeer { host, port, tls, sni }
    }

    /// A fresh value with the same identity.
    pub fn duplicate(&self) -> (p: UpstreamPeer)
        ensures
            p@ == self@,
    {
        UpstreamPeer {
            host: clone_bytes(&self.host),
            port: self.port,
            tls: self.tls,
            sni: clone_bytes(&self.sni),
        }
    }

    /// Whether two peers name the same pool bucket: address, transport and
    /// TLS identity all equal.
    pub fn same_identity(&self, other: &UpstreamPeer) -> (r: bool)
        ensures
            r == (self@ == other@),
    {
        let r = bytes_eq(self.host.as_slice(), other.host.as_slice()) && self.port == other.port
            && self.tls == other.tls && bytes_eq(self.sni.as_slice(), other.sni.as_slice());
        r
    }
}

} // verus!
