//! What is recorded of one request: where it came from and what the
//! matched route captured from its path.

use crate::params::RouteParams;
use vstd::prelude::*;

verus! {

/// An IP address, version 4 or 6.
#[derive(Clone, Copy, Debug, PartialEq, Eq, Structural)]
pub enum IpAddress {
    /// The four octets of an IPv4 address.
    V4(u8, u8, u8, u8),
    /// The eight segments of an IPv6 address.
    V6(u16, u16, u16, u16, u16, u16, u16, u16),
}

/// The address of the peer that sent a request.
#[derive(Clone, Copy, Debug, PartialEq, Eq, Structural)]
pub struct RemoteAddr {
    pub ip: IpAddress,
    pub port: u16,
}

impl RemoteAddr {
    /// The address `0.0.0.0:0`, which stands for a peer whose address is
    /// not known.
    pub open spec fn spec_unspecified() -> RemoteAddr {
        RemoteAddr { ip: IpAddress::V4(0, 0, 0, 0), port: 0 }
    }

    /// An address from its parts.
    pub fn new(ip: IpAddress, port: u16) -> (addr: RemoteAddr)
        ensures
            addr == (RemoteAddr { ip, port }),
    {
        RemoteAddr { ip, port }
    }

    /// The address `0.0.0.0:0`.
    pub fn unspecified() -> (addr: RemoteAddr)
        ensures
            addr == RemoteAddr::spec_unspecified(),
    {
        RemoteAddr { ip: IpAddress::V4(0, 0, 0, 0), port: 0 }
    }

    /// The peer's address where the connection gave one, and `0.0.0.0:0`
    /// where it did not.
    pub fn or_unspecified(addr: Option<RemoteAddr>) -> (r: RemoteAddr)
        ensures
            r == match addr {
                Some(a) => a,
                None => RemoteAddr::spec_unspecified(),
            },
    {
        match addr {
            Some(a) => a,
            None => RemoteAddr::unspecified(),
        }
    }
}

/// What request metadata holds.
pub struct RequestMetaView {
    pub route_params: Option<Seq<(Seq<char>, Seq<char>)>>,
    pub remote_addr: Option<RemoteAddr>,
}

/// The metadata of one request. Each part is absent until it is known.
#[derive(Debug)]
pub struct RequestMeta {
    route_params: Option<RouteParams>,
    remote_addr: Option<RemoteAddr>,
}

impl View for RequestMeta {
    type V = RequestMetaView;

    closed spec fn view(&self) -> RequestMetaView {
        RequestMetaView {
            route_params: match self.route_params {
                Some(params) => Some(params@),
                None => None,
            },
            remote_addr: self.remote_addr,
        }
    }
}

impl RequestMeta {
    /// Metadata that holds the route parameters alone.
    pub fn with_route_params(route_params: RouteParams) -> (meta: RequestMeta)
        ensures
            meta@ == (RequestMetaView { route_params: Some(route_params@), remote_addr: None }),
    {
        RequestMeta { route_params: Some(route_params), remote_addr: None }
    }

    /// Metadata that holds the peer's address alone.
    pub fn with_remote_addr(remote_addr: RemoteAddr) -> (meta: RequestMeta)
        ensures
            meta@ == (RequestMetaView { route_params: None, remote_addr: Some(remote_addr) }),
    {
        RequestMeta { route_params: None, remote_addr: Some(remote_addr) }
    }

    /// This metadata with every part that `other` holds taken from `other`.
    pub fn extend(self, other: RequestMeta) -> (meta: RequestMeta)
        ensures
            meta@ == (RequestMetaView {
                route_params: if other@.route_params is Some {
                    other@.route_params
                } else {
                    self@.route_params
                },
                remote_addr: if other@.remote_addr is Some {
                    other@.remote_addr
                } else {
                    self@.remote_addr
                },
            }),
    {
        let route_params = match other.route_params {
            Some(params) => Some(params),
            None => self.route_params,
        };
        let remote_addr = match other.remote_addr {
            Some(addr) => Some(addr),
            None => self.remote_addr,
        };
        RequestMeta { route_params, remote_addr }
    }

    /// The parameters that the matched route captured.
    pub fn route_params(&self) -> (params: Option<&RouteParams>)
        ensures
            match params {
                Some(p) => self@.route_params == Some(p@),
                None => self@.route_params is None,
            },
    {
        self.route_params.as_ref()
    }

    /// The address of the peer.
    pub fn remote_addr(&self) -> (addr: Option<RemoteAddr>)
        ensures
            addr == self@.remote_addr,
    {
        self.remote_addr
    }
}

} // verus!
