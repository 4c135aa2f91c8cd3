//! Services: a router made ready for requests, and what one connection
//! gets of it.

use crate::dispatch::{started, Action, Dispatch};
use crate::error::BuildError;
use crate::method::Method;
use crate::router::{sets_compile, Router, RouterView};
use crate::types::RemoteAddr;
use std::sync::Arc;
use vstd::prelude::*;

verus! {

/// Calls `Arc::clone`, which makes another pointer to the same value.
#[verifier::external_body]
fn share<T>(pointer: &Arc<T>) -> (r: Arc<T>)
    ensures
        r == *pointer,
{
    Arc::clone(pointer)
}

/// Dispatches the requests of one connection.
#[derive(Debug)]
pub struct RequestService<H, V> {
    router: Arc<Router<H, V>>,
    remote_addr: RemoteAddr,
}

/// What a request service holds.
pub struct RequestServiceView<H, V> {
    pub router: RouterView<H, V>,
    pub remote_addr: RemoteAddr,
}

impl<H, V> View for RequestService<H, V> {
    type V = RequestServiceView<H, V>;

    closed spec fn view(&self) -> RequestServiceView<H, V> {
        RequestServiceView { router: self.router@, remote_addr: self.remote_addr }
    }
}

impl<H, V> RequestService<H, V> {
    /// The router of a service is ready.
    #[verifier::type_invariant]
    pub closed spec fn wf(&self) -> bool {
        self.router.is_ready() && self.router.wf()
    }

    /// Begins the dispatch of a request and says what to do first.
    ///
    /// `raw_path` is the path of the request as it came, percent-encoded;
    /// `method` is the request's method, or nothing where it is none of
    /// the methods known here.
    pub fn begin(&self, raw_path: &str, method: Option<Method>) -> (r: (Dispatch<H, V>, Action))
        ensures
            (r.0@, r.1) == started(self@.router, self@.remote_addr, raw_path@, method),
    {
        proof {
            use_type_invariant(self);
        }
        Dispatch::begin(share(&self.router), self.remote_addr, raw_path, method)
    }

    /// Whether the driver has to gather request metadata: the error
    /// handler or some post-middleware takes it.
    pub fn should_gen_req_info(&self) -> (needed: bool)
        ensures
            needed == self@.router.needs_info(),
    {
        proof {
            use_type_invariant(self);
        }
        match self.router.should_gen_req_info() {
            Some(needed) => needed,
            None => false,
        }
    }

    /// The router.
    pub fn router(&self) -> (router: &Router<H, V>)
        ensures
            router@ == self@.router,
    {
        &self.router
    }

    /// The address of the connection's peer.
    pub fn remote_addr(&self) -> (addr: RemoteAddr)
        ensures
            addr == self@.remote_addr,
    {
        self.remote_addr
    }
}

/// Makes the request services of a router, one for each connection.
#[derive(Debug)]
pub struct RequestServiceBuilder<H, V> {
    router: Arc<Router<H, V>>,
}

impl<H, V> View for RequestServiceBuilder<H, V> {
    type V = RouterView<H, V>;

    closed spec fn view(&self) -> RouterView<H, V> {
        self.router@
    }
}

impl<H, V> RequestServiceBuilder<H, V> {
    /// The router of a builder is ready.
    #[verifier::type_invariant]
    pub closed spec fn wf(&self) -> bool {
        self.router.is_ready() && self.router.wf()
    }

    /// Makes a router ready for requests: compiles its pattern sets and
    /// works out whether request metadata is needed. Fails exactly where
    /// the expression engine refuses one of the pattern sets.
    pub fn new(router: Router<H, V>) -> (r: Result<RequestServiceBuilder<H, V>, BuildError>)
        ensures
            r is Ok == sets_compile(router@),
            r matches Ok(builder) ==> builder@ == router@,
            r matches Err(e) ==> e is PatternSet,
    {
        match router.init_regex_set() {
            Ok(router) => {
                let router = router.init_req_info_gen();
                Ok(RequestServiceBuilder { router: Arc::new(router) })
            },
            Err(e) => Err(e),
        }
    }

    /// The request service for a connection from `remote_addr`.
    pub fn build(&self, remote_addr: RemoteAddr) -> (service: RequestService<H, V>)
        ensures
            service@ == (RequestServiceView { router: self@, remote_addr }),
    {
        proof {
            use_type_invariant(self);
        }
        RequestService { router: share(&self.router), remote_addr }
    }
}

/// A router as a service: it hands each connection its request service.
#[derive(Debug)]
pub struct RouterService<H, V> {
    builder: RequestServiceBuilder<H, V>,
}

impl<H, V> View for RouterService<H, V> {
    type V = RouterView<H, V>;

    closed spec fn view(&self) -> RouterView<H, V> {
        self.builder@
    }
}

impl<H, V> RouterService<H, V> {
    /// A service for the router. Fails exactly where the expression engine
    /// refuses one of the router's pattern sets.
    pub fn new(router: Router<H, V>) -> (r: Result<RouterService<H, V>, BuildError>)
        ensures
            r is Ok == sets_compile(router@),
            r matches Ok(service) ==> service@ == router@,
            r matches Err(e) ==> e is PatternSet,
    {
        match RequestServiceBuilder::new(router) {
            Ok(builder) => Ok(RouterService { builder }),
            Err(e) => Err(e),
        }
    }

    /// The request service for a connection. `peer` is the address of the
    /// connection's peer where the connection could tell it; the service
    /// goes by `0.0.0.0:0` where it could not.
    pub fn call(&self, peer: Option<RemoteAddr>) -> (service: RequestService<H, V>)
        ensures
            service@ == (RequestServiceView {
                router: self@,
                remote_addr: match peer {
                    Some(addr) => addr,
                    None => RemoteAddr::spec_unspecified(),
                },
            }),
    {
        self.builder.build(RemoteAddr::or_unspecified(peer))
    }
}

} // verus!
