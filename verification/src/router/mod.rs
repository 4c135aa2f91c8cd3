//! Routers: how they are put together, and what a flat router holds.
//!
//! A `RouterBuilder` collects routes, middleware, shared data, an error
//! handler and mounted sub-routers. Nothing is merged while it collects:
//! `build` walks the tree of mounts once and writes every item, with the
//! prefixes of the mounts above it put before its path, into the flat lists
//! of a `Router`.

use crate::data_map::DataMap;
use crate::error::{BuildError, ItemKind};
use crate::method::Method;
use crate::middleware::post::{PostMiddleware, PostMiddlewareView};
use crate::middleware::pre::{PreMiddleware, PreMiddlewareView};
use crate::middleware::Middleware;
use crate::pattern::pattern_compiles;
use crate::regexp::{compile_set, message_of, set_compiles, set_matches, set_patterns, views_of};
use crate::route::{Route, RouteView};
use regex::RegexSet;
use vstd::prelude::*;
use vstd::string::StringExecFns;

pub mod laws;
pub mod matching;
pub mod merge;

pub use crate::router::matching::{lemma_matching, matching};

verus! {

/// The error handler of a router, in one of its two forms.
#[derive(Debug)]
pub enum ErrHandler<H> {
    /// The handler receives the error alone.
    WithoutInfo(H),
    /// The handler receives the error and the request's metadata.
    WithInfo(H),
}

/// A router mounted under a path prefix, not yet merged.
#[derive(Debug)]
pub struct Mount<H, V> {
    prefix: String,
    router: RouterBuilder<H, V>,
}

/// A router being put together.
#[derive(Debug)]
pub struct RouterBuilder<H, V> {
    pre_middlewares: Vec<PreMiddleware<H>>,
    routes: Vec<Route<H>>,
    post_middlewares: Vec<PostMiddleware<H>>,
    data: DataMap<V>,
    err_handler: Option<ErrHandler<H>>,
    mounts: Vec<Mount<H, V>>,
    failure: Option<BuildError>,
}

/// What a builder holds. The mounted routers are builders themselves.
pub struct BuilderView<H, V> {
    pub pre: Seq<PreMiddlewareView<H>>,
    pub routes: Seq<RouteView<H>>,
    pub post: Seq<PostMiddlewareView<H>>,
    pub data: Seq<(u64, V)>,
    pub err_handler: Option<ErrHandler<H>>,
    pub mounts: Seq<(Seq<char>, RouterBuilder<H, V>)>,
    pub failure: Option<BuildError>,
}

/// The views of a list of pre-middleware.
pub open spec fn pre_views<H>(items: Seq<PreMiddleware<H>>) -> Seq<PreMiddlewareView<H>> {
    Seq::new(items.len(), |i: int| items[i]@)
}

/// The views of a list of routes.
pub open spec fn route_views<H>(items: Seq<Route<H>>) -> Seq<RouteView<H>> {
    Seq::new(items.len(), |i: int| items[i]@)
}

/// The views of a list of post-middleware.
pub open spec fn post_views<H>(items: Seq<PostMiddleware<H>>) -> Seq<PostMiddlewareView<H>> {
    Seq::new(items.len(), |i: int| items[i]@)
}

impl<H, V> View for RouterBuilder<H, V> {
    type V = BuilderView<H, V>;

    closed spec fn view(&self) -> BuilderView<H, V> {
        BuilderView {
            pre: pre_views(self.pre_middlewares@),
            routes: route_views(self.routes@),
            post: post_views(self.post_middlewares@),
            data: self.data@,
            err_handler: self.err_handler,
            mounts: Seq::new(
                self.mounts@.len(),
                |i: int| (self.mounts@[i].prefix@, self.mounts@[i].router),
            ),
            failure: self.failure,
        }
    }
}

/// Whether `after` is `before` with a route added behind the routes
/// there are. Where `before` holds a failure nothing is added; where the
/// pattern does not compile, `after` holds that failure and nothing else
/// is changed.
pub open spec fn with_route<H, V>(
    before: BuilderView<H, V>,
    path: Seq<char>,
    methods: Seq<Method>,
    handler: H,
    after: BuilderView<H, V>,
) -> bool {
    if before.failure is Some {
        after == before
    } else if pattern_compiles(path) {
        after == (BuilderView {
            routes: before.routes.push(
                RouteView { path, methods, handler, scope_depth: 0, scope: 0 },
            ),
            ..before
        })
    } else {
        (after.failure matches Some(e) && e.is_compile_failure(ItemKind::Route, path)) && after
            == (BuilderView { failure: after.failure, ..before })
    }
}

impl<H, V> RouterBuilder<H, V> {
    /// A builder that holds nothing.
    pub fn new() -> (builder: RouterBuilder<H, V>)
        ensures
            builder@ == (BuilderView::<H, V> {
                pre: Seq::empty(),
                routes: Seq::empty(),
                post: Seq::empty(),
                data: Seq::empty(),
                err_handler: None,
                mounts: Seq::empty(),
                failure: None,
            }),
    {
        let builder = RouterBuilder {
            pre_middlewares: Vec::new(),
            routes: Vec::new(),
            post_middlewares: Vec::new(),
            data: DataMap::new(),
            err_handler: None,
            mounts: Vec::new(),
            failure: None,
        };
        assert(builder@.pre =~= Seq::empty());
        assert(builder@.routes =~= Seq::empty());
        assert(builder@.post =~= Seq::empty());
        assert(builder@.mounts =~= Seq::empty());
        builder
    }

    /// Stores `value` under the type key `key`, for this router and all
    /// routers mounted beneath it. A second value under the same key
    /// replaces the first.
    pub fn data(self, key: u64, value: V) -> (builder: RouterBuilder<H, V>)
        ensures
            self@.failure is Some ==> builder@ == self@,
            self@.failure is None ==> builder@ == (BuilderView {
                data: crate::assoc::stored(self@.data, key, value),
                ..self@
            }),
    {
        if self.failure.is_some() {
            return self;
        }
        let builder = RouterBuilder {
            pre_middlewares: self.pre_middlewares,
            routes: self.routes,
            post_middlewares: self.post_middlewares,
            data: self.data.insert(key, value),
            err_handler: self.err_handler,
            mounts: self.mounts,
            failure: self.failure,
        };
        assert(builder@.mounts =~= self@.mounts);
        builder
    }

    /// Adds a middleware behind those of its kind.
    pub fn middleware(self, middleware: Middleware<H>) -> (builder: RouterBuilder<H, V>)
        ensures
            self@.failure is Some ==> builder@ == self@,
            self@.failure is None ==> match middleware {
                Middleware::Pre(pre) => builder@ == (BuilderView {
                    pre: self@.pre.push(pre@),
                    ..self@
                }),
                Middleware::Post(post) => builder@ == (BuilderView {
                    post: self@.post.push(post@),
                    ..self@
                }),
            },
    {
        if self.failure.is_some() {
            return self;
        }
        let mut pre_middlewares = self.pre_middlewares;
        let mut post_middlewares = self.post_middlewares;
        let ghost given = middleware;
        match middleware {
            Middleware::Pre(pre) => {
                pre_middlewares.push(pre);
            },
            Middleware::Post(post) => {
                post_middlewares.push(post);
            },
        }
        let builder = RouterBuilder {
            pre_middlewares,
            routes: self.routes,
            post_middlewares,
            data: self.data,
            err_handler: self.err_handler,
            mounts: self.mounts,
            failure: self.failure,
        };
        assert(builder@.mounts =~= self@.mounts);
        proof {
            match given {
                Middleware::Pre(pre) => {
                    assert(builder@.pre =~= self@.pre.push(pre@));
                    assert(builder@.post =~= self@.post);
                },
                Middleware::Post(post) => {
                    assert(builder@.post =~= self@.post.push(post@));
                    assert(builder@.pre =~= self@.pre);
                },
            }
        }
        builder
    }

    /// Adds a route for the given methods behind the routes there are.
    /// Where the pattern does not compile, the builder keeps the failure
    /// instead, and `build` reports it.
    pub fn add(self, path: &str, methods: Vec<Method>, handler: H) -> (builder: RouterBuilder<
        H,
        V,
    >)
        ensures
            with_route(self@, path@, methods@, handler, builder@),
    {
        if self.failure.is_some() {
            return self;
        }
        let mut routes = self.routes;
        let mut failure = self.failure;
        let ghost before = route_views(routes@);
        match Route::new(path, methods, handler) {
            Ok(route) => {
                routes.push(route);
                assert(route_views(routes@) =~= before.push(route@));
            },
            Err(e) => {
                failure = Some(e);
            },
        }
        let builder = RouterBuilder {
            pre_middlewares: self.pre_middlewares,
            routes,
            post_middlewares: self.post_middlewares,
            data: self.data,
            err_handler: self.err_handler,
            mounts: self.mounts,
            failure,
        };
        assert(builder@.mounts =~= self@.mounts);
        builder
    }

    /// Adds a route that answers `GET` at `path`.
    pub fn get(self, path: &str, handler: H) -> (builder: RouterBuilder<H, V>)
        ensures
            with_route(self@, path@, seq![Method::Get], handler, builder@),
    {
        let methods = vec![Method::Get];
        assert(methods@ =~= seq![Method::Get]);
        self.add(path, methods, handler)
    }

    /// Adds a route that answers `POST` at `path`.
    pub fn post(self, path: &str, handler: H) -> (builder: RouterBuilder<H, V>)
        ensures
            with_route(self@, path@, seq![Method::Post], handler, builder@),
    {
        let methods = vec![Method::Post];
        assert(methods@ =~= seq![Method::Post]);
        self.add(path, methods, handler)
    }

    /// Adds a route that answers `PUT` at `path`.
    pub fn put(self, path: &str, handler: H) -> (builder: RouterBuilder<H, V>)
        ensures
            with_route(self@, path@, seq![Method::Put], handler, builder@),
    {
        let methods = vec![Method::Put];
        assert(methods@ =~= seq![Method::Put]);
        self.add(path, methods, handler)
    }

    /// Adds a route that answers `DELETE` at `path`.
    pub fn delete(self, path: &str, handler: H) -> (builder: RouterBuilder<H, V>)
        ensures
            with_route(self@, path@, seq![Method::Delete], handler, builder@),
    {
        let methods = vec![Method::Delete];
        assert(methods@ =~= seq![Method::Delete]);
        self.add(path, methods, handler)
    }

    /// Adds a route that answers `PATCH` at `path`.
    pub fn patch(self, path: &str, handler: H) -> (builder: RouterBuilder<H, V>)
        ensures
            with_route(self@, path@, seq![Method::Patch], handler, builder@),
    {
        let methods = vec![Method::Patch];
        assert(methods@ =~= seq![Method::Patch]);
        self.add(path, methods, handler)
    }

    /// Adds a route that answers `HEAD` at `path`.
    pub fn head(self, path: &str, handler: H) -> (builder: RouterBuilder<H, V>)
        ensures
            with_route(self@, path@, seq![Method::Head], handler, builder@),
    {
        let methods = vec![Method::Head];
        assert(methods@ =~= seq![Method::Head]);
        self.add(path, methods, handler)
    }

    /// Adds a route that answers `OPTIONS` at `path`.
    pub fn options(self, path: &str, handler: H) -> (builder: RouterBuilder<H, V>)
        ensures
            with_route(self@, path@, seq![Method::Options], handler, builder@),
    {
        let methods = vec![Method::Options];
        assert(methods@ =~= seq![Method::Options]);
        self.add(path, methods, handler)
    }

    /// Adds a route that answers `CONNECT` at `path`.
    pub fn connect(self, path: &str, handler: H) -> (builder: RouterBuilder<H, V>)
        ensures
            with_route(self@, path@, seq![Method::Connect], handler, builder@),
    {
        let methods = vec![Method::Connect];
        assert(methods@ =~= seq![Method::Connect]);
        self.add(path, methods, handler)
    }

    /// Adds a route that answers `TRACE` at `path`.
    pub fn trace(self, path: &str, handler: H) -> (builder: RouterBuilder<H, V>)
        ensures
            with_route(self@, path@, seq![Method::Trace], handler, builder@),
    {
        let methods = vec![Method::Trace];
        assert(methods@ =~= seq![Method::Trace]);
        self.add(path, methods, handler)
    }

    /// Adds a route that answers every method at `path`.
    pub fn any_method(self, path: &str, handler: H) -> (builder: RouterBuilder<H, V>)
        ensures
            with_route(self@, path@, crate::method::all_methods(), handler, builder@),
    {
        self.add(path, Method::all(), handler)
    }

    /// Adds a route that answers every method at every path: registered
    /// last, it handles what no other route handles.
    pub fn any(self, handler: H) -> (builder: RouterBuilder<H, V>)
        ensures
            with_route(
                self@,
                crate::middleware::catch_all(),
                crate::method::all_methods(),
                handler,
                builder@,
            ),
    {
        self.add("/*", Method::all(), handler)
    }

    /// Mounts `router` under the path `prefix`. The mount is recorded and
    /// merged by `build`.
    pub fn scope(self, prefix: &str, router: RouterBuilder<H, V>) -> (builder: RouterBuilder<H, V>)
        ensures
            self@.failure is Some ==> builder@ == self@,
            self@.failure is None ==> builder@ == (BuilderView {
                mounts: self@.mounts.push((prefix@, router)),
                ..self@
            }),
    {
        if self.failure.is_some() {
            return self;
        }
        let mut mounts = self.mounts;
        mounts.push(Mount { prefix: String::from_str(prefix), router });
        let builder = RouterBuilder {
            pre_middlewares: self.pre_middlewares,
            routes: self.routes,
            post_middlewares: self.post_middlewares,
            data: self.data,
            err_handler: self.err_handler,
            mounts,
            failure: self.failure,
        };
        assert(builder@.mounts =~= self@.mounts.push((prefix@, router)));
        builder
    }

    /// Sets the error handler; it receives the error alone. The handler
    /// set last is the one in force.
    pub fn err_handler(self, handler: H) -> (builder: RouterBuilder<H, V>)
        ensures
            self@.failure is Some ==> builder@ == self@,
            self@.failure is None ==> builder@ == (BuilderView {
                err_handler: Some(ErrHandler::WithoutInfo(handler)),
                ..self@
            }),
    {
        self.set_err_handler(ErrHandler::WithoutInfo(handler))
    }

    /// Sets the error handler; it receives the error and the request's
    /// metadata. The handler set last is the one in force.
    pub fn err_handler_with_info(self, handler: H) -> (builder: RouterBuilder<H, V>)
        ensures
            self@.failure is Some ==> builder@ == self@,
            self@.failure is None ==> builder@ == (BuilderView {
                err_handler: Some(ErrHandler::WithInfo(handler)),
                ..self@
            }),
    {
        self.set_err_handler(ErrHandler::WithInfo(handler))
    }

    fn set_err_handler(self, handler: ErrHandler<H>) -> (builder: RouterBuilder<H, V>)
        ensures
            self@.failure is Some ==> builder@ == self@,
            self@.failure is None ==> builder@ == (BuilderView {
                err_handler: Some(handler),
                ..self@
            }),
    {
        if self.failure.is_some() {
            return self;
        }
        let builder = RouterBuilder {
            pre_middlewares: self.pre_middlewares,
            routes: self.routes,
            post_middlewares: self.post_middlewares,
            data: self.data,
            err_handler: Some(handler),
            mounts: self.mounts,
            failure: self.failure,
        };
        assert(builder@.mounts =~= self@.mounts);
        builder
    }
}

/// One scope of a flat router: the data registered on one router of the
/// tree, and the scope of the router it was mounted on.
#[derive(Debug)]
pub struct Scope<V> {
    parent: Option<usize>,
    data: DataMap<V>,
}

/// What a scope holds.
pub struct ScopeView<V> {
    pub parent: Option<usize>,
    pub data: Seq<(u64, V)>,
}

impl<V> View for Scope<V> {
    type V = ScopeView<V>;

    closed spec fn view(&self) -> ScopeView<V> {
        ScopeView { parent: self.parent, data: self.data@ }
    }
}

/// The views of a list of scopes.
pub open spec fn scope_views<V>(scopes: Seq<Scope<V>>) -> Seq<ScopeView<V>> {
    Seq::new(scopes.len(), |i: int| scopes[i]@)
}

/// The pattern sets of a router: one for each list of items, with the
/// expressions of the items in the order of the list.
#[derive(Debug)]
pub struct PatternSets {
    pre: RegexSet,
    routes: RegexSet,
    post: RegexSet,
}

/// A flat router: every item of a tree of routers in one list per kind.
#[derive(Debug)]
pub struct Router<H, V> {
    pre_middlewares: Vec<PreMiddleware<H>>,
    routes: Vec<Route<H>>,
    post_middlewares: Vec<PostMiddleware<H>>,
    scopes: Vec<Scope<V>>,
    err_handler: Option<(ErrHandler<H>, usize)>,
    sets: Option<PatternSets>,
    should_gen_req_info: Option<bool>,
}

/// What a flat router holds.
pub struct RouterView<H, V> {
    pub pre: Seq<PreMiddlewareView<H>>,
    pub routes: Seq<RouteView<H>>,
    pub post: Seq<PostMiddlewareView<H>>,
    pub scopes: Seq<ScopeView<V>>,
    pub err_handler: Option<(ErrHandler<H>, usize)>,
}

impl<H, V> RouterView<H, V> {
    /// Every item and the error handler lie in a scope of the router,
    /// every scope was opened after the scope it is nested in, and no
    /// scope holds two values under one key.
    pub open spec fn wf(self) -> bool {
        &&& forall|i: int| 0 <= i < self.pre.len() ==> (#[trigger] self.pre[i]).scope < self.scopes.len()
        &&& forall|i: int|
            0 <= i < self.routes.len() ==> (#[trigger] self.routes[i]).scope < self.scopes.len()
        &&& forall|i: int|
            0 <= i < self.post.len() ==> (#[trigger] self.post[i]).scope < self.scopes.len()
        &&& forall|s: int|
            0 <= s < self.scopes.len() ==> ((#[trigger] self.scopes[s]).parent matches Some(p)
                ==> p < s)
        &&& forall|s: int|
            0 <= s < self.scopes.len() ==> crate::assoc::distinct_keys(
                (#[trigger] self.scopes[s]).data,
            )
        &&& self.err_handler matches Some(h) ==> h.1 < self.scopes.len()
    }

    /// Whether request metadata has to be gathered: the error handler or
    /// some post-middleware asks for it.
    pub open spec fn needs_info(self) -> bool {
        ||| (self.err_handler matches Some(h) && h.0 is WithInfo)
        ||| exists|i: int| 0 <= i < self.post.len() && (#[trigger] self.post[i]).handler is WithInfo
    }
}

/// The flat router without anything in it.
pub open spec fn empty_router<H, V>() -> RouterView<H, V> {
    RouterView {
        pre: Seq::empty(),
        routes: Seq::empty(),
        post: Seq::empty(),
        scopes: Seq::empty(),
        err_handler: None,
    }
}

/// The expressions generated for the patterns of a list of paths.
pub open spec fn sources_of(paths: Seq<Seq<char>>) -> Seq<Seq<char>> {
    Seq::new(paths.len(), |i: int| crate::pattern::pattern_source(paths[i]))
}

/// The paths of a list of pre-middleware.
pub open spec fn pre_paths<H>(items: Seq<PreMiddlewareView<H>>) -> Seq<Seq<char>> {
    Seq::new(items.len(), |i: int| items[i].path)
}

/// The paths of a list of routes.
pub open spec fn route_paths<H>(items: Seq<RouteView<H>>) -> Seq<Seq<char>> {
    Seq::new(items.len(), |i: int| items[i].path)
}

/// The paths of a list of post-middleware.
pub open spec fn post_paths<H>(items: Seq<PostMiddlewareView<H>>) -> Seq<Seq<char>> {
    Seq::new(items.len(), |i: int| items[i].path)
}

impl<H, V> View for Router<H, V> {
    type V = RouterView<H, V>;

    closed spec fn view(&self) -> RouterView<H, V> {
        RouterView {
            pre: pre_views(self.pre_middlewares@),
            routes: route_views(self.routes@),
            post: post_views(self.post_middlewares@),
            scopes: scope_views(self.scopes@),
            err_handler: self.err_handler,
        }
    }
}

impl<H, V> Router<H, V> {
    /// What holds of every flat router: its items lie in its scopes, and
    /// what was computed from its items belongs to them.
    #[verifier::type_invariant]
    pub closed spec fn wf(&self) -> bool {
        &&& self@.wf()
        &&& self.sets matches Some(sets) ==> {
            &&& set_patterns(sets.pre) == sources_of(pre_paths(self@.pre))
            &&& set_patterns(sets.routes) == sources_of(route_paths(self@.routes))
            &&& set_patterns(sets.post) == sources_of(post_paths(self@.post))
        }
        &&& self.should_gen_req_info matches Some(flag) ==> flag == self@.needs_info()
    }

    /// Whether nothing has been computed from the items yet.
    pub open spec fn is_plain(&self) -> bool {
        !self.has_sets() && self.info_flag() is None
    }

    /// Whether the router is ready to dispatch requests: its pattern sets
    /// are compiled and it knows whether request metadata is needed.
    pub open spec fn is_ready(&self) -> bool {
        self.has_sets() && self.info_flag() is Some
    }

    /// A new builder.
    pub fn builder() -> (builder: RouterBuilder<H, V>)
        ensures
            builder@ == (BuilderView::<H, V> {
                pre: Seq::empty(),
                routes: Seq::empty(),
                post: Seq::empty(),
                data: Seq::empty(),
                err_handler: None,
                mounts: Seq::empty(),
                failure: None,
            }),
    {
        RouterBuilder::new()
    }

    fn empty() -> (router: Router<H, V>)
        ensures
            router@ == empty_router::<H, V>(),
            router.is_plain(),
    {
        let router = Router {
            pre_middlewares: Vec::new(),
            routes: Vec::new(),
            post_middlewares: Vec::new(),
            scopes: Vec::new(),
            err_handler: None,
            sets: None,
            should_gen_req_info: None,
        };
        assert(router@.pre =~= Seq::empty());
        assert(router@.routes =~= Seq::empty());
        assert(router@.post =~= Seq::empty());
        assert(router@.scopes =~= Seq::empty());
        router
    }

    fn open_scope(
        self,
        parent: Option<usize>,
        data: DataMap<V>,
        err_handler: Option<ErrHandler<H>>,
    ) -> (router: Router<H, V>)
        requires
            self.is_plain(),
            parent matches Some(p) ==> p < self@.scopes.len(),
        ensures
            router.is_plain(),
            router@.scopes == self@.scopes.push(ScopeView { parent, data: data@ }),
            router@.err_handler == if self@.err_handler is None && err_handler is Some {
                Some((err_handler->0, self@.scopes.len() as usize))
            } else {
                self@.err_handler
            },
            router@ == (RouterView {
                scopes: router@.scopes,
                err_handler: router@.err_handler,
                ..self@
            }),
            router@.wf(),
    {
        proof {
            use_type_invariant(&self);
            use_type_invariant(&data);
        }
        let ghost before = self@;
        let mut scopes = self.scopes;
        let scope = scopes.len();
        scopes.push(Scope { parent, data });
        assert(scope_views(scopes@) =~= before.scopes.push(ScopeView { parent, data: data@ }));
        let handler = match self.err_handler {
            Some(h) => Some(h),
            None => match err_handler {
                Some(h) => Some((h, scope)),
                None => None,
            },
        };
        Router {
            pre_middlewares: self.pre_middlewares,
            routes: self.routes,
            post_middlewares: self.post_middlewares,
            scopes,
            err_handler: handler,
            sets: None,
            should_gen_req_info: None,
        }
    }

    fn push_pre(self, item: PreMiddleware<H>) -> (router: Router<H, V>)
        requires
            self.is_plain(),
            item@.scope < self@.scopes.len(),
        ensures
            router.is_plain(),
            router@ == (RouterView { pre: self@.pre.push(item@), ..self@ }),
            router@.wf(),
    {
        proof {
            use_type_invariant(&self);
        }
        let ghost before = self@;
        let mut items = self.pre_middlewares;
        items.push(item);
        assert(pre_views(items@) =~= before.pre.push(item@));
        Router {
            pre_middlewares: items,
            routes: self.routes,
            post_middlewares: self.post_middlewares,
            scopes: self.scopes,
            err_handler: self.err_handler,
            sets: None,
            should_gen_req_info: None,
        }
    }

    fn push_route(self, item: Route<H>) -> (router: Router<H, V>)
        requires
            self.is_plain(),
            item@.scope < self@.scopes.len(),
        ensures
            router.is_plain(),
            router@ == (RouterView { routes: self@.routes.push(item@), ..self@ }),
            router@.wf(),
    {
        proof {
            use_type_invariant(&self);
        }
        let ghost before = self@;
        let mut items = self.routes;
        items.push(item);
        assert(route_views(items@) =~= before.routes.push(item@));
        Router {
            pre_middlewares: self.pre_middlewares,
            routes: items,
            post_middlewares: self.post_middlewares,
            scopes: self.scopes,
            err_handler: self.err_handler,
            sets: None,
            should_gen_req_info: None,
        }
    }

    fn push_post(self, item: PostMiddleware<H>) -> (router: Router<H, V>)
        requires
            self.is_plain(),
            item@.scope < self@.scopes.len(),
        ensures
            router.is_plain(),
            router@ == (RouterView { post: self@.post.push(item@), ..self@ }),
            router@.wf(),
    {
        proof {
            use_type_invariant(&self);
        }
        let ghost before = self@;
        let mut items = self.post_middlewares;
        items.push(item);
        assert(post_views(items@) =~= before.post.push(item@));
        Router {
            pre_middlewares: self.pre_middlewares,
            routes: self.routes,
            post_middlewares: items,
            scopes: self.scopes,
            err_handler: self.err_handler,
            sets: None,
            should_gen_req_info: None,
        }
    }
}

/// The value that scope `scope` sees under `key`: its own, or else the
/// one that the scope it is nested in sees.
pub open spec fn scoped_value<V>(scopes: Seq<ScopeView<V>>, scope: int, key: u64) -> Option<V>
    decreases scope,
{
    if scope < 0 || scope >= scopes.len() {
        None
    } else {
        match crate::assoc::lookup(scopes[scope].data, key) {
            Some(value) => Some(value),
            None => match scopes[scope].parent {
                Some(parent) => if parent < scope {
                    scoped_value(scopes, parent as int, key)
                } else {
                    None
                },
                None => None,
            },
        }
    }
}

/// Whether the expression engine accepts the three pattern sets of a router.
pub open spec fn sets_compile<H, V>(router: RouterView<H, V>) -> bool {
    &&& set_compiles(sources_of(pre_paths(router.pre)))
    &&& set_compiles(sources_of(route_paths(router.routes)))
    &&& set_compiles(sources_of(post_paths(router.post)))
}

impl<H, V> Router<H, V> {
    /// Whether the pattern sets are compiled.
    pub closed spec fn has_sets(&self) -> bool {
        self.sets is Some
    }

    /// What the router knows of the need for request metadata.
    pub closed spec fn info_flag(&self) -> Option<bool> {
        self.should_gen_req_info
    }

    /// The pre-middleware, in the order in which they run.
    pub fn pre_middlewares(&self) -> (items: &Vec<PreMiddleware<H>>)
        ensures
            pre_views(items@) == self@.pre,
            self@.wf(),
    {
        proof {
            use_type_invariant(self);
        }
        &self.pre_middlewares
    }

    /// The routes, in the order in which they are tried.
    pub fn routes(&self) -> (items: &Vec<Route<H>>)
        ensures
            route_views(items@) == self@.routes,
            self@.wf(),
    {
        proof {
            use_type_invariant(self);
        }
        &self.routes
    }

    /// The post-middleware, in the order in which they run.
    pub fn post_middlewares(&self) -> (items: &Vec<PostMiddleware<H>>)
        ensures
            post_views(items@) == self@.post,
            self@.wf(),
    {
        proof {
            use_type_invariant(self);
        }
        &self.post_middlewares
    }

    /// The error handler in force, if one was registered.
    pub fn err_handler(&self) -> (handler: Option<&ErrHandler<H>>)
        ensures
            match handler {
                Some(h) => self@.err_handler matches Some(pair) && pair.0 == *h,
                None => self@.err_handler is None,
            },
    {
        match &self.err_handler {
            Some(pair) => Some(&pair.0),
            None => None,
        }
    }

    /// The scope whose data the error handler sees.
    pub fn err_handler_scope(&self) -> (scope: Option<usize>)
        ensures
            match scope {
                Some(s) => self@.err_handler matches Some(pair) && pair.1 == s && s
                    < self@.scopes.len(),
                None => self@.err_handler is None,
            },
    {
        proof {
            use_type_invariant(self);
        }
        match &self.err_handler {
            Some(pair) => Some(pair.1),
            None => None,
        }
    }

    /// The number of scopes: one for each router of the tree.
    pub fn scope_count(&self) -> (n: usize)
        ensures
            n == self@.scopes.len(),
    {
        self.scopes.len()
    }

    /// The value that a handler in scope `scope` sees under the type key
    /// `key`: the one registered nearest to it on the way up to the
    /// top-level router.
    pub fn data(&self, scope: usize, key: u64) -> (value: Option<&V>)
        ensures
            match value {
                Some(v) => scoped_value(self@.scopes, scope as int, key) == Some(*v),
                None => scoped_value(self@.scopes, scope as int, key) is None,
            },
    {
        proof {
            use_type_invariant(self);
        }
        if scope >= self.scopes.len() {
            return None;
        }
        let mut current = scope;
        loop
            invariant
                self@.wf(),
                current < self.scopes@.len(),
                scoped_value(self@.scopes, scope as int, key) == scoped_value(
                    self@.scopes,
                    current as int,
                    key,
                ),
            decreases current,
        {
            assert(self@.scopes[current as int] == self.scopes@[current as int]@);
            match self.scopes[current].data.get(key) {
                Some(value) => {
                    return Some(value);
                },
                None => {
                    match self.scopes[current].parent {
                        Some(parent) => {
                            current = parent;
                        },
                        None => {
                            return None;
                        },
                    }
                },
            }
        }
    }

    /// What the router knows of the need for request metadata: nothing
    /// before `init_req_info_gen`.
    pub fn should_gen_req_info(&self) -> (flag: Option<bool>)
        ensures
            flag == self.info_flag(),
            flag matches Some(needed) ==> needed == self@.needs_info(),
    {
        proof {
            use_type_invariant(self);
        }
        self.should_gen_req_info
    }

    fn pre_sources(&self) -> (sources: Vec<String>)
        ensures
            views_of(sources@) == sources_of(pre_paths(self@.pre)),
    {
        let mut sources: Vec<String> = Vec::new();
        let mut i: usize = 0;
        while i < self.pre_middlewares.len()
            invariant
                i <= self.pre_middlewares@.len(),
                sources@.len() == i,
                forall|k: int|
                    0 <= k < i ==> (#[trigger] sources@[k])@ == crate::pattern::pattern_source(
                        self.pre_middlewares@[k]@.path,
                    ),
            decreases self.pre_middlewares@.len() - i,
        {
            sources.push(String::from_str(self.pre_middlewares[i].pattern().source()));
            i += 1;
        }
        assert(views_of(sources@) =~= sources_of(pre_paths(self@.pre)));
        sources
    }

    fn route_sources(&self) -> (sources: Vec<String>)
        ensures
            views_of(sources@) == sources_of(route_paths(self@.routes)),
    {
        let mut sources: Vec<String> = Vec::new();
        let mut i: usize = 0;
        while i < self.routes.len()
            invariant
                i <= self.routes@.len(),
                sources@.len() == i,
                forall|k: int|
                    0 <= k < i ==> (#[trigger] sources@[k])@ == crate::pattern::pattern_source(
                        self.routes@[k]@.path,
                    ),
            decreases self.routes@.len() - i,
        {
            sources.push(String::from_str(self.routes[i].pattern().source()));
            i += 1;
        }
        assert(views_of(sources@) =~= sources_of(route_paths(self@.routes)));
        sources
    }

    fn post_sources(&self) -> (sources: Vec<String>)
        ensures
            views_of(sources@) == sources_of(post_paths(self@.post)),
    {
        let mut sources: Vec<String> = Vec::new();
        let mut i: usize = 0;
        while i < self.post_middlewares.len()
            invariant
                i <= self.post_middlewares@.len(),
                sources@.len() == i,
                forall|k: int|
                    0 <= k < i ==> (#[trigger] sources@[k])@ == crate::pattern::pattern_source(
                        self.post_middlewares@[k]@.path,
                    ),
            decreases self.post_middlewares@.len() - i,
        {
            sources.push(String::from_str(self.post_middlewares[i].pattern().source()));
            i += 1;
        }
        assert(views_of(sources@) =~= sources_of(post_paths(self@.post)));
        sources
    }

    /// Compiles the pattern sets: for each list of items, the expressions
    /// of the items together. Fails exactly where the engine refuses one
    /// of the three sets.
    pub fn init_regex_set(self) -> (r: Result<Router<H, V>, BuildError>)
        ensures
            r is Ok == sets_compile(self@),
            r matches Ok(router) ==> router@ == self@ && router.has_sets() && router.info_flag()
                == self.info_flag() && router.wf(),
            r matches Err(e) ==> e is PatternSet,
    {
        proof {
            use_type_invariant(&self);
        }
        let pre = match compile_set(&self.pre_sources()) {
            Ok(set) => set,
            Err(e) => {
                return Err(BuildError::PatternSet(message_of(&e)));
            },
        };
        let routes = match compile_set(&self.route_sources()) {
            Ok(set) => set,
            Err(e) => {
                return Err(BuildError::PatternSet(message_of(&e)));
            },
        };
        let post = match compile_set(&self.post_sources()) {
            Ok(set) => set,
            Err(e) => {
                return Err(BuildError::PatternSet(message_of(&e)));
            },
        };
        Ok(
            Router {
                pre_middlewares: self.pre_middlewares,
                routes: self.routes,
                post_middlewares: self.post_middlewares,
                scopes: self.scopes,
                err_handler: self.err_handler,
                sets: Some(PatternSets { pre, routes, post }),
                should_gen_req_info: self.should_gen_req_info,
            },
        )
    }

    /// Works out whether request metadata has to be gathered at all: it
    /// has where the error handler or a post-middleware takes it.
    pub fn init_req_info_gen(self) -> (router: Router<H, V>)
        ensures
            router@ == self@,
            router.has_sets() == self.has_sets(),
            router.info_flag() == Some(self@.needs_info()),
            router.wf(),
    {
        proof {
            use_type_invariant(&self);
        }
        let mut needed = match &self.err_handler {
            Some(pair) => match &pair.0 {
                ErrHandler::WithInfo(_) => true,
                ErrHandler::WithoutInfo(_) => false,
            },
            None => false,
        };
        let mut i: usize = 0;
        while i < self.post_middlewares.len() && !needed
            invariant
                i <= self.post_middlewares@.len(),
                needed ==> self@.needs_info(),
                !needed ==> !(self@.err_handler matches Some(h) && h.0 is WithInfo),
                !needed ==> forall|k: int|
                    0 <= k < i ==> !((#[trigger] self@.post[k]).handler is WithInfo),
            decreases self.post_middlewares@.len() - i,
        {
            if self.post_middlewares[i].should_require_req_meta() {
                assert(self@.post[i as int].handler is WithInfo);
                needed = true;
            }
            i += 1;
        }
        Router {
            pre_middlewares: self.pre_middlewares,
            routes: self.routes,
            post_middlewares: self.post_middlewares,
            scopes: self.scopes,
            err_handler: self.err_handler,
            sets: self.sets,
            should_gen_req_info: Some(needed),
        }
    }
}

impl<H, V> Router<H, V> {
    /// The pre-middleware whose pattern matches `target`.
    pub(crate) fn match_pre(&self, target: &str) -> (found: Vec<usize>)
        requires
            self.has_sets(),
        ensures
            found@ == matching(pre_paths(self@.pre), target@),
    {
        proof {
            use_type_invariant(self);
        }
        match &self.sets {
            Some(sets) => set_matches(&sets.pre, target),
            None => Vec::new(),
        }
    }

    /// The routes whose pattern matches `target`.
    pub(crate) fn match_routes(&self, target: &str) -> (found: Vec<usize>)
        requires
            self.has_sets(),
        ensures
            found@ == matching(route_paths(self@.routes), target@),
    {
        proof {
            use_type_invariant(self);
        }
        match &self.sets {
            Some(sets) => set_matches(&sets.routes, target),
            None => Vec::new(),
        }
    }

    /// The post-middleware whose pattern matches `target`.
    pub(crate) fn match_post(&self, target: &str) -> (found: Vec<usize>)
        requires
            self.has_sets(),
        ensures
            found@ == matching(post_paths(self@.post), target@),
    {
        proof {
            use_type_invariant(self);
        }
        match &self.sets {
            Some(sets) => set_matches(&sets.post, target),
            None => Vec::new(),
        }
    }
}

} // verus!
