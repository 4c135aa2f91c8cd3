//! Routes: a pattern, the methods it answers, and the handler to run.

use crate::error::{BuildError, ItemKind};
use crate::method::{contains_method, Method};
use crate::params::RouteParams;
use crate::pattern::{pattern_compiles, pattern_matches, pattern_params, PathPattern};
use crate::types::{RequestMeta, RequestMetaView};
use vstd::prelude::*;
use vstd::string::StringExecFns;

verus! {

/// What a route is, leaving the compiled expression aside.
pub struct RouteView<H> {
    pub path: Seq<char>,
    pub methods: Seq<Method>,
    pub handler: H,
    pub scope_depth: u32,
    pub scope: usize,
}

/// A single route. The handler is carried as it is given and never called
/// from here.
#[derive(Debug)]
pub struct Route<H> {
    pattern: PathPattern,
    methods: Vec<Method>,
    handler: H,
    scope_depth: u32,
    scope: usize,
}

impl<H> View for Route<H> {
    type V = RouteView<H>;

    closed spec fn view(&self) -> RouteView<H> {
        RouteView {
            path: self.pattern@,
            methods: self.methods@,
            handler: self.handler,
            scope_depth: self.scope_depth,
            scope: self.scope,
        }
    }
}

impl<H> Route<H> {
    /// Whether the route's pattern is a compiled pattern.
    #[verifier::type_invariant]
    pub closed spec fn wf(&self) -> bool {
        self.pattern.wf()
    }

    /// A route at the given nesting depth. Fails where the pattern does
    /// not compile, and reports the path and the cause.
    pub fn new_with_boxed_handler(
        path: &str,
        methods: Vec<Method>,
        handler: H,
        scope_depth: u32,
    ) -> (r: Result<Route<H>, BuildError>)
        ensures
            r is Ok == pattern_compiles(path@),
            r matches Ok(route) ==> route@ == (RouteView {
                path: path@,
                methods: methods@,
                handler,
                scope_depth,
                scope: 0,
            }) && route.wf(),
            r matches Err(e) ==> e.is_compile_failure(ItemKind::Route, path@),
    {
        match PathPattern::compile(path) {
            Ok(pattern) => Ok(Route { pattern, methods, handler, scope_depth, scope: 0 }),
            Err(cause) => Err(
                BuildError::Compile { item: ItemKind::Route, path: String::from_str(path), cause },
            ),
        }
    }

    /// A route of a top-level router: its nesting depth is 0.
    pub fn new(path: &str, methods: Vec<Method>, handler: H) -> (r: Result<Route<H>, BuildError>)
        ensures
            r is Ok == pattern_compiles(path@),
            r matches Ok(route) ==> route@ == (RouteView {
                path: path@,
                methods: methods@,
                handler,
                scope_depth: 0,
                scope: 0,
            }) && route.wf(),
            r matches Err(e) ==> e.is_compile_failure(ItemKind::Route, path@),
    {
        Route::new_with_boxed_handler(path, methods, handler, 0)
    }

    /// The pattern of a route compiles.
    pub proof fn lemma_compiles(self)
        requires
            self.wf(),
        ensures
            pattern_compiles(self@.path),
    {
        self.pattern.lemma_compiles();
    }

    /// The same route, placed in scope `scope`.
    pub(crate) fn in_scope(self, scope: usize) -> (route: Route<H>)
        ensures
            route@ == (RouteView { scope, ..self@ }),
            route.wf(),
    {
        proof {
            use_type_invariant(&self);
        }
        Route {
            pattern: self.pattern,
            methods: self.methods,
            handler: self.handler,
            scope_depth: self.scope_depth,
            scope,
        }
    }

    /// Takes the route apart into its path, methods, handler and depth.
    pub(crate) fn into_parts(self) -> (parts: (String, Vec<Method>, H, u32))
        ensures
            parts.0@ == self@.path,
            parts.1@ == self@.methods,
            parts.2 == self@.handler,
            parts.3 == self@.scope_depth,
            pattern_compiles(self@.path),
    {
        proof {
            use_type_invariant(&self);
        }
        let path = String::from_str(self.pattern.path());
        (path, self.methods, self.handler, self.scope_depth)
    }

    /// Whether the route's pattern matches the normalized request path.
    pub fn matches_path(&self, target: &str) -> (b: bool)
        ensures
            b == pattern_matches(self@.path, target@),
    {
        self.pattern.matches(target)
    }

    /// Whether the route answers `method`.
    pub fn is_match_method(&self, method: &Method) -> (b: bool)
        ensures
            b == self@.methods.contains(*method),
    {
        contains_method(&self.methods, *method)
    }

    /// The parameters that the route's pattern captures from the
    /// normalized request path.
    pub fn extract_params(&self, target: &str) -> (params: RouteParams)
        ensures
            params@ == pattern_params(self@.path, target@),
    {
        self.pattern.extract(target)
    }

    /// The metadata that the route adds to a request it matches: the
    /// parameters that its pattern captures from the normalized path.
    pub fn generate_req_meta(&self, target: &str) -> (meta: RequestMeta)
        ensures
            meta@ == (RequestMetaView {
                route_params: Some(pattern_params(self@.path, target@)),
                remote_addr: None,
            }),
    {
        RequestMeta::with_route_params(self.extract_params(target))
    }

    /// The text of the route's pattern.
    pub fn path(&self) -> (path: &str)
        ensures
            path@ == self@.path,
            pattern_compiles(self@.path),
    {
        self.pattern.path()
    }

    /// The route's compiled pattern.
    pub fn pattern(&self) -> (pattern: &PathPattern)
        ensures
            pattern@ == self@.path,
    {
        &self.pattern
    }

    /// The methods the route answers.
    pub fn methods(&self) -> (methods: &Vec<Method>)
        ensures
            methods@ == self@.methods,
    {
        &self.methods
    }

    /// The route's handler.
    pub fn handler(&self) -> (handler: &H)
        ensures
            *handler == self@.handler,
    {
        &self.handler
    }

    /// How many mounts lie between the route and the top-level router.
    pub fn scope_depth(&self) -> (depth: u32)
        ensures
            depth == self@.scope_depth,
    {
        self.scope_depth
    }

    /// The scope whose data the route's handler sees.
    pub fn scope(&self) -> (scope: usize)
        ensures
            scope == self@.scope,
    {
        self.scope
    }
}

} // verus!
