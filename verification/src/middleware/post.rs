//! Post-middleware: handlers that see the response after routing.

use crate::error::{BuildError, ItemKind};
use crate::pattern::{pattern_compiles, pattern_matches, PathPattern};
use vstd::prelude::*;
use vstd::string::StringExecFns;

verus! {

/// The handler of a post-middleware, in one of its two forms.
#[derive(Debug)]
pub enum Handler<H> {
    /// The handler receives the response alone.
    WithoutInfo(H),
    /// The handler receives the response and the request's metadata.
    WithInfo(H),
}

/// What a post-middleware is, leaving the compiled expression aside.
pub struct PostMiddlewareView<H> {
    pub path: Seq<char>,
    pub handler: Handler<H>,
    pub scope_depth: u32,
    pub scope: usize,
}

/// A post-middleware: it runs, for every request whose path its pattern
/// matches, after the route's handler, and may transform the response.
#[derive(Debug)]
pub struct PostMiddleware<H> {
    pattern: PathPattern,
    handler: Handler<H>,
    scope_depth: u32,
    scope: usize,
}

impl<H> View for PostMiddleware<H> {
    type V = PostMiddlewareView<H>;

    closed spec fn view(&self) -> PostMiddlewareView<H> {
        PostMiddlewareView {
            path: self.pattern@,
            handler: self.handler,
            scope_depth: self.scope_depth,
            scope: self.scope,
        }
    }
}

impl<H> PostMiddleware<H> {
    /// Whether the middleware's pattern is a compiled pattern.
    #[verifier::type_invariant]
    pub closed spec fn wf(&self) -> bool {
        self.pattern.wf()
    }

    /// A post-middleware at the given nesting depth. Fails where the
    /// pattern does not compile, and reports the path and the cause.
    pub fn new_with_boxed_handler(path: &str, handler: Handler<H>, scope_depth: u32) -> (r: Result<
        PostMiddleware<H>,
        BuildError,
    >)
        ensures
            r is Ok == pattern_compiles(path@),
            r matches Ok(middleware) ==> middleware@ == (PostMiddlewareView {
                path: path@,
                handler,
                scope_depth,
                scope: 0,
            }) && middleware.wf(),
            r matches Err(e) ==> e.is_compile_failure(ItemKind::PostMiddleware, path@),
    {
        match PathPattern::compile(path) {
            Ok(pattern) => Ok(PostMiddleware { pattern, handler, scope_depth, scope: 0 }),
            Err(cause) => Err(
                BuildError::Compile {
                    item: ItemKind::PostMiddleware,
                    path: String::from_str(path),
                    cause,
                },
            ),
        }
    }

    /// A post-middleware of a top-level router, with a handler at the
    /// given path that receives the response alone.
    pub fn new(path: &str, handler: H) -> (r: Result<PostMiddleware<H>, BuildError>)
        ensures
            r is Ok == pattern_compiles(path@),
            r matches Ok(middleware) ==> middleware@ == (PostMiddlewareView {
                path: path@,
                handler: Handler::WithoutInfo(handler),
                scope_depth: 0,
                scope: 0,
            }) && middleware.wf(),
            r matches Err(e) ==> e.is_compile_failure(ItemKind::PostMiddleware, path@),
    {
        PostMiddleware::new_with_boxed_handler(path, Handler::WithoutInfo(handler), 0)
    }

    /// A post-middleware of a top-level router whose handler also receives
    /// the request's metadata: headers, method, address and the like.
    pub fn new_with_info(path: &str, handler: H) -> (r: Result<PostMiddleware<H>, BuildError>)
        ensures
            r is Ok == pattern_compiles(path@),
            r matches Ok(middleware) ==> middleware@ == (PostMiddlewareView {
                path: path@,
                handler: Handler::WithInfo(handler),
                scope_depth: 0,
                scope: 0,
            }) && middleware.wf(),
            r matches Err(e) ==> e.is_compile_failure(ItemKind::PostMiddleware, path@),
    {
        PostMiddleware::new_with_boxed_handler(path, Handler::WithInfo(handler), 0)
    }

    /// The pattern of a middleware compiles.
    pub proof fn lemma_compiles(self)
        requires
            self.wf(),
        ensures
            pattern_compiles(self@.path),
    {
        self.pattern.lemma_compiles();
    }

    /// The same middleware, placed in scope `scope`.
    pub(crate) fn in_scope(self, scope: usize) -> (middleware: PostMiddleware<H>)
        ensures
            middleware@ == (PostMiddlewareView { scope, ..self@ }),
            middleware.wf(),
    {
        proof {
            use_type_invariant(&self);
        }
        PostMiddleware {
            pattern: self.pattern,
            handler: self.handler,
            scope_depth: self.scope_depth,
            scope,
        }
    }

    /// Takes the middleware apart into its path, handler and depth.
    pub(crate) fn into_parts(self) -> (parts: (String, Handler<H>, u32))
        ensures
            parts.0@ == self@.path,
            parts.1 == self@.handler,
            parts.2 == self@.scope_depth,
            pattern_compiles(self@.path),
    {
        proof {
            use_type_invariant(&self);
        }
        let path = String::from_str(self.pattern.path());
        (path, self.handler, self.scope_depth)
    }

    /// Whether the handler needs the request's metadata.
    pub fn should_require_req_meta(&self) -> (needed: bool)
        ensures
            needed == self@.handler is WithInfo,
    {
        match &self.handler {
            Handler::WithInfo(_) => true,
            Handler::WithoutInfo(_) => false,
        }
    }

    /// Whether the middleware's pattern matches the normalized request path.
    pub fn matches_path(&self, target: &str) -> (b: bool)
        ensures
            b == pattern_matches(self@.path, target@),
    {
        self.pattern.matches(target)
    }

    /// The text of the middleware's pattern.
    pub fn path(&self) -> (path: &str)
        ensures
            path@ == self@.path,
            pattern_compiles(self@.path),
    {
        self.pattern.path()
    }

    /// The middleware's compiled pattern.
    pub fn pattern(&self) -> (pattern: &PathPattern)
        ensures
            pattern@ == self@.path,
    {
        &self.pattern
    }

    /// The middleware's handler, in the form it was registered in.
    pub fn handler(&self) -> (handler: &Handler<H>)
        ensures
            *handler == self@.handler,
    {
        &self.handler
    }

    /// How many mounts lie between the middleware and the top-level router.
    pub fn scope_depth(&self) -> (depth: u32)
        ensures
            depth == self@.scope_depth,
    {
        self.scope_depth
    }

    /// The scope whose data the middleware's handler sees.
    pub fn scope(&self) -> (scope: usize)
        ensures
            scope == self@.scope,
    {
        self.scope
    }
}

} // verus!
