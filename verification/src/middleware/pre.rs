//! Pre-middleware: handlers that see the request before routing.

use crate::error::{BuildError, ItemKind};
use crate::pattern::{pattern_compiles, pattern_matches, PathPattern};
use vstd::prelude::*;
use vstd::string::StringExecFns;

verus! {

/// What a pre-middleware is, leaving the compiled expression aside.
pub struct PreMiddlewareView<H> {
    pub path: Seq<char>,
    pub handler: H,
    pub scope_depth: u32,
    pub scope: usize,
}

/// A pre-middleware: it runs, for every request whose path its pattern
/// matches, before the route is chosen, and may transform the request.
#[derive(Debug)]
pub struct PreMiddleware<H> {
    pattern: PathPattern,
    handler: H,
    scope_depth: u32,
    scope: usize,
}

impl<H> View for PreMiddleware<H> {
    type V = PreMiddlewareView<H>;

    closed spec fn view(&self) -> PreMiddlewareView<H> {
        PreMiddlewareView {
            path: self.pattern@,
            handler: self.handler,
            scope_depth: self.scope_depth,
            scope: self.scope,
        }
    }
}

impl<H> PreMiddleware<H> {
    /// Whether the middleware's pattern is a compiled pattern.
    #[verifier::type_invariant]
    pub closed spec fn wf(&self) -> bool {
        self.pattern.wf()
    }

    /// A pre-middleware at the given nesting depth. Fails where the
    /// pattern does not compile, and reports the path and the cause.
    pub fn new_with_boxed_handler(path: &str, handler: H, scope_depth: u32) -> (r: Result<
        PreMiddleware<H>,
        BuildError,
    >)
        ensures
            r is Ok == pattern_compiles(path@),
            r matches Ok(middleware) ==> middleware@ == (PreMiddlewareView {
                path: path@,
                handler,
                scope_depth,
                scope: 0,
            }) && middleware.wf(),
            r matches Err(e) ==> e.is_compile_failure(ItemKind::PreMiddleware, path@),
    {
        match PathPattern::compile(path) {
            Ok(pattern) => Ok(PreMiddleware { pattern, handler, scope_depth, scope: 0 }),
            Err(cause) => Err(
                BuildError::Compile {
                    item: ItemKind::PreMiddleware,
                    path: String::from_str(path),
                    cause,
                },
            ),
        }
    }

    /// A pre-middleware of a top-level router, with a handler at the
    /// given path.
    pub fn new(path: &str, handler: H) -> (r: Result<PreMiddleware<H>, BuildError>)
        ensures
            r is Ok == pattern_compiles(path@),
            r matches Ok(middleware) ==> middleware@ == (PreMiddlewareView {
                path: path@,
                handler,
                scope_depth: 0,
                scope: 0,
            }) && middleware.wf(),
            r matches Err(e) ==> e.is_compile_failure(ItemKind::PreMiddleware, path@),
    {
        PreMiddleware::new_with_boxed_handler(path, handler, 0)
    }

    /// The pattern of a middleware compiles.
    pub proof fn lemma_compiles(self)
        requires
            self.wf(),
        ensures
            pattern_compiles(self@.path),
    {
        self.pattern.lemma_compiles();
    }

    /// The same middleware, placed in scope `scope`.
    pub(crate) fn in_scope(self, scope: usize) -> (middleware: PreMiddleware<H>)
        ensures
            middleware@ == (PreMiddlewareView { scope, ..self@ }),
            middleware.wf(),
    {
        proof {
            use_type_invariant(&self);
        }
        PreMiddleware {
            pattern: self.pattern,
            handler: self.handler,
            scope_depth: self.scope_depth,
            scope,
        }
    }

    /// Takes the middleware apart into its path, handler and depth.
    pub(crate) fn into_parts(self) -> (parts: (String, H, u32))
        ensures
            parts.0@ == self@.path,
            parts.1 == self@.handler,
            parts.2 == self@.scope_depth,
            pattern_compiles(self@.path),
    {
        proof {
            use_type_invariant(&self);
        }
        let path = String::from_str(self.pattern.path());
        (path, self.handler, self.scope_depth)
    }

    /// Whether the middleware's pattern matches the normalized request path.
    pub fn matches_path(&self, target: &str) -> (b: bool)
        ensures
            b == pattern_matches(self@.path, target@),
    {
        self.pattern.matches(target)
    }

    /// The text of the middleware's pattern.
    pub fn path(&self) -> (path: &str)
        ensures
            path@ == self@.path,
            pattern_compiles(self@.path),
    {
        self.pattern.path()
    }

    /// The middleware's compiled pattern.
    pub fn pattern(&self) -> (pattern: &PathPattern)
        ensures
            pattern@ == self@.path,
    {
        &self.pattern
    }

    /// The middleware's handler.
    pub fn handler(&self) -> (handler: &H)
        ensures
            *handler == self@.handler,
    {
        &self.handler
    }

    /// How many mounts lie between the middleware and the top-level router.
    pub fn scope_depth(&self) -> (depth: u32)
        ensures
            depth == self@.scope_depth,
    {
        self.scope_depth
    }

    /// The scope whose data the middleware's handler sees.
    pub fn scope(&self) -> (scope: usize)
        ensures
            scope == self@.scope,
    {
        self.scope
    }
}

} // verus!
