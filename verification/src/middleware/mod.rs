//! Middleware of both kinds, and the paths they are attached at.

use crate::error::BuildError;
use crate::error::ItemKind;
use crate::middleware::post::{Handler, PostMiddleware, PostMiddlewareView};
use crate::middleware::pre::{PreMiddleware, PreMiddlewareView};
use crate::pattern::pattern_compiles;
use vstd::prelude::*;

pub mod post;
pub mod pre;

verus! {

/// The path that a middleware gets when none is given: it matches every
/// request path.
pub open spec fn catch_all() -> Seq<char> {
    "/*"@
}

/// A middleware of either kind.
#[derive(Debug)]
pub enum Middleware<H> {
    /// A pre-middleware.
    Pre(PreMiddleware<H>),
    /// A post-middleware.
    Post(PostMiddleware<H>),
}

impl<H> Middleware<H> {
    /// A pre-middleware with a handler at the path `/*`.
    pub fn pre(handler: H) -> (r: Result<Middleware<H>, BuildError>)
        ensures
            r is Ok == pattern_compiles(catch_all()),
            r matches Ok(m) ==> m matches Middleware::Pre(pre) && pre@ == (PreMiddlewareView {
                path: catch_all(),
                handler,
                scope_depth: 0,
                scope: 0,
            }),
            r matches Err(e) ==> e.is_compile_failure(ItemKind::PreMiddleware, catch_all()),
    {
        Middleware::pre_with_path("/*", handler)
    }

    /// A post-middleware with a handler at the path `/*`.
    pub fn post(handler: H) -> (r: Result<Middleware<H>, BuildError>)
        ensures
            r is Ok == pattern_compiles(catch_all()),
            r matches Ok(m) ==> m matches Middleware::Post(post) && post@ == (PostMiddlewareView {
                path: catch_all(),
                handler: Handler::WithoutInfo(handler),
                scope_depth: 0,
                scope: 0,
            }),
            r matches Err(e) ==> e.is_compile_failure(ItemKind::PostMiddleware, catch_all()),
    {
        Middleware::post_with_path("/*", handler)
    }

    /// A post-middleware at the path `/*` whose handler also receives the
    /// request's metadata.
    pub fn post_with_info(handler: H) -> (r: Result<Middleware<H>, BuildError>)
        ensures
            r is Ok == pattern_compiles(catch_all()),
            r matches Ok(m) ==> m matches Middleware::Post(post) && post@ == (PostMiddlewareView {
                path: catch_all(),
                handler: Handler::WithInfo(handler),
                scope_depth: 0,
                scope: 0,
            }),
            r matches Err(e) ==> e.is_compile_failure(ItemKind::PostMiddleware, catch_all()),
    {
        Middleware::post_with_info_with_path("/*", handler)
    }

    /// A pre-middleware with a handler at the given path.
    pub fn pre_with_path(path: &str, handler: H) -> (r: Result<Middleware<H>, BuildError>)
        ensures
            r is Ok == pattern_compiles(path@),
            r matches Ok(m) ==> m matches Middleware::Pre(pre) && pre@ == (PreMiddlewareView {
                path: path@,
                handler,
                scope_depth: 0,
                scope: 0,
            }),
            r matches Err(e) ==> e.is_compile_failure(ItemKind::PreMiddleware, path@),
    {
        match PreMiddleware::new(path, handler) {
            Ok(pre) => Ok(Middleware::Pre(pre)),
            Err(e) => Err(e),
        }
    }

    /// A post-middleware with a handler at the given path.
    pub fn post_with_path(path: &str, handler: H) -> (r: Result<Middleware<H>, BuildError>)
        ensures
            r is Ok == pattern_compiles(path@),
            r matches Ok(m) ==> m matches Middleware::Post(post) && post@ == (PostMiddlewareView {
                path: path@,
                handler: Handler::WithoutInfo(handler),
                scope_depth: 0,
                scope: 0,
            }),
            r matches Err(e) ==> e.is_compile_failure(ItemKind::PostMiddleware, path@),
    {
        match PostMiddleware::new(path, handler) {
            Ok(post) => Ok(Middleware::Post(post)),
            Err(e) => Err(e),
        }
    }

    /// A post-middleware at the given path whose handler also receives the
    /// request's metadata.
    pub fn post_with_info_with_path(path: &str, handler: H) -> (r: Result<
        Middleware<H>,
        BuildError,
    >)
        ensures
            r is Ok == pattern_compiles(path@),
            r matches Ok(m) ==> m matches Middleware::Post(post) && post@ == (PostMiddlewareView {
                path: path@,
                handler: Handler::WithInfo(handler),
                scope_depth: 0,
                scope: 0,
            }),
            r matches Err(e) ==> e.is_compile_failure(ItemKind::PostMiddleware, path@),
    {
        match PostMiddleware::new_with_info(path, handler) {
            Ok(post) => Ok(Middleware::Post(post)),
            Err(e) => Err(e),
        }
    }
}

} // verus!
