//! Failures of pattern compilation, router construction and dispatch.

use vstd::prelude::*;

verus! {

/// Why a path pattern could not be compiled.
#[derive(Debug, PartialEq, Eq)]
pub enum CompileError {
    /// A `*` segment stands before the last segment of the pattern.
    WildcardNotLast,
    /// A segment consists of `:` alone: the parameter has no name.
    EmptyParamName,
    /// Two captures of the pattern carry the same name.
    DuplicateParam,
    /// The expression engine refused the expression generated for the
    /// pattern, with the message attached.
    Rejected(String),
}

/// The kind of registered item a failure is about.
#[derive(Clone, Copy, Debug, PartialEq, Eq, Structural)]
pub enum ItemKind {
    /// A route.
    Route,
    /// A pre-middleware.
    PreMiddleware,
    /// A post-middleware.
    PostMiddleware,
}

/// A failure raised while a router is put together.
#[derive(Debug, PartialEq, Eq)]
pub enum BuildError {
    /// The pattern of an item did not compile.
    Compile { item: ItemKind, path: String, cause: CompileError },
    /// Mounting would push an item's nesting depth past `u32::MAX`.
    ScopeTooDeep,
    /// The expression engine refused one of the router's pattern sets,
    /// with the message attached: the patterns of its pre-middleware, of
    /// its routes or of its post-middleware taken together.
    PatternSet(String),
}

impl BuildError {
    /// Whether this is the failure to compile the pattern `path` of an
    /// item of kind `kind`, for the cause that compiling it reports.
    pub open spec fn is_compile_failure(self, kind: ItemKind, path: Seq<char>) -> bool {
        self matches BuildError::Compile { item, path: failed, cause } && item == kind && failed@
            == path && crate::pattern::reports_failure(path, cause)
    }
}

/// A failure of the dispatch pipeline itself, not of a handler.
#[derive(Clone, Copy, Debug, PartialEq, Eq, Structural)]
pub enum DispatchError {
    /// The request path holds a `%` that two hexadecimal digits do not follow.
    MalformedPercentEncoding,
    /// The percent-decoded request path is not valid UTF-8.
    InvalidUtf8,
}

} // verus!
