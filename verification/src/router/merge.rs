//! The merge of a tree of routers into one flat router.

use crate::error::{BuildError, ItemKind};
use crate::middleware::post::{PostMiddleware, PostMiddlewareView};
use crate::middleware::pre::{PreMiddleware, PreMiddlewareView};
use crate::pattern::pattern_compiles;
use crate::route::{Route, RouteView};
use crate::router::{
    empty_router, post_views, pre_views, route_views, BuilderView, Router, RouterBuilder,
    RouterView, ScopeView,
};
use vstd::prelude::*;
use vstd::string::{StrSliceExecFns, StringExecFns};

verus! {

/// Why a tree of routers cannot be merged.
pub enum Failure {
    /// A registration on some router of the tree had failed before.
    Registered(BuildError),
    /// The pattern of an item of the given kind, with the prefixes of its
    /// mounts before it, does not compile.
    Pattern(ItemKind, Seq<char>),
    /// An item would lie deeper than `u32::MAX` mounts.
    TooDeep,
}

/// Whether the error `e` reports the failure `f`.
pub open spec fn reports(e: BuildError, f: Failure) -> bool {
    match f {
        Failure::Registered(registered) => e == registered,
        Failure::Pattern(kind, path) => e.is_compile_failure(kind, path),
        Failure::TooDeep => e == BuildError::ScopeTooDeep,
    }
}

/// The prefix of a mount as it is put before paths: one `/` at its end is
/// dropped.
pub open spec fn trimmed(prefix: Seq<char>) -> Seq<char> {
    if prefix.len() > 0 && prefix.last() == '/' {
        prefix.drop_last()
    } else {
        prefix
    }
}

/// The list `acc` with the pre-middleware `items` added in order, each
/// with `prefix` before its path, `depth` added to its depth, and placed
/// in scope `scope`; or the first failure on the way.
pub open spec fn placed_pre<H>(
    items: Seq<PreMiddlewareView<H>>,
    prefix: Seq<char>,
    depth: int,
    scope: usize,
    acc: Seq<PreMiddlewareView<H>>,
) -> Result<Seq<PreMiddlewareView<H>>, Failure>
    decreases items.len(),
{
    if items.len() == 0 {
        Ok(acc)
    } else if items[0].scope_depth + depth > u32::MAX {
        Err(Failure::TooDeep)
    } else if !pattern_compiles(prefix + items[0].path) {
        Err(Failure::Pattern(ItemKind::PreMiddleware, prefix + items[0].path))
    } else {
        placed_pre(
            items.drop_first(),
            prefix,
            depth,
            scope,
            acc.push(
                PreMiddlewareView {
                    path: prefix + items[0].path,
                    handler: items[0].handler,
                    scope_depth: (items[0].scope_depth + depth) as u32,
                    scope,
                },
            ),
        )
    }
}

/// As `placed_pre`, for routes.
pub open spec fn placed_routes<H>(
    items: Seq<RouteView<H>>,
    prefix: Seq<char>,
    depth: int,
    scope: usize,
    acc: Seq<RouteView<H>>,
) -> Result<Seq<RouteView<H>>, Failure>
    decreases items.len(),
{
    if items.len() == 0 {
        Ok(acc)
    } else if items[0].scope_depth + depth > u32::MAX {
        Err(Failure::TooDeep)
    } else if !pattern_compiles(prefix + items[0].path) {
        Err(Failure::Pattern(ItemKind::Route, prefix + items[0].path))
    } else {
        placed_routes(
            items.drop_first(),
            prefix,
            depth,
            scope,
            acc.push(
                RouteView {
                    path: prefix + items[0].path,
                    methods: items[0].methods,
                    handler: items[0].handler,
                    scope_depth: (items[0].scope_depth + depth) as u32,
                    scope,
                },
            ),
        )
    }
}

/// As `placed_pre`, for post-middleware.
pub open spec fn placed_post<H>(
    items: Seq<PostMiddlewareView<H>>,
    prefix: Seq<char>,
    depth: int,
    scope: usize,
    acc: Seq<PostMiddlewareView<H>>,
) -> Result<Seq<PostMiddlewareView<H>>, Failure>
    decreases items.len(),
{
    if items.len() == 0 {
        Ok(acc)
    } else if items[0].scope_depth + depth > u32::MAX {
        Err(Failure::TooDeep)
    } else if !pattern_compiles(prefix + items[0].path) {
        Err(Failure::Pattern(ItemKind::PostMiddleware, prefix + items[0].path))
    } else {
        placed_post(
            items.drop_first(),
            prefix,
            depth,
            scope,
            acc.push(
                PostMiddlewareView {
                    path: prefix + items[0].path,
                    handler: items[0].handler,
                    scope_depth: (items[0].scope_depth + depth) as u32,
                    scope,
                },
            ),
        )
    }
}

/// The flat router `acc` with a new scope for the router `builder`.
///
/// The scope is nested in `parent` and holds the builder's data. The
/// builder's error handler is taken where `acc` has none yet.
pub open spec fn opened<H, V>(
    builder: BuilderView<H, V>,
    parent: Option<usize>,
    acc: RouterView<H, V>,
) -> RouterView<H, V> {
    RouterView {
        scopes: acc.scopes.push(ScopeView { parent, data: builder.data }),
        err_handler: if acc.err_handler is None && builder.err_handler is Some {
            Some((builder.err_handler->0, acc.scopes.len() as usize))
        } else {
            acc.err_handler
        },
        ..acc
    }
}

/// The flat router `acc` with the whole tree under `builder` merged in.
///
/// The builder gets the next free scope. Its own items come first, in the
/// order pre-middleware, routes, post-middleware, each with `prefix`
/// before its path and `depth` added to its depth. The mounted routers
/// follow in the order of mounting, each merged in the same way one level
/// deeper, with the mount's prefix added to `prefix`. The first failure
/// in this order is the result where there is one.
pub open spec fn merged<H, V>(
    builder: RouterBuilder<H, V>,
    prefix: Seq<char>,
    depth: int,
    parent: Option<usize>,
    acc: RouterView<H, V>,
) -> Result<RouterView<H, V>, Failure>
    decreases builder, builder@.mounts.len() + 1,
{
    if builder@.failure is Some {
        Err(Failure::Registered(builder@.failure->0))
    } else {
        let scope = acc.scopes.len() as usize;
        let start = opened(builder@, parent, acc);
        match placed_pre(builder@.pre, prefix, depth, scope, start.pre) {
            Err(f) => Err(f),
            Ok(pre) => match placed_routes(builder@.routes, prefix, depth, scope, start.routes) {
                Err(f) => Err(f),
                Ok(routes) => match placed_post(
                    builder@.post,
                    prefix,
                    depth,
                    scope,
                    start.post,
                ) {
                    Err(f) => Err(f),
                    Ok(post) => merged_mounts(
                        builder,
                        0,
                        prefix,
                        depth,
                        scope,
                        RouterView { pre, routes, post, ..start },
                    ),
                },
            },
        }
    }
}

/// The flat router `acc` with the routers mounted on `builder` from
/// position `from` on merged in, one after the other.
pub open spec fn merged_mounts<H, V>(
    builder: RouterBuilder<H, V>,
    from: int,
    prefix: Seq<char>,
    depth: int,
    scope: usize,
    acc: RouterView<H, V>,
) -> Result<RouterView<H, V>, Failure>
    decreases builder, builder@.mounts.len() - from,
{
    if from < 0 || from >= builder@.mounts.len() {
        Ok(acc)
    } else if depth >= u32::MAX {
        Err(Failure::TooDeep)
    } else {
        match merged(
            builder@.mounts[from].1,
            prefix + trimmed(builder@.mounts[from].0),
            depth + 1,
            Some(scope),
            acc,
        ) {
            Err(f) => Err(f),
            Ok(next) => merged_mounts(builder, from + 1, prefix, depth, scope, next),
        }
    }
}

/// What `build` makes of a builder.
pub open spec fn built<H, V>(builder: RouterBuilder<H, V>) -> Result<RouterView<H, V>, Failure> {
    merged(builder, Seq::empty(), 0, None, empty_router())
}

/// The same elements in the opposite order.
fn reversed<T>(items: Vec<T>) -> (r: Vec<T>)
    ensures
        r@.len() == items@.len(),
        forall|k: int| 0 <= k < r@.len() ==> r@[k] == items@[items@.len() - 1 - k],
{
    let mut items = items;
    let ghost all = items@;
    let mut r: Vec<T> = Vec::new();
    while items.len() > 0
        invariant
            items@.len() + r@.len() == all.len(),
            forall|k: int| 0 <= k < items@.len() ==> items@[k] == all[k],
            forall|k: int| 0 <= k < r@.len() ==> r@[k] == all[all.len() - 1 - k],
        decreases items@.len(),
    {
        let x = items.pop().unwrap();
        r.push(x);
    }
    r
}

/// Adds the pre-middleware `items` to `out`, as `placed_pre` says.
fn place_pre<H, V>(
    items: Vec<PreMiddleware<H>>,
    prefix: &str,
    depth: u32,
    scope: usize,
    out: Router<H, V>,
) -> (r: Result<Router<H, V>, BuildError>)
    requires
        depth == 0 ==> prefix@.len() == 0,
        scope < out@.scopes.len(),
        out.is_plain(),
    ensures
        match placed_pre(pre_views(items@), prefix@, depth as int, scope, out@.pre) {
            Ok(pre) => r matches Ok(router) && router@ == (RouterView { pre, ..out@ })
                && router.is_plain(),
            Err(f) => r matches Err(e) && reports(e, f),
        },
{
    let ghost start = out@;
    let ghost goal = placed_pre(pre_views(items@), prefix@, depth as int, scope, out@.pre);
    let ghost mut pending = pre_views(items@);
    let mut rest = reversed(items);
    let mut acc = out;
    while rest.len() > 0
        invariant
            depth == 0 ==> prefix@.len() == 0,
            acc.is_plain(),
            scope < acc@.scopes.len(),
            start == out@,
            goal == placed_pre(pre_views(items@), prefix@, depth as int, scope, out@.pre),
            acc@ == (RouterView { pre: acc@.pre, ..start }),
            pending.len() == rest@.len(),
            forall|j: int| 0 <= j < rest@.len() ==> (#[trigger] rest@[j])@ == pending[pending.len() - 1 - j],
            goal == placed_pre(pending, prefix@, depth as int, scope, acc@.pre),
        decreases rest@.len(),
    {
        let ghost last = rest@.len() - 1;
        assert(rest@[last]@ == pending[0]);
        let item = rest.pop().unwrap();
        let ghost first = pending[0];
        proof {
            let shorter = pending.drop_first();
            assert forall|j: int| 0 <= j < rest@.len() implies (#[trigger] rest@[j])@
                == shorter[shorter.len() - 1 - j] by {
                assert(shorter[shorter.len() - 1 - j] == pending[pending.len() - 1 - j]);
            }
            pending = shorter;
        }
        if depth == 0 {
            proof {
                use_type_invariant(&item);
                item.lemma_compiles();
            }
            assert(prefix@ + first.path =~= first.path);
            acc = acc.push_pre(item.in_scope(scope));
        } else {
            let (path, handler, own) = item.into_parts();
            if own > u32::MAX - depth {
                return Err(BuildError::ScopeTooDeep);
            }
            let full = String::from_str(prefix).concat(path.as_str());
            match PreMiddleware::new_with_boxed_handler(full.as_str(), handler, own + depth) {
                Ok(placed) => {
                    acc = acc.push_pre(placed.in_scope(scope));
                },
                Err(e) => {
                    return Err(e);
                },
            }
        }
    }
    assert(pending =~= Seq::empty());
    Ok(acc)
}

/// Adds the routes `items` to `out`, as `placed_routes` says.
fn place_routes<H, V>(
    items: Vec<Route<H>>,
    prefix: &str,
    depth: u32,
    scope: usize,
    out: Router<H, V>,
) -> (r: Result<Router<H, V>, BuildError>)
    requires
        depth == 0 ==> prefix@.len() == 0,
        scope < out@.scopes.len(),
        out.is_plain(),
    ensures
        match placed_routes(route_views(items@), prefix@, depth as int, scope, out@.routes) {
            Ok(routes) => r matches Ok(router) && router@ == (RouterView { routes, ..out@ })
                && router.is_plain(),
            Err(f) => r matches Err(e) && reports(e, f),
        },
{
    let ghost start = out@;
    let ghost goal = placed_routes(route_views(items@), prefix@, depth as int, scope, out@.routes);
    let ghost mut pending = route_views(items@);
    let mut rest = reversed(items);
    let mut acc = out;
    while rest.len() > 0
        invariant
            depth == 0 ==> prefix@.len() == 0,
            acc.is_plain(),
            scope < acc@.scopes.len(),
            start == out@,
            goal == placed_routes(route_views(items@), prefix@, depth as int, scope, out@.routes),
            acc@ == (RouterView { routes: acc@.routes, ..start }),
            pending.len() == rest@.len(),
            forall|j: int| 0 <= j < rest@.len() ==> (#[trigger] rest@[j])@ == pending[pending.len() - 1 - j],
            goal == placed_routes(pending, prefix@, depth as int, scope, acc@.routes),
        decreases rest@.len(),
    {
        let ghost last = rest@.len() - 1;
        assert(rest@[last]@ == pending[0]);
        let item = rest.pop().unwrap();
        let ghost first = pending[0];
        proof {
            let shorter = pending.drop_first();
            assert forall|j: int| 0 <= j < rest@.len() implies (#[trigger] rest@[j])@
                == shorter[shorter.len() - 1 - j] by {
                assert(shorter[shorter.len() - 1 - j] == pending[pending.len() - 1 - j]);
            }
            pending = shorter;
        }
        if depth == 0 {
            proof {
                use_type_invariant(&item);
                item.lemma_compiles();
            }
            assert(prefix@ + first.path =~= first.path);
            acc = acc.push_route(item.in_scope(scope));
        } else {
            let (path, methods, handler, own) = item.into_parts();
            if own > u32::MAX - depth {
                return Err(BuildError::ScopeTooDeep);
            }
            let full = String::from_str(prefix).concat(path.as_str());
            match Route::new_with_boxed_handler(full.as_str(), methods, handler, own + depth) {
                Ok(placed) => {
                    acc = acc.push_route(placed.in_scope(scope));
                },
                Err(e) => {
                    return Err(e);
                },
            }
        }
    }
    assert(pending =~= Seq::empty());
    Ok(acc)
}

/// Adds the post-middleware `items` to `out`, as `placed_post` says.
fn place_post<H, V>(
    items: Vec<PostMiddleware<H>>,
    prefix: &str,
    depth: u32,
    scope: usize,
    out: Router<H, V>,
) -> (r: Result<Router<H, V>, BuildError>)
    requires
        depth == 0 ==> prefix@.len() == 0,
        scope < out@.scopes.len(),
        out.is_plain(),
    ensures
        match placed_post(post_views(items@), prefix@, depth as int, scope, out@.post) {
            Ok(post) => r matches Ok(router) && router@ == (RouterView { post, ..out@ })
                && router.is_plain(),
            Err(f) => r matches Err(e) && reports(e, f),
        },
{
    let ghost start = out@;
    let ghost goal = placed_post(post_views(items@), prefix@, depth as int, scope, out@.post);
    let ghost mut pending = post_views(items@);
    let mut rest = reversed(items);
    let mut acc = out;
    while rest.len() > 0
        invariant
            depth == 0 ==> prefix@.len() == 0,
            acc.is_plain(),
            scope < acc@.scopes.len(),
            start == out@,
            goal == placed_post(post_views(items@), prefix@, depth as int, scope, out@.post),
            acc@ == (RouterView { post: acc@.post, ..start }),
            pending.len() == rest@.len(),
            forall|j: int| 0 <= j < rest@.len() ==> (#[trigger] rest@[j])@ == pending[pending.len() - 1 - j],
            goal == placed_post(pending, prefix@, depth as int, scope, acc@.post),
        decreases rest@.len(),
    {
        let ghost last = rest@.len() - 1;
        assert(rest@[last]@ == pending[0]);
        let item = rest.pop().unwrap();
        let ghost first = pending[0];
        proof {
            let shorter = pending.drop_first();
            assert forall|j: int| 0 <= j < rest@.len() implies (#[trigger] rest@[j])@
                == shorter[shorter.len() - 1 - j] by {
                assert(shorter[shorter.len() - 1 - j] == pending[pending.len() - 1 - j]);
            }
            pending = shorter;
        }
        if depth == 0 {
            proof {
                use_type_invariant(&item);
                item.lemma_compiles();
            }
            assert(prefix@ + first.path =~= first.path);
            acc = acc.push_post(item.in_scope(scope));
        } else {
            let (path, handler, own) = item.into_parts();
            if own > u32::MAX - depth {
                return Err(BuildError::ScopeTooDeep);
            }
            let full = String::from_str(prefix).concat(path.as_str());
            match PostMiddleware::new_with_boxed_handler(full.as_str(), handler, own + depth) {
                Ok(placed) => {
                    acc = acc.push_post(placed.in_scope(scope));
                },
                Err(e) => {
                    return Err(e);
                },
            }
        }
    }
    assert(pending =~= Seq::empty());
    Ok(acc)
}

/// The prefix of a mount without one `/` at its end.
fn trim_prefix(prefix: &str) -> (r: &str)
    ensures
        r@ == trimmed(prefix@),
{
    let n = prefix.unicode_len();
    if n > 0 && prefix.get_char(n - 1) == '/' {
        let r = prefix.substring_char(0, n - 1);
        assert(prefix@.subrange(0, n - 1) =~= prefix@.drop_last());
        r
    } else {
        prefix
    }
}

/// Merges the tree under `builder` into `out`, as `merged` says.
fn merge<H, V>(
    builder: RouterBuilder<H, V>,
    prefix: &str,
    depth: u32,
    parent: Option<usize>,
    out: Router<H, V>,
) -> (r: Result<Router<H, V>, BuildError>)
    requires
        depth == 0 ==> prefix@.len() == 0,
        out.is_plain(),
        parent matches Some(p) ==> p < out@.scopes.len(),
    ensures
        match merged(builder, prefix@, depth as int, parent, out@) {
            Ok(view) => r matches Ok(router) && router@ == view && router.is_plain(),
            Err(f) => r matches Err(e) && reports(e, f),
        },
        r matches Ok(router) ==> router@.scopes.len() > out@.scopes.len(),
    decreases builder,
{
    let ghost goal = merged(builder, prefix@, depth as int, parent, out@);
    let ghost b = builder;
    if builder.failure.is_some() {
        return Err(builder.failure.unwrap());
    }
    let scope = out.scopes.len();
    let acc = out.open_scope(parent, builder.data, builder.err_handler);
    assert(acc@ == opened(b@, parent, out@));
    let acc = match place_pre(builder.pre_middlewares, prefix, depth, scope, acc) {
        Ok(next) => next,
        Err(e) => {
            return Err(e);
        },
    };
    let acc = match place_routes(builder.routes, prefix, depth, scope, acc) {
        Ok(next) => next,
        Err(e) => {
            return Err(e);
        },
    };
    let acc = match place_post(builder.post_middlewares, prefix, depth, scope, acc) {
        Ok(next) => next,
        Err(e) => {
            return Err(e);
        },
    };
    let mut acc = acc;
    let mut rest = reversed(builder.mounts);
    let ghost mut from: int = 0;
    while rest.len() > 0
        invariant
            acc.is_plain(),
            scope < acc@.scopes.len(),
            0 <= from <= b.mounts@.len(),
            rest@.len() == b.mounts@.len() - from,
            forall|j: int|
                0 <= j < rest@.len() ==> (#[trigger] rest@[j]) == b.mounts@[b.mounts@.len() - 1
                    - j],
            goal == merged_mounts(b, from, prefix@, depth as int, scope, acc@),
            goal == merged(b, prefix@, depth as int, parent, out@),
            b == builder,
        decreases rest@.len(),
    {
        let ghost last = rest@.len() - 1;
        assert(rest@[last] == b.mounts@[from]);
        let mount = rest.pop().unwrap();
        assert(b@.mounts[from] == (mount.prefix@, mount.router));
        if depth == u32::MAX {
            return Err(BuildError::ScopeTooDeep);
        }
        let full = String::from_str(prefix).concat(trim_prefix(mount.prefix.as_str()));
        assert(decreases_to!(b => b.mounts@[from].router)) by {
            assert(decreases_to!(b.mounts => b.mounts@[from]));
        }
        match merge(mount.router, full.as_str(), depth + 1, Some(scope), acc) {
            Ok(next) => {
                acc = next;
            },
            Err(e) => {
                return Err(e);
            },
        }
        proof {
            from = from + 1;
        }
    }
    Ok(acc)
}

impl<H, V> RouterBuilder<H, V> {
    /// Merges the tree of mounted routers into one flat router.
    ///
    /// Fails with the failure that a registration on some router of the
    /// tree had kept, with `Compile` where a pattern with the prefixes of
    /// its mounts before it does not compile, and with `ScopeTooDeep`
    /// where an item would lie deeper than `u32::MAX` mounts; of several
    /// failures, with the first in the order of merging.
    pub fn build(self) -> (r: Result<Router<H, V>, BuildError>)
        ensures
            match built(self) {
                Ok(view) => r matches Ok(router) && router@ == view && router.is_plain()
                    && router@.wf(),
                Err(f) => r matches Err(e) && reports(e, f),
            },
    {
        let empty = String::new();
        match merge(self, empty.as_str(), 0, None, Router::empty()) {
            Ok(router) => {
                proof {
                    use_type_invariant(&router);
                }
                Ok(router)
            },
            Err(e) => Err(e),
        }
    }
}

} // verus!
