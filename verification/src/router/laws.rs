//! What holds of merged routers and of the data their scopes see.

use crate::middleware::post::PostMiddlewareView;
use crate::middleware::pre::PreMiddlewareView;
use crate::route::RouteView;
use crate::router::merge::{
    built, merged, merged_mounts, opened, placed_post, placed_pre, placed_routes, trimmed,
};
use crate::router::{empty_router, scoped_value, RouterBuilder, RouterView, ScopeView};
use vstd::prelude::*;

verus! {

/// A scope sees its own value where it has one, and otherwise what the
/// scope it is nested in sees: the nearest registration wins, and a value
/// registered further out stays visible where nothing nearer hides it.
pub proof fn lemma_nearest_value_wins<V>(scopes: Seq<ScopeView<V>>, scope: int, key: u64)
    requires
        0 <= scope < scopes.len(),
    ensures
        crate::assoc::lookup(scopes[scope].data, key) is Some ==> scoped_value(scopes, scope, key)
            == crate::assoc::lookup(scopes[scope].data, key),
        crate::assoc::lookup(scopes[scope].data, key) is None ==> scoped_value(scopes, scope, key)
            == match scopes[scope].parent {
            Some(parent) => if parent < scope {
                scoped_value(scopes, parent as int, key)
            } else {
                None
            },
            None => None,
        },
{
}

/// Whether `after` holds everything that `before` holds, at the same
/// positions.
pub open spec fn extends<H, V>(before: RouterView<H, V>, after: RouterView<H, V>) -> bool {
    &&& before.pre.len() <= after.pre.len()
    &&& forall|i: int| 0 <= i < before.pre.len() ==> #[trigger] after.pre[i] == before.pre[i]
    &&& before.routes.len() <= after.routes.len()
    &&& forall|i: int|
        0 <= i < before.routes.len() ==> #[trigger] after.routes[i] == before.routes[i]
    &&& before.post.len() <= after.post.len()
    &&& forall|i: int| 0 <= i < before.post.len() ==> #[trigger] after.post[i] == before.post[i]
    &&& before.scopes.len() <= after.scopes.len()
    &&& forall|i: int|
        0 <= i < before.scopes.len() ==> #[trigger] after.scopes[i] == before.scopes[i]
    &&& before.err_handler is Some ==> after.err_handler == before.err_handler
}

/// Placing pre-middleware adds them behind those there are, in order.
pub proof fn lemma_placed_pre<H>(
    items: Seq<PreMiddlewareView<H>>,
    prefix: Seq<char>,
    depth: int,
    scope: usize,
    acc: Seq<PreMiddlewareView<H>>,
)
    ensures
        placed_pre(items, prefix, depth, scope, acc) matches Ok(r) ==> {
            &&& r.len() == acc.len() + items.len()
            &&& forall|i: int| 0 <= i < acc.len() ==> #[trigger] r[i] == acc[i]
            &&& forall|k: int|
                0 <= k < items.len() ==> #[trigger] r[acc.len() + k] == (PreMiddlewareView {
                    path: prefix + items[k].path,
                    handler: items[k].handler,
                    scope_depth: (items[k].scope_depth + depth) as u32,
                    scope,
                })
        },
    decreases items.len(),
{
    if items.len() > 0 && placed_pre(items, prefix, depth, scope, acc) is Ok {
        let next = acc.push(
            PreMiddlewareView {
                path: prefix + items[0].path,
                handler: items[0].handler,
                scope_depth: (items[0].scope_depth + depth) as u32,
                scope,
            },
        );
        lemma_placed_pre(items.drop_first(), prefix, depth, scope, next);
        let r = placed_pre(items, prefix, depth, scope, acc)->Ok_0;
        assert forall|i: int| 0 <= i < acc.len() implies #[trigger] r[i] == acc[i] by {
            assert(next[i] == acc[i]);
        }
        assert forall|k: int| 0 <= k < items.len() implies #[trigger] r[acc.len() + k] == (
        PreMiddlewareView {
            path: prefix + items[k].path,
            handler: items[k].handler,
            scope_depth: (items[k].scope_depth + depth) as u32,
            scope,
        }) by {
            if k == 0 {
                assert(r[acc.len() as int] == next[acc.len() as int]);
            } else {
                assert(r[next.len() + (k - 1)] == r[acc.len() + k]);
                assert(items.drop_first()[k - 1] == items[k]);
            }
        }
    }
}

/// Placing routes adds them behind those there are, in order.
pub proof fn lemma_placed_routes<H>(
    items: Seq<RouteView<H>>,
    prefix: Seq<char>,
    depth: int,
    scope: usize,
    acc: Seq<RouteView<H>>,
)
    ensures
        placed_routes(items, prefix, depth, scope, acc) matches Ok(r) ==> {
            &&& r.len() == acc.len() + items.len()
            &&& forall|i: int| 0 <= i < acc.len() ==> #[trigger] r[i] == acc[i]
            &&& forall|k: int|
                0 <= k < items.len() ==> #[trigger] r[acc.len() + k] == (RouteView {
                    path: prefix + items[k].path,
                    methods: items[k].methods,
                    handler: items[k].handler,
                    scope_depth: (items[k].scope_depth + depth) as u32,
                    scope,
                })
        },
    decreases items.len(),
{
    if items.len() > 0 && placed_routes(items, prefix, depth, scope, acc) is Ok {
        let next = acc.push(
            RouteView {
                path: prefix + items[0].path,
                methods: items[0].methods,
                handler: items[0].handler,
                scope_depth: (items[0].scope_depth + depth) as u32,
                scope,
            },
        );
        lemma_placed_routes(items.drop_first(), prefix, depth, scope, next);
        let r = placed_routes(items, prefix, depth, scope, acc)->Ok_0;
        assert forall|i: int| 0 <= i < acc.len() implies #[trigger] r[i] == acc[i] by {
            assert(next[i] == acc[i]);
        }
        assert forall|k: int| 0 <= k < items.len() implies #[trigger] r[acc.len() + k] == (
        RouteView {
            path: prefix + items[k].path,
            methods: items[k].methods,
            handler: items[k].handler,
            scope_depth: (items[k].scope_depth + depth) as u32,
            scope,
        }) by {
            if k == 0 {
                assert(r[acc.len() as int] == next[acc.len() as int]);
            } else {
                assert(r[next.len() + (k - 1)] == r[acc.len() + k]);
                assert(items.drop_first()[k - 1] == items[k]);
            }
        }
    }
}

/// Placing post-middleware adds them behind those there are, in order.
pub proof fn lemma_placed_post<H>(
    items: Seq<PostMiddlewareView<H>>,
    prefix: Seq<char>,
    depth: int,
    scope: usize,
    acc: Seq<PostMiddlewareView<H>>,
)
    ensures
        placed_post(items, prefix, depth, scope, acc) matches Ok(r) ==> {
            &&& r.len() == acc.len() + items.len()
            &&& forall|i: int| 0 <= i < acc.len() ==> #[trigger] r[i] == acc[i]
            &&& forall|k: int|
                0 <= k < items.len() ==> #[trigger] r[acc.len() + k] == (PostMiddlewareView {
                    path: prefix + items[k].path,
                    handler: items[k].handler,
                    scope_depth: (items[k].scope_depth + depth) as u32,
                    scope,
                })
        },
    decreases items.len(),
{
    if items.len() > 0 && placed_post(items, prefix, depth, scope, acc) is Ok {
        let next = acc.push(
            PostMiddlewareView {
                path: prefix + items[0].path,
                handler: items[0].handler,
                scope_depth: (items[0].scope_depth + depth) as u32,
                scope,
            },
        );
        lemma_placed_post(items.drop_first(), prefix, depth, scope, next);
        let r = placed_post(items, prefix, depth, scope, acc)->Ok_0;
        assert forall|i: int| 0 <= i < acc.len() implies #[trigger] r[i] == acc[i] by {
            assert(next[i] == acc[i]);
        }
        assert forall|k: int| 0 <= k < items.len() implies #[trigger] r[acc.len() + k] == (
        PostMiddlewareView {
            path: prefix + items[k].path,
            handler: items[k].handler,
            scope_depth: (items[k].scope_depth + depth) as u32,
            scope,
        }) by {
            if k == 0 {
                assert(r[acc.len() as int] == next[acc.len() as int]);
            } else {
                assert(r[next.len() + (k - 1)] == r[acc.len() + k]);
                assert(items.drop_first()[k - 1] == items[k]);
            }
        }
    }
}

/// The flat router after the builder's scope is opened and its own items
/// are placed, before its mounts are merged.
pub open spec fn own_part<H, V>(
    builder: RouterBuilder<H, V>,
    prefix: Seq<char>,
    depth: int,
    parent: Option<usize>,
    acc: RouterView<H, V>,
) -> RouterView<H, V> {
    let scope = acc.scopes.len() as usize;
    let start = opened(builder@, parent, acc);
    RouterView {
        pre: placed_pre(builder@.pre, prefix, depth, scope, start.pre)->Ok_0,
        routes: placed_routes(builder@.routes, prefix, depth, scope, start.routes)->Ok_0,
        post: placed_post(builder@.post, prefix, depth, scope, start.post)->Ok_0,
        ..start
    }
}

/// Merging a router only adds to the flat router: what was there stays
/// where it was, an error handler that was there stays in force, the
/// router's scope is the next one, nested in `parent` and holding the
/// router's data, and the router's own routes follow the routes that were
/// there, with `prefix` before their paths, in that scope.
pub proof fn lemma_merged<H, V>(
    builder: RouterBuilder<H, V>,
    prefix: Seq<char>,
    depth: int,
    parent: Option<usize>,
    acc: RouterView<H, V>,
)
    requires
        acc.scopes.len() <= usize::MAX,
    ensures
        merged(builder, prefix, depth, parent, acc) matches Ok(view) ==> {
            &&& extends(acc, view)
            &&& merged(builder, prefix, depth, parent, acc) == merged_mounts(
                builder,
                0,
                prefix,
                depth,
                acc.scopes.len() as usize,
                own_part(builder, prefix, depth, parent, acc),
            )
            &&& extends(own_part(builder, prefix, depth, parent, acc), view)
            &&& view.scopes.len() > acc.scopes.len()
            &&& view.scopes[acc.scopes.len() as int] == (ScopeView {
                parent,
                data: builder@.data,
            })
            &&& view.routes.len() >= acc.routes.len() + builder@.routes.len()
            &&& forall|k: int|
                0 <= k < builder@.routes.len() ==> #[trigger] view.routes[acc.routes.len() + k]
                    == (RouteView {
                    path: prefix + builder@.routes[k].path,
                    methods: builder@.routes[k].methods,
                    handler: builder@.routes[k].handler,
                    scope_depth: (builder@.routes[k].scope_depth + depth) as u32,
                    scope: acc.scopes.len() as usize,
                })
        },
    decreases builder, builder@.mounts.len() + 1,
{
    if merged(builder, prefix, depth, parent, acc) is Ok {
        let view = merged(builder, prefix, depth, parent, acc)->Ok_0;
        let scope = acc.scopes.len() as usize;
        let start = opened(builder@, parent, acc);
        lemma_placed_pre(builder@.pre, prefix, depth, scope, start.pre);
        lemma_placed_routes(builder@.routes, prefix, depth, scope, start.routes);
        lemma_placed_post(builder@.post, prefix, depth, scope, start.post);
        let own = own_part(builder, prefix, depth, parent, acc);
        assert(extends(acc, own));
        lemma_merged_mounts(builder, 0, prefix, depth, scope, own);
        assert(own.scopes[acc.scopes.len() as int] == (ScopeView { parent, data: builder@.data }));
        assert forall|k: int| 0 <= k < builder@.routes.len() implies #[trigger] view.routes[acc.routes.len()
            + k] == (RouteView {
            path: prefix + builder@.routes[k].path,
            methods: builder@.routes[k].methods,
            handler: builder@.routes[k].handler,
            scope_depth: (builder@.routes[k].scope_depth + depth) as u32,
            scope,
        }) by {
            assert(view.routes[acc.routes.len() + k] == own.routes[acc.routes.len() + k]);
        }
    }
}

/// Merging the mounts of a router only adds to the flat router.
pub proof fn lemma_merged_mounts<H, V>(
    builder: RouterBuilder<H, V>,
    from: int,
    prefix: Seq<char>,
    depth: int,
    scope: usize,
    acc: RouterView<H, V>,
)
    requires
        0 <= from,
    ensures
        merged_mounts(builder, from, prefix, depth, scope, acc) matches Ok(view) ==> extends(
            acc,
            view,
        ),
    decreases builder, builder@.mounts.len() - from,
{
    if from < builder@.mounts.len() && merged_mounts(builder, from, prefix, depth, scope, acc)
        is Ok {
        let child = builder@.mounts[from].1;
        let inner = prefix + trimmed(builder@.mounts[from].0);
        let next = merged(child, inner, depth + 1, Some(scope), acc)->Ok_0;
        lemma_merged_grows(child, inner, depth + 1, Some(scope), acc);
        lemma_merged_mounts(builder, from + 1, prefix, depth, scope, next);
    }
}

/// As `lemma_merged`, of its first claim alone and without a bound on the
/// number of scopes.
proof fn lemma_merged_grows<H, V>(
    builder: RouterBuilder<H, V>,
    prefix: Seq<char>,
    depth: int,
    parent: Option<usize>,
    acc: RouterView<H, V>,
)
    ensures
        merged(builder, prefix, depth, parent, acc) matches Ok(view) ==> extends(acc, view),
    decreases builder, builder@.mounts.len() + 1,
{
    if merged(builder, prefix, depth, parent, acc) is Ok {
        let scope = acc.scopes.len() as usize;
        let start = opened(builder@, parent, acc);
        lemma_placed_pre(builder@.pre, prefix, depth, scope, start.pre);
        lemma_placed_routes(builder@.routes, prefix, depth, scope, start.routes);
        lemma_placed_post(builder@.post, prefix, depth, scope, start.post);
        let own = own_part(builder, prefix, depth, parent, acc);
        assert(extends(acc, own));
        lemma_merged_mounts(builder, 0, prefix, depth, scope, own);
    }
}

/// Where the mounts of a router are merged, each route of each mounted
/// router ends up in the flat router, with the prefixes before its path,
/// in a scope that is nested in the router's scope and holds the mounted
/// router's data. The result names the position of the route and the
/// scope.
pub proof fn lemma_mounted_route<H, V>(
    builder: RouterBuilder<H, V>,
    from: int,
    prefix: Seq<char>,
    depth: int,
    scope: usize,
    acc: RouterView<H, V>,
    mount: int,
    route: int,
) -> (at: (int, int))
    requires
        0 <= from <= mount < builder@.mounts.len(),
        0 <= route < builder@.mounts[mount].1@.routes.len(),
        merged_mounts(builder, from, prefix, depth, scope, acc) is Ok,
        merged_mounts(builder, from, prefix, depth, scope, acc)->Ok_0.scopes.len() <= usize::MAX,
    ensures
        ({
            let view = merged_mounts(builder, from, prefix, depth, scope, acc)->Ok_0;
            let child = builder@.mounts[mount].1;
            &&& 0 <= at.0 < view.routes.len()
            &&& acc.scopes.len() <= at.1 < view.scopes.len()
            &&& view.routes[at.0] == (RouteView {
                path: prefix + trimmed(builder@.mounts[mount].0) + child@.routes[route].path,
                methods: child@.routes[route].methods,
                handler: child@.routes[route].handler,
                scope_depth: (child@.routes[route].scope_depth + depth + 1) as u32,
                scope: at.1 as usize,
            })
            &&& view.scopes[at.1] == (ScopeView { parent: Some(scope), data: child@.data })
        }),
    decreases mount - from,
{
    let view = merged_mounts(builder, from, prefix, depth, scope, acc)->Ok_0;
    let first = builder@.mounts[from].1;
    let inner = prefix + trimmed(builder@.mounts[from].0);
    let next = merged(first, inner, depth + 1, Some(scope), acc)->Ok_0;
    lemma_merged_mounts(builder, from + 1, prefix, depth, scope, next);
    lemma_merged_grows(first, inner, depth + 1, Some(scope), acc);
    assert(extends(next, view));
    assert(extends(acc, next));
    if from == mount {
        lemma_merged(first, inner, depth + 1, Some(scope), acc);
        let position = acc.routes.len() + route;
        let opened_scope = acc.scopes.len() as int;
        assert(view.routes[position] == next.routes[position]);
        assert(view.scopes[opened_scope] == next.scopes[opened_scope]);
        (position, opened_scope)
    } else {
        let at = lemma_mounted_route(builder, from + 1, prefix, depth, scope, next, mount, route);
        at
    }
}

/// A handler of a mounted router sees the data of the router it is
/// mounted on, and its own router's data before it.
///
/// Where a tree of routers builds, every route of a router mounted on the
/// top-level router lies in the flat router in a scope of its own router.
/// Under every key that scope sees the value registered on the mounted
/// router where there is one, and otherwise the value registered on the
/// top-level router. The result names the position of the route.
pub proof fn lemma_child_sees_parent_data<H, V>(
    builder: RouterBuilder<H, V>,
    mount: int,
    route: int,
    key: u64,
) -> (at: int)
    requires
        built(builder) is Ok,
        built(builder)->Ok_0.scopes.len() <= usize::MAX,
        0 <= mount < builder@.mounts.len(),
        0 <= route < builder@.mounts[mount].1@.routes.len(),
    ensures
        ({
            let view = built(builder)->Ok_0;
            let child = builder@.mounts[mount].1;
            &&& 0 <= at < view.routes.len()
            &&& view.routes[at].handler == child@.routes[route].handler
            &&& view.routes[at].path == trimmed(builder@.mounts[mount].0)
                + child@.routes[route].path
            &&& scoped_value(view.scopes, view.routes[at].scope as int, key)
                == match crate::assoc::lookup(child@.data, key) {
                Some(value) => Some(value),
                None => crate::assoc::lookup(builder@.data, key),
            }
        }),
{
    let view = built(builder)->Ok_0;
    let child = builder@.mounts[mount].1;
    let nothing = empty_router::<H, V>();
    let prefix = Seq::<char>::empty();
    lemma_merged(builder, prefix, 0, None, nothing);
    let own = own_part(builder, prefix, 0, None, nothing);
    let found = lemma_mounted_route(builder, 0, prefix, 0, 0, own, mount, route);
    assert(prefix + trimmed(builder@.mounts[mount].0) + child@.routes[route].path =~= trimmed(
        builder@.mounts[mount].0,
    ) + child@.routes[route].path);
    let scope = found.1;
    assert(view.scopes[0] == (ScopeView { parent: None, data: builder@.data }));
    assert(own.scopes.len() >= 1);
    lemma_nearest_value_wins(view.scopes, scope, key);
    lemma_nearest_value_wins(view.scopes, 0, key);
    found.0
}

/// Everything that scope `scope` sees: its own data laid over what the
/// scope it is nested in sees.
pub open spec fn visible<V>(scopes: Seq<ScopeView<V>>, scope: int) -> Seq<(u64, V)>
    decreases scope,
{
    if scope < 0 || scope >= scopes.len() {
        Seq::empty()
    } else {
        match scopes[scope].parent {
            Some(parent) => if parent < scope {
                crate::assoc::overlaid(visible(scopes, parent as int), scopes[scope].data)
            } else {
                scopes[scope].data
            },
            None => scopes[scope].data,
        }
    }
}

/// Looking a key up scope by scope finds what the overlay of the scopes
/// holds: the data of a nested scope shadows the data further out, key by
/// key, and hides nothing else.
pub proof fn lemma_lookup_is_layered<V>(scopes: Seq<ScopeView<V>>, scope: int, key: u64)
    requires
        0 <= scope < scopes.len(),
        forall|s: int|
            0 <= s < scopes.len() ==> crate::assoc::distinct_keys((#[trigger] scopes[s]).data),
    ensures
        scoped_value(scopes, scope, key) == crate::assoc::lookup(visible(scopes, scope), key),
    decreases scope,
{
    match scopes[scope].parent {
        Some(parent) => {
            if parent < scope {
                lemma_lookup_is_layered(scopes, parent as int, key);
                crate::assoc::lemma_overlaid(
                    visible(scopes, parent as int),
                    scopes[scope].data,
                    key,
                );
            }
        },
        None => {},
    }
}

} // verus!
