//! What holds of every dispatch: which response a request gets where no
//! route answers it, in which order middleware run, and that a failure is
//! handed to the error handler once.

use crate::dispatch::{
    allowed, allowed_upto, candidates, entering_error, entering_post, entering_pre,
    first_answering, post_plan, pre_plan, resolution, started, stepped, Action, DispatchView,
    Event, Fallback, Phase, Resolution,
};
use crate::method::Method;
use crate::path::normalized;
use crate::pattern::pattern_matches;
use crate::route::RouteView;
use crate::router::{lemma_matching, post_paths, pre_paths, route_paths, RouterView};
use crate::types::RemoteAddr;
use vstd::prelude::*;

verus! {

/// The actions that the dispatcher answers a sequence of events with, one for
/// each event, the method of the request staying what it is.
pub open spec fn answers<H, V>(
    state: DispatchView<H, V>,
    events: Seq<Event>,
    method: Option<Method>,
) -> Seq<Action>
    decreases events.len(),
{
    if events.len() == 0 {
        Seq::empty()
    } else {
        seq![stepped(state, events[0], method).1] + answers(
            stepped(state, events[0], method).0,
            events.drop_first(),
            method,
        )
    }
}

/// The state that a sequence of events leads to.
pub open spec fn state_after<H, V>(
    state: DispatchView<H, V>,
    events: Seq<Event>,
    method: Option<Method>,
) -> DispatchView<H, V>
    decreases events.len(),
{
    if events.len() == 0 {
        state
    } else {
        state_after(stepped(state, events[0], method).0, events.drop_first(), method)
    }
}

/// Every action of a dispatch in the order in which the driver gets them:
/// the first one, and then the answer to each event.
pub open spec fn actions_of<H, V>(
    router: RouterView<H, V>,
    remote_addr: RemoteAddr,
    raw_path: Seq<char>,
    method: Option<Method>,
    events: Seq<Event>,
) -> Seq<Action> {
    seq![started(router, remote_addr, raw_path, method).1] + answers(
        started(router, remote_addr, raw_path, method).0,
        events,
        method,
    )
}

/// How many of the actions hand a failure to an error handler.
pub open spec fn error_actions(actions: Seq<Action>) -> nat
    decreases actions.len(),
{
    if actions.len() == 0 {
        0
    } else if actions[0].is_error_action() {
        error_actions(actions.drop_first()) + 1
    } else {
        error_actions(actions.drop_first())
    }
}

/// Whether the driver runs a handler or writes a fallback.
pub open spec fn is_active(phase: Phase) -> bool {
    phase is Pre || phase is Route || phase is Responding || phase is Post
}

/// A request whose path no route's pattern matches is answered with the
/// fallback `NotFound`, whose status is 404, whatever its method; and no
/// other request is.
pub proof fn lemma_no_route_is_not_found<H, V>(
    router: RouterView<H, V>,
    target: Seq<char>,
    method: Option<Method>,
)
    requires
        router.routes.len() <= usize::MAX,
    ensures
        (forall|i: int|
            0 <= i < router.routes.len() ==> !pattern_matches(
                (#[trigger] router.routes[i]).path,
                target,
            )) <==> resolution(router, target, method) == Resolution::Fallback(
            Fallback::NotFound,
        ),
        resolution(router, target, method) == Resolution::Fallback(Fallback::NotFound)
            ==> Fallback::NotFound.spec_status() == 404,
{
    let paths = route_paths(router.routes);
    let found = candidates(router, target);
    lemma_matching(paths, target);
    if forall|i: int|
        0 <= i < router.routes.len() ==> !pattern_matches(
            (#[trigger] router.routes[i]).path,
            target,
        ) {
        if found.len() > 0 {
            let i = found[0] as int;
            assert(pattern_matches(paths[i], target));
            assert(paths[i] == router.routes[i].path);
        }
    } else {
        let i = choose|i: int|
            0 <= i < router.routes.len() && pattern_matches(
                (#[trigger] router.routes[i]).path,
                target,
            );
        assert(paths[i] == router.routes[i].path);
        assert(found.contains(i as usize));
        assert(found.len() > 0);
    }
}

/// The route that `first_answering` finds is one of the candidates, it
/// answers the method, and no candidate before it does.
proof fn lemma_first_answering<H>(
    routes: Seq<RouteView<H>>,
    found: Seq<usize>,
    method: Method,
    from: int,
)
    requires
        0 <= from <= found.len(),
        forall|j: int| 0 <= j < found.len() ==> (#[trigger] found[j]) < routes.len(),
    ensures
        match first_answering(routes, found, method, from) {
            Some(index) => exists|k: int|
                from <= k < found.len() && found[k] == index && routes[index as int].methods.contains(
                    method,
                ) && forall|j: int|
                    from <= j < k ==> !routes[(#[trigger] found[j]) as int].methods.contains(method),
            None => forall|j: int|
                from <= j < found.len() ==> !routes[(#[trigger] found[j]) as int].methods.contains(
                    method,
                ),
        },
    decreases found.len() - from,
{
    if from < found.len() {
        if routes[found[from] as int].methods.contains(method) {
            assert(from <= from < found.len() && found[from] == found[from]);
        } else {
            lemma_first_answering(routes, found, method, from + 1);
            match first_answering(routes, found, method, from + 1) {
                Some(index) => {
                    let k = choose|k: int|
                        from + 1 <= k < found.len() && found[k] == index
                            && routes[index as int].methods.contains(method) && forall|j: int|
                            from + 1 <= j < k ==> !routes[(#[trigger] found[j]) as int].methods.contains(
                                method,
                            );
                    assert(from <= k < found.len() && found[k] == index);
                },
                None => {},
            }
        }
    }
}

/// A method is allowed exactly where one of the first `n` candidates
/// answers it.
proof fn lemma_allowed_upto<H>(routes: Seq<RouteView<H>>, found: Seq<usize>, n: int, m: Method)
    requires
        0 <= n <= found.len(),
        forall|j: int| 0 <= j < found.len() ==> (#[trigger] found[j]) < routes.len(),
    ensures
        allowed_upto(routes, found, n).has(m) <==> exists|k: int|
            0 <= k < n && routes[(#[trigger] found[k]) as int].methods.contains(m),
    decreases n,
{
    if n > 0 {
        lemma_allowed_upto(routes, found, n - 1, m);
        let before = allowed_upto(routes, found, n - 1);
        let methods = routes[found[n - 1] as int].methods;
        assert(before.spec_with_all(methods).has(m) == (before.has(m) || methods.contains(m)));
        if before.has(m) {
            let k = choose|k: int|
                0 <= k < n - 1 && routes[(#[trigger] found[k]) as int].methods.contains(m);
            assert(0 <= k < n && routes[found[k] as int].methods.contains(m));
        }
        if methods.contains(m) {
            assert(0 <= n - 1 < n && routes[found[n - 1] as int].methods.contains(m));
        }
        if exists|k: int| 0 <= k < n && routes[(#[trigger] found[k]) as int].methods.contains(m) {
            let k = choose|k: int|
                0 <= k < n && routes[(#[trigger] found[k]) as int].methods.contains(m);
            if k < n - 1 {
                assert(0 <= k < n - 1 && routes[found[k] as int].methods.contains(m));
            }
        }
    }
}

/// The methods that the routes matching a path answer are exactly those
/// of the set `allowed`, and so those that its canonical listing holds.
pub proof fn lemma_allowed_is_the_union<H, V>(
    router: RouterView<H, V>,
    target: Seq<char>,
    m: Method,
)
    requires
        router.routes.len() <= usize::MAX,
    ensures
        allowed(router.routes, candidates(router, target)).has(m) <==> exists|i: int|
            0 <= i < router.routes.len() && pattern_matches(
                (#[trigger] router.routes[i]).path,
                target,
            ) && router.routes[i].methods.contains(m),
        allowed(router.routes, candidates(router, target)).listed().contains(m) == allowed(
            router.routes,
            candidates(router, target),
        ).has(m),
{
    let paths = route_paths(router.routes);
    let found = candidates(router, target);
    lemma_matching(paths, target);
    lemma_allowed_upto(router.routes, found, found.len() as int, m);
    crate::method::lemma_listed(allowed(router.routes, found));
    if allowed(router.routes, found).has(m) {
        let k = choose|k: int|
            0 <= k < found.len() && router.routes[(#[trigger] found[k]) as int].methods.contains(m);
        let i = found[k] as int;
        assert(pattern_matches(paths[i], target));
        assert(paths[i] == router.routes[i].path);
    }
    if exists|i: int|
        0 <= i < router.routes.len() && pattern_matches(
            (#[trigger] router.routes[i]).path,
            target,
        ) && router.routes[i].methods.contains(m) {
        let i = choose|i: int|
            0 <= i < router.routes.len() && pattern_matches(
                (#[trigger] router.routes[i]).path,
                target,
            ) && router.routes[i].methods.contains(m);
        assert(paths[i] == router.routes[i].path);
        assert(found.contains(i as usize));
        let k = choose|k: int| 0 <= k < found.len() && found[k] == i as usize;
        assert(router.routes[found[k] as int].methods.contains(m));
    }
}

/// A request whose path some route's pattern matches, and whose method is
/// not `OPTIONS` and is answered by none of the matching routes, is
/// answered with the fallback `MethodNotAllowed`, whose status is 405, and
/// whose `allow` holds the methods that the matching routes answer.
pub proof fn lemma_method_not_allowed<H, V>(
    router: RouterView<H, V>,
    target: Seq<char>,
    method: Option<Method>,
)
    requires
        router.routes.len() <= usize::MAX,
        exists|i: int|
            0 <= i < router.routes.len() && pattern_matches(
                (#[trigger] router.routes[i]).path,
                target,
            ),
        method != Some(Method::Options),
        method matches Some(m) ==> forall|i: int|
            0 <= i < router.routes.len() && pattern_matches(
                (#[trigger] router.routes[i]).path,
                target,
            ) ==> !router.routes[i].methods.contains(m),
    ensures
        resolution(router, target, method) == Resolution::Fallback(
            Fallback::MethodNotAllowed {
                allow: allowed(router.routes, candidates(router, target)),
            },
        ),
        (Fallback::MethodNotAllowed {
            allow: allowed(router.routes, candidates(router, target)),
        }).spec_status() == 405,
{
    let paths = route_paths(router.routes);
    let found = candidates(router, target);
    lemma_matching(paths, target);
    let i = choose|i: int|
        0 <= i < router.routes.len() && pattern_matches((#[trigger] router.routes[i]).path, target);
    assert(paths[i] == router.routes[i].path);
    assert(found.contains(i as usize));
    if let Some(m) = method {
        lemma_first_answering(router.routes, found, m, 0);
        if first_answering(router.routes, found, m, 0) is Some {
            let index = first_answering(router.routes, found, m, 0)->0;
            let k = choose|k: int|
                0 <= k < found.len() && found[k] == index
                    && router.routes[index as int].methods.contains(m) && forall|j: int|
                    0 <= j < k ==> !router.routes[(#[trigger] found[j]) as int].methods.contains(m);
            assert(pattern_matches(paths[found[k] as int], target));
            assert(paths[index as int] == router.routes[index as int].path);
        }
    }
}

/// Of the routes that match the path and answer the method, the one
/// registered first handles the request.
pub proof fn lemma_first_registered_route_wins<H, V>(
    router: RouterView<H, V>,
    target: Seq<char>,
    m: Method,
    first: int,
)
    requires
        router.routes.len() <= usize::MAX,
        0 <= first < router.routes.len(),
        pattern_matches(router.routes[first].path, target),
        router.routes[first].methods.contains(m),
        forall|i: int|
            0 <= i < first ==> !(pattern_matches((#[trigger] router.routes[i]).path, target)
                && router.routes[i].methods.contains(m)),
    ensures
        resolution(router, target, Some(m)) == Resolution::Route(first as usize),
{
    let paths = route_paths(router.routes);
    let found = candidates(router, target);
    lemma_matching(paths, target);
    assert(paths[first] == router.routes[first].path);
    assert(found.contains(first as usize));
    let at = choose|k: int| 0 <= k < found.len() && found[k] == first as usize;
    lemma_first_answering(router.routes, found, m, 0);
    match first_answering(router.routes, found, m, 0) {
        Some(index) => {
            let k = choose|k: int|
                0 <= k < found.len() && found[k] == index
                    && router.routes[index as int].methods.contains(m) && forall|j: int|
                    0 <= j < k ==> !router.routes[(#[trigger] found[j]) as int].methods.contains(m);
            assert(pattern_matches(paths[found[k] as int], target));
            assert(paths[index as int] == router.routes[index as int].path);
            if index < first {
            } else if index > first {
                assert(found[at] < found[k]);
                if at < k {
                    assert(!router.routes[found[at] as int].methods.contains(m));
                } else if k < at {
                    assert(found[k] < found[at]);
                }
            }
        },
        None => {
            assert(!router.routes[found[at] as int].methods.contains(m));
        },
    }
}

/// What a single step does to the phase, and which kind of action it
/// answers with.
pub proof fn lemma_step<H, V>(state: DispatchView<H, V>, event: Event, method: Option<Method>)
    ensures
        stepped(state, event, method).0.router == state.router,
        stepped(state, event, method).0.target == state.target,
        !is_active(state.phase) ==> stepped(state, event, method).0.phase is Done && stepped(
            state,
            event,
            method,
        ).1 == Action::Finish,
        is_active(state.phase) && event is Failed ==> stepped(state, event, method).0.phase
            is Failed && stepped(state, event, method).1 == entering_error(state).1 && stepped(
            state,
            event,
            method,
        ).1.is_error_action(),
        is_active(state.phase) && event is Succeeded ==> !stepped(
            state,
            event,
            method,
        ).1.is_error_action() && (is_active(stepped(state, event, method).0.phase) || stepped(
            state,
            event,
            method,
        ).0.phase is Done),
{
}

/// Once the response is final or the error handler runs, every further
/// answer is `Finish`.
pub proof fn lemma_nothing_after_the_end<H, V>(
    state: DispatchView<H, V>,
    events: Seq<Event>,
    method: Option<Method>,
)
    requires
        !is_active(state.phase),
    ensures
        forall|i: int|
            0 <= i < events.len() ==> #[trigger] answers(state, events, method)[i]
                == Action::Finish,
        answers(state, events, method).len() == events.len(),
        error_actions(answers(state, events, method)) == 0,
    decreases events.len(),
{
    if events.len() > 0 {
        let next = stepped(state, events[0], method);
        lemma_step(state, events[0], method);
        lemma_nothing_after_the_end(next.0, events.drop_first(), method);
        let rest = answers(next.0, events.drop_first(), method);
        let all = answers(state, events, method);
        assert(all.drop_first() =~= rest);
        assert forall|i: int| 0 <= i < events.len() implies #[trigger] all[i]
            == Action::Finish by {
            if i > 0 {
                assert(all[i] == rest[i - 1]);
            }
        }
    }
}

/// In no dispatch does more than one action hand a failure to an error
/// handler, whatever the handlers do.
pub proof fn lemma_at_most_one_error_action<H, V>(
    router: RouterView<H, V>,
    remote_addr: RemoteAddr,
    raw_path: Seq<char>,
    method: Option<Method>,
    events: Seq<Event>,
)
    ensures
        error_actions(actions_of(router, remote_addr, raw_path, method, events)) <= 1,
        normalized(raw_path) is Err ==> error_actions(
            actions_of(router, remote_addr, raw_path, method, events),
        ) == 1 && actions_of(router, remote_addr, raw_path, method, events)[0].is_error_action(),
{
    let first = started(router, remote_addr, raw_path, method);
    let rest = answers(first.0, events, method);
    let all = actions_of(router, remote_addr, raw_path, method, events);
    assert(all.drop_first() =~= rest);
    lemma_errors_bounded(first.0, events, method);
    if normalized(raw_path) is Err {
        lemma_nothing_after_the_end(first.0, events, method);
    }
}

proof fn lemma_errors_bounded<H, V>(
    state: DispatchView<H, V>,
    events: Seq<Event>,
    method: Option<Method>,
)
    ensures
        error_actions(answers(state, events, method)) <= if is_active(state.phase) {
            1nat
        } else {
            0nat
        },
    decreases events.len(),
{
    if events.len() > 0 {
        let next = stepped(state, events[0], method);
        lemma_step(state, events[0], method);
        lemma_errors_bounded(next.0, events.drop_first(), method);
        let rest = answers(next.0, events.drop_first(), method);
        let all = answers(state, events, method);
        assert(all.drop_first() =~= rest);
    }
}

/// The first failure of a handler is handed to the error handler, once:
/// the answer to it is the action for the router's error handler, or the
/// default response with status 500 where the router has none; the answer
/// to whatever follows is `Finish`, so the error handler's response is the
/// final one; and no other action of the dispatch hands a failure over.
pub proof fn lemma_failure_is_handled_once<H, V>(
    state: DispatchView<H, V>,
    events: Seq<Event>,
    method: Option<Method>,
    k: int,
)
    requires
        0 <= k < events.len(),
        events[k] is Failed,
        forall|j: int| 0 <= j < k ==> (#[trigger] events[j]) is Succeeded,
        is_active(state_after(state, events.take(k), method).phase),
    ensures
        answers(state, events, method).len() == events.len(),
        answers(state, events, method)[k] == match state.router.err_handler {
            Some(handler) => Action::HandleError { with_info: handler.0 is WithInfo },
            None => Action::RespondWithError,
        },
        Action::RespondWithError.spec_status() == Some(500u16),
        forall|i: int|
            k < i < events.len() ==> #[trigger] answers(state, events, method)[i]
                == Action::Finish,
        error_actions(answers(state, events, method)) == 1,
    decreases k,
{
    let next = stepped(state, events[0], method);
    let rest = answers(next.0, events.drop_first(), method);
    let all = answers(state, events, method);
    assert(all.drop_first() =~= rest);
    lemma_step(state, events[0], method);
    lemma_one_answer_each(state, events, method);
    lemma_one_answer_each(next.0, events.drop_first(), method);
    if k == 0 {
        assert(events.take(0) =~= Seq::empty());
        lemma_nothing_after_the_end(next.0, events.drop_first(), method);
        assert forall|i: int| 0 < i < events.len() implies #[trigger] all[i]
            == Action::Finish by {
            assert(all[i] == rest[i - 1]);
        }
    } else {
        let tail = events.drop_first();
        assert(events[0] is Succeeded);
        assert(events.take(k).drop_first() =~= tail.take(k - 1));
        assert(events.take(k)[0] == events[0]);
        if !is_active(state.phase) {
            lemma_stays_ended(next.0, tail.take(k - 1), method);
        }
        assert forall|j: int| 0 <= j < k - 1 implies (#[trigger] tail[j]) is Succeeded by {
            assert(tail[j] == events[j + 1]);
        }
        lemma_failure_is_handled_once(next.0, tail, method, k - 1);
        assert(all[k] == rest[k - 1]);
        assert forall|i: int| k < i < events.len() implies #[trigger] all[i]
            == Action::Finish by {
            assert(all[i] == rest[i - 1]);
        }
    }
}

proof fn lemma_stays_ended<H, V>(
    state: DispatchView<H, V>,
    events: Seq<Event>,
    method: Option<Method>,
)
    requires
        !is_active(state.phase),
    ensures
        !is_active(state_after(state, events, method).phase),
    decreases events.len(),
{
    if events.len() > 0 {
        lemma_step(state, events[0], method);
        lemma_stays_ended(stepped(state, events[0], method).0, events.drop_first(), method);
    }
}

/// While every handler succeeds, no action hands anything to an error
/// handler.
pub proof fn lemma_no_failure_no_error_action<H, V>(
    state: DispatchView<H, V>,
    events: Seq<Event>,
    method: Option<Method>,
)
    requires
        forall|j: int| 0 <= j < events.len() ==> (#[trigger] events[j]) is Succeeded,
    ensures
        error_actions(answers(state, events, method)) == 0,
    decreases events.len(),
{
    if events.len() > 0 {
        let next = stepped(state, events[0], method);
        let tail = events.drop_first();
        lemma_step(state, events[0], method);
        assert(events[0] is Succeeded);
        assert forall|j: int| 0 <= j < tail.len() implies (#[trigger] tail[j]) is Succeeded by {
            assert(tail[j] == events[j + 1]);
        }
        lemma_no_failure_no_error_action(next.0, tail, method);
        let rest = answers(next.0, tail, method);
        let all = answers(state, events, method);
        assert(all.drop_first() =~= rest);
    }
}

/// The dispatcher answers every event with one action.
pub proof fn lemma_one_answer_each<H, V>(
    state: DispatchView<H, V>,
    events: Seq<Event>,
    method: Option<Method>,
)
    ensures
        answers(state, events, method).len() == events.len(),
    decreases events.len(),
{
    if events.len() > 0 {
        lemma_one_answer_each(stepped(state, events[0], method).0, events.drop_first(), method);
    }
}

proof fn lemma_pre_run<H, V>(
    state: DispatchView<H, V>,
    events: Seq<Event>,
    method: Option<Method>,
    i: int,
)
    requires
        state.phase is Pre,
        state.router.pre.len() <= usize::MAX,
        0 <= i < events.len(),
        state.cursor + 1 + i < pre_plan(state.router, state.target).len(),
        forall|j: int| 0 <= j <= i ==> (#[trigger] events[j]) is Succeeded,
    ensures
        answers(state, events, method)[i] == (Action::RunPreMiddleware {
            index: pre_plan(state.router, state.target)[state.cursor + 1 + i],
        }),
    decreases i,
{
    let plan = pre_plan(state.router, state.target);
    lemma_matching(pre_paths(state.router.pre), state.target);
    let next = stepped(state, events[0], method);
    let tail = events.drop_first();
    let rest = answers(next.0, tail, method);
    let all = answers(state, events, method);
    assert(events[0] is Succeeded);
    assert(next == entering_pre(state, state.cursor + 1, method));
    lemma_one_answer_each(state, events, method);
    lemma_one_answer_each(next.0, tail, method);
    if i > 0 {
        assert forall|j: int| 0 <= j <= i - 1 implies (#[trigger] tail[j]) is Succeeded by {
            assert(tail[j] == events[j + 1]);
        }
        lemma_pre_run(next.0, tail, method, i - 1);
        assert(all[i] == rest[i - 1]);
    }
}

/// Pre-middleware run one after the other in the order of registration:
/// while each succeeds, the action at position `k` of a dispatch is to run
/// the `k`-th of the pre-middleware whose pattern matches the path, and it
/// is the answer to the success of the one before.
pub proof fn lemma_pre_middleware_in_order<H, V>(
    router: RouterView<H, V>,
    remote_addr: RemoteAddr,
    raw_path: Seq<char>,
    method: Option<Method>,
    events: Seq<Event>,
    k: int,
)
    requires
        router.pre.len() <= usize::MAX,
        normalized(raw_path) is Ok,
        0 <= k < pre_plan(router, normalized(raw_path)->Ok_0).len(),
        k <= events.len(),
        forall|j: int| 0 <= j < k ==> (#[trigger] events[j]) is Succeeded,
    ensures
        actions_of(router, remote_addr, raw_path, method, events)[k] == (Action::RunPreMiddleware {
            index: pre_plan(router, normalized(raw_path)->Ok_0)[k],
        }),
        forall|j: int|
            0 <= j < k ==> pre_plan(router, normalized(raw_path)->Ok_0)[j] < pre_plan(
                router,
                normalized(raw_path)->Ok_0,
            )[k],
        forall|j: int|
            0 <= j < pre_plan(router, normalized(raw_path)->Ok_0).len() ==> pattern_matches(
                router.pre[(#[trigger] pre_plan(router, normalized(raw_path)->Ok_0)[j]) as int].path,
                normalized(raw_path)->Ok_0,
            ),
{
    let target = normalized(raw_path)->Ok_0;
    let plan = pre_plan(router, target);
    lemma_matching(pre_paths(router.pre), target);
    let first = started(router, remote_addr, raw_path, method);
    let all = actions_of(router, remote_addr, raw_path, method, events);
    lemma_one_answer_each(first.0, events, method);
    if k > 0 {
        lemma_pre_run(first.0, events, method, k - 1);
        assert(all[k] == answers(first.0, events, method)[k - 1]);
    }
    assert forall|j: int| 0 <= j < plan.len() implies pattern_matches(
        router.pre[(#[trigger] plan[j]) as int].path,
        target,
    ) by {
        assert(pre_paths(router.pre)[plan[j] as int] == router.pre[plan[j] as int].path);
    }
}

/// The action that begins the route phase.
pub open spec fn route_action<H, V>(
    router: RouterView<H, V>,
    target: Seq<char>,
    method: Option<Method>,
) -> Action {
    match resolution(router, target, method) {
        Resolution::Route(index) => Action::RunRoute { index },
        Resolution::Fallback(fallback) => Action::Respond { fallback },
    }
}

proof fn lemma_route_after_pre<H, V>(
    state: DispatchView<H, V>,
    events: Seq<Event>,
    method: Option<Method>,
    i: int,
)
    requires
        state.phase is Pre,
        state.router.pre.len() <= usize::MAX,
        0 <= i < events.len(),
        state.cursor + 1 + i == pre_plan(state.router, state.target).len(),
        forall|j: int| 0 <= j <= i ==> (#[trigger] events[j]) is Succeeded,
    ensures
        answers(state, events, method)[i] == route_action(state.router, state.target, method),
    decreases i,
{
    lemma_matching(pre_paths(state.router.pre), state.target);
    let next = stepped(state, events[0], method);
    let tail = events.drop_first();
    let rest = answers(next.0, tail, method);
    let all = answers(state, events, method);
    assert(events[0] is Succeeded);
    assert(next == entering_pre(state, state.cursor + 1, method));
    lemma_one_answer_each(state, events, method);
    lemma_one_answer_each(next.0, tail, method);
    if i > 0 {
        assert forall|j: int| 0 <= j <= i - 1 implies (#[trigger] tail[j]) is Succeeded by {
            assert(tail[j] == events[j + 1]);
        }
        lemma_route_after_pre(next.0, tail, method, i - 1);
        assert(all[i] == rest[i - 1]);
    }
}

/// When every pre-middleware of a request has succeeded, the next action
/// is that of the route phase: to run the route that `resolution` names,
/// or to write the fallback response that it names.
pub proof fn lemma_route_follows_pre_middleware<H, V>(
    router: RouterView<H, V>,
    remote_addr: RemoteAddr,
    raw_path: Seq<char>,
    method: Option<Method>,
    events: Seq<Event>,
)
    requires
        router.pre.len() <= usize::MAX,
        normalized(raw_path) is Ok,
        pre_plan(router, normalized(raw_path)->Ok_0).len() <= events.len(),
        forall|j: int|
            0 <= j < pre_plan(router, normalized(raw_path)->Ok_0).len() ==> (
            #[trigger] events[j]) is Succeeded,
    ensures
        actions_of(router, remote_addr, raw_path, method, events)[pre_plan(
            router,
            normalized(raw_path)->Ok_0,
        ).len() as int] == route_action(router, normalized(raw_path)->Ok_0, method),
{
    let target = normalized(raw_path)->Ok_0;
    let n = pre_plan(router, target).len() as int;
    let first = started(router, remote_addr, raw_path, method);
    let all = actions_of(router, remote_addr, raw_path, method, events);
    lemma_one_answer_each(first.0, events, method);
    if n > 0 {
        lemma_route_after_pre(first.0, events, method, n - 1);
        assert(all[n] == answers(first.0, events, method)[n - 1]);
    }
}

proof fn lemma_post_run<H, V>(
    state: DispatchView<H, V>,
    events: Seq<Event>,
    method: Option<Method>,
    i: int,
)
    requires
        state.phase is Post,
        state.router.post.len() <= usize::MAX,
        0 <= i < events.len(),
        state.cursor + 1 + i <= post_plan(state.router, state.target).len(),
        forall|j: int| 0 <= j <= i ==> (#[trigger] events[j]) is Succeeded,
    ensures
        answers(state, events, method)[i] == entering_post(state, state.cursor + 1 + i).1,
    decreases i,
{
    lemma_matching(post_paths(state.router.post), state.target);
    let next = stepped(state, events[0], method);
    let tail = events.drop_first();
    let rest = answers(next.0, tail, method);
    let all = answers(state, events, method);
    assert(events[0] is Succeeded);
    assert(next == entering_post(state, state.cursor + 1));
    lemma_one_answer_each(state, events, method);
    lemma_one_answer_each(next.0, tail, method);
    if i > 0 {
        assert forall|j: int| 0 <= j <= i - 1 implies (#[trigger] tail[j]) is Succeeded by {
            assert(tail[j] == events[j + 1]);
        }
        lemma_post_run(next.0, tail, method, i - 1);
        assert(all[i] == rest[i - 1]);
    }
}

/// Post-middleware run one after the other in the order of registration,
/// and the response is final when the last of them has succeeded: from a
/// state in which the route's handler or a fallback has just been asked
/// for, while everything succeeds, the answer at position `k` is to run the
/// `k`-th of the post-middleware whose pattern matches the path, and the
/// answer after the last of them is `Finish`.
pub proof fn lemma_post_middleware_in_order<H, V>(
    state: DispatchView<H, V>,
    events: Seq<Event>,
    method: Option<Method>,
    k: int,
)
    requires
        state.phase is Route || state.phase is Responding,
        state.router.post.len() <= usize::MAX,
        0 <= k < events.len(),
        k <= post_plan(state.router, state.target).len(),
        forall|j: int| 0 <= j <= k ==> (#[trigger] events[j]) is Succeeded,
    ensures
        k < post_plan(state.router, state.target).len() ==> answers(state, events, method)[k]
            == (Action::RunPostMiddleware {
            index: post_plan(state.router, state.target)[k],
            with_info: state.router.post[post_plan(state.router, state.target)[k] as int].handler
                is WithInfo,
        }),
        k == post_plan(state.router, state.target).len() ==> answers(state, events, method)[k]
            == Action::Finish,
        forall|j: int|
            0 <= j < k && k < post_plan(state.router, state.target).len() ==> post_plan(
                state.router,
                state.target,
            )[j] < post_plan(state.router, state.target)[k],
{
    lemma_matching(post_paths(state.router.post), state.target);
    let next = stepped(state, events[0], method);
    let tail = events.drop_first();
    assert(events[0] is Succeeded);
    lemma_one_answer_each(state, events, method);
    lemma_one_answer_each(next.0, tail, method);
    if k > 0 {
        assert forall|j: int| 0 <= j <= k - 1 implies (#[trigger] tail[j]) is Succeeded by {
            assert(tail[j] == events[j + 1]);
        }
        lemma_post_run(next.0, tail, method, k - 1);
        assert(answers(state, events, method)[k] == answers(next.0, tail, method)[k - 1]);
    }
}

} // verus!
