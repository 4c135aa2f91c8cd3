//! The dispatch of one request, as a state machine.
//!
//! The dispatcher does not run handlers. It says what is to be done next,
//! the driver does it and reports whether it succeeded, and the dispatcher
//! answers with the next thing to do, until it says `Finish`:
//!
//! 1. every pre-middleware whose pattern matches the path, in the order of
//!    registration;
//! 2. the first route whose pattern matches the path and which answers the
//!    request's method, or, where there is none, a fallback response;
//! 3. every post-middleware whose pattern matches the path, in the order
//!    of registration;
//! 4. after the first failure, the error handler and nothing else.

use crate::error::DispatchError;
use crate::method::{Method, MethodSet};
use crate::path::{normalize_path, normalized};
use crate::pattern::pattern_params;
use crate::route::{Route, RouteView};
use crate::router::{
    lemma_matching, matching, post_paths, pre_paths, route_paths, route_views, ErrHandler,
    Router, RouterView,
};
use crate::types::{RemoteAddr, RequestMeta, RequestMetaView};
use std::sync::Arc;
use vstd::prelude::*;

pub mod laws;

verus! {

/// What the driver is busy with.
#[derive(Clone, Copy, Debug, PartialEq, Eq, Structural)]
pub enum Phase {
    /// A pre-middleware runs.
    Pre,
    /// The handler of the matched route runs.
    Route,
    /// A fallback response is written, no route having been found.
    Responding,
    /// A post-middleware runs.
    Post,
    /// The error handler runs.
    Failed,
    /// The response is final.
    Done,
}

/// A response that the dispatcher asks for where no route answers.
#[derive(Clone, Copy, Debug, PartialEq, Eq, Structural)]
pub enum Fallback {
    /// No route's pattern matches the path.
    NotFound,
    /// Routes match the path, but none answers the method. `allow` holds
    /// the methods that the matching routes answer.
    MethodNotAllowed { allow: MethodSet },
    /// The method is `OPTIONS` and no matching route answers it: the
    /// response lists the methods that the matching routes answer.
    Options { allow: MethodSet },
}

/// What the driver is to do next.
#[derive(Clone, Copy, Debug, PartialEq, Eq, Structural)]
pub enum Action {
    /// Run the pre-middleware at `index` on the request.
    RunPreMiddleware { index: usize },
    /// Run the handler of the route at `index` on the request.
    RunRoute { index: usize },
    /// Write the fallback response.
    Respond { fallback: Fallback },
    /// Run the post-middleware at `index` on the response, with the
    /// request's metadata where `with_info` says so.
    RunPostMiddleware { index: usize, with_info: bool },
    /// Run the router's error handler on the failure, with the request's
    /// metadata where `with_info` says so. Its response is final.
    HandleError { with_info: bool },
    /// Write the default response to a failure, no error handler having
    /// been registered. It is final.
    RespondWithError,
    /// Send the response as it stands.
    Finish,
}

/// What became of the last action.
#[derive(Clone, Copy, Debug, PartialEq, Eq, Structural)]
pub enum Event {
    /// It was done.
    Succeeded,
    /// The handler returned an error.
    Failed,
}

/// What the route phase comes to.
#[derive(Clone, Copy, Debug, PartialEq, Eq, Structural)]
pub enum Resolution {
    /// The route at this position handles the request.
    Route(usize),
    /// No route does; the response is a fallback.
    Fallback(Fallback),
}

impl Fallback {
    /// The status code of the response.
    pub open spec fn spec_status(self) -> u16 {
        match self {
            Fallback::NotFound => 404,
            Fallback::MethodNotAllowed { .. } => 405,
            Fallback::Options { .. } => 204,
        }
    }

    /// The status code of the response: 404, 405 or 204.
    pub fn status(&self) -> (code: u16)
        ensures
            code == self.spec_status(),
    {
        match self {
            Fallback::NotFound => 404,
            Fallback::MethodNotAllowed { .. } => 405,
            Fallback::Options { .. } => 204,
        }
    }

    /// The methods to list in the `Allow` header of the response.
    pub fn allow(&self) -> (methods: Option<MethodSet>)
        ensures
            methods == match *self {
                Fallback::NotFound => None,
                Fallback::MethodNotAllowed { allow } => Some(allow),
                Fallback::Options { allow } => Some(allow),
            },
    {
        match self {
            Fallback::NotFound => None,
            Fallback::MethodNotAllowed { allow } => Some(*allow),
            Fallback::Options { allow } => Some(*allow),
        }
    }
}

/// The status code of the default response to a failure.
pub const DEFAULT_ERROR_STATUS: u16 = 500;

impl Action {
    /// The status code of the response that the dispatcher itself asks for.
    pub open spec fn spec_status(self) -> Option<u16> {
        match self {
            Action::Respond { fallback } => Some(fallback.spec_status()),
            Action::RespondWithError => Some(DEFAULT_ERROR_STATUS),
            _ => None,
        }
    }

    /// Whether the action hands the failure to an error handler, the
    /// registered one or the default.
    pub open spec fn is_error_action(self) -> bool {
        self is HandleError || self is RespondWithError
    }

    /// The status code of the response, where the action is to write one
    /// of the dispatcher's own: that of the fallback, or 500 for the default
    /// response to a failure.
    pub fn status(&self) -> (code: Option<u16>)
        ensures
            code == self.spec_status(),
    {
        match self {
            Action::Respond { fallback } => Some(fallback.status()),
            Action::RespondWithError => Some(DEFAULT_ERROR_STATUS),
            _ => None,
        }
    }
}

/// The methods that the first `n` of the candidate routes answer. A
/// candidate that is no position of `routes` answers none.
pub open spec fn allowed_upto<H>(routes: Seq<RouteView<H>>, candidates: Seq<usize>, n: int)
    -> MethodSet
    decreases n,
{
    if n <= 0 {
        MethodSet::spec_empty()
    } else if candidates[n - 1] < routes.len() {
        allowed_upto(routes, candidates, n - 1).spec_with_all(
            routes[candidates[n - 1] as int].methods,
        )
    } else {
        allowed_upto(routes, candidates, n - 1)
    }
}

/// The methods that the candidate routes answer, taken together.
pub open spec fn allowed<H>(routes: Seq<RouteView<H>>, candidates: Seq<usize>) -> MethodSet {
    allowed_upto(routes, candidates, candidates.len() as int)
}

/// The first candidate from position `from` on that answers `method`.
pub open spec fn first_answering<H>(
    routes: Seq<RouteView<H>>,
    candidates: Seq<usize>,
    method: Method,
    from: int,
) -> Option<usize>
    decreases candidates.len() - from,
{
    if from < 0 || from >= candidates.len() {
        None
    } else if candidates[from] < routes.len() && routes[candidates[from] as int].methods.contains(
        method,
    ) {
        Some(candidates[from])
    } else {
        first_answering(routes, candidates, method, from + 1)
    }
}

/// What the route phase comes to for the routes at the positions `found`,
/// in that order, and a method.
///
/// Without a candidate the response is 404. Otherwise the first candidate
/// that answers the method handles the request. Where none of them does,
/// the response lists the methods they answer: with 204 to `OPTIONS`, with
/// 405 to every other method and to a method that is not known here.
pub open spec fn resolved<H>(
    routes: Seq<RouteView<H>>,
    found: Seq<usize>,
    method: Option<Method>,
) -> Resolution {
    let allow = allowed(routes, found);
    if found.len() == 0 {
        Resolution::Fallback(Fallback::NotFound)
    } else {
        match method {
            None => Resolution::Fallback(Fallback::MethodNotAllowed { allow }),
            Some(m) => match first_answering(routes, found, m, 0) {
                Some(index) => Resolution::Route(index),
                None => if m == Method::Options {
                    Resolution::Fallback(Fallback::Options { allow })
                } else {
                    Resolution::Fallback(Fallback::MethodNotAllowed { allow })
                },
            },
        }
    }
}

/// The pre-middleware that run for `target`, in order.
pub open spec fn pre_plan<H, V>(router: RouterView<H, V>, target: Seq<char>) -> Seq<usize> {
    matching(pre_paths(router.pre), target)
}

/// The routes whose pattern matches `target`, in order.
pub open spec fn candidates<H, V>(router: RouterView<H, V>, target: Seq<char>) -> Seq<usize> {
    matching(route_paths(router.routes), target)
}

/// The post-middleware that run for `target`, in order.
pub open spec fn post_plan<H, V>(router: RouterView<H, V>, target: Seq<char>) -> Seq<usize> {
    matching(post_paths(router.post), target)
}

/// What the route phase comes to for a normalized path and a method: what
/// `resolved` says of the routes whose pattern matches the path.
pub open spec fn resolution<H, V>(
    router: RouterView<H, V>,
    target: Seq<char>,
    method: Option<Method>,
) -> Resolution {
    resolved(router.routes, candidates(router, target), method)
}

/// The state of the dispatch of one request.
pub struct DispatchView<H, V> {
    pub router: RouterView<H, V>,
    /// The normalized path; empty where the path has no normalized form.
    pub target: Seq<char>,
    pub phase: Phase,
    /// In the phases `Pre` and `Post`, the position in the plan of the
    /// middleware that runs.
    pub cursor: usize,
    /// The route that handles the request, once one is found.
    pub route: Option<usize>,
    pub meta: RequestMetaView,
    /// Why the path has no normalized form, where it has none.
    pub failure: Option<DispatchError>,
}

/// The post phase from position `from` of its plan on: the middleware at
/// that position runs, or the response is final.
pub open spec fn entering_post<H, V>(state: DispatchView<H, V>, from: int) -> (
    DispatchView<H, V>,
    Action,
) {
    let plan = post_plan(state.router, state.target);
    if 0 <= from < plan.len() {
        (
            DispatchView { phase: Phase::Post, cursor: from as usize, ..state },
            Action::RunPostMiddleware {
                index: plan[from],
                with_info: state.router.post[plan[from] as int].handler is WithInfo,
            },
        )
    } else {
        (DispatchView { phase: Phase::Done, cursor: 0, ..state }, Action::Finish)
    }
}

/// The route phase: the route that `resolution` names runs, with its
/// parameters recorded, or the fallback response is written.
pub open spec fn entering_route<H, V>(state: DispatchView<H, V>, method: Option<Method>) -> (
    DispatchView<H, V>,
    Action,
) {
    match resolution(state.router, state.target, method) {
        Resolution::Route(index) => (
            DispatchView {
                phase: Phase::Route,
                cursor: 0,
                route: Some(index),
                meta: RequestMetaView {
                    route_params: Some(
                        pattern_params(state.router.routes[index as int].path, state.target),
                    ),
                    ..state.meta
                },
                ..state
            },
            Action::RunRoute { index },
        ),
        Resolution::Fallback(fallback) => (
            DispatchView { phase: Phase::Responding, cursor: 0, ..state },
            Action::Respond { fallback },
        ),
    }
}

/// The pre phase from position `from` of its plan on: the middleware at
/// that position runs, or the route phase begins.
pub open spec fn entering_pre<H, V>(
    state: DispatchView<H, V>,
    from: int,
    method: Option<Method>,
) -> (DispatchView<H, V>, Action) {
    let plan = pre_plan(state.router, state.target);
    if 0 <= from < plan.len() {
        (
            DispatchView { phase: Phase::Pre, cursor: from as usize, ..state },
            Action::RunPreMiddleware { index: plan[from] },
        )
    } else {
        entering_route(state, method)
    }
}

/// The error phase: the registered error handler runs, or the default
/// response is written.
pub open spec fn entering_error<H, V>(state: DispatchView<H, V>) -> (DispatchView<H, V>, Action) {
    (
        DispatchView { phase: Phase::Failed, cursor: 0, ..state },
        match state.router.err_handler {
            Some(handler) => Action::HandleError { with_info: handler.0 is WithInfo },
            None => Action::RespondWithError,
        },
    )
}

/// The state and the action that follow `event`. `method` is the method of
/// the request as it stands; it counts when the route phase begins.
pub open spec fn stepped<H, V>(state: DispatchView<H, V>, event: Event, method: Option<Method>)
    -> (DispatchView<H, V>, Action) {
    match state.phase {
        Phase::Done | Phase::Failed => (
            DispatchView { phase: Phase::Done, cursor: 0, ..state },
            Action::Finish,
        ),
        Phase::Pre => if event is Failed {
            entering_error(state)
        } else {
            entering_pre(state, state.cursor + 1, method)
        },
        Phase::Route | Phase::Responding => if event is Failed {
            entering_error(state)
        } else {
            entering_post(state, 0)
        },
        Phase::Post => if event is Failed {
            entering_error(state)
        } else {
            entering_post(state, state.cursor + 1)
        },
    }
}

/// The state in which the dispatch of a request begins, and the first
/// action. A path that has no normalized form is a failure, and goes to
/// the error phase at once.
pub open spec fn started<H, V>(
    router: RouterView<H, V>,
    remote_addr: RemoteAddr,
    raw_path: Seq<char>,
    method: Option<Method>,
) -> (DispatchView<H, V>, Action) {
    let blank = DispatchView {
        router,
        target: Seq::empty(),
        phase: Phase::Pre,
        cursor: 0,
        route: None,
        meta: RequestMetaView { route_params: None, remote_addr: Some(remote_addr) },
        failure: None,
    };
    match normalized(raw_path) {
        Ok(target) => entering_pre(DispatchView { target, ..blank }, 0, method),
        Err(e) => entering_error(DispatchView { failure: Some(e), ..blank }),
    }
}

/// Chooses among the routes at the positions `found`, which are tried in
/// that order: the first that answers `method` handles the request, and
/// where none does the fallback says why. A position that `routes` does
/// not have is passed over.
pub fn resolve<H>(routes: &Vec<Route<H>>, found: &Vec<usize>, method: Option<Method>) -> (r:
    Resolution)
    ensures
        r == resolved(route_views(routes@), found@, method),
        r matches Resolution::Route(index) ==> index < routes@.len(),
{
    let ghost views = route_views(routes@);
    let n = found.len();
    if n == 0 {
        return Resolution::Fallback(Fallback::NotFound);
    }
    if let Some(m) = method {
        let mut k: usize = 0;
        while k < n
            invariant
                k <= n,
                0 < n == found@.len(),
                method == Some(m),
                views == route_views(routes@),
                first_answering(views, found@, m, 0) == first_answering(views, found@, m, k as int),
            decreases n - k,
        {
            let index = found[k];
            if index < routes.len() {
                assert(views[index as int] == routes@[index as int]@);
                if routes[index].is_match_method(&m) {
                    return Resolution::Route(index);
                }
            }
            k += 1;
        }
    }
    let mut allow = MethodSet::empty();
    let mut k: usize = 0;
    while k < n
        invariant
            k <= n,
            n == found@.len(),
            views == route_views(routes@),
            allow == allowed_upto(views, found@, k as int),
        decreases n - k,
    {
        let index = found[k];
        if index < routes.len() {
            assert(views[index as int] == routes@[index as int]@);
            allow = allow.with_all(routes[index].methods());
        }
        k += 1;
    }
    match method {
        Some(Method::Options) => Resolution::Fallback(Fallback::Options { allow }),
        _ => Resolution::Fallback(Fallback::MethodNotAllowed { allow }),
    }
}

/// The dispatch of one request.
#[derive(Debug)]
pub struct Dispatch<H, V> {
    router: Arc<Router<H, V>>,
    path: String,
    pre: Vec<usize>,
    found: Vec<usize>,
    post: Vec<usize>,
    phase: Phase,
    cursor: usize,
    route: Option<usize>,
    meta: RequestMeta,
    failure: Option<DispatchError>,
}

impl<H, V> View for Dispatch<H, V> {
    type V = DispatchView<H, V>;

    closed spec fn view(&self) -> DispatchView<H, V> {
        DispatchView {
            router: self.router@,
            target: self.path@,
            phase: self.phase,
            cursor: self.cursor,
            route: self.route,
            meta: self.meta@,
            failure: self.failure,
        }
    }
}

impl<H, V> Dispatch<H, V> {
    /// What holds of every dispatch: its router is ready, its plans are
    /// those of its path, and its cursor points into the plan of its phase.
    #[verifier::type_invariant]
    pub closed spec fn wf(&self) -> bool {
        &&& self.router.is_ready()
        &&& self.router.wf()
        &&& self.failure is None ==> {
            &&& self.pre@ == pre_plan(self.router@, self.path@)
            &&& self.found@ == candidates(self.router@, self.path@)
            &&& self.post@ == post_plan(self.router@, self.path@)
        }
        &&& self.failure is Some ==> self.phase is Failed || self.phase is Done
        &&& self.phase is Pre ==> self.cursor < self.pre@.len()
        &&& self.phase is Post ==> self.cursor < self.post@.len()
    }

    /// Begins the dispatch of a request.
    pub(crate) fn begin(
        router: Arc<Router<H, V>>,
        remote_addr: RemoteAddr,
        raw_path: &str,
        method: Option<Method>,
    ) -> (r: (Dispatch<H, V>, Action))
        requires
            router.is_ready(),
            router.wf(),
        ensures
            (r.0@, r.1) == started(router@, remote_addr, raw_path@, method),
    {
        let meta = RequestMeta::with_remote_addr(remote_addr);
        match normalize_path(raw_path) {
            Ok(path) => {
                let pre = router.match_pre(path.as_str());
                let found = router.match_routes(path.as_str());
                let post = router.match_post(path.as_str());
                let carrier = Dispatch {
                    router,
                    path,
                    pre,
                    found,
                    post,
                    phase: Phase::Route,
                    cursor: 0,
                    route: None,
                    meta,
                    failure: None,
                };
                carrier.enter_pre(0, method)
            },
            Err(e) => {
                let carrier = Dispatch {
                    router,
                    path: String::new(),
                    pre: Vec::new(),
                    found: Vec::new(),
                    post: Vec::new(),
                    phase: Phase::Failed,
                    cursor: 0,
                    route: None,
                    meta,
                    failure: Some(e),
                };
                carrier.enter_error()
            },
        }
    }

    /// What the route phase comes to for the method `method`.
    fn resolve(&self, method: Option<Method>) -> (r: Resolution)
        requires
            self@.failure is None,
        ensures
            r == resolution(self@.router, self@.target, method),
            r matches Resolution::Route(index) ==> index < self@.router.routes.len(),
    {
        proof {
            use_type_invariant(self);
        }
        resolve(self.router.routes(), &self.found, method)
    }

    fn enter_error(self) -> (r: (Dispatch<H, V>, Action))
        ensures
            (r.0@, r.1) == entering_error(self@),
    {
        proof {
            use_type_invariant(&self);
        }
        let action = match self.router.err_handler() {
            Some(handler) => match handler {
                ErrHandler::WithInfo(_) => Action::HandleError { with_info: true },
                ErrHandler::WithoutInfo(_) => Action::HandleError { with_info: false },
            },
            None => Action::RespondWithError,
        };
        (
            Dispatch {
                router: self.router,
                path: self.path,
                pre: self.pre,
                found: self.found,
                post: self.post,
                phase: Phase::Failed,
                cursor: 0,
                route: self.route,
                meta: self.meta,
                failure: self.failure,
            },
            action,
        )
    }

    fn enter_post(self, from: usize) -> (r: (Dispatch<H, V>, Action))
        requires
            self@.failure is None,
        ensures
            (r.0@, r.1) == entering_post(self@, from as int),
    {
        proof {
            use_type_invariant(&self);
        }
        if from < self.post.len() {
            let index = self.post[from];
            let items = self.router.post_middlewares();
            proof {
                assert(post_paths(self@.router.post).len() == items.len());
                lemma_matching(post_paths(self@.router.post), self@.target);
            }
            assert(self@.router.post[index as int] == items@[index as int]@);
            let with_info = items[index].should_require_req_meta();
            (
                Dispatch {
                    router: self.router,
                    path: self.path,
                    pre: self.pre,
                    found: self.found,
                    post: self.post,
                    phase: Phase::Post,
                    cursor: from,
                    route: self.route,
                    meta: self.meta,
                    failure: self.failure,
                },
                Action::RunPostMiddleware { index, with_info },
            )
        } else {
            (
                Dispatch {
                    router: self.router,
                    path: self.path,
                    pre: self.pre,
                    found: self.found,
                    post: self.post,
                    phase: Phase::Done,
                    cursor: 0,
                    route: self.route,
                    meta: self.meta,
                    failure: self.failure,
                },
                Action::Finish,
            )
        }
    }

    fn enter_route(self, method: Option<Method>) -> (r: (Dispatch<H, V>, Action))
        requires
            self@.failure is None,
        ensures
            (r.0@, r.1) == entering_route(self@, method),
    {
        proof {
            use_type_invariant(&self);
        }
        match self.resolve(method) {
            Resolution::Route(index) => {
                let routes = self.router.routes();
                assert(self@.router.routes[index as int] == routes@[index as int]@);
                let found = routes[index].generate_req_meta(self.path.as_str());
                let meta = self.meta.extend(found);
                (
                    Dispatch {
                        router: self.router,
                        path: self.path,
                        pre: self.pre,
                        found: self.found,
                        post: self.post,
                        phase: Phase::Route,
                        cursor: 0,
                        route: Some(index),
                        meta,
                        failure: self.failure,
                    },
                    Action::RunRoute { index },
                )
            },
            Resolution::Fallback(fallback) => (
                Dispatch {
                    router: self.router,
                    path: self.path,
                    pre: self.pre,
                    found: self.found,
                    post: self.post,
                    phase: Phase::Responding,
                    cursor: 0,
                    route: self.route,
                    meta: self.meta,
                    failure: self.failure,
                },
                Action::Respond { fallback },
            ),
        }
    }

    fn enter_pre(self, from: usize, method: Option<Method>) -> (r: (Dispatch<H, V>, Action))
        requires
            self@.failure is None,
        ensures
            (r.0@, r.1) == entering_pre(self@, from as int, method),
    {
        proof {
            use_type_invariant(&self);
        }
        if from < self.pre.len() {
            let index = self.pre[from];
            (
                Dispatch {
                    router: self.router,
                    path: self.path,
                    pre: self.pre,
                    found: self.found,
                    post: self.post,
                    phase: Phase::Pre,
                    cursor: from,
                    route: self.route,
                    meta: self.meta,
                    failure: self.failure,
                },
                Action::RunPreMiddleware { index },
            )
        } else {
            self.enter_route(method)
        }
    }

    /// Takes in what became of the last action, and says what to do next.
    ///
    /// `method` is the method of the request as it stands now. It is read
    /// when the last pre-middleware has succeeded and the route is chosen,
    /// so a pre-middleware that rewrites the method is honoured.
    pub fn step(self, event: Event, method: Option<Method>) -> (r: (Dispatch<H, V>, Action))
        ensures
            (r.0@, r.1) == stepped(self@, event, method),
    {
        proof {
            use_type_invariant(&self);
        }
        match self.phase {
            Phase::Done | Phase::Failed => (
                Dispatch {
                    router: self.router,
                    path: self.path,
                    pre: self.pre,
                    found: self.found,
                    post: self.post,
                    phase: Phase::Done,
                    cursor: 0,
                    route: self.route,
                    meta: self.meta,
                    failure: self.failure,
                },
                Action::Finish,
            ),
            Phase::Pre => match event {
                Event::Failed => self.enter_error(),
                Event::Succeeded => {
                    assert(self.cursor < self.pre.len());
                    let next = self.cursor + 1;
                    self.enter_pre(next, method)
                },
            },
            Phase::Route | Phase::Responding => match event {
                Event::Failed => self.enter_error(),
                Event::Succeeded => self.enter_post(0),
            },
            Phase::Post => match event {
                Event::Failed => self.enter_error(),
                Event::Succeeded => {
                    assert(self.cursor < self.post.len());
                    let next = self.cursor + 1;
                    self.enter_post(next)
                },
            },
        }
    }

    /// The router that dispatches the request.
    pub fn router(&self) -> (router: &Router<H, V>)
        ensures
            router@ == self@.router,
    {
        &self.router
    }

    /// The normalized path of the request; empty where it has none.
    pub fn path(&self) -> (path: &str)
        ensures
            path@ == self@.target,
    {
        self.path.as_str()
    }

    /// What the driver is busy with.
    pub fn phase(&self) -> (phase: Phase)
        ensures
            phase == self@.phase,
    {
        self.phase
    }

    /// Whether the response is final.
    pub fn is_done(&self) -> (done: bool)
        ensures
            done == self@.phase is Done,
    {
        match self.phase {
            Phase::Done => true,
            _ => false,
        }
    }

    /// The route that handles the request, once one is found.
    pub fn route(&self) -> (route: Option<usize>)
        ensures
            route == self@.route,
    {
        self.route
    }

    /// The metadata of the request: the peer's address from the start,
    /// the route's parameters once a route is found.
    pub fn meta(&self) -> (meta: &RequestMeta)
        ensures
            meta@ == self@.meta,
    {
        &self.meta
    }

    /// Why the request's path has no normalized form, where it has none.
    pub fn failure(&self) -> (failure: Option<DispatchError>)
        ensures
            failure == self@.failure,
    {
        self.failure
    }
}

} // verus!
