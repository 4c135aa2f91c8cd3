use routerify_ng::dispatch::{resolve, Resolution};
use routerify_ng::types::IpAddress;
use routerify_ng::{
    Action, DispatchError, Event, Fallback, Method, Middleware, MethodSet, Phase, RemoteAddr,
    RequestService, Route, RouteParams, Router, RouterBuilder, RouterService,
};

type Service = RequestService<&'static str, u32>;

fn builder() -> RouterBuilder<&'static str, u32> {
    Router::builder()
}

fn service(builder: RouterBuilder<&'static str, u32>) -> Service {
    RouterService::new(builder.build().unwrap()).unwrap().call(None)
}

fn pre(path: &str, name: &'static str) -> Middleware<&'static str> {
    Middleware::pre_with_path(path, name).unwrap()
}

fn post(path: &str, name: &'static str) -> Middleware<&'static str> {
    Middleware::post_with_path(path, name).unwrap()
}

/// Runs a dispatch in which every handler succeeds and returns its actions.
fn actions(service: &Service, path: &str, method: Option<Method>) -> Vec<Action> {
    let (mut dispatch, mut action) = service.begin(path, method);
    let mut all = vec![action];
    while action != Action::Finish {
        let next = dispatch.step(Event::Succeeded, method);
        dispatch = next.0;
        action = next.1;
        all.push(action);
    }
    assert!(dispatch.is_done());
    all
}

#[test]
fn phases_follow_each_other_in_registration_order() {
    let service = service(
        builder()
            .middleware(pre("/*", "first"))
            .middleware(post("/a/*", "after"))
            .middleware(pre("/b", "elsewhere"))
            .middleware(pre("/a/*", "second"))
            .get("/b", "b")
            .get("/a/x", "x")
            .middleware(post("/*", "last")),
    );
    assert_eq!(
        actions(&service, "/a/x", Some(Method::Get)),
        vec![
            Action::RunPreMiddleware { index: 0 },
            Action::RunPreMiddleware { index: 2 },
            Action::RunRoute { index: 1 },
            Action::RunPostMiddleware { index: 0, with_info: false },
            Action::RunPostMiddleware { index: 1, with_info: false },
            Action::Finish,
        ]
    );
    let router = service.router();
    assert_eq!(*router.pre_middlewares()[2].handler(), "second");
    assert_eq!(*router.routes()[1].handler(), "x");
}

#[test]
fn a_second_middleware_runs_only_after_the_first_succeeded() {
    let service =
        service(builder().middleware(pre("/*", "m1")).middleware(pre("/*", "m2")).get("/", "home"));
    let (dispatch, action) = service.begin("/", Some(Method::Get));
    assert_eq!(action, Action::RunPreMiddleware { index: 0 });
    assert_eq!(dispatch.phase(), Phase::Pre);
    let (dispatch, action) = dispatch.step(Event::Succeeded, Some(Method::Get));
    assert_eq!(action, Action::RunPreMiddleware { index: 1 });
    let (dispatch, action) = dispatch.step(Event::Succeeded, Some(Method::Get));
    assert_eq!(action, Action::RunRoute { index: 0 });
    assert_eq!(dispatch.phase(), Phase::Route);
    assert_eq!(dispatch.route(), Some(0));
}

#[test]
fn a_failure_of_a_pre_middleware_skips_everything_but_the_error_handler() {
    let service = service(
        builder()
            .middleware(pre("/*", "m1"))
            .middleware(pre("/*", "m2"))
            .get("/", "home")
            .middleware(post("/*", "after"))
            .err_handler("on error"),
    );
    let (dispatch, _) = service.begin("/", Some(Method::Get));
    let (dispatch, action) = dispatch.step(Event::Failed, Some(Method::Get));
    assert_eq!(action, Action::HandleError { with_info: false });
    assert_eq!(dispatch.phase(), Phase::Failed);
    let (dispatch, action) = dispatch.step(Event::Succeeded, Some(Method::Get));
    assert_eq!(action, Action::Finish);
    assert!(dispatch.is_done());
    let (dispatch, action) = dispatch.step(Event::Failed, Some(Method::Get));
    assert_eq!(action, Action::Finish);
    assert!(dispatch.is_done());
}

#[test]
fn a_failure_of_the_route_goes_to_the_error_handler_once() {
    let service = service(
        builder().get("/", "home").middleware(post("/*", "after")).err_handler_with_info("e"),
    );
    let (dispatch, action) = service.begin("/", Some(Method::Get));
    assert_eq!(action, Action::RunRoute { index: 0 });
    let (dispatch, action) = dispatch.step(Event::Failed, Some(Method::Get));
    assert_eq!(action, Action::HandleError { with_info: true });
    let (dispatch, action) = dispatch.step(Event::Failed, Some(Method::Get));
    assert_eq!(action, Action::Finish);
    let (_, action) = dispatch.step(Event::Succeeded, Some(Method::Get));
    assert_eq!(action, Action::Finish);
}

#[test]
fn a_failure_of_a_post_middleware_goes_to_the_error_handler() {
    let service = service(
        builder()
            .get("/", "home")
            .middleware(post("/*", "p1"))
            .middleware(post("/*", "p2"))
            .err_handler("e"),
    );
    let (dispatch, _) = service.begin("/", Some(Method::Get));
    let (dispatch, action) = dispatch.step(Event::Succeeded, Some(Method::Get));
    assert_eq!(action, Action::RunPostMiddleware { index: 0, with_info: false });
    let (dispatch, action) = dispatch.step(Event::Failed, Some(Method::Get));
    assert_eq!(action, Action::HandleError { with_info: false });
    let (_, action) = dispatch.step(Event::Succeeded, Some(Method::Get));
    assert_eq!(action, Action::Finish);
}

#[test]
fn without_an_error_handler_the_default_response_has_status_500() {
    let service = service(builder().get("/", "home"));
    let (dispatch, _) = service.begin("/", Some(Method::Get));
    let (dispatch, action) = dispatch.step(Event::Failed, Some(Method::Get));
    assert_eq!(action, Action::RespondWithError);
    assert_eq!(action.status(), Some(500));
    let (_, action) = dispatch.step(Event::Succeeded, Some(Method::Get));
    assert_eq!(action, Action::Finish);
}

#[test]
fn an_unknown_path_gets_404_and_the_post_middleware_still_run() {
    let service = service(builder().get("/a", "a").middleware(post("/*", "after")));
    let all = actions(&service, "/missing", Some(Method::Get));
    assert_eq!(
        all,
        vec![
            Action::Respond { fallback: Fallback::NotFound },
            Action::RunPostMiddleware { index: 0, with_info: false },
            Action::Finish,
        ]
    );
    assert_eq!(all[0].status(), Some(404));
    assert_eq!(Fallback::NotFound.allow(), None);
    for method in Method::all() {
        let (_, action) = service.begin("/missing", Some(method));
        assert_eq!(action, Action::Respond { fallback: Fallback::NotFound });
    }
    let (dispatch, action) = service.begin("/missing", None);
    assert_eq!(action, Action::Respond { fallback: Fallback::NotFound });
    assert_eq!(dispatch.phase(), Phase::Responding);
    assert_eq!(dispatch.route(), None);
}

#[test]
fn a_known_path_with_another_method_gets_405_and_the_union_of_methods() {
    let service = service(
        builder()
            .get("/items/:id", "show")
            .delete("/items/:id", "remove")
            .add("/items/*", vec![Method::Patch, Method::Get], "rest")
            .post("/items", "create"),
    );
    let (_, action) = service.begin("/items/7", Some(Method::Put));
    match action {
        Action::Respond { fallback } => {
            assert_eq!(fallback.status(), 405);
            let allow = fallback.allow().unwrap();
            assert_eq!(allow.methods(), vec![Method::Get, Method::Delete, Method::Patch]);
            assert_eq!(allow.allow_header(), "GET, DELETE, PATCH");
            assert!(matches!(fallback, Fallback::MethodNotAllowed { .. }));
        }
        other => panic!("unexpected action {:?}", other),
    }
    let (_, action) = service.begin("/items/7", None);
    assert_eq!(action.status(), Some(405));
}

#[test]
fn options_lists_the_methods_unless_a_route_answers_it() {
    let service =
        service(builder().get("/a", "get").put("/a", "put").options("/b", "own").get("/b", "get"));
    let (_, action) = service.begin("/a", Some(Method::Options));
    match action {
        Action::Respond { fallback: Fallback::Options { allow } } => {
            assert_eq!(allow.allow_header(), "GET, PUT");
            assert_eq!(action.status(), Some(204));
        }
        other => panic!("unexpected action {:?}", other),
    }
    let (_, action) = service.begin("/b", Some(Method::Options));
    assert_eq!(action, Action::RunRoute { index: 2 });
    let (_, action) = service.begin("/c", Some(Method::Options));
    assert_eq!(action, Action::Respond { fallback: Fallback::NotFound });
}

#[test]
fn a_catch_all_route_registered_last_handles_what_is_left() {
    let service = service(builder().get("/a", "a").any("fallback"));
    let (_, action) = service.begin("/a", Some(Method::Get));
    assert_eq!(action, Action::RunRoute { index: 0 });
    let (_, action) = service.begin("/a", Some(Method::Post));
    assert_eq!(action, Action::RunRoute { index: 1 });
    let (dispatch, action) = service.begin("/x/y", Some(Method::Trace));
    assert_eq!(action, Action::RunRoute { index: 1 });
    let params: &RouteParams = dispatch.meta().route_params().unwrap();
    assert_eq!(params.get("*"), Some(&"x/y/".to_string()));
}

#[test]
fn the_method_counts_as_it_stands_after_the_pre_middleware() {
    let service = service(builder().middleware(pre("/*", "override")).get("/a", "a"));
    let (dispatch, action) = service.begin("/a", Some(Method::Post));
    assert_eq!(action, Action::RunPreMiddleware { index: 0 });
    let (_, action) = dispatch.step(Event::Succeeded, Some(Method::Get));
    assert_eq!(action, Action::RunRoute { index: 0 });
    let (dispatch, _) = service.begin("/a", Some(Method::Post));
    let (_, action) = dispatch.step(Event::Succeeded, Some(Method::Post));
    assert_eq!(action.status(), Some(405));
}

#[test]
fn a_path_without_normal_form_goes_to_the_error_handler_at_once() {
    let service = service(builder().middleware(pre("/*", "m")).get("/*", "all").err_handler("e"));
    let (dispatch, action) = service.begin("/a%zz", Some(Method::Get));
    assert_eq!(action, Action::HandleError { with_info: false });
    assert_eq!(dispatch.failure(), Some(DispatchError::MalformedPercentEncoding));
    assert_eq!(dispatch.phase(), Phase::Failed);
    assert_eq!(dispatch.path(), "");
    let (_, action) = dispatch.step(Event::Succeeded, Some(Method::Get));
    assert_eq!(action, Action::Finish);
    let (dispatch, _) = service.begin("/%ff", Some(Method::Get));
    assert_eq!(dispatch.failure(), Some(DispatchError::InvalidUtf8));
}

#[test]
fn the_path_is_decoded_before_it_is_matched() {
    let service = service(builder().get("/users/:name", "user"));
    let (dispatch, action) = service.begin("/users/J%C3%BCrgen%20M", Some(Method::Get));
    assert_eq!(action, Action::RunRoute { index: 0 });
    assert_eq!(dispatch.path(), "/users/J\u{fc}rgen M/");
    let params = dispatch.meta().route_params().unwrap();
    assert_eq!(params.len(), 1);
    assert_eq!(params.get("name"), Some(&"J\u{fc}rgen M".to_string()));
    assert_eq!(dispatch.failure(), None);
}

#[test]
fn metadata_holds_the_peer_from_the_start_and_the_parameters_once_routed() {
    let peer = RemoteAddr::new(IpAddress::V4(192, 168, 0, 9), 5000);
    let router = builder().middleware(pre("/*", "m")).get("/n/:n", "n").build().unwrap();
    let service = RouterService::new(router).unwrap().call(Some(peer));
    assert_eq!(service.remote_addr(), peer);
    let (dispatch, _) = service.begin("/n/1", Some(Method::Get));
    assert_eq!(dispatch.meta().remote_addr(), Some(peer));
    assert!(dispatch.meta().route_params().is_none());
    let (dispatch, _) = dispatch.step(Event::Succeeded, Some(Method::Get));
    assert_eq!(dispatch.meta().remote_addr(), Some(peer));
    assert_eq!(dispatch.meta().route_params().unwrap().get("n"), Some(&"1".to_string()));
}

#[test]
fn metadata_is_asked_for_where_a_handler_takes_it() {
    let plain = service(builder().get("/", "home").middleware(post("/*", "p")).err_handler("e"));
    assert!(!plain.should_gen_req_info());
    assert_eq!(plain.router().should_gen_req_info(), Some(false));
    let by_post = service(
        builder()
            .get("/", "home")
            .middleware(post("/x", "p"))
            .middleware(Middleware::post_with_info("p").unwrap()),
    );
    assert!(by_post.should_gen_req_info());
    assert_eq!(
        actions(&by_post, "/", Some(Method::Get)),
        vec![
            Action::RunRoute { index: 0 },
            Action::RunPostMiddleware { index: 1, with_info: true },
            Action::Finish,
        ]
    );
    let by_handler = service(builder().get("/", "home").err_handler_with_info("e"));
    assert!(by_handler.should_gen_req_info());
    let unprepared = builder().get("/", "home").build().unwrap();
    assert_eq!(unprepared.should_gen_req_info(), None);
}

#[test]
fn among_many_routes_exactly_the_matching_ones_are_found() {
    let mut b = builder();
    let names: Vec<String> = (0..200).map(|i| format!("/r{}", i)).collect();
    for name in &names {
        b = b.get(name, "r");
    }
    b = b.put("/r17", "put").get("/:any", "any");
    let service = service(b);
    let (_, action) = service.begin("/r17", Some(Method::Get));
    assert_eq!(action, Action::RunRoute { index: 17 });
    let (_, action) = service.begin("/r17", Some(Method::Put));
    assert_eq!(action, Action::RunRoute { index: 200 });
    let (_, action) = service.begin("/r199/", Some(Method::Get));
    assert_eq!(action, Action::RunRoute { index: 199 });
    let (_, action) = service.begin("/other", Some(Method::Get));
    assert_eq!(action, Action::RunRoute { index: 201 });
    let (_, action) = service.begin("/r17", Some(Method::Delete));
    match action {
        Action::Respond { fallback: Fallback::MethodNotAllowed { allow } } => {
            assert_eq!(allow.methods(), vec![Method::Get, Method::Put]);
        }
        other => panic!("unexpected action {:?}", other),
    }
    for (i, route) in service.router().routes().iter().enumerate() {
        assert_eq!(route.matches_path("/r17/"), i == 17 || i == 200 || i == 201);
    }
}

#[test]
fn services_of_one_router_share_it() {
    let router = builder().get("/", "home").build().unwrap();
    let router_service = RouterService::new(router).unwrap();
    let one = router_service.call(None);
    let two = router_service.call(Some(RemoteAddr::new(IpAddress::V4(1, 2, 3, 4), 5)));
    assert_eq!(one.remote_addr(), RemoteAddr::unspecified());
    assert_eq!(two.remote_addr().port, 5);
    assert!(std::ptr::eq(one.router(), two.router()));
    let (dispatch, _) = one.begin("/", Some(Method::Get));
    assert!(std::ptr::eq(dispatch.router(), one.router()));
}

fn routes() -> Vec<Route<&'static str>> {
    vec![
        Route::new("/a", vec![Method::Get], "zero").unwrap(),
        Route::new("/a", vec![Method::Put, Method::Get], "one").unwrap(),
        Route::new("/a", vec![Method::Delete], "two").unwrap(),
    ]
}

#[test]
fn the_first_candidate_that_answers_the_method_is_chosen() {
    let routes = routes();
    assert_eq!(resolve(&routes, &vec![0, 1, 2], Some(Method::Get)), Resolution::Route(0));
    assert_eq!(resolve(&routes, &vec![1, 2], Some(Method::Get)), Resolution::Route(1));
    assert_eq!(resolve(&routes, &vec![2, 1, 0], Some(Method::Get)), Resolution::Route(1));
    assert_eq!(resolve(&routes, &vec![0, 1, 2], Some(Method::Delete)), Resolution::Route(2));
    assert_eq!(resolve(&routes, &vec![0, 1, 2], Some(Method::Put)), Resolution::Route(1));
}

#[test]
fn without_candidates_nothing_is_found() {
    let routes = routes();
    let not_found = Resolution::Fallback(Fallback::NotFound);
    assert_eq!(resolve(&routes, &Vec::new(), Some(Method::Get)), not_found);
    assert_eq!(resolve(&routes, &Vec::new(), None), not_found);
    assert_eq!(resolve(&Vec::<Route<&str>>::new(), &Vec::new(), Some(Method::Options)), not_found);
}

#[test]
fn candidates_that_do_not_answer_give_their_methods() {
    let routes = routes();
    let both = MethodSet::empty().with(Method::Get).with(Method::Put);
    assert_eq!(
        resolve(&routes, &vec![0, 1], Some(Method::Post)),
        Resolution::Fallback(Fallback::MethodNotAllowed { allow: both })
    );
    assert_eq!(
        resolve(&routes, &vec![0, 1], Some(Method::Options)),
        Resolution::Fallback(Fallback::Options { allow: both })
    );
    assert_eq!(
        resolve(&routes, &vec![0, 1], None),
        Resolution::Fallback(Fallback::MethodNotAllowed { allow: both })
    );
    let delete = MethodSet::empty().with(Method::Delete);
    assert_eq!(
        resolve(&routes, &vec![2], Some(Method::Get)),
        Resolution::Fallback(Fallback::MethodNotAllowed { allow: delete })
    );
}

#[test]
fn a_position_that_is_no_route_is_passed_over() {
    let routes = routes();
    assert_eq!(resolve(&routes, &vec![9, 1], Some(Method::Put)), Resolution::Route(1));
    assert_eq!(
        resolve(&routes, &vec![9], Some(Method::Put)),
        Resolution::Fallback(Fallback::MethodNotAllowed { allow: MethodSet::empty() })
    );
}
