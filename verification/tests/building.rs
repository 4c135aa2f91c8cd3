use routerify_ng::error::ItemKind;
use routerify_ng::middleware::post::Handler;
use routerify_ng::router::ErrHandler;
use routerify_ng::{
    BuildError, CompileError, Method, Middleware, PostMiddleware, PreMiddleware, Route, Router,
    RouterBuilder, RouterService,
};

fn builder() -> RouterBuilder<&'static str, &'static str> {
    Router::builder()
}

fn pre(path: &str, name: &'static str) -> Middleware<&'static str> {
    Middleware::pre_with_path(path, name).unwrap()
}

fn post(path: &str, name: &'static str) -> Middleware<&'static str> {
    Middleware::post_with_path(path, name).unwrap()
}

#[test]
fn items_are_made_at_depth_zero_in_scope_zero() {
    let route = Route::new("/a/:b", vec![Method::Get, Method::Head], "h").unwrap();
    assert_eq!(route.path(), "/a/:b");
    assert_eq!(route.pattern().source(), "(?s)^/a/([^/]+)/$");
    assert_eq!(route.methods(), &vec![Method::Get, Method::Head]);
    assert_eq!(*route.handler(), "h");
    assert_eq!(route.scope_depth(), 0);
    assert_eq!(route.scope(), 0);
    assert!(route.is_match_method(&Method::Head));
    assert!(!route.is_match_method(&Method::Post));
    assert!(route.matches_path("/a/1/"));
    assert_eq!(route.extract_params("/a/1/").get("b"), Some(&"1".to_string()));
    let meta = route.generate_req_meta("/a/2/");
    assert_eq!(meta.route_params().unwrap().get("b"), Some(&"2".to_string()));
    assert_eq!(meta.remote_addr(), None);
    let pre = PreMiddleware::new("/x", "p").unwrap();
    assert_eq!((pre.path(), *pre.handler(), pre.scope_depth(), pre.scope()), ("/x", "p", 0, 0));
    assert!(pre.matches_path("/x/"));
    assert_eq!(pre.pattern().path(), "/x");
    let post = PostMiddleware::new("/y", "q").unwrap();
    assert_eq!((post.path(), post.scope_depth(), post.scope()), ("/y", 0, 0));
    assert!(matches!(post.handler(), Handler::WithoutInfo("q")));
    assert!(!post.should_require_req_meta());
    assert!(post.matches_path("/y/"));
    assert_eq!(post.pattern().path(), "/y");
    let with_info = PostMiddleware::new_with_info("/y", "q").unwrap();
    assert!(matches!(with_info.handler(), Handler::WithInfo("q")));
    assert!(with_info.should_require_req_meta());
    let deep = Route::new_with_boxed_handler("/", Vec::new(), "h", 3).unwrap();
    assert_eq!(deep.scope_depth(), 3);
}

#[test]
fn items_with_a_bad_pattern_are_not_made() {
    let failure = Route::new("/*/x", vec![Method::Get], "h").err().unwrap();
    assert_eq!(
        failure,
        BuildError::Compile {
            item: ItemKind::Route,
            path: "/*/x".to_string(),
            cause: CompileError::WildcardNotLast
        }
    );
    assert_eq!(
        PreMiddleware::new("/:", "h").err(),
        Some(BuildError::Compile {
            item: ItemKind::PreMiddleware,
            path: "/:".to_string(),
            cause: CompileError::EmptyParamName
        })
    );
    assert_eq!(
        PostMiddleware::new("/:a/:a", "h").err(),
        Some(BuildError::Compile {
            item: ItemKind::PostMiddleware,
            path: "/:a/:a".to_string(),
            cause: CompileError::DuplicateParam
        })
    );
    assert!(PostMiddleware::new_with_info("/*/", "h").is_err());
    assert!(Middleware::pre_with_path("/*/", "h").is_err());
    assert!(Middleware::post_with_path("/*/", "h").is_err());
    assert!(Middleware::post_with_info_with_path("/*/", "h").is_err());
}

#[test]
fn middleware_without_a_path_stand_at_the_catch_all() {
    match Middleware::pre("h").unwrap() {
        Middleware::Pre(pre) => {
            assert_eq!(pre.path(), "/*");
            assert!(pre.matches_path("/"));
            assert!(pre.matches_path("/any/where/"));
        }
        Middleware::Post(_) => panic!("a pre-middleware was asked for"),
    }
    match Middleware::post("h").unwrap() {
        Middleware::Post(post) => {
            assert_eq!(post.path(), "/*");
            assert!(!post.should_require_req_meta());
        }
        Middleware::Pre(_) => panic!("a post-middleware was asked for"),
    }
    match Middleware::post_with_info("h").unwrap() {
        Middleware::Post(post) => {
            assert_eq!(post.path(), "/*");
            assert!(post.should_require_req_meta());
        }
        Middleware::Pre(_) => panic!("a post-middleware was asked for"),
    }
    match Middleware::post_with_info_with_path("/p", "h").unwrap() {
        Middleware::Post(post) => assert!(post.should_require_req_meta()),
        Middleware::Pre(_) => panic!("a post-middleware was asked for"),
    }
}

#[test]
fn every_method_has_its_registration() {
    let router = builder()
        .get("/", "h")
        .post("/", "h")
        .put("/", "h")
        .delete("/", "h")
        .patch("/", "h")
        .head("/", "h")
        .options("/", "h")
        .connect("/", "h")
        .trace("/", "h")
        .any_method("/all", "h")
        .any("h")
        .build()
        .unwrap();
    let methods: Vec<Vec<Method>> =
        router.routes().iter().map(|route| route.methods().clone()).collect();
    let mut expected: Vec<Vec<Method>> = Method::all().into_iter().map(|m| vec![m]).collect();
    expected.push(Method::all());
    expected.push(Method::all());
    assert_eq!(methods, expected);
    assert_eq!(router.routes()[9].path(), "/all");
    assert_eq!(router.routes()[10].path(), "/*");
}

#[test]
fn mounted_routers_are_merged_behind_the_own_items_in_order_of_mounting() {
    let books = builder()
        .get("/", "list books")
        .get("/:id", "show book")
        .middleware(pre("/*", "books pre"))
        .scope("/:id/pages", builder().get("/:page", "show page"));
    let users = builder().get("/", "list users").middleware(post("/*", "users post"));
    let router = builder()
        .get("/", "home")
        .scope("/books/", books)
        .middleware(pre("/*", "top pre"))
        .scope("/users", users)
        .get("/about", "about")
        .build()
        .unwrap();
    let routes: Vec<(&str, &str, u32, usize)> = router
        .routes()
        .iter()
        .map(|r| (r.path(), *r.handler(), r.scope_depth(), r.scope()))
        .collect();
    assert_eq!(
        routes,
        vec![
            ("/", "home", 0, 0),
            ("/about", "about", 0, 0),
            ("/books/", "list books", 1, 1),
            ("/books/:id", "show book", 1, 1),
            ("/books/:id/pages/:page", "show page", 2, 2),
            ("/users/", "list users", 1, 3),
        ]
    );
    let pres: Vec<(&str, &str, u32, usize)> = router
        .pre_middlewares()
        .iter()
        .map(|m| (m.path(), *m.handler(), m.scope_depth(), m.scope()))
        .collect();
    assert_eq!(pres, vec![("/*", "top pre", 0, 0), ("/books/*", "books pre", 1, 1)]);
    let posts: Vec<(&str, u32, usize)> = router
        .post_middlewares()
        .iter()
        .map(|m| (m.path(), m.scope_depth(), m.scope()))
        .collect();
    assert_eq!(posts, vec![("/users/*", 1, 3)]);
    assert_eq!(router.scope_count(), 4);
    assert!(router.routes()[4].matches_path("/books/7/pages/2/"));
    let params = router.routes()[4].extract_params("/books/7/pages/2/");
    assert_eq!(params.get("id"), Some(&"7".to_string()));
    assert_eq!(params.get("page"), Some(&"2".to_string()));
}

#[test]
fn one_slash_at_the_end_of_a_prefix_is_dropped() {
    let router = builder()
        .scope("/", builder().get("/a", "a"))
        .scope("", builder().get("/b", "b"))
        .scope("/x//", builder().get("/c", "c"))
        .build()
        .unwrap();
    let paths: Vec<&str> = router.routes().iter().map(|r| r.path()).collect();
    assert_eq!(paths, vec!["/a", "/b", "/x//c"]);
}

#[test]
fn a_failed_registration_is_kept_and_reported_by_build() {
    let b = builder().get("/ok", "ok").get("/*/bad", "bad").get("/:", "worse").data(1, "x");
    let failure = b.build().err().unwrap();
    assert_eq!(
        failure,
        BuildError::Compile {
            item: ItemKind::Route,
            path: "/*/bad".to_string(),
            cause: CompileError::WildcardNotLast
        }
    );
}

#[test]
fn a_failure_in_a_mounted_router_fails_the_build() {
    let child = builder().get("/:a/:a", "bad");
    let failure = builder().get("/", "home").scope("/child", child).build().err().unwrap();
    assert_eq!(
        failure,
        BuildError::Compile {
            item: ItemKind::Route,
            path: "/:a/:a".to_string(),
            cause: CompileError::DuplicateParam
        }
    );
}

#[test]
fn a_prefix_can_spoil_a_pattern() {
    let failure =
        builder().scope("/*", builder().get("/x", "x")).build().err().unwrap();
    assert_eq!(
        failure,
        BuildError::Compile {
            item: ItemKind::Route,
            path: "/*/x".to_string(),
            cause: CompileError::WildcardNotLast
        }
    );
    let failure = builder()
        .scope("/:id", builder().middleware(pre("/x/:id", "m")))
        .build()
        .err()
        .unwrap();
    assert_eq!(
        failure,
        BuildError::Compile {
            item: ItemKind::PreMiddleware,
            path: "/:id/x/:id".to_string(),
            cause: CompileError::DuplicateParam
        }
    );
    let failure = builder()
        .scope("/:", builder().middleware(post("/x", "m")))
        .build()
        .err()
        .unwrap();
    assert_eq!(
        failure,
        BuildError::Compile {
            item: ItemKind::PostMiddleware,
            path: "/:/x".to_string(),
            cause: CompileError::EmptyParamName
        }
    );
}

#[test]
fn an_item_cannot_lie_deeper_than_the_depth_can_count() {
    let deep = PreMiddleware::new_with_boxed_handler("/x", "m", u32::MAX).unwrap();
    let top = builder().middleware(Middleware::Pre(deep)).build().unwrap();
    assert_eq!(top.pre_middlewares()[0].scope_depth(), u32::MAX);
    let deep = PreMiddleware::new_with_boxed_handler("/x", "m", u32::MAX).unwrap();
    let child = builder().middleware(Middleware::Pre(deep));
    assert_eq!(builder().scope("/c", child).build().err(), Some(BuildError::ScopeTooDeep));
    let deep = PostMiddleware::new_with_boxed_handler("/x", Handler::WithoutInfo("p"), u32::MAX)
        .unwrap();
    let child = builder().middleware(Middleware::Post(deep));
    assert_eq!(builder().scope("/c", child).build().err(), Some(BuildError::ScopeTooDeep));
    let nearly = PreMiddleware::new_with_boxed_handler("/x", "m", u32::MAX - 1).unwrap();
    let child = builder().middleware(Middleware::Pre(nearly));
    let router = builder().scope("/c", child).build().unwrap();
    assert_eq!(router.pre_middlewares()[0].scope_depth(), u32::MAX);
    let nearly = PreMiddleware::new_with_boxed_handler("/x", "m", u32::MAX - 1).unwrap();
    let grandchild = builder().middleware(Middleware::Pre(nearly));
    let child = builder().scope("/g", grandchild);
    assert_eq!(builder().scope("/c", child).build().err(), Some(BuildError::ScopeTooDeep));
}

#[test]
fn a_handler_sees_the_nearest_value() {
    const COUNTER: u64 = 7;
    const NAME: u64 = 8;
    let grandchild = builder().get("/leaf", "leaf");
    let shadowing = builder()
        .data(COUNTER, "child counter")
        .get("/read", "shadowing")
        .scope("/deeper", grandchild);
    let plain = builder().get("/read", "plain");
    let router = builder()
        .data(COUNTER, "parent counter")
        .data(NAME, "parent name")
        .get("/", "home")
        .scope("/plain", plain)
        .scope("/own", shadowing)
        .build()
        .unwrap();
    let scope_of = |handler: &str| {
        router.routes().iter().find(|r| *r.handler() == handler).map(|r| r.scope()).unwrap()
    };
    assert_eq!(router.data(scope_of("home"), COUNTER), Some(&"parent counter"));
    assert_eq!(router.data(scope_of("plain"), COUNTER), Some(&"parent counter"));
    assert_eq!(router.data(scope_of("shadowing"), COUNTER), Some(&"child counter"));
    assert_eq!(router.data(scope_of("shadowing"), NAME), Some(&"parent name"));
    assert_eq!(router.data(scope_of("leaf"), COUNTER), Some(&"child counter"));
    assert_eq!(router.data(scope_of("leaf"), NAME), Some(&"parent name"));
    assert_eq!(router.data(scope_of("leaf"), 99), None);
    assert_eq!(router.data(router.scope_count(), COUNTER), None);
    assert_ne!(scope_of("plain"), scope_of("shadowing"));
}

#[test]
fn the_last_value_registered_under_a_key_is_the_one_in_force() {
    let router = builder().data(1, "first").data(2, "other").data(1, "second").build().unwrap();
    assert_eq!(router.data(0, 1), Some(&"second"));
    assert_eq!(router.data(0, 2), Some(&"other"));
}

#[test]
fn the_error_handler_nearest_to_the_top_is_the_one_in_force() {
    let none = builder().get("/", "h").build().unwrap();
    assert!(none.err_handler().is_none());
    assert_eq!(none.err_handler_scope(), None);
    let last =
        builder().err_handler("first").err_handler_with_info("second").build().unwrap();
    assert!(matches!(last.err_handler(), Some(ErrHandler::WithInfo("second"))));
    assert_eq!(last.err_handler_scope(), Some(0));
    let child = builder().err_handler("child");
    let parent = builder().err_handler("parent").scope("/c", child).build().unwrap();
    assert!(matches!(parent.err_handler(), Some(ErrHandler::WithoutInfo("parent"))));
    let first = builder().get("/", "h");
    let second = builder().err_handler("adopted");
    let third = builder().err_handler("late");
    let adopted =
        builder().scope("/a", first).scope("/b", second).scope("/c", third).build().unwrap();
    assert!(matches!(adopted.err_handler(), Some(ErrHandler::WithoutInfo("adopted"))));
    assert_eq!(adopted.err_handler_scope(), Some(2));
}

#[test]
fn a_builder_that_failed_ignores_what_follows() {
    let failed = builder().get("/*/x", "bad");
    let failed = failed
        .middleware(pre("/*", "m"))
        .scope("/s", builder().get("/:", "bad too"))
        .err_handler("e")
        .data(1, "x");
    match failed.build() {
        Err(BuildError::Compile { path, .. }) => assert_eq!(path, "/*/x"),
        other => panic!("unexpected result: {:?}", other.map(|_| ())),
    }
}

#[test]
fn a_pattern_set_too_big_for_the_engine_is_refused() {
    let mut path = String::new();
    for i in 0..100 {
        path.push_str("/:p");
        path.push_str(&i.to_string());
    }
    let mut b = builder();
    for _ in 0..400 {
        b = b.get(&path, "h");
    }
    let router = b.build().unwrap();
    assert_eq!(router.routes().len(), 400);
    match RouterService::new(router) {
        Err(BuildError::PatternSet(message)) => assert!(message.contains("size limit")),
        Err(other) => panic!("unexpected failure: {:?}", other),
        Ok(_) => panic!("the set was accepted"),
    }
}

#[test]
fn an_empty_router_answers_not_found() {
    let router = builder().build().unwrap();
    assert_eq!(router.scope_count(), 1);
    assert!(router.routes().is_empty());
    let service = RouterService::new(router).unwrap().call(None);
    let (_, action) = service.begin("/", Some(Method::Get));
    assert_eq!(action.status(), Some(404));
}
