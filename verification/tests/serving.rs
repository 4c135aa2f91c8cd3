use routerify_ng::{
    Action, Dispatch, Event, Fallback, Method, Middleware, RemoteAddr, RequestService,
    RequestServiceBuilder, RouteParams, Router, RouterService,
};

struct Request {
    method: Method,
    headers: Vec<(String, String)>,
}

impl Request {
    fn get() -> Request {
        Request { method: Method::Get, headers: Vec::new() }
    }

    fn header(&self, name: &str) -> Option<&str> {
        self.headers.iter().find(|(n, _)| n == name).map(|(_, v)| v.as_str())
    }
}

#[derive(Debug, PartialEq)]
struct Response {
    status: u16,
    body: String,
    allow: Option<String>,
}

fn ok(body: &str) -> Response {
    Response { status: 200, body: body.to_string(), allow: None }
}

struct Context<'a> {
    params: Option<&'a RouteParams>,
    counter: Option<&'a u64>,
}

enum Handler {
    Route(fn(&Request, &Context) -> Result<Response, String>),
    Pre(fn(Request) -> Result<Request, String>),
    Post(fn(Response) -> Result<Response, String>),
    Error(fn(String) -> Response),
}

const COUNTER: u64 = 1;

fn serve(service: &RequestService<Handler, u64>, path: &str, request: Request) -> Response {
    let mut request = Some(request);
    let mut response: Option<Response> = None;
    let mut error: Option<String> = None;
    let (mut dispatch, mut action): (Dispatch<Handler, u64>, Action) =
        service.begin(path, Some(request.as_ref().unwrap().method));
    if let Some(e) = dispatch.failure() {
        error = Some(format!("{:?}", e));
    }
    loop {
        let event = match action {
            Action::RunPreMiddleware { index } => {
                match dispatch.router().pre_middlewares()[index].handler() {
                    Handler::Pre(f) => match f(request.take().unwrap()) {
                        Ok(r) => {
                            request = Some(r);
                            Event::Succeeded
                        }
                        Err(e) => {
                            error = Some(e);
                            Event::Failed
                        }
                    },
                    _ => unreachable!(),
                }
            }
            Action::RunRoute { index } => {
                let route = &dispatch.router().routes()[index];
                let context = Context {
                    params: dispatch.meta().route_params(),
                    counter: dispatch.router().data(route.scope(), COUNTER),
                };
                match route.handler() {
                    Handler::Route(f) => match f(request.as_ref().unwrap(), &context) {
                        Ok(r) => {
                            response = Some(r);
                            Event::Succeeded
                        }
                        Err(e) => {
                            error = Some(e);
                            Event::Failed
                        }
                    },
                    _ => unreachable!(),
                }
            }
            Action::Respond { fallback } => {
                response = Some(Response {
                    status: fallback.status(),
                    body: String::new(),
                    allow: fallback.allow().map(|set| set.allow_header()),
                });
                Event::Succeeded
            }
            Action::RunPostMiddleware { index, .. } => {
                match dispatch.router().post_middlewares()[index].handler() {
                    routerify_ng::middleware::post::Handler::WithoutInfo(Handler::Post(f))
                    | routerify_ng::middleware::post::Handler::WithInfo(Handler::Post(f)) => {
                        match f(response.take().unwrap()) {
                            Ok(r) => {
                                response = Some(r);
                                Event::Succeeded
                            }
                            Err(e) => {
                                error = Some(e);
                                Event::Failed
                            }
                        }
                    }
                    _ => unreachable!(),
                }
            }
            Action::HandleError { .. } => {
                match dispatch.router().err_handler().unwrap() {
                    routerify_ng::router::ErrHandler::WithoutInfo(Handler::Error(f))
                    | routerify_ng::router::ErrHandler::WithInfo(Handler::Error(f)) => {
                        response = Some(f(error.take().unwrap()));
                    }
                    _ => unreachable!(),
                }
                Event::Succeeded
            }
            Action::RespondWithError => {
                response = Some(Response {
                    status: action.status().unwrap(),
                    body: error.take().unwrap(),
                    allow: None,
                });
                Event::Succeeded
            }
            Action::Finish => return response.unwrap(),
        };
        let method = request.as_ref().map(|r| r.method);
        let next = dispatch.step(event, method);
        dispatch = next.0;
        action = next.1;
    }
}

fn service_of(router: Router<Handler, u64>) -> RequestService<Handler, u64> {
    RouterService::new(router).unwrap().call(None)
}

fn home(_: &Request, _: &Context) -> Result<Response, String> {
    Ok(ok("Home page"))
}

fn hello(_: &Request, context: &Context) -> Result<Response, String> {
    let id = context.params.unwrap().get("id").unwrap();
    Ok(ok(&format!("Hello {}", id)))
}

#[test]
fn routes_answer_with_their_parameters() {
    let router = Router::builder()
        .get("/", Handler::Route(home))
        .get("/users/:id", Handler::Route(hello))
        .build()
        .unwrap();
    let service = service_of(router);
    assert_eq!(serve(&service, "/", Request::get()), ok("Home page"));
    assert_eq!(serve(&service, "/users/42", Request::get()), ok("Hello 42"));
    let missing = serve(&service, "/missing", Request::get());
    assert_eq!(missing.status, 404);
}

fn block(request: Request) -> Result<Request, String> {
    if request.header("X-Block").is_some() {
        Err("blocked".to_string())
    } else {
        Ok(request)
    }
}

fn forbid(error: String) -> Response {
    Response { status: 403, body: error, allow: None }
}

#[test]
fn a_blocking_middleware_goes_to_the_error_handler() {
    let router = Router::builder()
        .middleware(Middleware::pre(Handler::Pre(block)).unwrap())
        .get("/", Handler::Route(home))
        .err_handler(Handler::Error(forbid))
        .build()
        .unwrap();
    let service = service_of(router);
    let blocked = Request {
        method: Method::Get,
        headers: vec![("X-Block".to_string(), "1".to_string())],
    };
    assert_eq!(
        serve(&service, "/", blocked),
        Response { status: 403, body: "blocked".to_string(), allow: None }
    );
    assert_eq!(serve(&service, "/", Request::get()), ok("Home page"));
}

fn read_counter(_: &Request, context: &Context) -> Result<Response, String> {
    Ok(ok(&format!("{}", context.counter.unwrap())))
}

#[test]
fn a_child_reads_the_data_of_its_parent() {
    let child = Router::builder().get("/read", Handler::Route(read_counter));
    let router = Router::builder().data(COUNTER, 0).scope("/child", child).build().unwrap();
    let service = service_of(router);
    assert_eq!(serve(&service, "/child/read", Request::get()), ok("0"));
}

fn first(_: &Request, _: &Context) -> Result<Response, String> {
    Ok(ok("first"))
}

fn second(_: &Request, _: &Context) -> Result<Response, String> {
    Ok(ok("second"))
}

#[test]
fn the_first_registered_route_wins() {
    let router = Router::builder()
        .get("/a", Handler::Route(first))
        .get("/a", Handler::Route(second))
        .build()
        .unwrap();
    let service = service_of(router);
    assert_eq!(serve(&service, "/a", Request::get()), ok("first"));
    assert_eq!(serve(&service, "/a/", Request::get()), ok("first"));
}

fn hello_world(_: &Request, _: &Context) -> Result<Response, String> {
    Ok(ok("Hello world!"))
}

#[test]
fn should_route_request() {
    const RESPONSE_TEXT: &str = "Hello world!";
    let remote_addr = RemoteAddr::new(routerify_ng::types::IpAddress::V4(0, 0, 0, 0), 8080);
    let router: Router<Handler, u64> =
        Router::builder().get("/", Handler::Route(hello_world)).build().unwrap();
    let builder = RequestServiceBuilder::new(router).unwrap();
    let service = builder.build(remote_addr);
    let response = serve(&service, "/", Request::get());
    assert_eq!(RESPONSE_TEXT, response.body);
    assert_eq!(service.remote_addr(), remote_addr);
}

#[test]
fn method_not_allowed_lists_the_methods_of_the_path() {
    let router = Router::builder()
        .get("/a", Handler::Route(first))
        .put("/a", Handler::Route(second))
        .post("/b", Handler::Route(second))
        .build()
        .unwrap();
    let service = service_of(router);
    let request = Request { method: Method::Delete, headers: Vec::new() };
    let response = serve(&service, "/a", request);
    assert_eq!(response.status, 405);
    assert_eq!(response.allow, Some("GET, PUT".to_string()));
    let (_, action) = service.begin("/a", Some(Method::Delete));
    match action {
        Action::Respond { fallback: Fallback::MethodNotAllowed { allow } } => {
            assert_eq!(allow.methods(), vec![Method::Get, Method::Put]);
        }
        other => panic!("unexpected action {:?}", other),
    }
}

fn mark(mut request: Request) -> Result<Request, String> {
    request.headers.push(("X-Seen".to_string(), "by the first".to_string()));
    Ok(request)
}

fn expect_mark(mut request: Request) -> Result<Request, String> {
    match request.header("X-Seen") {
        Some(value) => {
            let echoed = format!("second saw: {}", value);
            request.headers.push(("X-Echo".to_string(), echoed));
            Ok(request)
        }
        None => Err("the first middleware did not run".to_string()),
    }
}

fn echo(request: &Request, _: &Context) -> Result<Response, String> {
    Ok(ok(request.header("X-Echo").unwrap_or("nothing")))
}

#[test]
fn a_middleware_sees_what_the_one_before_it_did() {
    let router = Router::builder()
        .middleware(Middleware::pre(Handler::Pre(mark)).unwrap())
        .middleware(Middleware::pre_with_path("/a/*", Handler::Pre(expect_mark)).unwrap())
        .get("/a/b", Handler::Route(echo))
        .build()
        .unwrap();
    let service = service_of(router);
    assert_eq!(serve(&service, "/a/b", Request::get()), ok("second saw: by the first"));
    let reversed = Router::builder()
        .middleware(Middleware::pre_with_path("/a/*", Handler::Pre(expect_mark)).unwrap())
        .middleware(Middleware::pre(Handler::Pre(mark)).unwrap())
        .get("/a/b", Handler::Route(echo))
        .build()
        .unwrap();
    let service = service_of(reversed);
    let response = serve(&service, "/a/b", Request::get());
    assert_eq!(response.status, 500);
    assert_eq!(response.body, "the first middleware did not run");
}

fn fail(_: &Request, _: &Context) -> Result<Response, String> {
    Err("broken".to_string())
}

fn shout(mut response: Response) -> Result<Response, String> {
    response.body = response.body.to_uppercase();
    Ok(response)
}

#[test]
fn a_failure_without_an_error_handler_gets_the_default_response() {
    let router = Router::builder()
        .get("/", Handler::Route(fail))
        .get("/fine", Handler::Route(home))
        .middleware(Middleware::post(Handler::Post(shout)).unwrap())
        .build()
        .unwrap();
    let service = service_of(router);
    let response = serve(&service, "/", Request::get());
    assert_eq!(response, Response { status: 500, body: "broken".to_string(), allow: None });
    assert_eq!(serve(&service, "/fine", Request::get()), ok("HOME PAGE"));
}

fn count_error(error: String) -> Response {
    Response { status: 502, body: format!("handled: {}", error), allow: None }
}

#[test]
fn the_response_of_the_error_handler_is_the_final_one() {
    let router = Router::builder()
        .get("/", Handler::Route(fail))
        .middleware(Middleware::post(Handler::Post(shout)).unwrap())
        .err_handler(Handler::Error(count_error))
        .build()
        .unwrap();
    let service = service_of(router);
    let response = serve(&service, "/", Request::get());
    assert_eq!(response, Response { status: 502, body: "handled: broken".to_string(), allow: None });
    let malformed = serve(&service, "/%", Request::get());
    assert_eq!(malformed.status, 502);
    assert_eq!(malformed.body, "handled: MalformedPercentEncoding");
}

fn own_counter(_: &Request, context: &Context) -> Result<Response, String> {
    Ok(ok(&format!("{}", context.counter.unwrap())))
}

#[test]
fn a_child_with_its_own_value_sees_that_value() {
    let child = Router::builder().data(COUNTER, 5).get("/read", Handler::Route(own_counter));
    let router = Router::builder()
        .data(COUNTER, 0)
        .get("/read", Handler::Route(read_counter))
        .scope("/child", child)
        .build()
        .unwrap();
    let service = service_of(router);
    assert_eq!(serve(&service, "/child/read", Request::get()), ok("5"));
    assert_eq!(serve(&service, "/read", Request::get()), ok("0"));
}
