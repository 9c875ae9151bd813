use http_router::dispatcher::Dispatch;
use http_router::http_input_stream::HttpInputStream;
use http_router::http_request::{HttpRequest, Method};
use http_router::http_server::{HttpServer, Route};
use http_router::template::pattern_text;

struct Reply {
    status: http::StatusCode,
    body: String,
}

type Handler = Box<dyn FnMut(HttpRequest) -> Reply + 'static>;

fn reply() -> Reply {
    Reply { status: http::StatusCode::default(), body: String::new() }
}

fn handler() -> Handler {
    Box::new(|_| reply())
}

fn users_server() -> HttpServer<Handler> {
    let mut server: HttpServer<Handler> = HttpServer::new();
    server.get("/users", Box::new(|_| reply())).unwrap();
    server.get("/users/:userId", Box::new(|_| reply())).unwrap();
    server.get("/users/:userId/books", Box::new(|_| reply())).unwrap();
    server.get("/users/:userId/books/:bookId", Box::new(|_| reply())).unwrap();
    server
}

#[test]
fn it_inject_request_struct_in_callback_function() {
    let mut server: HttpServer<Handler> = HttpServer::new();

    server
        .get(
            "/users",
            Box::new(|_| {
                let mut response = reply();
                response.status = http::StatusCode::OK;
                response.body = String::from("Hello world");

                response
            }),
        )
        .unwrap();

    let input_stream = "GET /users HTTP/1.1";
    let input_stream_parsed = HttpInputStream::parse(input_stream).unwrap();
    let route_matched = server.match_route(&input_stream_parsed).unwrap();
    let request = HttpRequest::parse(&input_stream_parsed, &route_matched);
    let response = (route_matched.callback)(request);

    assert_eq!(response.status, http::StatusCode::OK);
    assert_eq!(response.body, "Hello world");
}

#[test]
fn http_server_it_parse_params_request() {
    let mut request = users_server();

    let input = HttpInputStream::parse("GET /users HTTP/1.1").unwrap();
    let route_matched = request.match_route(&input);
    assert!(route_matched.is_some());
    assert_eq!(route_matched.unwrap().path, "/users");

    let input = HttpInputStream::parse("GET /users/10 HTTP/1.1").unwrap();
    let route_matched = request.match_route(&input);
    assert!(route_matched.is_some());
    assert_eq!(route_matched.unwrap().path, "/users/:userId");

    let input = HttpInputStream::parse("GET /users/10/books HTTP/1.1").unwrap();
    let route_matched = request.match_route(&input);
    assert!(route_matched.is_some());
    assert_eq!(route_matched.unwrap().path, "/users/:userId/books");
}

#[test]
fn http_server_it_parse_query_request() {
    let mut request = users_server();

    let input = HttpInputStream::parse("GET /users?active=true&teste=[2,3,5] HTTP/1.1").unwrap();
    let route_matched = request.match_route(&input);
    assert!(route_matched.is_some());
    assert_eq!(route_matched.unwrap().path, "/users");

    let input = HttpInputStream::parse("GET /users/10?active=true&teste=[2,3,5] HTTP/1.1").unwrap();
    let route_matched = request.match_route(&input);
    assert!(route_matched.is_some());
    assert_eq!(route_matched.unwrap().path, "/users/:userId");

    let input =
        HttpInputStream::parse("GET /users/10/books?active=true&teste=[2,3,5] HTTP/1.1").unwrap();
    let route_matched = request.match_route(&input);
    assert!(route_matched.is_some());
    assert_eq!(route_matched.unwrap().path, "/users/:userId/books");

    let input = HttpInputStream::parse("GET /users/10/books/123?active=true&teste=[2,3,5] HTTP/1.1")
        .unwrap();
    let route_matched = request.match_route(&input);
    assert!(route_matched.is_some());
    assert_eq!(route_matched.unwrap().path, "/users/:userId/books/:bookId");
}

#[test]
fn it_parse_fragment_request() {
    let mut request = users_server();

    let input = HttpInputStream::parse("GET /users#teste HTTP/1.1").unwrap();
    let route_matched = request.match_route(&input);
    assert!(route_matched.is_some());
    assert_eq!(route_matched.unwrap().path, "/users");

    let input = HttpInputStream::parse("GET /users/10#teste HTTP/1.1").unwrap();
    let route_matched = request.match_route(&input);
    assert!(route_matched.is_some());
    assert_eq!(route_matched.unwrap().path, "/users/:userId");

    let input = HttpInputStream::parse("GET /users/10/books#teste HTTP/1.1").unwrap();
    let route_matched = request.match_route(&input);
    assert!(route_matched.is_some());
    assert_eq!(route_matched.unwrap().path, "/users/:userId/books");

    let input = HttpInputStream::parse("GET /users/10/books/123#teste HTTP/1.1").unwrap();
    let route_matched = request.match_route(&input);
    assert!(route_matched.is_some());
    assert_eq!(route_matched.unwrap().path, "/users/:userId/books/:bookId");
}

#[test]
fn second_of_three_routes_wins() {
    let mut server: HttpServer<Handler> = HttpServer::new();
    server.get("/users", Box::new(|_| reply())).unwrap();
    server.get("/users/:id", Box::new(|_| reply())).unwrap();
    server.get("/users/:id/books", Box::new(|_| reply())).unwrap();
    assert_eq!(server.len(), 3);
    assert_eq!(server.match_target("/users/5"), Some(1));
    let input = HttpInputStream::parse("GET /users/5 HTTP/1.1").unwrap();
    assert_eq!(server.match_route(&input).unwrap().path, "/users/:id");
    assert_eq!(server.route(1).template_text(), "/users/:id");
}

#[test]
fn unregistered_shape_gives_no_route() {
    let mut server = users_server();
    assert_eq!(server.match_target("/books"), None);
    assert_eq!(server.match_target("/users/1/books/2/pages"), None);
    assert_eq!(server.match_target("/api/users"), None);
    assert_eq!(server.match_target(""), None);
    let input = HttpInputStream::parse("GET /books HTTP/1.1").unwrap();
    assert!(server.match_route(&input).is_none());
    let mut empty: HttpServer<Handler> = HttpServer::new();
    assert_eq!(empty.len(), 0);
    assert_eq!(empty.match_target("/users"), None);
    assert!(empty.match_route(&input).is_none());
}

#[test]
fn same_shape_goes_to_the_first_registered() {
    let mut server: HttpServer<Handler> = HttpServer::new();
    server.get("/items/:a", Box::new(|_| reply())).unwrap();
    server.get("/items/:b", Box::new(|_| reply())).unwrap();
    assert_eq!(server.match_target("/items/9"), Some(0));
}

#[test]
fn fragment_does_not_change_the_match() {
    let server = users_server();
    assert_eq!(server.match_target("/users?y=1#z"), Some(0));
    assert_eq!(server.match_target("/users?y=1"), Some(0));
    assert_eq!(server.match_target("/users/3?y=1#z"), server.match_target("/users/3?y=1"));
}

#[test]
fn template_becomes_an_anchored_regex() {
    assert_eq!(pattern_text("/users"), r"^/users(?:\?([^#]+))?(?:#(.*))?$");
    assert_eq!(
        pattern_text("/users/:userId/books/:bookId"),
        r"^/users/([^/]+)/books/([^/]+)(?:\?([^#]+))?(?:#(.*))?$"
    );
    assert_eq!(pattern_text(""), r"^(?:\?([^#]+))?(?:#(.*))?$");
    assert_eq!(pattern_text("/"), r"^/(?:\?([^#]+))?(?:#(.*))?$");
}

#[test]
fn literal_segments_are_escaped() {
    assert_eq!(pattern_text("/a.b/c+d"), r"^/a\.b/c\+d(?:\?([^#]+))?(?:#(.*))?$");
    let mut server: HttpServer<Handler> = HttpServer::new();
    server.get("/v1.0/items", Box::new(|_| reply())).unwrap();
    assert_eq!(server.match_target("/v1.0/items"), Some(0));
    assert_eq!(server.match_target("/v1x0/items"), None);
    assert_eq!(server.route(0).regex_path(), r"^/v1\.0/items(?:\?([^#]+))?(?:#(.*))?$");
}

#[test]
fn regex_that_does_not_compile_is_refused() {
    let refused = Route::with_regex("/x", "(", handler());
    match refused {
        Ok(_) => panic!("expected a compile error"),
        Err(e) => {
            assert_eq!(e.template, "/x");
            assert_eq!(e.pattern, "(");
        }
    }
}

#[test]
fn route_reports_match_and_captures() {
    let route = Route::with_regex("/users/:id", &pattern_text("/users/:id"), handler()).unwrap();
    assert!(route.is_match("/users/7"));
    assert!(!route.is_match("/users"));
    assert!(!route.is_match("/users/7/books"));
    let found = route.captures("/users/7").unwrap();
    assert_eq!(found.len(), 4);
    assert_eq!(found[0].as_deref(), Some("/users/7"));
    assert_eq!(found[1].as_deref(), Some("7"));
    assert_eq!(found[2], None);
    assert_eq!(found[3], None);
    assert!(route.captures("/books/7").is_none());
}

#[test]
fn dispatch_builds_the_request_of_the_first_match() {
    let server = users_server();
    match server.dispatch("GET /users/10/books/123?type=hatch#top HTTP/1.1\r\n") {
        Dispatch::Matched(index, request) => {
            assert_eq!(index, 3);
            assert_eq!(request.method, Method::Get);
            assert_eq!(request.params.get("userId").unwrap(), "10");
            assert_eq!(request.params.get("bookId").unwrap(), "123");
            assert_eq!(request.query.get("type").unwrap(), "hatch");
        }
        _ => panic!("expected a match"),
    }
}

#[test]
fn dispatch_matches_on_the_path_alone() {
    let server = users_server();
    match server.dispatch("GET /users/10?next=/a/b HTTP/1.1") {
        Dispatch::Matched(index, request) => {
            assert_eq!(index, 1);
            assert_eq!(request.params.get("userId").unwrap(), "10");
            assert_eq!(request.query.get("next").unwrap(), "/a/b");
        }
        _ => panic!("expected a match"),
    }
}

#[test]
fn dispatch_rejects_what_no_route_accepts() {
    let server = users_server();
    assert!(matches!(server.dispatch("GET /books HTTP/1.1"), Dispatch::Unmatched));
    assert!(matches!(server.dispatch("GET"), Dispatch::Malformed));
    assert!(matches!(server.dispatch(""), Dispatch::Malformed));
    assert!(matches!(server.dispatch("   \r\n"), Dispatch::Malformed));
}

#[test]
fn registering_appends_and_keeps_the_order() {
    let mut server: HttpServer<Handler> = HttpServer::new();
    assert!(server.get("/users", handler()).is_ok());
    assert_eq!(server.len(), 1);
    assert!(server.get("/users/:id", handler()).is_ok());
    assert_eq!(server.len(), 2);
    assert_eq!(server.route(0).path, "/users");
    assert_eq!(server.route(1).path, "/users/:id");
    assert_eq!(server.route(1).regex_path(), r"^/users/([^/]+)(?:\?([^#]+))?(?:#(.*))?$");
}

#[test]
fn registering_does_not_call_the_handler() {
    let calls = std::rc::Rc::new(std::cell::Cell::new(0u32));
    let seen = calls.clone();
    let mut server: HttpServer<Handler> = HttpServer::new();
    let counting: Handler = Box::new(move |_| {
        seen.set(seen.get() + 1);
        reply()
    });
    server.get("/users", counting).unwrap();
    assert_eq!(server.match_target("/users"), Some(0));
    assert_eq!(calls.get(), 0);
    let route = server.route_mut(0);
    let _ = (route.callback)(HttpRequest::new());
    assert_eq!(calls.get(), 1);
}

#[test]
fn unbalanced_text_in_a_template_is_a_literal() {
    let mut server: HttpServer<Handler> = HttpServer::new();
    assert!(server.get("/a(b", handler()).is_ok());
    assert_eq!(server.len(), 1);
    assert_eq!(server.match_target("/a(b"), Some(0));
    assert_eq!(server.match_target("/ab"), None);
    assert!(Route::with_regex("/a(b", "/a(b", handler()).is_err());
}
