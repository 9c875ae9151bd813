use http_router::http_input_stream::HttpInputStream;
use http_router::param_map::{str_eq, ParamMap};
use http_router::target::{query_string, remove_query_and_fragment, split_target};
use http_router::text::{blank_char, find_char, scan_run, split_chars};

#[test]
fn path_without_query_and_fragment() {
    assert_eq!(remove_query_and_fragment("/users"), "/users");
    assert_eq!(remove_query_and_fragment("/users?type=hatch"), "/users");
    assert_eq!(remove_query_and_fragment("/users#top"), "/users");
    assert_eq!(remove_query_and_fragment("/users?type=hatch#top"), "/users");
    assert_eq!(remove_query_and_fragment(""), "");
    assert_eq!(remove_query_and_fragment("?a=1"), "");
    assert_eq!(remove_query_and_fragment("#a"), "");
}

#[test]
fn question_mark_is_looked_for_first() {
    assert_eq!(remove_query_and_fragment("/a#b?c"), "/a#b");
    assert_eq!(query_string("/a#b?c"), "c");
    assert_eq!(remove_query_and_fragment("/a?b?c"), "/a");
    assert_eq!(query_string("/a?b?c"), "b?c");
    assert_eq!(query_string("/a?b#c#d"), "b");
}

#[test]
fn query_component_of_a_target() {
    assert_eq!(query_string("/users"), "");
    assert_eq!(query_string("/users#x=1"), "");
    assert_eq!(query_string("/users?"), "");
    assert_eq!(query_string("/users?type=hatch&color=red"), "type=hatch&color=red");
    assert_eq!(query_string("/users?type=hatch#top"), "type=hatch");
    assert_eq!(query_string("/caf\u{e9}?n=\u{e9}#f"), "n=\u{e9}");
}

#[test]
fn fragment_changes_neither_path_nor_query() {
    assert_eq!(split_target("/x?y=1#z"), split_target("/x?y=1"));
    assert_eq!(split_target("/x?y=1#z"), ("/x".to_string(), "y=1".to_string()));
    assert_eq!(split_target("/x#z"), split_target("/x"));
    assert_eq!(split_target("/p?a=1&b=2#frag?x"), ("/p".to_string(), "a=1&b=2".to_string()));
}

#[test]
fn request_line_gives_method_and_target() {
    let input = HttpInputStream::parse("GET /users HTTP/1.1").unwrap();
    assert_eq!(input.method, "GET");
    assert_eq!(input.relative_path, "/users");
    let input = HttpInputStream::parse("  POST\t/a?b=1#c \r\n").unwrap();
    assert_eq!(input.method, "POST");
    assert_eq!(input.relative_path, "/a?b=1#c");
    let input = HttpInputStream::parse("GET /only-two").unwrap();
    assert_eq!(input.relative_path, "/only-two");
}

#[test]
fn request_line_without_target_is_malformed() {
    assert!(HttpInputStream::parse("").is_none());
    assert!(HttpInputStream::parse("GET").is_none());
    assert!(HttpInputStream::parse("GET \r\n").is_none());
    assert!(HttpInputStream::parse(" \t ").is_none());
}

#[test]
fn finding_and_splitting() {
    assert_eq!(find_char("/a?b", '?'), 2);
    assert_eq!(find_char("/a?b?c", '?'), 2);
    assert_eq!(find_char("/ab", '?'), 3);
    assert_eq!(find_char("", '?'), 0);
    assert_eq!(find_char("\u{e9}\u{e9}?", '?'), 2);
    assert_eq!(split_chars("/users/:id", '/'), vec!["", "users", ":id"]);
    assert_eq!(split_chars("", '/'), vec![""]);
    assert_eq!(split_chars("a//b/", '/'), vec!["a", "", "b", ""]);
    assert_eq!(split_chars("abc", '/'), vec!["abc"]);
}

#[test]
fn runs_of_blanks() {
    assert_eq!(scan_run("  \tx ", true), 3);
    assert_eq!(scan_run("  \tx ", false), 0);
    assert_eq!(scan_run("GET /", false), 3);
    assert_eq!(scan_run("", true), 0);
    assert_eq!(scan_run("abc", false), 3);
    assert!(blank_char(' ') && blank_char('\t') && blank_char('\r') && blank_char('\n'));
    assert!(!blank_char('a') && !blank_char('/'));
}

#[test]
fn param_map_binds_and_replaces() {
    let mut map = ParamMap::new();
    assert!(map.is_empty());
    assert!(map.get("a").is_none());
    map.insert("a".to_string(), "1".to_string());
    map.insert("b".to_string(), "2".to_string());
    assert!(!map.is_empty());
    assert_eq!(map.get("a").unwrap(), "1");
    assert_eq!(map.get("b").unwrap(), "2");
    assert_eq!(map.len(), 2);
    map.insert("a".to_string(), "3".to_string());
    assert_eq!(map.len(), 2);
    assert!(map.contains_key("a") && !map.contains_key("c"));
    assert_eq!(map.get("a").unwrap(), "3");
    assert_eq!(map.get("b").unwrap(), "2");
    assert!(map.get("c").is_none());
    assert!(map.get("").is_none());
}

#[test]
fn strings_compare_by_their_characters() {
    assert!(str_eq("", ""));
    assert!(str_eq("abc", "abc"));
    assert!(!str_eq("abc", "abd"));
    assert!(!str_eq("abc", "ab"));
    assert!(!str_eq("", "a"));
}

#[test]
fn response_carries_length_and_body() {
    assert_eq!(
        http_router::wire::ok_response("Hello world"),
        "HTTP/1.1 200 OK\r\nContent-Type: text/html; charset=utf-8\r\nContent-Length: 11\r\n\r\nHello world"
    );
    assert_eq!(
        http_router::wire::ok_response(""),
        "HTTP/1.1 200 OK\r\nContent-Type: text/html; charset=utf-8\r\nContent-Length: 0\r\n\r\n"
    );
    assert_eq!(
        http_router::wire::ok_response("\u{e9}"),
        "HTTP/1.1 200 OK\r\nContent-Type: text/html; charset=utf-8\r\nContent-Length: 2\r\n\r\n\u{e9}"
    );
}

#[test]
fn rejection_is_a_client_error() {
    assert_eq!(
        http_router::wire::rejection_response(),
        "HTTP/1.1 400 BAD REQUEST\r\n\r\n400 Bad Request"
    );
}

#[test]
fn numbers_in_decimal() {
    assert_eq!(http_router::wire::decimal(0), "0");
    assert_eq!(http_router::wire::decimal(7), "7");
    assert_eq!(http_router::wire::decimal(10), "10");
    assert_eq!(http_router::wire::decimal(1234567890), "1234567890");
    assert_eq!(http_router::wire::digit(9), "9");
}

#[test]
fn content_length_of_a_body() {
    assert_eq!(http_router::wire::content_length_value(""), None);
    assert_eq!(http_router::wire::content_length_value("content"), Some("7".to_string()));
    assert_eq!(http_router::wire::content_length_value("Nat\u{e3} Alves"), Some("11".to_string()));
}
