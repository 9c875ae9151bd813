//! The text of what is sent back: a status line, two headers and the body
//! for a handled request, a fixed rejection for the others.

use vstd::prelude::*;
use vstd::string::*;

verus! {

/// The text of one decimal digit.
pub open spec fn digit_text(d: nat) -> Seq<char> {
    if d == 0 {
        "0"@
    } else if d == 1 {
        "1"@
    } else if d == 2 {
        "2"@
    } else if d == 3 {
        "3"@
    } else if d == 4 {
        "4"@
    } else if d == 5 {
        "5"@
    } else if d == 6 {
        "6"@
    } else if d == 7 {
        "7"@
    } else if d == 8 {
        "8"@
    } else {
        "9"@
    }
}

/// The decimal text of `n`, without leading zeros.
pub open spec fn decimal_text(n: nat) -> Seq<char>
    decreases n,
{
    if n < 10 {
        digit_text(n)
    } else {
        decimal_text(n / 10) + digit_text(n % 10)
    }
}

/// The response to a handled request whose body is `body`: status line,
/// content type, content length in bytes, an empty line, the body.
pub open spec fn ok_response_text(body: &str) -> Seq<char> {
    "HTTP/1.1 200 OK\r\nContent-Type: text/html; charset=utf-8\r\nContent-Length: "@
        + decimal_text(body.len() as nat) + "\r\n\r\n"@ + body@
}

/// The text of the digit `d`.
pub fn digit(d: usize) -> (s: &'static str)
    requires
        d < 10,
    ensures
        s@ == digit_text(d as nat),
{
    if d == 0 {
        "0"
    } else if d == 1 {
        "1"
    } else if d == 2 {
        "2"
    } else if d == 3 {
        "3"
    } else if d == 4 {
        "4"
    } else if d == 5 {
        "5"
    } else if d == 6 {
        "6"
    } else if d == 7 {
        "7"
    } else if d == 8 {
        "8"
    } else {
        "9"
    }
}

/// The decimal text of `n`.
pub fn decimal(n: usize) -> (s: String)
    ensures
        s@ == decimal_text(n as nat),
    decreases n,
{
    if n < 10 {
        String::from_str(digit(n))
    } else {
        let mut s = decimal(n / 10);
        s.append(digit(n % 10));
        s
    }
}

/// The value of the content-length header that a body calls for: none for an
/// empty body, else its length in bytes, in decimal.
pub fn content_length_value(content: &str) -> (value: Option<String>)
    ensures
        value is None <==> content@.len() == 0,
        value is Some ==> value->Some_0@ == decimal_text(content.len() as nat),
{
    if content.is_empty() {
        None
    } else {
        Some(decimal(content.len()))
    }
}

/// The response that carries a handler's body.
pub fn ok_response(body: &str) -> (response: String)
    ensures
        response@ == ok_response_text(body),
{
    let mut response = String::from_str(
        "HTTP/1.1 200 OK\r\nContent-Type: text/html; charset=utf-8\r\nContent-Length: ",
    );
    let length = decimal(body.len());
    response.append(length.as_str());
    response.append("\r\n\r\n");
    response.append(body);
    response
}

/// The response to a request that no route handles.
pub fn rejection_response() -> (response: String)
    ensures
        response@ == "HTTP/1.1 400 BAD REQUEST\r\n\r\n400 Bad Request"@,
{
    String::from_str("HTTP/1.1 400 BAD REQUEST\r\n\r\n400 Bad Request")
}

} // verus!
