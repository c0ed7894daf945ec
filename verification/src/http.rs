//! The pure half of the connection handler: route one request line to one of
//! the two fixed pages and build the full HTTP response text.

use vstd::prelude::*;
use vstd::string::StringSliceAdditionalSpecFns;

verus! {

/// The two routes the responder serves.
#[derive(Clone, Copy, Debug, PartialEq, Eq, Structural)]
pub enum Route {
    /// The root page: the request line was exactly `GET / HTTP/1.1`.
    Home,
    /// Anything else.
    NotFound,
}

/// The decimal digit character for `d` (`0 <= d <= 9`).
pub open spec fn dec_digit(d: nat) -> char {
    if d == 0 {
        '0'
    } else if d == 1 {
        '1'
    } else if d == 2 {
        '2'
    } else if d == 3 {
        '3'
    } else if d == 4 {
        '4'
    } else if d == 5 {
        '5'
    } else if d == 6 {
        '6'
    } else if d == 7 {
        '7'
    } else if d == 8 {
        '8'
    } else {
        '9'
    }
}

/// The decimal digits of `n`, most significant first, with no leading zero
/// except for `n == 0` itself.
pub open spec fn dec_seq(n: nat) -> Seq<char>
    decreases n,
{
    if n < 10 {
        seq![dec_digit(n)]
    } else {
        dec_seq(n / 10).push(dec_digit(n % 10))
    }
}

/// The one-character string for the digit `d`.
fn digit_str(d: usize) -> (r: &'static str)
    requires
        d < 10,
    ensures
        r@ == seq![dec_digit(d as nat)],
{
    proof {
        reveal_strlit("0");
        reveal_strlit("1");
        reveal_strlit("2");
        reveal_strlit("3");
        reveal_strlit("4");
        reveal_strlit("5");
        reveal_strlit("6");
        reveal_strlit("7");
        reveal_strlit("8");
        reveal_strlit("9");
    }
    let r: &'static str = match d {
        0 => "0",
        1 => "1",
        2 => "2",
        3 => "3",
        4 => "4",
        5 => "5",
        6 => "6",
        7 => "7",
        8 => "8",
        _ => "9",
    };
    proof {
        assert(r@ =~= seq![dec_digit(d as nat)]);
    }
    r
}

/// Format `n` in decimal: the result is exactly the digit sequence of `n`.
pub fn fmt_usize(n: usize) -> (r: String)
    ensures
        r@ == dec_seq(n as nat),
    decreases n,
{
    if n < 10 {
        digit_str(n).to_owned()
    } else {
        let mut prefix = fmt_usize(n / 10);
        prefix.append(digit_str(n % 10));
        proof {
            assert(prefix@ =~= dec_seq(n as nat));
        }
        prefix
    }
}

/// Resolve one request line: `Home` exactly for `GET / HTTP/1.1`.
pub fn route_of(request_line: &str) -> (r: Route)
    ensures
        r is Home <==> request_line@ == "GET / HTTP/1.1"@,
{
    let line = request_line.to_owned();
    let expected = ("GET / HTTP/1.1").to_owned();
    if line == expected {
        Route::Home
    } else {
        Route::NotFound
    }
}

/// The full response text for a status line and a body whose byte length is
/// `length`: status line, a `Content-Length` header, a blank line, the body.
pub open spec fn response_text(status_line: Seq<char>, length: nat, body: Seq<char>) -> Seq<char> {
    status_line + "\r\nContent-Length: "@ + dec_seq(length) + "\r\n\r\n"@ + body
}

/// Build the response for one page: the result is exactly
/// [`response_text`] of the status line, the body's byte length, and the body.
pub fn build_response(status_line: &str, contents: &str) -> (r: String)
    ensures
        r@ == response_text(status_line@, contents.len() as nat, contents@),
{
    let length = contents.len();
    let digits = fmt_usize(length);
    let mut r = status_line.to_owned();
    r.append("\r\nContent-Length: ");
    r.append(digits.as_str());
    r.append("\r\n\r\n");
    r.append(contents);
    proof {
        assert(r@ =~= response_text(status_line@, contents.len() as nat, contents@));
    }
    r
}

/// Handle one request: serve `home_page` with status 200 when the request
/// line is exactly `GET / HTTP/1.1`, and `missing_page` with status 404
/// otherwise. This is the whole decision the connection handler makes; the
/// surrounding process only reads the request line and the two page files and
/// writes the result back.
pub fn handle_request(request_line: &str, home_page: &str, missing_page: &str) -> (r: String)
    ensures
        request_line@ == "GET / HTTP/1.1"@ ==> r@ == response_text(
            "HTTP/1.1 200 OK"@,
            home_page.len() as nat,
            home_page@,
        ),
        request_line@ != "GET / HTTP/1.1"@ ==> r@ == response_text(
            "HTTP/1.1 404 NOT FOUND"@,
            missing_page.len() as nat,
            missing_page@,
        ),
{
    match route_of(request_line) {
        Route::Home => build_response("HTTP/1.1 200 OK", home_page),
        Route::NotFound => build_response("HTTP/1.1 404 NOT FOUND", missing_page),
    }
}

} // verus!
