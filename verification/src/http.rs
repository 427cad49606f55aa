//! What a job of the server computes for one connection: which page answers
//! a request line, and the text of the response that carries it.

use vstd::prelude::*;
use vstd::string::*;

verus! {

/// Whether `line` is the request line that asks for the home page.
pub open spec fn asks_for_home(line: Seq<char>) -> bool {
    line == "GET / HTTP/1.1"@
}

/// The status line that answers the request line `line`.
pub open spec fn status_line_for(line: Seq<char>) -> Seq<char> {
    if asks_for_home(line) {
        "HTTP/1.1 200 OK"@
    } else {
        "HTTP/1.1 404 NOT FOUND"@
    }
}

/// The name of the file whose content answers the request line `line`.
pub open spec fn filename_for(line: Seq<char>) -> Seq<char> {
    if asks_for_home(line) {
        "hello.html"@
    } else {
        "404.html"@
    }
}

/// The decimal digit for `d`, which is less than ten.
pub open spec fn digit(d: nat) -> char {
    if d == 0 {
        '0'
    } else if d == 1 {
        '1'
    } else if d == 2 {
        '2'
    } else if d == 3 {
        '3'
    } else if d == 4 {
        '4'
    } else if d == 5 {
        '5'
    } else if d == 6 {
        '6'
    } else if d == 7 {
        '7'
    } else if d == 8 {
        '8'
    } else {
        '9'
    }
}

/// The decimal numeral of `n`, without leading zeros.
pub open spec fn decimal(n: nat) -> Seq<char>
    decreases n,
{
    if n < 10 {
        seq![digit(n)]
    } else {
        decimal(n / 10).push(digit(n % 10))
    }
}

/// The text of a response: the status line, the length of the content in
/// bytes as its only header, an empty line, and the content.
pub open spec fn response_text(status_line: Seq<char>, length: nat, content: Seq<char>) -> Seq<
    char,
> {
    status_line + "\r\nContent-Length: "@ + decimal(length) + "\r\n\r\n"@ + content
}

/// The status line and the name of the file that answer `request_line`:
/// the home page for the one request line that asks for it, and the page
/// for what was not found for every other.
pub fn route(request_line: &str) -> (answer: (&'static str, &'static str))
    ensures
        answer.0@ == status_line_for(request_line@),
        answer.1@ == filename_for(request_line@),
{
    let asked = request_line.to_owned();
    let home = "GET / HTTP/1.1".to_owned();
    if asked == home {
        ("HTTP/1.1 200 OK", "hello.html")
    } else {
        ("HTTP/1.1 404 NOT FOUND", "404.html")
    }
}

/// Appends the decimal numeral of `n` to `text`.
fn push_decimal(text: &mut String, n: usize)
    ensures
        final(text)@ == old(text)@ + decimal(n as nat),
    decreases n,
{
    if n >= 10 {
        push_decimal(text, n / 10);
    }
    let d: usize = n % 10;
    let numeral: &str = if d == 0 {
        "0"
    } else if d == 1 {
        "1"
    } else if d == 2 {
        "2"
    } else if d == 3 {
        "3"
    } else if d == 4 {
        "4"
    } else if d == 5 {
        "5"
    } else if d == 6 {
        "6"
    } else if d == 7 {
        "7"
    } else if d == 8 {
        "8"
    } else {
        "9"
    };
    proof {
        reveal_strlit("0");
        reveal_strlit("1");
        reveal_strlit("2");
        reveal_strlit("3");
        reveal_strlit("4");
        reveal_strlit("5");
        reveal_strlit("6");
        reveal_strlit("7");
        reveal_strlit("8");
        reveal_strlit("9");
    }
    text.append(numeral);
}

/// The response that carries `content` under `status_line`.
pub fn response(status_line: &str, content: &str) -> (text: String)
    ensures
        text@ == response_text(status_line@, content.spec_bytes().len(), content@),
{
    let mut text = status_line.to_owned();
    text.append("\r\nContent-Length: ");
    push_decimal(&mut text, content.as_bytes().len());
    text.append("\r\n\r\n");
    text.append(content);
    text
}

} // verus!
