//! Responses: a status line, the length of the body, and the body.

use crate::request::STATUS_NOT_FOUND;
use vstd::prelude::*;
use vstd::string::StringExecFns;
use vstd::utf8::encode_utf8;

verus! {

/// What stands between the status line and the length of the body.
pub const LENGTH_HEADER: &'static str = "\r\nContent-Length: ";

/// What stands between the length of the body and the body.
pub const HEAD_END: &'static str = "\r\n\r\n";

/// The decimal digit for `d`.
pub open spec fn digit(d: nat) -> char {
    if d == 0 {
        '0'
    } else if d == 1 {
        '1'
    } else if d == 2 {
        '2'
    } else if d == 3 {
        '3'
    } else if d == 4 {
        '4'
    } else if d == 5 {
        '5'
    } else if d == 6 {
        '6'
    } else if d == 7 {
        '7'
    } else if d == 8 {
        '8'
    } else {
        '9'
    }
}

/// The number that the decimal digit `c` stands for; 0 for any other
/// character.
pub open spec fn digit_value(c: char) -> nat {
    if c == '1' {
        1
    } else if c == '2' {
        2
    } else if c == '3' {
        3
    } else if c == '4' {
        4
    } else if c == '5' {
        5
    } else if c == '6' {
        6
    } else if c == '7' {
        7
    } else if c == '8' {
        8
    } else if c == '9' {
        9
    } else {
        0
    }
}

/// `n` written in base ten, most significant digit first, without leading
/// zeros.
pub open spec fn decimal(n: nat) -> Seq<char>
    decreases n,
{
    if n < 10 {
        seq![digit(n)]
    } else {
        decimal(n / 10).push(digit(n % 10))
    }
}

/// The number that a sequence of decimal digits stands for.
pub open spec fn decimal_value(s: Seq<char>) -> nat
    decreases s.len(),
{
    if s.len() == 0 {
        0
    } else {
        decimal_value(s.drop_last()) * 10 + digit_value(s.last())
    }
}

/// The number of bytes that `body` takes on the wire.
pub open spec fn byte_len(body: Seq<char>) -> nat {
    encode_utf8(body).len()
}

/// The response with status line `status` and body `body`.
pub open spec fn rendered(status: Seq<char>, body: Seq<char>) -> Seq<char> {
    status + LENGTH_HEADER@ + decimal(byte_len(body)) + HEAD_END@ + body
}

/// Reading back what [`decimal`] wrote gives the number that was written.
pub proof fn lemma_decimal_round_trip(n: nat)
    ensures
        decimal_value(decimal(n)) == n,
        decimal(n).len() >= 1,
    decreases n,
{
    if n < 10 {
        assert(decimal(n).drop_last() =~= Seq::<char>::empty());
        assert(decimal_value(decimal(n).drop_last()) == 0);
    } else {
        lemma_decimal_round_trip(n / 10);
        assert(decimal(n).drop_last() =~= decimal(n / 10));
        assert(decimal(n).last() == digit(n % 10));
    }
}

/// A rendered response starts with the status line, names the exact number
/// of bytes of the body after the length header, and ends with the body as
/// it was given.
pub proof fn lemma_rendered_layout(status: Seq<char>, body: Seq<char>)
    ensures
        ({
            let r = rendered(status, body);
            let at: int = (status.len() + LENGTH_HEADER@.len()) as int;
            let digits: int = decimal(byte_len(body)).len() as int;
            &&& r.len() == at + digits + HEAD_END@.len() + body.len()
            &&& r.subrange(0, status.len() as int) == status
            &&& r.subrange(status.len() as int, at) == LENGTH_HEADER@
            &&& decimal_value(r.subrange(at, at + digits)) == byte_len(body)
            &&& r.subrange(at + digits, at + digits + HEAD_END@.len()) == HEAD_END@
            &&& r.skip(at + digits + HEAD_END@.len()) == body
        }),
{
    let r = rendered(status, body);
    let at: int = (status.len() + LENGTH_HEADER@.len()) as int;
    let digits: int = decimal(byte_len(body)).len() as int;
    lemma_decimal_round_trip(byte_len(body));
    assert(r.subrange(0, status.len() as int) =~= status);
    assert(r.subrange(status.len() as int, at) =~= LENGTH_HEADER@);
    assert(r.subrange(at, at + digits) =~= decimal(byte_len(body)));
    assert(r.subrange(at + digits, at + digits + HEAD_END@.len()) =~= HEAD_END@);
    assert(r.skip(at + digits + HEAD_END@.len()) =~= body);
}

/// The one-character text for the digit `d`.
fn digit_str(d: usize) -> (s: &'static str)
    requires
        d < 10,
    ensures
        s@ == seq![digit(d as nat)],
{
    proof {
        reveal_strlit("0");
        reveal_strlit("1");
        reveal_strlit("2");
        reveal_strlit("3");
        reveal_strlit("4");
        reveal_strlit("5");
        reveal_strlit("6");
        reveal_strlit("7");
        reveal_strlit("8");
        reveal_strlit("9");
    }
    let s = if d == 0 {
        "0"
    } else if d == 1 {
        "1"
    } else if d == 2 {
        "2"
    } else if d == 3 {
        "3"
    } else if d == 4 {
        "4"
    } else if d == 5 {
        "5"
    } else if d == 6 {
        "6"
    } else if d == 7 {
        "7"
    } else if d == 8 {
        "8"
    } else {
        "9"
    };
    assert(s@ =~= seq![digit(d as nat)]);
    s
}

/// Appends `n` in base ten to `out`.
pub fn push_decimal(out: &mut String, n: usize)
    ensures
        final(out)@ == old(out)@ + decimal(n as nat),
    decreases n,
{
    if n >= 10 {
        push_decimal(out, n / 10);
    }
    out.append(digit_str(n % 10));
    assert(final(out)@ =~= old(out)@ + decimal(n as nat));
}

/// Renders the response that carries `contents` under `status_line`: the
/// status line, the length of the body in bytes, a blank line, the body.
pub fn generate_http_response(status_line: &str, contents: &str) -> (response: String)
    ensures
        response@ == rendered(status_line@, contents@),
{
    let length: usize = contents.as_bytes().len();
    let mut response = String::from_str(status_line);
    response.append(LENGTH_HEADER);
    push_decimal(&mut response, length);
    response.append(HEAD_END);
    response.append(contents);
    response
}

/// The body that is sent where a resource may be missing: the resource, or
/// nothing.
pub open spec fn body_of(contents: Option<&str>) -> Seq<char> {
    match contents {
        Some(text) => text@,
        None => Seq::empty(),
    }
}

/// The response to a request whose resource was looked up: `contents` under
/// `status_line` where the resource was found; where it is missing, the
/// not-found response, with the not-found page `not_found` as its body, or an
/// empty body where that page is missing too.
pub open spec fn response_of(
    status_line: Seq<char>,
    contents: Option<&str>,
    not_found: Option<&str>,
) -> Seq<char> {
    match contents {
        Some(text) => rendered(status_line, text@),
        None => rendered(STATUS_NOT_FOUND@, body_of(not_found)),
    }
}

/// Renders the response to a request whose resource was looked up. A
/// missing resource is answered as not found, never with a failure.
pub fn respond(status_line: &str, contents: Option<&str>, not_found: Option<&str>) -> (response:
    String)
    ensures
        response@ == response_of(status_line@, contents, not_found),
{
    match contents {
        Some(text) => generate_http_response(status_line, text),
        None => match not_found {
            Some(page) => generate_http_response(STATUS_NOT_FOUND, page),
            None => {
                let response = generate_http_response(STATUS_NOT_FOUND, "");
                proof {
                    reveal_strlit("");
                    assert(""@ =~= Seq::<char>::empty());
                }
                response
            },
        },
    }
}

} // verus!
