//! The response side of the wire codec: a response as a value, and the
//! text that goes over the wire for it.

use crate::headers::{Entry, Headers};
use crate::text::{option_text, same_text};
use vstd::prelude::*;
use vstd::std_specs::convert::FromSpecImpl;
use vstd::utf8::encode_utf8;

verus! {

/// The end of a line on the wire.
pub open spec fn crlf() -> Seq<char> {
    seq!['\r', '\n']
}

/// The status text that belongs to a status code.
pub open spec fn status_text_of(status_code: Seq<char>) -> Seq<char> {
    if status_code == "200"@ {
        "OK"@
    } else if status_code == "400"@ {
        "Bad Request"@
    } else if status_code == "500"@ {
        "Internal Server Error"@
    } else {
        "Not Found"@
    }
}

/// The headers of a response that was given none.
pub open spec fn default_headers() -> Seq<Entry> {
    seq![("Content-Type"@, "text/plain"@)]
}

/// The text of a body that may be missing.
pub open spec fn body_text(body: Option<Seq<char>>) -> Seq<char> {
    match body {
        Some(text) => text,
        None => Seq::empty(),
    }
}

/// The number of bytes that `text` takes in UTF-8.
pub open spec fn byte_len(text: Seq<char>) -> nat {
    encode_utf8(text).len()
}

/// The decimal digit for a number below ten.
pub open spec fn digit(d: nat) -> char {
    if d == 0 {
        '0'
    } else if d == 1 {
        '1'
    } else if d == 2 {
        '2'
    } else if d == 3 {
        '3'
    } else if d == 4 {
        '4'
    } else if d == 5 {
        '5'
    } else if d == 6 {
        '6'
    } else if d == 7 {
        '7'
    } else if d == 8 {
        '8'
    } else {
        '9'
    }
}

/// `n` in decimal digits, without leading zeros.
pub open spec fn decimal(n: nat) -> Seq<char>
    decreases n,
{
    if n < 10 {
        seq![digit(n)]
    } else {
        decimal(n / 10).push(digit(n % 10))
    }
}

/// One header on the wire: name, colon, value, end of line.
pub open spec fn header_line(entry: Entry) -> Seq<char> {
    entry.0 + seq![':'] + entry.1 + crlf()
}

/// The headers on the wire, one line each, in their order.
pub open spec fn header_lines(headers: Seq<Entry>) -> Seq<char>
    decreases headers.len(),
{
    if headers.len() == 0 {
        Seq::empty()
    } else {
        header_lines(headers.drop_last()) + header_line(headers.last())
    }
}

/// A response as a mathematical value.
pub struct ResponseView {
    pub protocol_version: Seq<char>,
    pub status_code: Seq<char>,
    pub status_text: Seq<char>,
    pub headers: Seq<Entry>,
    pub body: Option<Seq<char>>,
}

/// The response before anything was set: `HTTP/1.1 200 OK`, without headers
/// and without a body.
pub open spec fn default_response() -> ResponseView {
    ResponseView {
        protocol_version: "HTTP/1.1"@,
        status_code: "200"@,
        status_text: "OK"@,
        headers: Seq::empty(),
        body: None,
    }
}

/// The response with the given status code, headers and body. Its status
/// text is the one of the code; without headers it gets the default ones.
pub open spec fn response_of(
    status_code: Seq<char>,
    headers: Option<Seq<Entry>>,
    body: Option<Seq<char>>,
) -> ResponseView {
    ResponseView {
        protocol_version: "HTTP/1.1"@,
        status_code,
        status_text: status_text_of(status_code),
        headers: match headers {
            Some(given) => given,
            None => default_headers(),
        },
        body,
    }
}

/// The status line on the wire.
pub open spec fn status_line(r: ResponseView) -> Seq<char> {
    r.protocol_version + seq![' '] + r.status_code + seq![' '] + r.status_text + crlf()
}

/// The line on the wire that gives the length of the body in bytes.
pub open spec fn length_line(r: ResponseView) -> Seq<char> {
    "Content-Length:"@ + decimal(byte_len(body_text(r.body))) + crlf()
}

/// The text that goes over the wire for a response: status line, length of
/// the body, headers, an empty line, body.
pub open spec fn wire(r: ResponseView) -> Seq<char> {
    status_line(r) + length_line(r) + header_lines(r.headers) + crlf() + body_text(r.body)
}

/// A response that was given the status code `200`, no headers and any
/// body goes over the wire as the status line `HTTP/1.1 200 OK`, the length
/// of the body in bytes, the header `Content-Type:text/plain`, an empty line
/// and the body.
pub proof fn lemma_plain_ok_wire(body: Option<Seq<char>>)
    ensures
        wire(response_of("200"@, None, body)) == "HTTP/1.1 200 OK\r\n"@ + "Content-Length:"@
            + decimal(byte_len(body_text(body))) + "\r\n"@ + "Content-Type:text/plain\r\n"@
            + "\r\n"@ + body_text(body),
{
    reveal_strlit("HTTP/1.1 200 OK\r\n");
    reveal_strlit("HTTP/1.1");
    reveal_strlit("200");
    reveal_strlit("OK");
    reveal_strlit("\r\n");
    reveal_strlit("Content-Type:text/plain\r\n");
    reveal_strlit("Content-Type");
    reveal_strlit("text/plain");
    let r = response_of("200"@, None, body);
    assert(status_line(r) =~= "HTTP/1.1 200 OK\r\n"@);
    assert(crlf() =~= "\r\n"@);
    assert(r.headers.drop_last() =~= Seq::<Entry>::empty());
    assert(header_lines(r.headers) == header_lines(r.headers.drop_last()) + header_line(
        r.headers.last(),
    ));
    assert(header_lines(r.headers) =~= "Content-Type:text/plain\r\n"@);
}

/// The text that goes over the wire depends on the response alone: equal
/// responses give the same text, and so the same bytes.
pub proof fn lemma_wire_is_stable(a: Response, b: Response)
    requires
        a@ == b@,
    ensures
        wire(a@) == wire(b@),
        encode_utf8(wire(a@)) == encode_utf8(wire(b@)),
{
}

/// A response to a request.
#[derive(Debug, PartialEq)]
pub struct Response<'a> {
    protocol_version: &'a str,
    status_code: &'a str,
    status_text: &'a str,
    headers: Headers,
    body: Option<String>,
}

impl<'a> View for Response<'a> {
    type V = ResponseView;

    closed spec fn view(&self) -> ResponseView {
        ResponseView {
            protocol_version: self.protocol_version@,
            status_code: self.status_code@,
            status_text: self.status_text@,
            headers: self.headers@,
            body: option_text(self.body),
        }
    }
}

impl<'a> Clone for Response<'a> {
    fn clone(&self) -> (r: Response<'a>)
        ensures
            r@ == self@,
    {
        proof {
            use_type_invariant(self);
        }
        Response {
            protocol_version: self.protocol_version,
            status_code: self.status_code,
            status_text: self.status_text,
            headers: self.headers.clone(),
            body: match &self.body {
                Some(text) => Some(text.clone()),
                None => None,
            },
        }
    }
}

impl<'a> Default for Response<'a> {
    fn default() -> (r: Response<'a>)
        ensures
            r@ == default_response(),
    {
        Response {
            protocol_version: "HTTP/1.1",
            status_code: "200",
            status_text: "OK",
            headers: Headers::new(),
            body: None,
        }
    }
}

/// The one-character string for a number below ten.
fn digit_str(d: usize) -> (s: &'static str)
    requires
        d < 10,
    ensures
        s@ == seq![digit(d as nat)],
{
    proof {
        reveal_strlit("0");
        reveal_strlit("1");
        reveal_strlit("2");
        reveal_strlit("3");
        reveal_strlit("4");
        reveal_strlit("5");
        reveal_strlit("6");
        reveal_strlit("7");
        reveal_strlit("8");
        reveal_strlit("9");
    }
    let s = if d == 0 {
        "0"
    } else if d == 1 {
        "1"
    } else if d == 2 {
        "2"
    } else if d == 3 {
        "3"
    } else if d == 4 {
        "4"
    } else if d == 5 {
        "5"
    } else if d == 6 {
        "6"
    } else if d == 7 {
        "7"
    } else if d == 8 {
        "8"
    } else {
        "9"
    };
    assert(s@ =~= seq![digit(d as nat)]);
    s
}

/// Appends `n` in decimal digits to `out`.
pub fn push_decimal(out: &mut String, n: usize)
    ensures
        final(out)@ == old(out)@ + decimal(n as nat),
    decreases n,
{
    if n >= 10 {
        push_decimal(out, n / 10);
    }
    out.append(digit_str(n % 10));
    assert(out@ =~= old(out)@ + decimal(n as nat));
}

impl<'a> Response<'a> {
    #[verifier::type_invariant]
    spec fn well_formed(&self) -> bool {
        self.status_text@ == status_text_of(self.status_code@)
    }

    /// A response with the given status code, headers and body.
    pub fn new(status_code: &'a str, headers: Option<Headers>, body: Option<String>) -> (r:
        Response<'a>)
        ensures
            r@ == response_of(
                status_code@,
                match headers {
                    Some(given) => Some(given@),
                    None => None,
                },
                option_text(body),
            ),
    {
        let status_text = if same_text(status_code, "200") {
            "OK"
        } else if same_text(status_code, "400") {
            "Bad Request"
        } else if same_text(status_code, "500") {
            "Internal Server Error"
        } else {
            "Not Found"
        };
        let headers = match headers {
            Some(given) => given,
            None => {
                let mut fresh = Headers::new();
                fresh.insert(String::from_str("Content-Type"), String::from_str("text/plain"));
                assert(fresh@ =~= default_headers());
                fresh
            },
        };
        Response { protocol_version: "HTTP/1.1", status_code, status_text, headers, body }
    }

    /// The protocol version.
    pub fn protocol_version(&self) -> (s: &str)
        ensures
            s@ == self@.protocol_version,
    {
        self.protocol_version
    }

    /// The status code.
    pub fn status_code(&self) -> (s: &str)
        ensures
            s@ == self@.status_code,
    {
        self.status_code
    }

    /// The status text, which is always the one of the status code.
    pub fn status_text(&self) -> (s: &str)
        ensures
            s@ == self@.status_text,
            s@ == status_text_of(self@.status_code),
    {
        proof {
            use_type_invariant(self);
        }
        self.status_text
    }

    /// The headers as they go over the wire, one line each.
    pub fn headers(&self) -> (s: String)
        ensures
            s@ == header_lines(self@.headers),
    {
        let mut out = String::new();
        let mut i: usize = 0;
        proof {
            reveal_strlit(":");
            reveal_strlit("\r\n");
            assert(self.headers@.take(0) =~= Seq::<Entry>::empty());
        }
        while i < self.headers.len()
            invariant
                i <= self.headers@.len(),
                ":"@ == seq![':'],
                "\r\n"@ == crlf(),
                out@ == header_lines(self.headers@.take(i as int)),
            decreases self.headers@.len() - i,
        {
            out.append(self.headers.name(i));
            out.append(":");
            out.append(self.headers.value(i));
            out.append("\r\n");
            proof {
                let now = self.headers@.take(i + 1);
                assert(now.drop_last() =~= self.headers@.take(i as int));
                assert(now.last() == self.headers@[i as int]);
                assert(out@ =~= header_lines(now.drop_last()) + header_line(now.last()));
            }
            i += 1;
        }
        assert(self.headers@.take(i as int) =~= self.headers@);
        out
    }

    /// The body, empty if there is none.
    pub fn body(&self) -> (s: &str)
        ensures
            s@ == body_text(self@.body),
    {
        match &self.body {
            Some(text) => text.as_str(),
            None => {
                proof {
                    reveal_strlit("");
                }
                assert(""@ =~= Seq::<char>::empty());
                ""
            },
        }
    }

    /// The text that goes over the wire for this response.
    pub fn to_wire(&self) -> (s: String)
        ensures
            s@ == wire(self@),
    {
        let mut out = String::new();
        proof {
            reveal_strlit(" ");
            reveal_strlit("\r\n");
        }
        assert(" "@ =~= seq![' ']);
        assert("\r\n"@ =~= crlf());
        out.append(self.protocol_version());
        out.append(" ");
        out.append(self.status_code());
        out.append(" ");
        out.append(self.status_text());
        out.append("\r\n");
        assert(out@ =~= status_line(self@));
        out.append("Content-Length:");
        let body = self.body();
        push_decimal(&mut out, body.as_bytes().len());
        out.append("\r\n");
        assert(out@ =~= status_line(self@) + length_line(self@));
        let lines = self.headers();
        out.append(lines.as_str());
        out.append("\r\n");
        out.append(body);
        assert(out@ =~= wire(self@));
        out
    }
}

impl<'a> From<Response<'a>> for String {
    /// The text that goes over the wire for a response.
    fn from(r: Response<'a>) -> (s: String)
        ensures
            s@ == wire(r@),
    {
        r.to_wire()
    }
}

impl<'a> FromSpecImpl<Response<'a>> for String {
    open spec fn obeys_from_spec() -> bool {
        false
    }

    open spec fn from_spec(r: Response<'a>) -> String {
        arbitrary()
    }
}

} // verus!
