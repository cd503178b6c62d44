//! An HTTP response: builders and the byte encoding written to the socket.
use vstd::prelude::*;
use vstd::slice::slice_to_vec;
use vstd::string::{StringExecFns, StringSliceAdditionalSpecFns};
use vstd::utf8::encode_utf8;

use crate::request::HeaderView;
use crate::text::{
    all_digits, chars_eq_ignore_ascii_case, decimal, digits_value, eq_ignore_ascii_case,
    lemma_decimal_value, push_decimal, str_chars,
};

verus! {

/// The abstract content of a [`Response`].
pub struct ResponseView {
    pub status: u16,
    pub headers: Seq<HeaderView>,
    pub body: Seq<u8>,
}

/// An HTTP response to send back to the client.
///
/// `Content-Length` and `Connection: close` are added automatically on encode;
/// any header set with those names is ignored.
#[derive(Clone, Debug)]
pub struct Response {
    status: u16,
    headers: Vec<(String, String)>,
    body: Vec<u8>,
}

impl View for Response {
    type V = ResponseView;

    closed spec fn view(&self) -> ResponseView {
        ResponseView { status: self.status, headers: self.headers.deep_view(), body: self.body@ }
    }
}

/// Reason phrase for common status codes (`"OK"` for any other code).
pub open spec fn reason(status: u16) -> Seq<char> {
    if status == 200 {
        "OK"@
    } else if status == 201 {
        "Created"@
    } else if status == 204 {
        "No Content"@
    } else if status == 301 {
        "Moved Permanently"@
    } else if status == 302 {
        "Found"@
    } else if status == 304 {
        "Not Modified"@
    } else if status == 400 {
        "Bad Request"@
    } else if status == 401 {
        "Unauthorized"@
    } else if status == 403 {
        "Forbidden"@
    } else if status == 404 {
        "Not Found"@
    } else if status == 405 {
        "Method Not Allowed"@
    } else if status == 413 {
        "Payload Too Large"@
    } else if status == 431 {
        "Request Header Fields Too Large"@
    } else if status == 500 {
        "Internal Server Error"@
    } else if status == 503 {
        "Service Unavailable"@
    } else {
        "OK"@
    }
}

/// Reason phrase for common status codes (defaults to `"OK"`).
pub fn reason_phrase(status: u16) -> (r: &'static str)
    ensures
        r@ == reason(status),
{
    match status {
        200 => "OK",
        201 => "Created",
        204 => "No Content",
        301 => "Moved Permanently",
        302 => "Found",
        304 => "Not Modified",
        400 => "Bad Request",
        401 => "Unauthorized",
        403 => "Forbidden",
        404 => "Not Found",
        405 => "Method Not Allowed",
        413 => "Payload Too Large",
        431 => "Request Header Fields Too Large",
        500 => "Internal Server Error",
        503 => "Service Unavailable",
        _ => "OK",
    }
}

/// Header names the encoder writes itself; user headers with these names are
/// dropped.
pub open spec fn is_managed_header(name: Seq<char>) -> bool {
    eq_ignore_ascii_case(name, "content-length"@) || eq_ignore_ascii_case(name, "connection"@)
}

/// The header lines of `hs`, in order, without the managed ones.
pub open spec fn header_lines(hs: Seq<HeaderView>) -> Seq<char>
    decreases hs.len(),
{
    if hs.len() == 0 {
        Seq::empty()
    } else {
        let (k, v) = hs.last();
        header_lines(hs.drop_last()) + if is_managed_header(k) {
            Seq::empty()
        } else {
            k + ": "@ + v + "\r\n"@
        }
    }
}

/// The response head: status line, header lines, then `Content-Length` and
/// `Connection: close`, then the blank line.
pub open spec fn encode_head(r: ResponseView) -> Seq<char> {
    "HTTP/1.1 "@ + decimal(r.status as nat) + " "@ + reason(r.status) + "\r\n"@ + header_lines(
        r.headers,
    ) + "Content-Length: "@ + decimal(r.body.len()) + "\r\n"@ + "Connection: close\r\n\r\n"@
}

/// The bytes sent for `r`: the UTF-8 head followed by the body.
pub open spec fn encoded(r: ResponseView) -> Seq<u8> {
    encode_utf8(encode_head(r)) + r.body
}

impl Response {
    /// A response with the given status code, no headers, and an empty body.
    pub fn new(status: u16) -> (r: Response)
        ensures
            r@ == (ResponseView { status, headers: Seq::empty(), body: Seq::empty() }),
    {
        let r = Response { status, headers: Vec::new(), body: Vec::new() };
        assert(r.headers.deep_view() =~= Seq::<HeaderView>::empty());
        r
    }

    /// A `200 OK` response.
    pub fn ok() -> (r: Response)
        ensures
            r@ == (ResponseView { status: 200, headers: Seq::empty(), body: Seq::empty() }),
    {
        Response::new(200)
    }

    /// Set the status code.
    pub fn status(self, status: u16) -> (r: Response)
        ensures
            r@ == (ResponseView { status, ..self@ }),
    {
        let mut r = self;
        r.status = status;
        r
    }

    /// Append a header field.
    pub fn header(self, name: &str, value: &str) -> (r: Response)
        ensures
            r@ == (ResponseView { headers: self@.headers.push((name@, value@)), ..self@ }),
    {
        let mut r = self;
        let ghost old_h = r.headers.deep_view();
        r.headers.push((name.to_owned(), value.to_owned()));
        assert(r.headers.deep_view() =~= old_h.push((name@, value@)));
        r
    }

    /// Set the raw body bytes (does not set a content type).
    pub fn body(self, body: Vec<u8>) -> (r: Response)
        ensures
            r@ == (ResponseView { body: body@, ..self@ }),
    {
        let mut r = self;
        r.body = body;
        r
    }

    fn with_content_type(self, ct: &str) -> (r: Response)
        ensures
            r@ == (ResponseView { headers: self@.headers.push(("Content-Type"@, ct@)), ..self@ }),
    {
        self.header("Content-Type", ct)
    }

    fn with_text(self, ct: &str, body: &str) -> (r: Response)
        ensures
            r@ == (ResponseView {
                headers: self@.headers.push(("Content-Type"@, ct@)),
                body: encode_utf8(body@),
                ..self@
            }),
    {
        let bytes = slice_to_vec(body.as_bytes());
        self.with_content_type(ct).body(bytes)
    }

    /// Set a `text/plain; charset=utf-8` body.
    pub fn text(self, body: &str) -> (r: Response)
        ensures
            r@ == (ResponseView {
                headers: self@.headers.push(("Content-Type"@, "text/plain; charset=utf-8"@)),
                body: encode_utf8(body@),
                ..self@
            }),
    {
        self.with_text("text/plain; charset=utf-8", body)
    }

    /// Set a `text/html; charset=utf-8` body.
    pub fn html(self, body: &str) -> (r: Response)
        ensures
            r@ == (ResponseView {
                headers: self@.headers.push(("Content-Type"@, "text/html; charset=utf-8"@)),
                body: encode_utf8(body@),
                ..self@
            }),
    {
        self.with_text("text/html; charset=utf-8", body)
    }

    /// Set an `application/json` body (the caller supplies the JSON text).
    pub fn json(self, body: &str) -> (r: Response)
        ensures
            r@ == (ResponseView {
                headers: self@.headers.push(("Content-Type"@, "application/json"@)),
                body: encode_utf8(body@),
                ..self@
            }),
    {
        self.with_text("application/json", body)
    }

    /// The status code.
    pub fn status_code(&self) -> (s: u16)
        ensures
            s == self@.status,
    {
        self.status
    }

    /// The body bytes.
    pub fn body_bytes(&self) -> (b: &Vec<u8>)
        ensures
            b@ == self@.body,
    {
        &self.body
    }

    /// Serialize the response to the bytes to write to the socket.
    pub fn encode(&self) -> (out: Vec<u8>)
        ensures
            out@ == encoded(self@),
    {
        let mut head = String::new();
        head.append("HTTP/1.1 ");
        push_decimal(&mut head, self.status as u64);
        head.append(" ");
        head.append(reason_phrase(self.status));
        head.append("\r\n");
        let ghost prefix = head@;
        let ghost hs = self.headers.deep_view();
        let content_length = str_chars("content-length");
        let connection = str_chars("connection");
        let mut i: usize = 0;
        assert(hs.take(0) =~= Seq::<HeaderView>::empty());
        while i < self.headers.len()
            invariant
                i <= self.headers@.len(),
                hs == self.headers.deep_view(),
                content_length@ == "content-length"@,
                connection@ == "connection"@,
                head@ == prefix + header_lines(hs.take(i as int)),
            decreases self.headers@.len() - i,
        {
            let k = &self.headers[i].0;
            let v = &self.headers[i].1;
            assert(k@ == hs[i as int].0 && v@ == hs[i as int].1);
            let kc = str_chars(k.as_str());
            assert(hs.take(i + 1).drop_last() =~= hs.take(i as int));
            if chars_eq_ignore_ascii_case(&kc, &content_length) || chars_eq_ignore_ascii_case(
                &kc,
                &connection,
            ) {
                assert(head@ =~= prefix + header_lines(hs.take(i + 1)));
            } else {
                head.append(k.as_str());
                head.append(": ");
                head.append(v.as_str());
                head.append("\r\n");
                assert(head@ =~= prefix + header_lines(hs.take(i + 1)));
            }
            i = i + 1;
        }
        assert(hs.take(i as int) =~= hs);
        head.append("Content-Length: ");
        push_decimal(&mut head, self.body.len() as u64);
        head.append("\r\n");
        head.append("Connection: close\r\n\r\n");
        assert(head@ =~= encode_head(self@));
        let mut bytes = slice_to_vec(head.as_str().as_bytes());
        let mut i: usize = 0;
        while i < self.body.len()
            invariant
                i <= self.body@.len(),
                bytes@ == encode_utf8(encode_head(self@)) + self.body@.take(i as int),
            decreases self.body@.len() - i,
        {
            bytes.push(self.body[i]);
            assert(self.body@.take(i + 1) =~= self.body@.take(i as int).push(self.body@[i as int]));
            i = i + 1;
        }
        assert(self.body@.take(i as int) =~= self.body@);
        bytes
    }
}

} // verus!

verus! {

/// `Content-Length` and `Connection` are the encoder's own: adding a header
/// with either name (in any ASCII case) leaves the encoded bytes unchanged.
pub proof fn law_managed_headers_ignored(r: ResponseView, name: Seq<char>, value: Seq<char>)
    requires
        is_managed_header(name),
    ensures
        encoded(ResponseView { headers: r.headers.push((name, value)), ..r }) == encoded(r),
{
    assert(r.headers.push((name, value)).drop_last() =~= r.headers);
    assert(header_lines(r.headers.push((name, value))) =~= header_lines(r.headers));
}

/// Other headers are written in the order they were added, each on its own
/// `name: value` line, after the earlier ones.
pub proof fn law_header_line_appended(r: ResponseView, name: Seq<char>, value: Seq<char>)
    requires
        !is_managed_header(name),
    ensures
        header_lines(r.headers.push((name, value))) == header_lines(r.headers) + name + ": "@
            + value + "\r\n"@,
{
    assert(r.headers.push((name, value)).drop_last() =~= r.headers);
}

/// The `Content-Length` a response announces is the number of body bytes it
/// sends: the encoded bytes are a head ending in `Content-Length: ` and a
/// decimal number, `Connection: close` and the blank line, followed by
/// exactly as many bytes as that number reads.
pub proof fn law_content_length_is_body_length(r: ResponseView)
    ensures
        exists|head: Seq<char>, digits: Seq<char>, rest: Seq<u8>|
            #![trigger all_digits(digits), encode_utf8(head), rest.len()]
            {
                &&& digits.len() > 0
                &&& all_digits(digits)
                &&& digits_value(digits) == rest.len()
                &&& rest == r.body
                &&& encoded(r) == encode_utf8(
                    head + "Content-Length: "@ + digits + "\r\n"@ + "Connection: close\r\n\r\n"@,
                ) + rest
            },
{
    let head = "HTTP/1.1 "@ + decimal(r.status as nat) + " "@ + reason(r.status) + "\r\n"@
        + header_lines(r.headers);
    let digits = decimal(r.body.len());
    lemma_decimal_value(r.body.len());
    assert(encode_head(r) == head + "Content-Length: "@ + digits + "\r\n"@
        + "Connection: close\r\n\r\n"@);
    assert(all_digits(digits));
    assert(encode_utf8(head) == encode_utf8(head));
    assert(r.body.len() == r.body.len());
}

} // verus!
