//! The response side of the wire: headers, status lines and serialization.

use vstd::prelude::*;
use vstd::utf8::encode_utf8;

verus! {

/// Status line of a successful exchange.
pub const STATUS_OK: &'static str = "200 OK";

/// Status line for a request from which no path can be taken.
pub const STATUS_BAD_REQUEST: &'static str = "400 Bad Request";

/// Status line for a path that names nothing.
pub const STATUS_NOT_FOUND: &'static str = "404 Not Found";

/// Status line for a directory or a file that cannot be read.
pub const STATUS_INTERNAL_ERROR: &'static str = "500 Internal server error";

/// The status lines a response may carry.
pub open spec fn is_status_line(s: Seq<char>) -> bool {
    ||| s == "200 OK"@
    ||| s == "400 Bad Request"@
    ||| s == "404 Not Found"@
    ||| s == "500 Internal server error"@
}

/// The decimal digits of `n`, most significant first, as ASCII bytes.
pub open spec fn decimal(n: nat) -> Seq<u8>
    decreases n,
{
    if n < 10 {
        seq![(48 + n) as u8]
    } else {
        decimal(n / 10).push((48 + n % 10) as u8)
    }
}

/// The end of a line on the wire.
pub open spec fn crlf() -> Seq<u8> {
    seq![13u8, 10u8]
}

/// The header block of a response: the two header lines and the blank line
/// that ends the block.
pub open spec fn header_block(content_type: Seq<char>, content_length: nat) -> Seq<u8> {
    encode_utf8("Content-Type: "@) + encode_utf8(content_type) + crlf() + encode_utf8(
        "Content-Length: "@,
    ) + decimal(content_length) + crlf() + crlf()
}

/// A whole response on the wire: status line, header block, body.
pub open spec fn response_bytes(
    status: Seq<char>,
    content_type: Seq<char>,
    content_length: nat,
    body: Seq<char>,
) -> Seq<u8> {
    encode_utf8("HTTP/1.1 "@) + encode_utf8(status) + crlf() + header_block(
        content_type,
        content_length,
    ) + encode_utf8(body)
}

/// The headers of a response.
#[derive(Debug, PartialEq, Eq)]
pub struct Headers {
    pub content_type: String,
    pub content_length: usize,
}

/// Headers as the contracts see them.
pub struct HeadersView {
    pub content_type: Seq<char>,
    pub content_length: nat,
}

impl View for Headers {
    type V = HeadersView;

    open spec fn view(&self) -> HeadersView {
        HeadersView {
            content_type: self.content_type@,
            content_length: self.content_length as nat,
        }
    }
}

/// Appends the decimal digits of `n` to `buf`.
fn push_decimal(buf: &mut Vec<u8>, n: usize)
    ensures
        final(buf)@ == old(buf)@ + decimal(n as nat),
    decreases n,
{
    if n >= 10 {
        push_decimal(buf, n / 10);
    }
    let digit: u8 = (n % 10) as u8;
    buf.push(48u8 + digit);
}

/// Appends the two bytes that end a line.
fn push_crlf(buf: &mut Vec<u8>)
    ensures
        final(buf)@ == old(buf)@ + crlf(),
{
    buf.push(13u8);
    buf.push(10u8);
}

/// Appends the UTF-8 bytes of `s` to `buf`.
fn push_str(buf: &mut Vec<u8>, s: &str)
    ensures
        final(buf)@ == old(buf)@ + encode_utf8(s@),
{
    buf.extend_from_slice(s.as_bytes());
}

impl Headers {
    /// The headers for a body: the declared length is taken from the body
    /// itself, in bytes.
    pub fn for_body(content_type: String, body: &str) -> (headers: Headers)
        ensures
            headers@ == (HeadersView {
                content_type: content_type@,
                content_length: encode_utf8(body@).len(),
            }),
    {
        Headers { content_type, content_length: body.as_bytes().len() }
    }

    /// The bytes that `to_bytes` writes.
    pub open spec fn wire(&self) -> Seq<u8> {
        header_block(self@.content_type, self@.content_length)
    }

    /// Serializes the header block, blank line included.
    pub fn to_bytes(&self) -> (buf: Vec<u8>)
        ensures
            buf@ == self.wire(),
    {
        let mut buf: Vec<u8> = Vec::new();
        push_str(&mut buf, "Content-Type: ");
        push_str(&mut buf, self.content_type.as_str());
        push_crlf(&mut buf);
        push_str(&mut buf, "Content-Length: ");
        push_decimal(&mut buf, self.content_length);
        push_crlf(&mut buf);
        push_crlf(&mut buf);
        buf
    }
}

/// One response: a status line, the headers and the body.
#[derive(Debug)]
pub struct Response<'a> {
    pub headers: &'a Headers,
    pub statuscode: &'a str,
    pub message: String,
}

/// A response as the contracts see it.
pub struct ResponseView {
    pub status: Seq<char>,
    pub headers: HeadersView,
    pub body: Seq<char>,
}

impl<'a> View for Response<'a> {
    type V = ResponseView;

    open spec fn view(&self) -> ResponseView {
        ResponseView { status: self.statuscode@, headers: self.headers@, body: self.message@ }
    }
}

impl<'a> Response<'a> {
    /// The status line is one of the known ones, and the declared length is
    /// the number of bytes in the body.
    pub open spec fn wf(&self) -> bool {
        &&& is_status_line(self@.status)
        &&& self@.headers.content_length == encode_utf8(self@.body).len()
    }

    /// The bytes that `as_bytes` writes.
    pub open spec fn wire(&self) -> Seq<u8> {
        response_bytes(
            self@.status,
            self@.headers.content_type,
            self@.headers.content_length,
            self@.body,
        )
    }

    /// Puts a response together from its parts.
    pub fn new(statuscode: &'static str, message: String, headers: &'a Headers) -> (r: Self)
        requires
            is_status_line(statuscode@),
            headers.content_length == encode_utf8(message@).len(),
        ensures
            r@ == (ResponseView { status: statuscode@, headers: headers@, body: message@ }),
            r.wf(),
    {
        Self { headers, statuscode, message }
    }

    /// Serializes the response: status line, header block, body.
    pub fn as_bytes(&self) -> (buf: Vec<u8>)
        ensures
            buf@ == self.wire(),
    {
        let mut buf: Vec<u8> = Vec::new();
        push_str(&mut buf, "HTTP/1.1 ");
        push_str(&mut buf, self.statuscode);
        push_crlf(&mut buf);
        let mut head = self.headers.to_bytes();
        buf.append(&mut head);
        push_str(&mut buf, self.message.as_str());
        buf
    }
}

} // verus!
