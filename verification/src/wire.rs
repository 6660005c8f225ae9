//! Reading a response back from its bytes, and the proof that what is read
//! is what was written.

use crate::response::{crlf, decimal, is_status_line, response_bytes, Response};
use crate::text::lemma_utf8_lacks_byte;
use vstd::prelude::*;
use vstd::utf8::*;

verus! {

/// The first index at or after `from` at which `needle` stands in `hay`.
pub open spec fn find(hay: Seq<u8>, needle: Seq<u8>, from: int) -> Option<int>
    decreases hay.len() - from,
{
    if from < 0 || from + needle.len() > hay.len() {
        None
    } else if needle.len() == 0 || hay.subrange(from, from + needle.len()) == needle {
        Some(from)
    } else {
        find(hay, needle, from + 1)
    }
}

/// The empty line that ends the header block, with the end of the line
/// before it.
pub open spec fn blank_line() -> Seq<u8> {
    crlf() + crlf()
}

/// The status line and the header lines of a message, each with its line
/// end: all that stands before the first empty line.
pub open spec fn head_of(wire: Seq<u8>) -> Option<Seq<u8>> {
    match find(wire, blank_line(), 0) {
        Some(at) => Some(wire.take(at + 2)),
        None => None,
    }
}

/// The body of a message: all that stands behind the first empty line.
pub open spec fn body_of(wire: Seq<u8>) -> Option<Seq<u8>> {
    match find(wire, blank_line(), 0) {
        Some(at) => Some(wire.skip(at + 4)),
        None => None,
    }
}

/// The status of a response: what stands between the protocol version and
/// the end of the first line.
pub open spec fn status_of(wire: Seq<u8>) -> Option<Seq<u8>> {
    let version = encode_utf8("HTTP/1.1 "@);
    if version.len() <= wire.len() && wire.take(version.len() as int) == version {
        match find(wire, crlf(), version.len() as int) {
            Some(end) => Some(wire.subrange(version.len() as int, end)),
            None => None,
        }
    } else {
        None
    }
}

/// The value of the first header line of `head` that starts with `key`,
/// where `key` is the name of the header with the colon and the space
/// behind it.
pub open spec fn header_value(head: Seq<u8>, key: Seq<u8>) -> Option<Seq<u8>> {
    match find(head, crlf() + key, 0) {
        Some(at) => {
            let start = at + 2 + key.len();
            match find(head, crlf(), start) {
                Some(end) => Some(head.subrange(start, end)),
                None => None,
            }
        },
        None => None,
    }
}

/// The number that a run of decimal digits stands for.
pub open spec fn parse_decimal(digits: Seq<u8>) -> Option<nat>
    decreases digits.len(),
{
    if digits.len() == 0 || !(48 <= digits.last() <= 57) {
        None
    } else if digits.len() == 1 {
        Some((digits.last() - 48) as nat)
    } else {
        match parse_decimal(digits.drop_last()) {
            Some(n) => Some(n * 10 + (digits.last() - 48) as nat),
            None => None,
        }
    }
}

/// The content type that a response declares.
pub open spec fn declared_type(wire: Seq<u8>) -> Option<Seq<u8>> {
    match head_of(wire) {
        Some(head) => header_value(head, encode_utf8("Content-Type: "@)),
        None => None,
    }
}

/// The length of the body that a response declares.
pub open spec fn declared_length(wire: Seq<u8>) -> Option<nat> {
    match head_of(wire) {
        Some(head) => match header_value(head, encode_utf8("Content-Length: "@)) {
            Some(digits) => parse_decimal(digits),
            None => None,
        },
        None => None,
    }
}

/// Whether `needle` does not stand at index `at` of `hay`.
spec fn differs_at(hay: Seq<u8>, needle: Seq<u8>, at: int) -> bool {
    exists|k: int| 0 <= k < needle.len() && at + k < hay.len() && hay[at + k] != needle[k]
}

/// A search finds the first place at which the needle stands.
proof fn lemma_find_first(hay: Seq<u8>, needle: Seq<u8>, from: int, at: int)
    requires
        0 <= from <= at,
        at + needle.len() <= hay.len(),
        hay.subrange(at, at + needle.len()) == needle,
        forall|i: int| from <= i < at ==> differs_at(hay, needle, i),
    ensures
        find(hay, needle, from) == Some(at),
    decreases at - from,
{
    if from < at {
        let k = choose|k: int|
            0 <= k < needle.len() && from + k < hay.len() && hay[from + k] != needle[k];
        assert(differs_at(hay, needle, from));
        lemma_find_first(hay, needle, from + 1, at);
    }
}

/// The digits of a number are digits, and they read back as the number.
pub proof fn lemma_decimal_reads_back(n: nat)
    ensures
        decimal(n).len() >= 1,
        forall|i: int| 0 <= i < decimal(n).len() ==> 48 <= #[trigger] decimal(n)[i] <= 57,
        parse_decimal(decimal(n)) == Some(n),
    decreases n,
{
    if n >= 10 {
        lemma_decimal_reads_back(n / 10);
        let digits = decimal(n);
        assert(digits.drop_last() =~= decimal(n / 10));
    }
}

/// Whether no byte of `bytes` is a carriage return.
spec fn no_cr(bytes: Seq<u8>) -> bool {
    forall|i: int| 0 <= i < bytes.len() ==> #[trigger] bytes[i] != 13u8
}

/// A text without carriage return encodes to bytes without one.
proof fn lemma_text_no_cr(s: Seq<char>)
    requires
        forall|i: int| 0 <= i < s.len() ==> s[i] != '\r',
    ensures
        no_cr(encode_utf8(s)),
{
    assert forall|i: int| 0 <= i < s.len() implies s[i] as u32 != 13u8 as u32 by {
        char_u32_cast(s[i], s[i] as u32);
        char_u32_cast('\r', 13u32);
    }
    lemma_utf8_lacks_byte(s, 13u8);
}

/// What the proofs below need to know of the literal parts of a response:
/// none holds a carriage return, and the names of the two headers part ways
/// at their ninth byte.
proof fn lemma_literal_parts()
    ensures
        no_cr(encode_utf8("HTTP/1.1 "@)),
        no_cr(encode_utf8("Content-Type: "@)),
        no_cr(encode_utf8("Content-Length: "@)),
        encode_utf8("Content-Type: "@).len() == 14,
        encode_utf8("Content-Length: "@).len() == 16,
        encode_utf8("Content-Type: "@)[8] != encode_utf8("Content-Length: "@)[8],
        forall|status: Seq<char>| is_status_line(status) ==> no_cr(#[trigger] encode_utf8(status)),
{
    reveal_strlit("HTTP/1.1 ");
    reveal_strlit("Content-Type: ");
    reveal_strlit("Content-Length: ");
    reveal_strlit("200 OK");
    reveal_strlit("400 Bad Request");
    reveal_strlit("404 Not Found");
    reveal_strlit("500 Internal server error");
    lemma_text_no_cr("HTTP/1.1 "@);
    lemma_text_no_cr("Content-Type: "@);
    lemma_text_no_cr("Content-Length: "@);
    lemma_text_no_cr("200 OK"@);
    lemma_text_no_cr("400 Bad Request"@);
    lemma_text_no_cr("404 Not Found"@);
    lemma_text_no_cr("500 Internal server error"@);
    is_ascii_chars_encode_utf8("Content-Type: "@);
    is_ascii_chars_encode_utf8("Content-Length: "@);
}

/// Three lines, each with its line end: the shape of the head of a response.
spec fn three_lines(line1: Seq<u8>, line2: Seq<u8>, line3: Seq<u8>) -> Seq<u8> {
    line1 + crlf() + line2 + crlf() + line3 + crlf()
}

/// Whether `hay` holds line ends at `end1`, `end2` and `end3`, and no carriage
/// return before `end3` but there.
spec fn line_ends_at(hay: Seq<u8>, end1: int, end2: int, end3: int) -> bool {
    &&& 0 <= end1
    &&& end1 + 2 <= end2
    &&& end2 + 2 <= end3
    &&& end3 + 2 <= hay.len()
    &&& hay[end1] == 13u8 && hay[end1 + 1] == 10u8
    &&& hay[end2] == 13u8 && hay[end2 + 1] == 10u8
    &&& hay[end3] == 13u8 && hay[end3 + 1] == 10u8
    &&& forall|i: int| 0 <= i < end3 && i != end1 && i != end2 ==> #[trigger] hay[i] != 13u8
}

/// Three lines without carriage return, put together, hold their line ends
/// where the lines end, and each line where it was put.
proof fn lemma_three_lines(line1: Seq<u8>, line2: Seq<u8>, line3: Seq<u8>, rest: Seq<u8>)
    requires
        no_cr(line1),
        no_cr(line2),
        no_cr(line3),
    ensures
        ({
            let head = three_lines(line1, line2, line3);
            let hay = head + rest;
            let end1 = line1.len() as int;
            let end2 = end1 + 2 + line2.len();
            let end3 = end2 + 2 + line3.len();
            &&& head.len() == end3 + 2
            &&& hay.take(end3 + 2) == head
            &&& hay.skip(end3 + 2) == rest
            &&& line_ends_at(hay, end1, end2, end3)
            &&& hay.subrange(0, end1) == line1
            &&& hay.subrange(end1 + 2, end2) == line2
            &&& hay.subrange(end2 + 2, end3) == line3
        }),
{
}

/// A search for a line end from `from` finds the one at `at` when no
/// carriage return stands between.
proof fn lemma_find_line_end(hay: Seq<u8>, from: int, at: int)
    requires
        0 <= from <= at,
        at + 2 <= hay.len(),
        hay[at] == 13u8,
        hay[at + 1] == 10u8,
        forall|i: int| from <= i < at ==> #[trigger] hay[i] != 13u8,
    ensures
        find(hay, crlf(), from) == Some(at),
{
    assert(hay.subrange(at, at + 2) =~= crlf());
    lemma_find_first(hay, crlf(), from, at);
}

/// The head of a message with three lines ends behind the third, and the
/// body is what follows the empty line there.
proof fn lemma_body_read_back(line1: Seq<u8>, line2: Seq<u8>, line3: Seq<u8>, body: Seq<u8>)
    requires
        no_cr(line1),
        no_cr(line2),
        no_cr(line3),
        line2.len() > 0,
        line3.len() > 0,
    ensures
        head_of(three_lines(line1, line2, line3) + crlf() + body) == Some(
            three_lines(line1, line2, line3),
        ),
        body_of(three_lines(line1, line2, line3) + crlf() + body) == Some(body),
{
    let head = three_lines(line1, line2, line3);
    let hay = head + crlf() + body;
    let end1 = line1.len() as int;
    let end2 = end1 + 2 + line2.len();
    let end3 = end2 + 2 + line3.len();
    lemma_three_lines(line1, line2, line3, crlf() + body);
    assert(hay.subrange(end3, end3 + 4) =~= blank_line());
    assert forall|i: int| 0 <= i < end3 implies differs_at(hay, blank_line(), i) by {
        if i == end1 || i == end2 {
            assert(hay[i + 2] != blank_line()[2]);
        } else {
            assert(hay[i + 0] != blank_line()[0]);
        }
    }
    lemma_find_first(hay, blank_line(), 0, end3);
}

/// The status of a message stands on its first line, behind the version.
proof fn lemma_status_read_back(
    status: Seq<u8>,
    line2: Seq<u8>,
    line3: Seq<u8>,
    rest: Seq<u8>,
)
    requires
        no_cr(encode_utf8("HTTP/1.1 "@)),
        no_cr(status),
        no_cr(line2),
        no_cr(line3),
    ensures
        status_of(three_lines(encode_utf8("HTTP/1.1 "@) + status, line2, line3) + rest) == Some(
            status,
        ),
{
    let version = encode_utf8("HTTP/1.1 "@);
    let line1 = version + status;
    let hay = three_lines(line1, line2, line3) + rest;
    let end1 = line1.len() as int;
    let v = version.len() as int;
    lemma_three_lines(line1, line2, line3, rest);
    assert(hay.take(v) =~= version);
    lemma_find_line_end(hay, v, end1);
}

/// A search for a header finds it on the line where it stands, when the
/// line before starts otherwise.
proof fn lemma_find_header(hay: Seq<u8>, key: Seq<u8>, end1: int, end2: int, end3: int, at: int)
    requires
        line_ends_at(hay, end1, end2, end3),
        at == end1 || at == end2,
        at + 2 + key.len() <= hay.len(),
        hay.subrange(at + 2, at + 2 + key.len()) == key,
        at == end2 ==> differs_at(hay, crlf() + key, end1),
    ensures
        find(hay, crlf() + key, 0) == Some(at),
{
    let needle = crlf() + key;
    assert(hay.subrange(at, at + needle.len()) =~= needle);
    assert forall|i: int| 0 <= i < at implies differs_at(hay, needle, i) by {
        if i != end1 {
            assert(hay[i + 0] != needle[0]);
        }
    }
    lemma_find_first(hay, needle, 0, at);
}

/// The value of the header on the second line is read back.
proof fn lemma_second_line_read_back(line1: Seq<u8>, key: Seq<u8>, value: Seq<u8>, line3: Seq<u8>)
    requires
        no_cr(line1),
        no_cr(key + value),
        no_cr(line3),
    ensures
        header_value(three_lines(line1, key + value, line3), key) == Some(value),
{
    let line2 = key + value;
    let head = three_lines(line1, line2, line3);
    let end1 = line1.len() as int;
    let end2 = end1 + 2 + line2.len();
    let end3 = end2 + 2 + line3.len();
    let start = end1 + 2 + key.len();
    lemma_three_lines(line1, line2, line3, Seq::empty());
    assert(head.subrange(end1 + 2, start) =~= key);
    lemma_find_header(head, key, end1, end2, end3, end1);
    lemma_find_line_end(head, start, end2);
}

/// The value of the header on the third line is read back, where the second
/// line starts otherwise than with the name of that header.
proof fn lemma_third_line_read_back(
    line1: Seq<u8>,
    line2: Seq<u8>,
    key: Seq<u8>,
    value: Seq<u8>,
    j: int,
)
    requires
        no_cr(line1),
        no_cr(line2),
        no_cr(key + value),
        0 <= j < line2.len(),
        j < key.len(),
        line2[j] != key[j],
    ensures
        header_value(three_lines(line1, line2, key + value), key) == Some(value),
{
    let line3 = key + value;
    let head = three_lines(line1, line2, line3);
    let end1 = line1.len() as int;
    let end2 = end1 + 2 + line2.len();
    let end3 = end2 + 2 + line3.len();
    let start = end2 + 2 + key.len();
    lemma_three_lines(line1, line2, line3, Seq::empty());
    assert(head.subrange(end2 + 2, start) =~= key);
    assert(differs_at(head, crlf() + key, end1)) by {
        assert((crlf() + key)[j + 2] == key[j]);
    }
    lemma_find_header(head, key, end1, end2, end3, end2);
    lemma_find_line_end(head, start, end3);
}

/// Putting sequences without carriage return together gives one without.
proof fn lemma_no_cr_concat(a: Seq<u8>, b: Seq<u8>)
    requires
        no_cr(a),
        no_cr(b),
    ensures
        no_cr(a + b),
{
}

/// The response reads back as it was written: the status, the content type
/// and the declared length are those it was made of, and the body is what
/// stands behind the first empty line. The content type must hold no
/// carriage return, or the header block would end inside it.
pub proof fn lemma_response_reads_back(
    status: Seq<char>,
    content_type: Seq<char>,
    content_length: nat,
    body: Seq<char>,
)
    requires
        is_status_line(status),
        forall|i: int| 0 <= i < content_type.len() ==> content_type[i] != '\r',
    ensures
        ({
            let wire = response_bytes(status, content_type, content_length, body);
            &&& status_of(wire) == Some(encode_utf8(status))
            &&& declared_type(wire) == Some(encode_utf8(content_type))
            &&& declared_length(wire) == Some(content_length)
            &&& body_of(wire) == Some(encode_utf8(body))
        }),
{
    let wire = response_bytes(status, content_type, content_length, body);
    let version = encode_utf8("HTTP/1.1 "@);
    let type_key = encode_utf8("Content-Type: "@);
    let length_key = encode_utf8("Content-Length: "@);
    let digits = decimal(content_length);
    let line1 = version + encode_utf8(status);
    let line2 = type_key + encode_utf8(content_type);
    let line3 = length_key + digits;
    let head = three_lines(line1, line2, line3);
    lemma_literal_parts();
    lemma_text_no_cr(content_type);
    lemma_decimal_reads_back(content_length);
    lemma_no_cr_concat(version, encode_utf8(status));
    lemma_no_cr_concat(type_key, encode_utf8(content_type));
    lemma_no_cr_concat(length_key, digits);
    assert(wire =~= head + crlf() + encode_utf8(body));
    lemma_body_read_back(line1, line2, line3, encode_utf8(body));
    lemma_status_read_back(encode_utf8(status), line2, line3, crlf() + encode_utf8(body));
    assert(wire =~= head + (crlf() + encode_utf8(body)));
    lemma_second_line_read_back(line1, type_key, encode_utf8(content_type), line3);
    lemma_third_line_read_back(line1, line2, length_key, digits, 8);
}

/// Where the declared length is the length of the body in bytes, reading
/// the response back gives a declared length equal to the length of the body
/// that follows the header block.
pub proof fn lemma_declared_length_is_body_length(
    status: Seq<char>,
    content_type: Seq<char>,
    body: Seq<char>,
)
    requires
        is_status_line(status),
        forall|i: int| 0 <= i < content_type.len() ==> content_type[i] != '\r',
    ensures
        ({
            let wire = response_bytes(status, content_type, encode_utf8(body).len(), body);
            &&& body_of(wire) == Some(encode_utf8(body))
            &&& declared_length(wire) == Some(body_of(wire)->0.len())
        }),
{
    lemma_response_reads_back(status, content_type, encode_utf8(body).len(), body);
}

/// The round trip of a well-formed response whose content type is one line:
/// the `Content-Length` that is read back from its bytes is the length of
/// the body that follows the header block, and that body is the message.
pub proof fn lemma_response_round_trip(r: Response)
    requires
        r.wf(),
        forall|i: int|
            0 <= i < r@.headers.content_type.len() ==> r@.headers.content_type[i] != '\r',
    ensures
        body_of(r.wire()) == Some(encode_utf8(r@.body)),
        declared_length(r.wire()) == Some(body_of(r.wire())->0.len()),
{
    lemma_declared_length_is_body_length(r@.status, r@.headers.content_type, r@.body);
}

} // verus!
