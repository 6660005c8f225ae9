//! The request side of the wire: what was received is decoded, and of the
//! text only the request line is read, and of it only the path.

use crate::text::{chars_of, is_space, is_whitespace};
use vstd::prelude::*;
use vstd::slice::slice_subrange;
use vstd::utf8::{decode_utf8, valid_utf8};

verus! {

/// The number of bytes that are read of a request: what a client sends
/// beyond them is not looked at.
pub const REQUEST_BUFFER_SIZE: usize = 1024;

/// The text that lossy decoding makes of `bytes`: the text they encode where
/// they are valid UTF-8, and otherwise that text with U+FFFD in place of
/// each invalid sequence.
pub uninterp spec fn lossy_text(bytes: Seq<u8>) -> Seq<char>;

/// The text of a request: the first bytes of what was received, as many as
/// the buffer holds, decoded with lossy substitution.
pub open spec fn request_text(received: Seq<u8>) -> Seq<char> {
    if received.len() > REQUEST_BUFFER_SIZE {
        lossy_text(received.take(REQUEST_BUFFER_SIZE as int))
    } else {
        lossy_text(received)
    }
}

/// `String::from_utf8_lossy` of std, with the `Cow` it returns made into a
/// `String`. It decodes bytes as UTF-8 and replaces invalid sequences by
/// U+FFFD; its documentation promises that valid UTF-8 comes out as the text
/// it encodes. The result depends on the bytes alone and is named
/// `lossy_text`.
#[verifier::external_body]
fn from_utf8_lossy(bytes: &[u8]) -> (text: String)
    ensures
        text@ == lossy_text(bytes@),
        valid_utf8(bytes@) ==> text@ == decode_utf8(bytes@),
{
    String::from_utf8_lossy(bytes).into_owned()
}

/// Decodes what was received of a request. No request is turned away for
/// its encoding, and none is read beyond the size of the buffer.
pub fn decode_request(received: &[u8]) -> (text: String)
    ensures
        text@ == request_text(received@),
        received@.len() <= REQUEST_BUFFER_SIZE && valid_utf8(received@) ==> text@ == decode_utf8(
            received@,
        ),
{
    if received.len() > REQUEST_BUFFER_SIZE {
        from_utf8_lossy(slice_subrange(received, 0, REQUEST_BUFFER_SIZE))
    } else {
        from_utf8_lossy(received)
    }
}

/// The index of the first newline at or after `from`, or the length of `s`
/// where there is none.
pub open spec fn line_end(s: Seq<char>, from: int) -> int
    decreases s.len() - from,
{
    if from < 0 || from >= s.len() {
        s.len() as int
    } else if s[from] == '\n' {
        from
    } else {
        line_end(s, from + 1)
    }
}

/// The request line, without its line end: what stands before the first
/// newline, less a carriage return right before that newline. A request
/// without newline is one line as it stands.
pub open spec fn first_line(request: Seq<char>) -> Seq<char> {
    let end = line_end(request, 0);
    if 0 < end < request.len() && request[end - 1] == '\r' {
        request.take(end - 1)
    } else {
        request.take(end)
    }
}

/// The first index at or after `from` that holds no white space, or the
/// length of `s` where only white space is left.
pub open spec fn skip_spaces(s: Seq<char>, from: int) -> int
    decreases s.len() - from,
{
    if from < 0 || from >= s.len() {
        s.len() as int
    } else if !is_space(s[from]) {
        from
    } else {
        skip_spaces(s, from + 1)
    }
}

/// The first index at or after `from` that holds white space, or the length
/// of `s` where none is left.
pub open spec fn skip_word(s: Seq<char>, from: int) -> int
    decreases s.len() - from,
{
    if from < 0 || from >= s.len() {
        s.len() as int
    } else if is_space(s[from]) {
        from
    } else {
        skip_word(s, from + 1)
    }
}

/// Where the second word of `line` starts and ends, if it has two.
pub open spec fn second_word_span(line: Seq<char>) -> Option<(int, int)> {
    let first = skip_spaces(line, 0);
    let gap = skip_word(line, first);
    let start = skip_spaces(line, gap);
    let end = skip_word(line, start);
    if start < line.len() {
        Some((start, end))
    } else {
        None
    }
}

/// The second of the words that white space separates in `line`.
pub open spec fn second_word(line: Seq<char>) -> Option<Seq<char>> {
    match second_word_span(line) {
        Some((start, end)) => Some(line.subrange(start, end)),
        None => None,
    }
}

/// The path of a request: the second word of its request line. Nothing
/// behind the request line is looked at.
pub open spec fn request_path(request: Seq<char>) -> Option<Seq<char>> {
    second_word(first_line(request))
}

/// Whether every character of `s` is white space.
pub open spec fn all_spaces(s: Seq<char>) -> bool {
    forall|i: int| 0 <= i < s.len() ==> is_space(#[trigger] s[i])
}

/// Whether no character of `s` is white space.
pub open spec fn no_spaces(s: Seq<char>) -> bool {
    forall|i: int| 0 <= i < s.len() ==> !is_space(#[trigger] s[i])
}

/// The search for the end of a line stops at the first newline.
proof fn lemma_line_end_to(s: Seq<char>, from: int, to: int)
    requires
        0 <= from <= to <= s.len(),
        forall|i: int| from <= i < to ==> s[i] != '\n',
        to == s.len() || s[to] == '\n',
    ensures
        line_end(s, from) == to,
    decreases to - from,
{
    if from < to {
        lemma_line_end_to(s, from + 1, to);
    }
}

/// A request that starts with a line without newline and the line end of
/// the wire has that line as its request line, whatever follows; a request
/// without any newline is its own request line.
pub proof fn lemma_first_line_of_parts(line: Seq<char>, rest: Seq<char>)
    requires
        forall|i: int| 0 <= i < line.len() ==> line[i] != '\n',
    ensures
        first_line(line + seq!['\r', '\n'] + rest) == line,
        first_line(line) == line,
{
    let s = line + seq!['\r', '\n'] + rest;
    let n = line.len() as int;
    lemma_line_end_to(s, 0, n + 1);
    lemma_line_end_to(line, 0, n);
}

/// Skipping white space from `from` stops at `to` when all between is white
/// space and `to` is the end or holds something else.
proof fn lemma_skip_spaces_to(s: Seq<char>, from: int, to: int)
    requires
        0 <= from <= to <= s.len(),
        all_spaces(s.subrange(from, to)),
        to == s.len() || !is_space(s[to]),
    ensures
        skip_spaces(s, from) == to,
    decreases to - from,
{
    if from < to {
        assert(s[from] == s.subrange(from, to)[0]);
        assert(s.subrange(from + 1, to) =~= s.subrange(from, to).skip(1));
        lemma_skip_spaces_to(s, from + 1, to);
    }
}

/// Skipping a word from `from` stops at `to` when nothing between is white
/// space and `to` is the end or holds white space.
proof fn lemma_skip_word_to(s: Seq<char>, from: int, to: int)
    requires
        0 <= from <= to <= s.len(),
        no_spaces(s.subrange(from, to)),
        to == s.len() || is_space(s[to]),
    ensures
        skip_word(s, from) == to,
    decreases to - from,
{
    if from < to {
        assert(s[from] == s.subrange(from, to)[0]);
        assert(s.subrange(from + 1, to) =~= s.subrange(from, to).skip(1));
        lemma_skip_word_to(s, from + 1, to);
    }
}

/// A line made of optional white space, a word, white space, a second word
/// and a rest that is empty or starts with white space has that second
/// word.
pub proof fn lemma_second_word_of_parts(
    lead: Seq<char>,
    first: Seq<char>,
    gap: Seq<char>,
    second: Seq<char>,
    rest: Seq<char>,
)
    requires
        all_spaces(lead),
        no_spaces(first),
        first.len() > 0,
        all_spaces(gap),
        gap.len() > 0,
        no_spaces(second),
        second.len() > 0,
        rest.len() == 0 || is_space(rest[0]),
    ensures
        second_word(lead + first + gap + second + rest) == Some(second),
{
    let s = lead + first + gap + second + rest;
    let a = lead.len() as int;
    let b = a + first.len();
    let c = b + gap.len();
    let d = c + second.len();
    lemma_skip_spaces_to(s, 0, a);
    lemma_skip_word_to(s, a, b);
    lemma_skip_spaces_to(s, b, c);
    lemma_skip_word_to(s, c, d);
}

/// A line with at most one word has no second word.
pub proof fn lemma_no_second_word(lead: Seq<char>, first: Seq<char>, trail: Seq<char>)
    requires
        all_spaces(lead),
        no_spaces(first),
        all_spaces(trail),
    ensures
        second_word(lead + first + trail) is None,
{
    let s = lead + first + trail;
    let a = lead.len() as int;
    let b = a + first.len();
    let n = s.len() as int;
    if first.len() > 0 {
        lemma_skip_spaces_to(s, 0, a);
        lemma_skip_word_to(s, a, b);
        lemma_skip_spaces_to(s, b, n);
    } else {
        lemma_skip_spaces_to(s, 0, n);
    }
}

/// The path of a request is read from its request line alone: a request of
/// the form method, space, path, space, version, line end has that path,
/// whatever headers and body follow.
pub proof fn lemma_request_path_of_parts(
    method: Seq<char>,
    path: Seq<char>,
    version: Seq<char>,
    rest: Seq<char>,
)
    requires
        no_spaces(method),
        method.len() > 0,
        no_spaces(path),
        path.len() > 0,
        no_spaces(version),
    ensures
        request_path(method + seq![' '] + path + seq![' '] + version + seq!['\r', '\n'] + rest)
            == Some(path),
{
    let sp = seq![' '];
    let tail = sp + version;
    let line = Seq::<char>::empty() + method + sp + path + tail;
    assert(line =~= method + sp + path + sp + version);
    lemma_first_line_of_parts(line, rest);
    lemma_second_word_of_parts(Seq::empty(), method, sp, path, tail);
}

/// Takes the request line out of a request.
pub fn request_line(request: &str) -> (line: &str)
    ensures
        line@ == first_line(request@),
{
    let chars = chars_of(request);
    let mut end: usize = 0;
    while end < chars.len() && chars[end] != '\n'
        invariant
            end <= chars.len(),
            line_end(chars@, 0) == line_end(chars@, end as int),
        decreases chars.len() - end,
    {
        end += 1;
    }
    if 0 < end && end < chars.len() && chars[end - 1] == '\r' {
        request.substring_char(0, end - 1)
    } else {
        request.substring_char(0, end)
    }
}

/// Runs over white space from `from` on.
fn skip_spaces_in(chars: &Vec<char>, from: usize) -> (to: usize)
    requires
        from <= chars.len(),
    ensures
        from <= to <= chars.len(),
        to == skip_spaces(chars@, from as int),
{
    let mut i: usize = from;
    while i < chars.len() && is_whitespace(chars[i])
        invariant
            from <= i <= chars.len(),
            skip_spaces(chars@, from as int) == skip_spaces(chars@, i as int),
        decreases chars.len() - i,
    {
        i += 1;
    }
    i
}

/// Runs over one word from `from` on.
fn skip_word_in(chars: &Vec<char>, from: usize) -> (to: usize)
    requires
        from <= chars.len(),
    ensures
        from <= to <= chars.len(),
        to == skip_word(chars@, from as int),
{
    let mut i: usize = from;
    while i < chars.len() && !is_whitespace(chars[i])
        invariant
            from <= i <= chars.len(),
            skip_word(chars@, from as int) == skip_word(chars@, i as int),
        decreases chars.len() - i,
    {
        i += 1;
    }
    i
}

/// Takes the path out of a request: the second word of its request line.
/// A request line with fewer than two words has none.
pub fn get_path(request: &str) -> (path: Option<&str>)
    ensures
        match path {
            Some(p) => request_path(request@) == Some(p@),
            None => request_path(request@) is None,
        },
{
    let line = request_line(request);
    let chars = chars_of(line);
    let first = skip_spaces_in(&chars, 0);
    let gap = skip_word_in(&chars, first);
    let start = skip_spaces_in(&chars, gap);
    let end = skip_word_in(&chars, start);
    if start < chars.len() {
        Some(line.substring_char(start, end))
    } else {
        None
    }
}

} // verus!
