//! Whole exchanges: the state machine run against a model of the file
//! system, and what then holds of the bytes that are sent.

use crate::handler::{
    content_reply, lemma_plain_text_single_line, listing_failed_reply, listing_reply, next,
    not_found_reply, bad_request_reply, read_failed_reply, root_dir, ActionView, EventView,
    StateView,
};
use crate::listing::{listing_text, FsEntryView, Stat};
use crate::media::{lemma_media_type_single_line, media_type};
use crate::request::request_path;
use crate::resolve::resolved;
use crate::wire::{body_of, declared_type, lemma_response_reads_back, status_of};
use vstd::prelude::*;
use vstd::utf8::{decode_utf8, decode_utf8_encode_utf8, encode_utf8, valid_utf8};

verus! {

/// What a file system holds at one path, as far as the server can tell.
pub enum Node {
    /// A regular file, with its bytes where it can be read.
    File { bytes: Option<Seq<u8>> },
    /// Anything else, with its children where they can be enumerated.
    Dir { entries: Option<Seq<FsEntryView>> },
}

/// The text that reading a file gives: the text that its bytes encode, or
/// `None` where the file cannot be read or its bytes are no valid text.
pub open spec fn text_of(bytes: Option<Seq<u8>>) -> Option<Seq<char>> {
    match bytes {
        Some(b) => if valid_utf8(b) {
            Some(decode_utf8(b))
        } else {
            None
        },
        None => None,
    }
}

/// The event with which a file system answers an action.
pub open spec fn outcome(files: Map<Seq<char>, Node>, action: ActionView) -> EventView {
    match action {
        ActionView::Query(path) => EventView::Metadata(
            if !files.dom().contains(path) {
                Stat::Failed
            } else if files[path] is File {
                Stat::File
            } else {
                Stat::Other
            },
        ),
        ActionView::List(path) => EventView::Entries(
            if files.dom().contains(path) && files[path] is Dir {
                files[path]->entries
            } else {
                None
            },
        ),
        ActionView::Read(path) => EventView::Content(
            if files.dom().contains(path) && files[path] is File {
                text_of(files[path]->bytes)
            } else {
                None
            },
        ),
        _ => EventView::Content(None),
    }
}

/// The bytes that an exchange sends when it goes on from `state` with
/// `event` and every action is answered by `files`, or `None` where it
/// closes without a reply or does not end within `fuel` further steps.
pub open spec fn run(
    files: Map<Seq<char>, Node>,
    state: StateView,
    event: EventView,
    fuel: nat,
) -> Option<Seq<u8>>
    decreases fuel,
{
    let (state, action) = next(state, event);
    match action {
        ActionView::Reply(bytes) => Some(bytes),
        ActionView::Close => None,
        _ => if fuel == 0 {
            None
        } else {
            run(files, state, outcome(files, action), (fuel - 1) as nat)
        },
    }
}

/// The bytes that a whole exchange sends for `request` over `files`. Two
/// answers from the file system are the most that an exchange asks for.
pub open spec fn serve(files: Map<Seq<char>, Node>, request: Seq<char>) -> Option<Seq<u8>> {
    run(files, StateView::AwaitingRequest, EventView::Request(request), 2)
}

/// The reply for a directory, as enumeration went.
pub open spec fn directory_reply(files: Map<Seq<char>, Node>, dir: Seq<char>) -> Seq<u8> {
    if files.dom().contains(dir) && files[dir] is Dir && files[dir]->entries is Some {
        listing_reply(files[dir]->entries->0)
    } else {
        listing_failed_reply()
    }
}

/// The reply that the table of decisions gives for `request` over `files`.
pub open spec fn reply_by_table(files: Map<Seq<char>, Node>, request: Seq<char>) -> Seq<u8> {
    match request_path(request) {
        None => bad_request_reply(),
        Some(url) => match resolved(url) {
            None => directory_reply(files, root_dir()),
            Some(path) => if !files.dom().contains(path) {
                not_found_reply()
            } else {
                match files[path] {
                    Node::File { bytes } => match text_of(bytes) {
                        Some(text) => content_reply(path, text),
                        None => read_failed_reply(),
                    },
                    Node::Dir { .. } => directory_reply(files, path),
                }
            },
        },
    }
}

/// Every exchange that starts with a request ends with exactly the reply
/// that the table of decisions gives: none closes in silence, and none
/// needs more than two answers from the file system.
pub proof fn lemma_serve_follows_table(files: Map<Seq<char>, Node>, request: Seq<char>)
    ensures
        serve(files, request) == Some(reply_by_table(files, request)),
{
    reveal_with_fuel(run, 3);
}

/// A request for a regular file whose bytes are valid text is answered
/// with status 200, the media type of the path, and a body that is the file
/// byte for byte.
pub proof fn lemma_file_is_served(
    files: Map<Seq<char>, Node>,
    request: Seq<char>,
    url: Seq<char>,
    path: Seq<char>,
    content: Seq<u8>,
)
    requires
        request_path(request) == Some(url),
        resolved(url) == Some(path),
        files.dom().contains(path),
        files[path] == (Node::File { bytes: Some(content) }),
        valid_utf8(content),
    ensures
        serve(files, request) == Some(content_reply(path, decode_utf8(content))),
        status_of(serve(files, request)->0) == Some(encode_utf8("200 OK"@)),
        declared_type(serve(files, request)->0) == Some(encode_utf8(media_type(path))),
        body_of(serve(files, request)->0) == Some(content),
{
    let text = decode_utf8(content);
    lemma_serve_follows_table(files, request);
    lemma_media_type_single_line(path);
    lemma_response_reads_back("200 OK"@, media_type(path), encode_utf8(text).len(), text);
    decode_utf8_encode_utf8(content);
}

/// A regular file that cannot be read, or whose bytes are no valid text, is
/// answered with status 500.
pub proof fn lemma_unreadable_file_is_an_error(
    files: Map<Seq<char>, Node>,
    request: Seq<char>,
    url: Seq<char>,
    path: Seq<char>,
)
    requires
        request_path(request) == Some(url),
        resolved(url) == Some(path),
        files.dom().contains(path),
        files[path] is File,
        text_of(files[path]->bytes) is None,
    ensures
        serve(files, request) == Some(read_failed_reply()),
        status_of(serve(files, request)->0) == Some(encode_utf8("500 Internal server error"@)),
{
    lemma_serve_follows_table(files, request);
    lemma_plain_text_single_line();
    lemma_response_reads_back(
        "500 Internal server error"@,
        "text/plain"@,
        encode_utf8("Cannot retrieve file content"@).len(),
        "Cannot retrieve file content"@,
    );
}

/// A request for a path that names nothing is answered with status 404.
pub proof fn lemma_missing_is_not_found(
    files: Map<Seq<char>, Node>,
    request: Seq<char>,
    url: Seq<char>,
    path: Seq<char>,
)
    requires
        request_path(request) == Some(url),
        resolved(url) == Some(path),
        !files.dom().contains(path),
    ensures
        serve(files, request) == Some(not_found_reply()),
        status_of(serve(files, request)->0) == Some(encode_utf8("404 Not Found"@)),
{
    lemma_serve_follows_table(files, request);
    lemma_plain_text_single_line();
    lemma_response_reads_back(
        "404 Not Found"@,
        "text/plain"@,
        encode_utf8("Cannot retrieve file content"@).len(),
        "Cannot retrieve file content"@,
    );
}

/// A request for the root, or for a directory, whose children can be
/// enumerated is answered with status 200 and a body that is the listing of
/// the children: one line for each, as `listing_text` lays them out.
pub proof fn lemma_directory_is_listed(
    files: Map<Seq<char>, Node>,
    request: Seq<char>,
    url: Seq<char>,
    entries: Seq<FsEntryView>,
)
    requires
        request_path(request) == Some(url),
        ({
            let dir = match resolved(url) {
                Some(path) => path,
                None => root_dir(),
            };
            files.dom().contains(dir) && files[dir] == (Node::Dir { entries: Some(entries) })
        }),
    ensures
        serve(files, request) == Some(listing_reply(entries)),
        status_of(serve(files, request)->0) == Some(encode_utf8("200 OK"@)),
        body_of(serve(files, request)->0) == Some(encode_utf8(listing_text(entries))),
{
    lemma_serve_follows_table(files, request);
    lemma_plain_text_single_line();
    lemma_response_reads_back(
        "200 OK"@,
        "text/plain"@,
        encode_utf8(listing_text(entries)).len(),
        listing_text(entries),
    );
}

/// A request for the root, or for a directory, whose children cannot be
/// enumerated is answered with status 500.
pub proof fn lemma_unlistable_directory_is_an_error(
    files: Map<Seq<char>, Node>,
    request: Seq<char>,
    url: Seq<char>,
)
    requires
        request_path(request) == Some(url),
        ({
            let dir = match resolved(url) {
                Some(path) => path,
                None => root_dir(),
            };
            if files.dom().contains(dir) {
                files[dir] == (Node::Dir { entries: None })
            } else {
                resolved(url) is None
            }
        }),
    ensures
        serve(files, request) == Some(listing_failed_reply()),
        status_of(serve(files, request)->0) == Some(encode_utf8("500 Internal server error"@)),
{
    lemma_serve_follows_table(files, request);
    lemma_plain_text_single_line();
    lemma_response_reads_back(
        "500 Internal server error"@,
        "text/plain"@,
        encode_utf8("Cannot list directory"@).len(),
        "Cannot list directory"@,
    );
}

/// A request whose request line holds no path is answered with status 400,
/// whatever the file system holds.
pub proof fn lemma_request_without_path_is_refused(
    files: Map<Seq<char>, Node>,
    request: Seq<char>,
)
    requires
        request_path(request) is None,
    ensures
        serve(files, request) == Some(bad_request_reply()),
        status_of(serve(files, request)->0) == Some(encode_utf8("400 Bad Request"@)),
{
    lemma_serve_follows_table(files, request);
    lemma_plain_text_single_line();
    lemma_response_reads_back(
        "400 Bad Request"@,
        "text/plain"@,
        encode_utf8("Cannot extract the route path of the request!"@).len(),
        "Cannot extract the route path of the request!"@,
    );
}

/// The reply depends on nothing but the path of the request and on what the
/// file system holds there: two requests with the same path, over file
/// systems that agree on the target, are answered with the same bytes.
pub proof fn lemma_same_target_same_reply(
    files: Map<Seq<char>, Node>,
    request: Seq<char>,
    other_files: Map<Seq<char>, Node>,
    other_request: Seq<char>,
)
    requires
        request_path(request) == request_path(other_request),
        match request_path(request) {
            Some(url) => {
                let target = match resolved(url) {
                    Some(path) => path,
                    None => root_dir(),
                };
                files.dom().contains(target) == other_files.dom().contains(target) && (
                files.dom().contains(target) ==> files[target] == other_files[target])
            },
            None => true,
        },
    ensures
        serve(files, request) == serve(other_files, other_request),
{
    lemma_serve_follows_table(files, request);
    lemma_serve_follows_table(other_files, other_request);
}

} // verus!
