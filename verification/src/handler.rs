//! One request/response exchange as a state machine.
//!
//! The machine never touches a socket or a file. Each step takes what the
//! caller has learned, an [`Event`], and says what to do next, an
//! [`Action`]: query a path, list a directory, read a file, or send the
//! reply and close.

use crate::listing::{entry_views, files_listing, listing_text, FsEntry, FsEntryView, Stat};
use crate::media::{get_mimetype, lemma_media_type_single_line, media_type};
use crate::request::{get_path, request_path};
use crate::resolve::{filename_by_path, resolved};
use crate::response::{
    is_status_line, response_bytes, Headers, Response, STATUS_BAD_REQUEST,
    STATUS_INTERNAL_ERROR, STATUS_NOT_FOUND, STATUS_OK,
};
use crate::wire::{body_of, declared_length, lemma_declared_length_is_body_length};
use vstd::prelude::*;
use vstd::utf8::encode_utf8;

verus! {

/// Where an exchange stands.
#[derive(Debug, PartialEq, Eq)]
pub enum State {
    /// Nothing has been read yet.
    AwaitingRequest,
    /// A metadata query on `path` is under way.
    AwaitingMetadata { path: String },
    /// A directory is being enumerated.
    AwaitingEntries,
    /// The file at `path` is being read.
    AwaitingContent { path: String },
    /// The exchange is over.
    Closed,
}

/// What the caller hands to the machine.
#[derive(Debug, PartialEq, Eq)]
pub enum Event {
    /// The text of the request, as far as it was read.
    Request(String),
    /// The outcome of the metadata query that was asked for.
    Metadata(Stat),
    /// The children of the directory that was to be listed, or `None` where
    /// it could not be opened.
    Entries(Option<Vec<FsEntry>>),
    /// The text of the file that was to be read, or `None` where it could
    /// not be read as text.
    Content(Option<String>),
}

/// What the machine asks of the caller.
#[derive(Debug, PartialEq, Eq)]
pub enum Action {
    /// Query the metadata of this path and come back with `Event::Metadata`.
    Query(String),
    /// Enumerate this directory and come back with `Event::Entries`.
    List(String),
    /// Read this file as text and come back with `Event::Content`.
    Read(String),
    /// Write these bytes, flush, and close the stream.
    Reply(Vec<u8>),
    /// Close the stream without writing.
    Close,
}

/// A state as the contracts see it.
pub enum StateView {
    AwaitingRequest,
    AwaitingMetadata { path: Seq<char> },
    AwaitingEntries,
    AwaitingContent { path: Seq<char> },
    Closed,
}

/// An event as the contracts see it.
pub enum EventView {
    Request(Seq<char>),
    Metadata(Stat),
    Entries(Option<Seq<FsEntryView>>),
    Content(Option<Seq<char>>),
}

/// An action as the contracts see it.
pub enum ActionView {
    Query(Seq<char>),
    List(Seq<char>),
    Read(Seq<char>),
    Reply(Seq<u8>),
    Close,
}

impl View for State {
    type V = StateView;

    open spec fn view(&self) -> StateView {
        match *self {
            State::AwaitingRequest => StateView::AwaitingRequest,
            State::AwaitingMetadata { path } => StateView::AwaitingMetadata { path: path@ },
            State::AwaitingEntries => StateView::AwaitingEntries,
            State::AwaitingContent { path } => StateView::AwaitingContent { path: path@ },
            State::Closed => StateView::Closed,
        }
    }
}

impl View for Event {
    type V = EventView;

    open spec fn view(&self) -> EventView {
        match *self {
            Event::Request(text) => EventView::Request(text@),
            Event::Metadata(stat) => EventView::Metadata(stat),
            Event::Entries(Some(entries)) => EventView::Entries(Some(entry_views(entries@))),
            Event::Entries(None) => EventView::Entries(None),
            Event::Content(Some(text)) => EventView::Content(Some(text@)),
            Event::Content(None) => EventView::Content(None),
        }
    }
}

impl View for Action {
    type V = ActionView;

    open spec fn view(&self) -> ActionView {
        match *self {
            Action::Query(path) => ActionView::Query(path@),
            Action::List(path) => ActionView::List(path@),
            Action::Read(path) => ActionView::Read(path@),
            Action::Reply(bytes) => ActionView::Reply(bytes@),
            Action::Close => ActionView::Close,
        }
    }
}

/// A response whose declared length is the length of its body in bytes.
pub open spec fn reply_bytes(status: Seq<char>, content_type: Seq<char>, body: Seq<char>) -> Seq<
    u8,
> {
    response_bytes(status, content_type, encode_utf8(body).len(), body)
}

/// The reply to a request from which no path can be taken.
pub open spec fn bad_request_reply() -> Seq<u8> {
    reply_bytes(
        "400 Bad Request"@,
        "text/plain"@,
        "Cannot extract the route path of the request!"@,
    )
}

/// The reply for a path that names nothing.
pub open spec fn not_found_reply() -> Seq<u8> {
    reply_bytes("404 Not Found"@, "text/plain"@, "Cannot retrieve file content"@)
}

/// The reply for a directory that cannot be enumerated.
pub open spec fn listing_failed_reply() -> Seq<u8> {
    reply_bytes("500 Internal server error"@, "text/plain"@, "Cannot list directory"@)
}

/// The reply for a file that cannot be read as text.
pub open spec fn read_failed_reply() -> Seq<u8> {
    reply_bytes("500 Internal server error"@, "text/plain"@, "Cannot retrieve file content"@)
}

/// The reply that carries the listing of a directory.
pub open spec fn listing_reply(entries: Seq<FsEntryView>) -> Seq<u8> {
    reply_bytes("200 OK"@, "text/plain"@, listing_text(entries))
}

/// The reply that carries the file at `path`.
pub open spec fn content_reply(path: Seq<char>, text: Seq<char>) -> Seq<u8> {
    reply_bytes("200 OK"@, media_type(path), text)
}

/// The directory that is listed for the server root.
pub open spec fn root_dir() -> Seq<char> {
    "./"@
}

/// The machine: from a state and the event that arrived to the next state
/// and what to do. An event that the state does not await ends the
/// exchange without a reply.
pub open spec fn next(state: StateView, event: EventView) -> (StateView, ActionView) {
    match (state, event) {
        (StateView::AwaitingRequest, EventView::Request(text)) => match request_path(text) {
            None => (StateView::Closed, ActionView::Reply(bad_request_reply())),
            Some(url) => match resolved(url) {
                None => (StateView::AwaitingEntries, ActionView::List(root_dir())),
                Some(path) => (StateView::AwaitingMetadata { path }, ActionView::Query(path)),
            },
        },
        (StateView::AwaitingMetadata { path }, EventView::Metadata(stat)) => match stat {
            Stat::Failed => (StateView::Closed, ActionView::Reply(not_found_reply())),
            Stat::File => (StateView::AwaitingContent { path }, ActionView::Read(path)),
            Stat::Other => (StateView::AwaitingEntries, ActionView::List(path)),
        },
        (StateView::AwaitingEntries, EventView::Entries(entries)) => match entries {
            Some(es) => (StateView::Closed, ActionView::Reply(listing_reply(es))),
            None => (StateView::Closed, ActionView::Reply(listing_failed_reply())),
        },
        (StateView::AwaitingContent { path }, EventView::Content(content)) => match content {
            Some(text) => (StateView::Closed, ActionView::Reply(content_reply(path, text))),
            None => (StateView::Closed, ActionView::Reply(read_failed_reply())),
        },
        _ => (StateView::Closed, ActionView::Close),
    }
}

/// An exchange sends at most one reply: a reply or a close ends it, nothing
/// else does, and once it has ended every event is answered with a close.
pub proof fn lemma_one_reply(state: StateView, event: EventView)
    ensures
        next(state, event).0 is Closed <==> (next(state, event).1 is Reply || next(
            state,
            event,
        ).1 is Close),
        state is Closed ==> next(state, event).1 is Close,
{
}

/// The content type of listings and of error replies is one line.
pub(crate) proof fn lemma_plain_text_single_line()
    ensures
        forall|i: int| 0 <= i < "text/plain"@.len() ==> "text/plain"@[i] != '\r',
{
    reveal_strlit("text/plain");
}

/// Whatever the machine replies, in whatever state and to whatever event,
/// declares the length of its body: the `Content-Length` that is read back
/// from the reply is the number of bytes behind its header block.
pub proof fn lemma_replies_declare_their_length(state: StateView, event: EventView)
    ensures
        match next(state, event).1 {
            ActionView::Reply(wire) => body_of(wire) is Some && declared_length(wire) == Some(
                body_of(wire)->0.len(),
            ),
            _ => true,
        },
{
    let plain = "text/plain"@;
    lemma_plain_text_single_line();
    match (state, event) {
        (StateView::AwaitingRequest, EventView::Request(text)) => {
            lemma_declared_length_is_body_length(
                "400 Bad Request"@,
                plain,
                "Cannot extract the route path of the request!"@,
            );
        },
        (StateView::AwaitingMetadata { path }, EventView::Metadata(stat)) => {
            lemma_declared_length_is_body_length(
                "404 Not Found"@,
                plain,
                "Cannot retrieve file content"@,
            );
        },
        (StateView::AwaitingEntries, EventView::Entries(entries)) => {
            match entries {
                Some(es) => lemma_declared_length_is_body_length(
                    "200 OK"@,
                    plain,
                    listing_text(es),
                ),
                None => lemma_declared_length_is_body_length(
                    "500 Internal server error"@,
                    plain,
                    "Cannot list directory"@,
                ),
            }
        },
        (StateView::AwaitingContent { path }, EventView::Content(content)) => {
            lemma_media_type_single_line(path);
            match content {
                Some(text) => lemma_declared_length_is_body_length(
                    "200 OK"@,
                    media_type(path),
                    text,
                ),
                None => lemma_declared_length_is_body_length(
                    "500 Internal server error"@,
                    plain,
                    "Cannot retrieve file content"@,
                ),
            }
        },
        _ => {},
    }
}

/// Serializes a response whose length is taken from the body itself.
fn reply(status: &'static str, content_type: String, body: String) -> (bytes: Vec<u8>)
    requires
        is_status_line(status@),
    ensures
        bytes@ == reply_bytes(status@, content_type@, body@),
{
    let headers = Headers::for_body(content_type, body.as_str());
    let response = Response::new(status, body, &headers);
    response.as_bytes()
}

/// Takes one step of the exchange.
pub fn step(state: State, event: Event) -> (r: (State, Action))
    ensures
        (r.0@, r.1@) == next(state@, event@),
{
    match (state, event) {
        (State::AwaitingRequest, Event::Request(text)) => {
            match get_path(text.as_str()) {
                None => {
                    let body = String::from_str("Cannot extract the route path of the request!");
                    let bytes = reply(STATUS_BAD_REQUEST, String::from_str("text/plain"), body);
                    (State::Closed, Action::Reply(bytes))
                },
                Some(url) => match filename_by_path(url) {
                    None => (State::AwaitingEntries, Action::List(String::from_str("./"))),
                    Some(path) => {
                        let query = path.clone();
                        (State::AwaitingMetadata { path }, Action::Query(query))
                    },
                },
            }
        },
        (State::AwaitingMetadata { path }, Event::Metadata(stat)) => {
            match stat {
                Stat::Failed => {
                    let body = String::from_str("Cannot retrieve file content");
                    let bytes = reply(STATUS_NOT_FOUND, String::from_str("text/plain"), body);
                    (State::Closed, Action::Reply(bytes))
                },
                Stat::File => {
                    let file = path.clone();
                    (State::AwaitingContent { path }, Action::Read(file))
                },
                Stat::Other => (State::AwaitingEntries, Action::List(path)),
            }
        },
        (State::AwaitingEntries, Event::Entries(entries)) => {
            let bytes = match entries {
                Some(es) => reply(STATUS_OK, String::from_str("text/plain"), files_listing(&es)),
                None => reply(
                    STATUS_INTERNAL_ERROR,
                    String::from_str("text/plain"),
                    String::from_str("Cannot list directory"),
                ),
            };
            (State::Closed, Action::Reply(bytes))
        },
        (State::AwaitingContent { path }, Event::Content(content)) => {
            let bytes = match content {
                Some(text) => reply(STATUS_OK, get_mimetype(path.as_str()), text),
                None => reply(
                    STATUS_INTERNAL_ERROR,
                    String::from_str("text/plain"),
                    String::from_str("Cannot retrieve file content"),
                ),
            };
            (State::Closed, Action::Reply(bytes))
        },
        _ => (State::Closed, Action::Close),
    }
}

} // verus!
