//! A minimal HTTP/1.1 file server, as a verified library.
//!
//! The library holds every decision of one request/response exchange: it
//! finds the path in a request, resolves it against the server root, picks a
//! media type, renders directory listings, and serializes the response. The
//! socket and the file system stay with the caller, who performs the actions
//! that [`handler::step`] asks for and hands the outcomes back. What a whole
//! exchange then sends is stated and proved in [`exchange`].

pub mod exchange;
pub mod handler;
pub mod listing;
pub mod media;
pub mod request;
pub mod resolve;
pub mod response;
pub mod text;
pub mod wire;
