//! The core of a small HTTP/1.1 server: a parser that turns the text of one
//! request into its parts, and a router that turns those parts into the bytes
//! of the answer.
//!
//! - `request` reads a request: `handle_stream` takes the text and gives a
//!   `StreamHandler`, whose view is `parsed` of the text; `read_request`
//!   does the same from bytes.
//! - `router` answers it: `route` gives a response to send or names a file
//!   to read or write, and `after_read` and `after_write` give the response
//!   once the caller has done that.
//! - `response` holds responses and their form on the wire.
//! - `text`, `number` and `encoding` hold what the parser is made of: lines,
//!   words and pieces of a text, lengths in decimal, and the choice of a
//!   content encoding.
//! - `decode` turns the bytes that came in into text, and `gzip` compresses
//!   a body; these are the two places that Verus does not look into.
//!
//! The library neither reads nor writes anything: sockets and files are the
//! caller's.

pub mod decode;
pub mod encoding;
pub mod gzip;
pub mod number;
pub mod request;
pub mod response;
pub mod router;
pub mod text;
