//! Responses and the bytes that stand for them on the wire.

use crate::number::{decimal, decimal_text};
use vstd::prelude::*;
use vstd::string::*;
use vstd::utf8::encode_utf8;

verus! {

/// The status of a response.
#[derive(Debug, Clone, Copy, PartialEq, Eq, Structural)]
pub enum Status {
    /// 200 OK
    Success,
    /// 201 Created
    Created,
    /// 400 Bad Request
    BadRequest,
    /// 404 Not Found
    NotFound,
}

/// The kind of content that a response announces.
#[derive(Debug, Clone, Copy, PartialEq, Eq, Structural)]
pub enum ContentType {
    /// text/plain
    Text,
    /// application/octet-stream
    Binary,
}

/// What a response carries after its status line.
#[derive(Debug, Clone)]
pub struct Body {
    /// The encoding that the response names, or empty for none.
    pub encoding: String,
    /// The content type that the response names.
    pub content_type: ContentType,
    /// The length that the response declares.
    pub length: usize,
    /// The bytes after the headers.
    pub bytes: Vec<u8>,
}

/// A response: a status and, unless it is a status line alone, headers and a
/// body.
#[derive(Debug, Clone)]
pub struct Response {
    pub status: Status,
    pub body: Option<Body>,
}

/// A `Body` as mathematical values.
pub struct BodyView {
    pub encoding: Seq<char>,
    pub content_type: ContentType,
    pub length: nat,
    pub bytes: Seq<u8>,
}

/// A `Response` as mathematical values.
pub struct ResponseView {
    pub status: Status,
    pub body: Option<BodyView>,
}

impl View for Body {
    type V = BodyView;

    open spec fn view(&self) -> BodyView {
        BodyView {
            encoding: self.encoding@,
            content_type: self.content_type,
            length: self.length as nat,
            bytes: self.bytes@,
        }
    }
}

impl View for Response {
    type V = ResponseView;

    open spec fn view(&self) -> ResponseView {
        ResponseView {
            status: self.status,
            body: match self.body {
                Some(b) => Some(b@),
                None => None,
            },
        }
    }
}

/// The status line of a response, with its line ending.
pub open spec fn status_line(status: Status) -> Seq<char> {
    match status {
        Status::Success => "HTTP/1.1 200 OK\r\n"@,
        Status::Created => "HTTP/1.1 201 Created\r\n"@,
        Status::BadRequest => "HTTP/1.1 400 Bad Request\r\n"@,
        Status::NotFound => "HTTP/1.1 404 Not Found\r\n"@,
    }
}

/// The `Content-Encoding` line for `encoding`; nothing for no encoding.
pub open spec fn encoding_line(encoding: Seq<char>) -> Seq<char> {
    if encoding.len() == 0 {
        Seq::empty()
    } else {
        "Content-Encoding: "@ + encoding + "\r\n"@
    }
}

/// The `Content-Type` line, followed by the start of the `Content-Length`
/// line.
pub open spec fn content_lines(content_type: ContentType) -> Seq<char> {
    match content_type {
        ContentType::Text => "Content-Type: text/plain\r\nContent-Length: "@,
        ContentType::Binary => "Content-Type: application/octet-stream\r\nContent-Length: "@,
    }
}

impl BodyView {
    /// The header lines, up to and including the empty line that ends them.
    pub open spec fn headers(self) -> Seq<char> {
        encoding_line(self.encoding) + content_lines(self.content_type) + decimal(self.length)
            + "\r\n\r\n"@
    }
}

impl ResponseView {
    /// The text before the body: the status line and the headers.
    pub open spec fn head(self) -> Seq<char> {
        match self.body {
            Some(b) => status_line(self.status) + b.headers(),
            None => status_line(self.status),
        }
    }

    /// The bytes after the headers.
    pub open spec fn payload(self) -> Seq<u8> {
        match self.body {
            Some(b) => b.bytes,
            None => Seq::empty(),
        }
    }

    /// The response on the wire: its head in UTF-8, then its body as it is.
    pub open spec fn wire(self) -> Seq<u8> {
        encode_utf8(self.head()) + self.payload()
    }

    /// Whether the length that the response declares is the length of its
    /// body. A status line alone declares none.
    pub open spec fn length_is_exact(self) -> bool {
        match self.body {
            Some(b) => b.length == b.bytes.len(),
            None => true,
        }
    }
}

/// The status line for `status`.
pub fn status_text(status: Status) -> (r: &'static str)
    ensures
        r@ == status_line(status),
{
    match status {
        Status::Success => "HTTP/1.1 200 OK\r\n",
        Status::Created => "HTTP/1.1 201 Created\r\n",
        Status::BadRequest => "HTTP/1.1 400 Bad Request\r\n",
        Status::NotFound => "HTTP/1.1 404 Not Found\r\n",
    }
}

/// The `Content-Type` line for `content_type` and the start of the
/// `Content-Length` line.
pub fn content_text(content_type: ContentType) -> (r: &'static str)
    ensures
        r@ == content_lines(content_type),
{
    match content_type {
        ContentType::Text => "Content-Type: text/plain\r\nContent-Length: ",
        ContentType::Binary => "Content-Type: application/octet-stream\r\nContent-Length: ",
    }
}

impl Response {
    /// A response that is a status line alone.
    pub fn bare(status: Status) -> (r: Response)
        ensures
            r@ == (ResponseView { status, body: None }),
    {
        Response { status, body: None }
    }

    /// A response that carries `bytes` and declares `length`.
    pub fn with_body(
        status: Status,
        encoding: String,
        content_type: ContentType,
        length: usize,
        bytes: Vec<u8>,
    ) -> (r: Response)
        ensures
            r@ == (ResponseView {
                status,
                body: Some(
                    BodyView {
                        encoding: encoding@,
                        content_type,
                        length: length as nat,
                        bytes: bytes@,
                    },
                ),
            }),
    {
        Response { status, body: Some(Body { encoding, content_type, length, bytes }) }
    }

    /// The text before the body.
    pub fn head(&self) -> (r: String)
        ensures
            r@ == self@.head(),
    {
        let mut text = String::from_str(status_text(self.status));
        match &self.body {
            Some(b) => {
                if !b.encoding.as_str().is_empty() {
                    text.append("Content-Encoding: ");
                    text.append(b.encoding.as_str());
                    text.append("\r\n");
                }
                text.append(content_text(b.content_type));
                let digits = decimal_text(b.length);
                text.append(digits.as_str());
                text.append("\r\n\r\n");
            },
            None => {},
        }
        text
    }

    /// The bytes to send for this response.
    pub fn to_bytes(&self) -> (r: Vec<u8>)
        ensures
            r@ == self@.wire(),
    {
        let head = self.head();
        let mut out: Vec<u8> = Vec::new();
        out.extend_from_slice(head.as_str().as_bytes());
        match &self.body {
            Some(b) => {
                out.extend_from_slice(b.bytes.as_slice());
            },
            None => {},
        }
        out
    }
}

} // verus!
