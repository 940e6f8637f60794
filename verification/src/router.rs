//! The answer to a request.
//!
//! Most requests are answered at once. One that names a file is answered in
//! two steps: `route` says which file to read or write, the caller does so,
//! and `after_read` or `after_write` makes the response from what happened.

use crate::gzip::{gzip, gzip_output};
use crate::request::{Method, Request, StreamHandler};
use crate::response::{BodyView, ContentType, Response, ResponseView, Status};
use crate::text::same_text;
use vstd::prelude::*;
use vstd::slice::{slice_subrange, slice_to_vec};
use vstd::string::*;
use vstd::utf8::encode_utf8;

verus! {

/// What the caller is to do for a request.
#[derive(Debug, Clone)]
pub enum Action {
    /// Send this response.
    Send(Response),
    /// Read the file at this path, then call `after_read`.
    ReadFile(String),
    /// Create or empty the file at this path and write these bytes to it,
    /// then call `after_write`.
    WriteFile(String, Vec<u8>),
}

/// An `Action` as mathematical values.
pub enum ActionView {
    Send(ResponseView),
    ReadFile(Seq<char>),
    WriteFile(Seq<char>, Seq<u8>),
}

impl View for Action {
    type V = ActionView;

    open spec fn view(&self) -> ActionView {
        match self {
            Action::Send(r) => ActionView::Send(r@),
            Action::ReadFile(path) => ActionView::ReadFile(path@),
            Action::WriteFile(path, bytes) => ActionView::WriteFile(path@, bytes@),
        }
    }
}

/// Why a request got no answer.
#[derive(Debug, Clone, Copy, PartialEq, Eq, Structural)]
pub enum RouteError {
    /// The body could not be compressed.
    Compression,
}

/// How writing a file went.
#[derive(Debug, Clone, Copy, PartialEq, Eq, Structural)]
pub enum WriteOutcome {
    /// The file holds the bytes.
    Written,
    /// The file could not be created.
    CreateFailed,
    /// The file was created and the bytes could not be written.
    WriteFailed,
}

/// The body of the answer to a file that could not be read.
pub open spec fn missing_file_text() -> Seq<char> {
    "[ERROR] : File Not Found"@
}

/// A response with headers and the body `bytes`.
pub open spec fn reply(
    status: Status,
    encoding: Seq<char>,
    content_type: ContentType,
    length: nat,
    bytes: Seq<u8>,
) -> ResponseView {
    ResponseView { status, body: Some(BodyView { encoding, content_type, length, bytes }) }
}

/// The path of the file `name` in `directory`: the two joined by a slash,
/// unless `directory` ends in one.
pub open spec fn file_path(directory: Seq<char>, name: Seq<char>) -> Seq<char> {
    if directory.len() > 0 && directory.last() == '/' {
        directory + name
    } else {
        directory + seq!['/'] + name
    }
}

/// The bytes of the request's body that are stored and sent back: the
/// first `content_length` of them, or all if there are fewer.
pub open spec fn stored_bytes(req: Request) -> Seq<u8> {
    let all = encode_utf8(req.data);
    if req.content_length < all.len() {
        all.take(req.content_length as int)
    } else {
        all
    }
}

/// The answer to `GET /echo`, where `compressed` is what compressing the
/// path's second segment gave. Without a chosen encoding the segment goes
/// back as it is.
///
/// The body is compressed as gzip whichever encoding was chosen, and the
/// `Content-Encoding` line names the chosen one: a client that asked for
/// another encoding than gzip first gets a body that the line misnames.
pub open spec fn echo_reply(req: Request, compressed: Option<Seq<u8>>) -> Result<
    ResponseView,
    RouteError,
> {
    if req.encoding.len() == 0 {
        let bytes = encode_utf8(req.path_param);
        Ok(reply(Status::Success, req.encoding, ContentType::Text, bytes.len(), bytes))
    } else {
        match compressed {
            Some(bytes) => Ok(
                reply(Status::Success, req.encoding, ContentType::Text, bytes.len(), bytes),
            ),
            None => Err(RouteError::Compression),
        }
    }
}

/// What is to be done for `req`, where `directory` holds the files and
/// `compressed` is what compressing the path's second segment gives.
///
/// Every answer with headers names the chosen encoding, but only the answer
/// to `GET /echo` is compressed: the others carry their body as it is.
pub open spec fn routed(
    req: Request,
    directory: Seq<char>,
    compressed: Option<Seq<u8>>,
) -> Result<ActionView, RouteError> {
    let empty = reply(Status::Success, req.encoding, ContentType::Text, 0, Seq::empty());
    let unknown = reply(Status::NotFound, req.encoding, ContentType::Text, 0, Seq::empty());
    match req.method {
        Method::GET => {
            if req.path == "/"@ {
                Ok(ActionView::Send(empty))
            } else if req.path == "/echo"@ {
                match echo_reply(req, compressed) {
                    Ok(r) => Ok(ActionView::Send(r)),
                    Err(e) => Err(e),
                }
            } else if req.path == "/user-agent"@ {
                let bytes = encode_utf8(req.user_agent);
                Ok(
                    ActionView::Send(
                        reply(Status::Success, req.encoding, ContentType::Text, bytes.len(), bytes),
                    ),
                )
            } else if req.path == "/files"@ {
                Ok(ActionView::ReadFile(file_path(directory, req.path_param)))
            } else {
                Ok(ActionView::Send(unknown))
            }
        },
        Method::POST => {
            if req.path == "/files"@ {
                Ok(ActionView::WriteFile(file_path(directory, req.path_param), stored_bytes(req)))
            } else {
                Ok(ActionView::Send(unknown))
            }
        },
    }
}

/// The answer to `GET /files` once the file was read: its bytes, or the
/// notice that it is missing where it could not be read.
pub open spec fn read_reply(req: Request, contents: Option<Seq<u8>>) -> ResponseView {
    match contents {
        Some(bytes) => reply(
            Status::Success,
            req.encoding,
            ContentType::Binary,
            bytes.len(),
            bytes,
        ),
        None => {
            let bytes = encode_utf8(missing_file_text());
            reply(Status::NotFound, req.encoding, ContentType::Text, bytes.len(), bytes)
        },
    }
}

/// The answer to `POST /files` once the file was written: the stored bytes
/// under the length that the request declared, or a bare refusal where the
/// file could not be created or written.
pub open spec fn write_reply(req: Request, outcome: WriteOutcome) -> ResponseView {
    match outcome {
        WriteOutcome::Written => reply(
            Status::Created,
            req.encoding,
            ContentType::Binary,
            req.content_length,
            stored_bytes(req),
        ),
        _ => ResponseView { status: Status::BadRequest, body: None },
    }
}

/// A result of `route` as mathematical values.
pub open spec fn action_view(r: Result<Action, RouteError>) -> Result<ActionView, RouteError> {
    match r {
        Ok(a) => Ok(a@),
        Err(e) => Err(e),
    }
}

/// A result of `echo` as mathematical values.
pub open spec fn response_view(r: Result<Response, RouteError>) -> Result<
    ResponseView,
    RouteError,
> {
    match r {
        Ok(a) => Ok(a@),
        Err(e) => Err(e),
    }
}

/// A compressed body as mathematical values.
pub open spec fn bytes_view(b: Option<Vec<u8>>) -> Option<Seq<u8>> {
    match b {
        Some(v) => Some(v@),
        None => None,
    }
}

/// A response in plain text with `text` as its body.
fn text_response(status: Status, encoding: &String, text: &str) -> (r: Response)
    ensures
        r@ == reply(
            status,
            encoding@,
            ContentType::Text,
            encode_utf8(text@).len(),
            encode_utf8(text@),
        ),
{
    let bytes = slice_to_vec(text.as_bytes());
    Response::with_body(status, encoding.clone(), ContentType::Text, bytes.len(), bytes)
}

/// A response in plain text with no body.
fn empty_response(status: Status, encoding: &String) -> (r: Response)
    ensures
        r@ == reply(status, encoding@, ContentType::Text, 0, Seq::empty()),
{
    Response::with_body(status, encoding.clone(), ContentType::Text, 0, Vec::new())
}

/// Joins the directory of the files and a file's name into a path.
pub fn join_path(directory: &str, name: &str) -> (r: String)
    ensures
        r@ == file_path(directory@, name@),
{
    let n: usize = directory.unicode_len();
    let mut path = String::from_str(directory);
    if n == 0 || directory.get_char(n - 1) != '/' {
        proof {
            reveal_strlit("/");
        }
        path.append("/");
    }
    path.append(name);
    path
}

/// Takes from the request's body the bytes that are stored and sent back.
pub fn stored_body(req: &StreamHandler) -> (r: Vec<u8>)
    ensures
        r@ == stored_bytes(req@),
{
    let all = req.data.as_str().as_bytes();
    if req.content_length < all.len() {
        slice_to_vec(slice_subrange(all, 0, req.content_length))
    } else {
        slice_to_vec(all)
    }
}

/// Answers `GET /echo`, given what compressing the path's second segment
/// gave. `compressed` is not looked at where no encoding was chosen.
pub fn echo(req: &StreamHandler, compressed: Option<Vec<u8>>) -> (r: Result<
    Response,
    RouteError,
>)
    ensures
        response_view(r) == echo_reply(req@, bytes_view(compressed)),
{
    if req.encoding.as_str().is_empty() {
        Ok(text_response(Status::Success, &req.encoding, req.path_param.as_str()))
    } else {
        match compressed {
            Some(bytes) => Ok(
                Response::with_body(
                    Status::Success,
                    req.encoding.clone(),
                    ContentType::Text,
                    bytes.len(),
                    bytes,
                ),
            ),
            None => Err(RouteError::Compression),
        }
    }
}

/// Decides what is to be done for `req`, with the files in `directory`.
///
/// A body that is to go out encoded is compressed here. The result is
/// `Err` exactly where that was called for and failed.
pub fn route(req: &StreamHandler, directory: &str) -> (r: Result<Action, RouteError>)
    ensures
        action_view(r) == routed(req@, directory@, gzip_output(encode_utf8(req@.path_param))),
{
    let path = req.path.as_str();
    match req.method {
        Method::GET => {
            if same_text(path, "/") {
                Ok(Action::Send(empty_response(Status::Success, &req.encoding)))
            } else if same_text(path, "/echo") {
                let compressed = if req.encoding.as_str().is_empty() {
                    None
                } else {
                    gzip(req.path_param.as_str().as_bytes())
                };
                match echo(req, compressed) {
                    Ok(r) => Ok(Action::Send(r)),
                    Err(e) => Err(e),
                }
            } else if same_text(path, "/user-agent") {
                Ok(
                    Action::Send(
                        text_response(Status::Success, &req.encoding, req.user_agent.as_str()),
                    ),
                )
            } else if same_text(path, "/files") {
                Ok(Action::ReadFile(join_path(directory, req.path_param.as_str())))
            } else {
                Ok(Action::Send(empty_response(Status::NotFound, &req.encoding)))
            }
        },
        Method::POST => {
            if same_text(path, "/files") {
                Ok(
                    Action::WriteFile(
                        join_path(directory, req.path_param.as_str()),
                        stored_body(req),
                    ),
                )
            } else {
                Ok(Action::Send(empty_response(Status::NotFound, &req.encoding)))
            }
        },
    }
}

/// Answers `GET /files`, given the bytes of the file, or `None` where it
/// could not be read.
pub fn after_read(req: &StreamHandler, contents: Option<Vec<u8>>) -> (r: Response)
    ensures
        r@ == read_reply(req@, bytes_view(contents)),
{
    match contents {
        Some(bytes) => Response::with_body(
            Status::Success,
            req.encoding.clone(),
            ContentType::Binary,
            bytes.len(),
            bytes,
        ),
        None => text_response(Status::NotFound, &req.encoding, "[ERROR] : File Not Found"),
    }
}

/// Answers `POST /files`, given how writing the file went.
pub fn after_write(req: &StreamHandler, outcome: WriteOutcome) -> (r: Response)
    ensures
        r@ == write_reply(req@, outcome),
{
    match outcome {
        WriteOutcome::Written => Response::with_body(
            Status::Created,
            req.encoding.clone(),
            ContentType::Binary,
            req.content_length,
            stored_body(req),
        ),
        _ => Response::bare(Status::BadRequest),
    }
}

/// The length that an answer declares is the length of the body that
/// follows its headers. This holds of every answer that is sent at once, of
/// every answer to a file that was read or found missing, and of the answer
/// to a file that was written, unless the request declared more bytes than
/// its body held.
pub proof fn lemma_declared_length_is_body_length(
    req: Request,
    directory: Seq<char>,
    compressed: Option<Seq<u8>>,
    contents: Option<Seq<u8>>,
    outcome: WriteOutcome,
)
    requires
        outcome is Written ==> req.content_length <= encode_utf8(req.data).len(),
    ensures
        routed(req, directory, compressed) matches Ok(ActionView::Send(r)) ==> r.length_is_exact(),
        read_reply(req, contents).length_is_exact(),
        write_reply(req, outcome).length_is_exact(),
{
}

/// A file is read for `GET /files` and for nothing else, and written for
/// `POST /files` and for nothing else. Only `GET /echo` with a chosen
/// encoding can go without an answer, and only where compressing failed.
pub proof fn lemma_route_outcomes(
    req: Request,
    directory: Seq<char>,
    compressed: Option<Seq<u8>>,
)
    ensures
        routed(req, directory, compressed) is Err <==> req.method == Method::GET && req.path
            == "/echo"@ && req.encoding.len() > 0 && compressed is None,
        routed(req, directory, compressed) matches Ok(ActionView::ReadFile(_)) <==> req.method
            == Method::GET && req.path == "/files"@,
        routed(req, directory, compressed) matches Ok(ActionView::WriteFile(_, _)) <==> req.method
            == Method::POST && req.path == "/files"@,
{
    reveal_strlit("/");
    reveal_strlit("/echo");
    reveal_strlit("/user-agent");
    reveal_strlit("/files");
    assert("/"@.len() == 1 && "/echo"@.len() == 5 && "/user-agent"@.len() == 11 && "/files"@.len()
        == 6);
}

/// Where a request declares more bytes than its body holds, the answer to
/// the written file declares that greater length and carries the whole body.
pub proof fn lemma_short_body_keeps_declared_length(req: Request)
    requires
        req.content_length > encode_utf8(req.data).len(),
    ensures
        write_reply(req, WriteOutcome::Written).body matches Some(b) && b.length
            == req.content_length && b.bytes == encode_utf8(req.data),
        !write_reply(req, WriteOutcome::Written).length_is_exact(),
{
}

} // verus!
