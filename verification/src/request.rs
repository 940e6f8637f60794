//! The parts of one request, and what they are for a given text.

use crate::decode::{decode_lossy, lossy_text};
use crate::encoding::{lemma_negotiated_is_supported, negotiate, negotiated, supported};
use crate::number::{declared_length, read_length};
use crate::text::{
    chars_of, lines, lines_from, piece, piece_span, scan, second_word, starts_with, strip_cr,
    strip_prefix, word, Stop,
};
use vstd::prelude::*;
use vstd::slice::slice_subrange;
use vstd::string::*;
use vstd::utf8::{decode_utf8, valid_utf8};

verus! {

/// The request methods that the server tells apart.
#[derive(Debug, Clone, Copy, PartialEq, Eq, Structural)]
pub enum Method {
    POST,
    GET,
}

/// The parts of one request.
#[derive(Debug, Clone)]
pub struct StreamHandler {
    /// The method of the request line.
    pub method: Method,
    /// The first segment of the path, with a slash before it: the route.
    pub path: String,
    /// The second segment of the path.
    pub path_param: String,
    /// The length that the `Content-Length` header declares. The body may
    /// be longer or shorter.
    pub content_length: usize,
    /// The value of the `Content-Type` header.
    pub content_type: String,
    /// The value of the `User-Agent` header.
    pub user_agent: String,
    /// The body: the lines after the first empty line, joined without
    /// their line endings.
    pub data: String,
    /// The encoding chosen among those that the client accepts, or empty.
    pub encoding: String,
}

/// The parts of one request as mathematical values.
pub struct Request {
    pub method: Method,
    pub path: Seq<char>,
    pub path_param: Seq<char>,
    pub content_length: nat,
    pub content_type: Seq<char>,
    pub user_agent: Seq<char>,
    pub data: Seq<char>,
    pub encoding: Seq<char>,
}

impl View for StreamHandler {
    type V = Request;

    open spec fn view(&self) -> Request {
        Request {
            method: self.method,
            path: self.path@,
            path_param: self.path_param@,
            content_length: self.content_length as nat,
            content_type: self.content_type@,
            user_agent: self.user_agent@,
            data: self.data@,
            encoding: self.encoding@,
        }
    }
}

impl Request {
    /// What holds of the parts of every text: the route begins with a
    /// slash, the encoding is a known one or none, and the declared length
    /// fits a `usize`.
    pub open spec fn well_formed(self) -> bool {
        &&& self.path.len() > 0 && self.path[0] == '/'
        &&& self.encoding.len() == 0 || supported(self.encoding)
        &&& self.content_length <= usize::MAX
    }
}

/// The parts of a request of which nothing has been read.
pub open spec fn blank() -> Request {
    Request {
        method: Method::GET,
        path: seq!['/'],
        path_param: Seq::empty(),
        content_length: 0,
        content_type: Seq::empty(),
        user_agent: Seq::empty(),
        data: Seq::empty(),
        encoding: Seq::empty(),
    }
}

/// `req` after a request line with the given method. The target is the
/// second word of the line; its pieces between slashes give the route and
/// the parameter, and further pieces are dropped.
pub open spec fn with_target(req: Request, method: Method, line: Seq<char>) -> Request {
    match word(line, 1) {
        Some(target) => Request {
            method,
            path: seq!['/'] + piece(target, '/', 1),
            path_param: piece(target, '/', 2),
            ..req
        },
        None => Request { method, path: seq!['/'], path_param: Seq::empty(), ..req },
    }
}

/// The rule for the request line: a line that begins with `GET /` or with
/// `POST /` sets the method, the route and the parameter.
pub open spec fn after_request_line(req: Request, line: Seq<char>) -> Request {
    if "GET /"@.is_prefix_of(line) {
        with_target(req, Method::GET, line)
    } else if "POST /"@.is_prefix_of(line) {
        with_target(req, Method::POST, line)
    } else {
        req
    }
}

/// The rule for a line that begins with `Content-Type`: its second word is
/// the content type, which is empty if the line has one word only.
pub open spec fn after_content_type(req: Request, line: Seq<char>) -> Request {
    if "Content-Type"@.is_prefix_of(line) {
        Request {
            content_type: match word(line, 1) {
                Some(w) => w,
                None => Seq::empty(),
            },
            ..req
        }
    } else {
        req
    }
}

/// The rule for a line that begins with `Content-Length`: its second word
/// declares the length, which is 0 if the word is missing or no number.
pub open spec fn after_content_length(req: Request, line: Seq<char>) -> Request {
    if "Content-Length"@.is_prefix_of(line) {
        Request {
            content_length: match word(line, 1) {
                Some(w) => declared_length(w),
                None => 0,
            },
            ..req
        }
    } else {
        req
    }
}

/// The rule for a line that begins with `User-Agent`: the user agent is the
/// line without `User-Agent: ` at its start, white space at its end
/// included.
pub open spec fn after_user_agent(req: Request, line: Seq<char>) -> Request {
    if "User-Agent"@.is_prefix_of(line) {
        Request { user_agent: strip_prefix(line, "User-Agent: "@), ..req }
    } else {
        req
    }
}

/// The rule for a line that begins with `Accept-Encoding: `: the encoding
/// is the one chosen from the rest of the line, or empty.
pub open spec fn after_accept_encoding(req: Request, line: Seq<char>) -> Request {
    if "Accept-Encoding: "@.is_prefix_of(line) {
        Request { encoding: negotiated(strip_prefix(line, "Accept-Encoding: "@)), ..req }
    } else {
        req
    }
}

/// `req` after the line `line`. Each rule is applied by itself, in this
/// order; a line that begins like none of them changes nothing.
pub open spec fn applied(req: Request, line: Seq<char>) -> Request {
    let req = after_request_line(req, line);
    let req = after_content_type(req, line);
    let req = after_content_length(req, line);
    let req = after_user_agent(req, line);
    after_accept_encoding(req, line)
}

/// `req` after the lines `ls`, read in order. The first empty line ends the
/// headers: the lines after it, joined with nothing between them, are the
/// body, and nothing more is read. The line endings inside the body are
/// lost with that.
pub open spec fn parse_lines(ls: Seq<Seq<char>>, req: Request) -> Request
    decreases ls.len(),
{
    if ls.len() == 0 {
        req
    } else if ls[0].len() == 0 {
        Request { data: req.data + ls.drop_first().flatten(), ..req }
    } else {
        parse_lines(ls.drop_first(), applied(req, ls[0]))
    }
}

/// The parts of the request that `text` holds.
pub open spec fn parsed(text: Seq<char>) -> Request {
    parse_lines(lines(text), blank())
}

/// Reading lines keeps the parts well formed.
pub proof fn lemma_parse_lines_well_formed(ls: Seq<Seq<char>>, req: Request)
    requires
        req.well_formed(),
    ensures
        parse_lines(ls, req).well_formed(),
    decreases ls.len(),
{
    if ls.len() > 0 && ls[0].len() > 0 {
        let line = ls[0];
        lemma_negotiated_is_supported(strip_prefix(line, "Accept-Encoding: "@));
        lemma_parse_lines_well_formed(ls.drop_first(), applied(req, line));
    }
}

/// The parts of every text are well formed.
pub proof fn lemma_parsed_well_formed(text: Seq<char>)
    ensures
        parsed(text).well_formed(),
{
    lemma_parse_lines_well_formed(lines(text), blank());
}

/// Finds the line that begins at `from`: where it ends, and where the next
/// line begins.
fn next_line(s: &[char], from: usize) -> (r: (usize, usize))
    requires
        from < s.len(),
    ensures
        from <= r.0 <= r.1 <= s.len(),
        from < r.1,
        lines_from(s@, from as int) == seq![s@.subrange(from as int, r.0 as int)] + lines_from(
            s@,
            r.1 as int,
        ),
{
    let n: usize = scan(s, Stop::At('\n'), from);
    if n < s.len() {
        let end: usize = if n > from && s[n - 1] == '\r' {
            n - 1
        } else {
            n
        };
        assert(strip_cr(s@.subrange(from as int, n as int)) == s@.subrange(
            from as int,
            end as int,
        ));
        (end, n + 1)
    } else {
        (n, n)
    }
}

/// Joins the lines of `text` that begin at or after `from`.
fn body_from(text: &str, s: &[char], from: usize) -> (r: String)
    requires
        text@ == s@,
        from <= s.len(),
    ensures
        r@ == lines_from(s@, from as int).flatten(),
{
    let mut data = String::new();
    let mut cur: usize = from;
    while cur < s.len()
        invariant
            text@ == s@,
            from <= cur <= s.len(),
            data@ + lines_from(s@, cur as int).flatten() == lines_from(s@, from as int).flatten(),
        decreases s.len() - cur,
    {
        let (end, next) = next_line(s, cur);
        proof {
            let line = s@.subrange(cur as int, end as int);
            let rest = lines_from(s@, next as int);
            assert((seq![line] + rest).drop_first() == rest);
        }
        data.append(text.substring_char(cur, end));
        cur = next;
    }
    data
}

/// Reads the target of a request line into `req`.
fn set_target(
    req: &mut StreamHandler,
    method: Method,
    text: &str,
    s: &[char],
    lo: usize,
    hi: usize,
)
    requires
        text@ == s@,
        lo <= hi <= s.len(),
    ensures
        final(req)@ == with_target(old(req)@, method, s@.subrange(lo as int, hi as int)),
{
    let line = slice_subrange(s, lo, hi);
    req.method = method;
    match second_word(line) {
        Some((a, b)) => {
            let target = slice_subrange(line, a, b);
            let (p, q) = piece_span(target, '/', 1);
            let (u, v) = piece_span(target, '/', 2);
            proof {
                reveal_strlit("/");
                assert(target@.subrange(p as int, q as int) == s@.subrange(
                    lo + a + p,
                    lo + a + q,
                ));
                assert(target@.subrange(u as int, v as int) == s@.subrange(
                    lo + a + u,
                    lo + a + v,
                ));
            }
            let mut path = String::from_str("/");
            path.append(text.substring_char(lo + a + p, lo + a + q));
            assert(path@ == seq!['/'] + piece(target@, '/', 1));
            req.path = path;
            req.path_param = String::from_str(text.substring_char(lo + a + u, lo + a + v));
        },
        None => {
            proof {
                reveal_strlit("/");
            }
            req.path = String::from_str("/");
            assert(req.path@ == seq!['/']);
            req.path_param = String::new();
        },
    }
}

/// Reads the line of `s` from `lo` to `hi` into `req`.
fn apply_line(req: &mut StreamHandler, text: &str, s: &[char], lo: usize, hi: usize)
    requires
        text@ == s@,
        lo <= hi <= s.len(),
    ensures
        final(req)@ == applied(old(req)@, s@.subrange(lo as int, hi as int)),
{
    let line = slice_subrange(s, lo, hi);
    if starts_with(line, "GET /") {
        set_target(req, Method::GET, text, s, lo, hi);
    } else if starts_with(line, "POST /") {
        set_target(req, Method::POST, text, s, lo, hi);
    }
    if starts_with(line, "Content-Type") {
        req.content_type = match second_word(line) {
            Some((a, b)) => {
                assert(line@.subrange(a as int, b as int) == s@.subrange(lo + a, lo + b));
                String::from_str(text.substring_char(lo + a, lo + b))
            },
            None => String::new(),
        };
    }
    if starts_with(line, "Content-Length") {
        req.content_length = match second_word(line) {
            Some((a, b)) => read_length(slice_subrange(line, a, b)),
            None => 0,
        };
    }
    if starts_with(line, "User-Agent") {
        proof {
            reveal_strlit("User-Agent: ");
        }
        let from: usize = if starts_with(line, "User-Agent: ") {
            lo + 12
        } else {
            lo
        };
        assert(strip_prefix(line@, "User-Agent: "@) == s@.subrange(from as int, hi as int));
        req.user_agent = String::from_str(text.substring_char(from, hi));
    }
    if starts_with(line, "Accept-Encoding: ") {
        proof {
            reveal_strlit("Accept-Encoding: ");
        }
        let offer = slice_subrange(line, 17, line.len());
        req.encoding = negotiate(offer);
    }
}

/// Reads the parts of a request from its text.
///
/// Every text has parts: what is missing or cannot be read keeps its
/// default, and no text is refused.
pub fn handle_stream(stream_buf: String) -> (r: StreamHandler)
    ensures
        r@ == parsed(stream_buf@),
        r@.well_formed(),
{
    proof {
        lemma_parsed_well_formed(stream_buf@);
    }
    let text = stream_buf.as_str();
    let chars = chars_of(text);
    let s = chars.as_slice();
    proof {
        reveal_strlit("/");
    }
    let mut req = StreamHandler {
        method: Method::GET,
        path: String::from_str("/"),
        path_param: String::new(),
        content_length: 0,
        content_type: String::new(),
        user_agent: String::new(),
        data: String::new(),
        encoding: String::new(),
    };
    assert(req.path@ =~= seq!['/']);
    let mut cur: usize = 0;
    while cur < s.len()
        invariant
            text@ == s@,
            s@ == stream_buf@,
            cur <= s.len(),
            req@.data == Seq::<char>::empty(),
            parse_lines(lines_from(s@, cur as int), req@) == parsed(s@),
            parsed(s@).well_formed(),
        decreases s.len() - cur,
    {
        let (end, next) = next_line(s, cur);
        proof {
            let line = s@.subrange(cur as int, end as int);
            let rest = lines_from(s@, next as int);
            assert((seq![line] + rest).drop_first() == rest);
        }
        if end == cur {
            req.data = body_from(text, s, next);
            return req;
        }
        apply_line(&mut req, text, s, cur, end);
        cur = next;
    }
    req
}

/// Reads the parts of a request from the bytes that came in. Bytes that are
/// no UTF-8 are not refused: the text is decoded with replacement
/// characters in their place.
pub fn read_request(buffer: &[u8]) -> (r: StreamHandler)
    ensures
        r@ == parsed(lossy_text(buffer@)),
        valid_utf8(buffer@) ==> r@ == parsed(decode_utf8(buffer@)),
        r@.well_formed(),
{
    handle_stream(decode_lossy(buffer))
}

/// Reading is a function of the text: whenever `handle_stream` hands back
/// `first` for a text and `second` for the same text, the two agree in every
/// part.
pub proof fn lemma_same_text_same_parts(
    text: String,
    first: StreamHandler,
    second: StreamHandler,
)
    requires
        call_ensures(handle_stream, (text,), first),
        call_ensures(handle_stream, (text,), second),
    ensures
        first@ == second@,
        first@ == parsed(text@),
{
}

/// Reading is a function of the bytes that came in: whenever `read_request`
/// hands back `first` for a buffer and `second` for a buffer of the same
/// bytes, the two agree in every part.
pub proof fn lemma_same_bytes_same_parts(
    buffer: &[u8],
    again: &[u8],
    first: StreamHandler,
    second: StreamHandler,
)
    requires
        buffer@ == again@,
        call_ensures(read_request, (buffer,), first),
        call_ensures(read_request, (again,), second),
    ensures
        first@ == second@,
{
}

} // verus!
