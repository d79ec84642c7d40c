//! Routing: from a decoded request to the response, or to the file
//! operation whose result decides the response.
use vstd::prelude::*;
use vstd::string::StringSliceAdditionalSpecFns;
use crate::bytes::{bytes_equal, contains_bytes, copy_range, has_prefix, nth_token, occurs_in, starts_with, token_at};
use crate::request::{lines_view, Request};
use crate::response::{created_message, not_found_message, ok_message, ContentType, StatusLine};

verus! {

/// What serving a request takes.
#[derive(Clone, Debug)]
pub enum Action {
    /// Send this response.
    Respond(StatusLine),
    /// Read the file at this path under the served directory; its contents
    /// decide the response (see `file_read_response`).
    ReadFile(Vec<u8>),
    /// Write these bytes to the file at this path under the served directory,
    /// creating or replacing it (see `file_write_response`).
    WriteFile(Vec<u8>, Vec<u8>),
}

/// The meaning of an [`Action`]: a response as wire bytes, or a file operation.
pub enum Outcome {
    Reply(Seq<u8>),
    Read(Seq<u8>),
    Write(Seq<u8>, Seq<u8>),
}

impl View for Action {
    type V = Outcome;

    open spec fn view(&self) -> Outcome {
        match self {
            Action::Respond(s) => Outcome::Reply(s.message()),
            Action::ReadFile(p) => Outcome::Read(p@),
            Action::WriteFile(p, b) => Outcome::Write(p@, b@),
        }
    }
}

/// The first header line that holds `User-Agent:` anywhere.
pub open spec fn user_agent_header(headers: Seq<Seq<u8>>) -> Option<Seq<u8>>
    decreases headers.len(),
{
    if headers.len() == 0 {
        None
    } else if occurs_in(headers[0], "User-Agent:".spec_bytes()) {
        Some(headers[0])
    } else {
        user_agent_header(headers.drop_first())
    }
}

/// What follows the `User-Agent:` name that `h` starts with, without one
/// leading space; `None` where `h` does not start with the name.
pub open spec fn user_agent_value(h: Seq<u8>) -> Option<Seq<u8>> {
    if has_prefix(h, "User-Agent:".spec_bytes()) {
        let v = h.skip("User-Agent:".spec_bytes().len() as int);
        Some(
            if v.len() > 0 && v[0] == 32u8 {
                v.drop_first()
            } else {
                v
            },
        )
    } else {
        None
    }
}

/// The reply of the user-agent route.
pub open spec fn user_agent_message(headers: Seq<Seq<u8>>) -> Seq<u8> {
    match user_agent_header(headers) {
        Some(h) => ok_message(user_agent_value(h), Some(ContentType::TextPlain)),
        None => not_found_message(),
    }
}

/// The file route, by the request's method: read on `GET`, write the body on
/// `POST`, not found otherwise.
pub open spec fn file_outcome(line: Seq<u8>, file_path: Seq<u8>, body: Seq<u8>) -> Outcome {
    match nth_token(line, 0) {
        Some(m) => if m == "GET".spec_bytes() {
            Outcome::Read(file_path)
        } else if m == "POST".spec_bytes() {
            Outcome::Write(file_path, body)
        } else {
            Outcome::Reply(not_found_message())
        },
        None => Outcome::Reply(not_found_message()),
    }
}

/// Routing of a path other than `/`, first match winning.
pub open spec fn path_outcome(path: Seq<u8>, line: Seq<u8>, headers: Seq<Seq<u8>>, body: Seq<u8>) -> Outcome {
    if has_prefix(path, "/echo/".spec_bytes()) {
        Outcome::Reply(
            ok_message(
                Some(path.skip("/echo/".spec_bytes().len() as int)),
                Some(ContentType::TextPlain),
            ),
        )
    } else if has_prefix(path, "/files/".spec_bytes()) {
        file_outcome(line, path.skip("/files/".spec_bytes().len() as int), body)
    } else if occurs_in(path, "/user-agent".spec_bytes()) {
        Outcome::Reply(user_agent_message(headers))
    } else {
        Outcome::Reply(not_found_message())
    }
}

/// Routing of a whole request: the target is the second token of the request
/// line; without one the request is not found.
pub open spec fn route(line: Seq<u8>, headers: Seq<Seq<u8>>, body: Seq<u8>) -> Outcome {
    match nth_token(line, 1) {
        Some(path) => if path == "/".spec_bytes() {
            Outcome::Reply(ok_message(None, None))
        } else {
            path_outcome(path, line, headers, body)
        },
        None => Outcome::Reply(not_found_message()),
    }
}

/// The request target: the second whitespace-separated token of the request line.
pub fn resolve_path(request_line: &[u8]) -> (r: Option<Vec<u8>>)
    ensures
        r matches Some(p) ==> nth_token(request_line@, 1) == Some(p@),
        r is None ==> nth_token(request_line@, 1) is None,
{
    token_at(request_line, 1)
}

/// The user-agent route: the value of the first header that mentions
/// `User-Agent:`, as a plain-text body.
pub fn handle_user_agent(headers: &Vec<Vec<u8>>) -> (r: StatusLine)
    ensures
        r.message() == user_agent_message(lines_view(headers@)),
{
    let ghost hs = lines_view(headers@);
    let name = "User-Agent:".as_bytes();
    let mut i: usize = 0;
    assert(hs.skip(0) =~= hs);
    while i < headers.len()
        invariant
            i <= headers@.len(),
            hs == lines_view(headers@),
            name@ == "User-Agent:".spec_bytes(),
            user_agent_header(hs) == user_agent_header(hs.skip(i as int)),
        decreases headers@.len() - i,
    {
        assert(hs.skip(i as int).drop_first() =~= hs.skip(i + 1));
        let h = headers[i].as_slice();
        if contains_bytes(h, name) {
            if starts_with(h, name) {
                let mut start = name.len();
                if start < h.len() && h[start] == 32u8 {
                    start = start + 1;
                }
                let v = copy_range(h, start, h.len());
                proof {
                    let w = h@.skip(name@.len() as int);
                    if w.len() > 0 && w[0] == 32u8 {
                        assert(v@ =~= w.drop_first());
                    } else {
                        assert(v@ =~= w);
                    }
                }
                return StatusLine::Success(Some(v), Some(ContentType::TextPlain));
            }
            return StatusLine::Success(None, Some(ContentType::TextPlain));
        }
        i = i + 1;
    }
    StatusLine::NotFound
}

/// The file route, by the request's method.
pub fn handle_file_path(file_path: Vec<u8>, request: &Request) -> (r: Action)
    ensures
        r@ == file_outcome(request.request_line@, file_path@, request.body@),
{
    match token_at(request.request_line.as_slice(), 0) {
        Some(m) => if bytes_equal(m.as_slice(), "GET".as_bytes()) {
            Action::ReadFile(file_path)
        } else if bytes_equal(m.as_slice(), "POST".as_bytes()) {
            Action::WriteFile(file_path, request.body.clone())
        } else {
            Action::Respond(StatusLine::NotFound)
        },
        None => Action::Respond(StatusLine::NotFound),
    }
}

/// Routes a path other than `/`: `/echo/`, then `/files/`, then any path
/// that mentions `/user-agent`; anything else is not found.
pub fn path_to_status_line(path: &[u8], request: &Request) -> (r: Action)
    ensures
        r@ == path_outcome(path@, request.request_line@, lines_view(request.headers@), request.body@),
{
    let echo = "/echo/".as_bytes();
    let files = "/files/".as_bytes();
    if starts_with(path, echo) {
        let s = copy_range(path, echo.len(), path.len());
        assert(s@ =~= path@.skip(echo@.len() as int));
        return Action::Respond(StatusLine::Success(Some(s), Some(ContentType::TextPlain)));
    }
    if starts_with(path, files) {
        let f = copy_range(path, files.len(), path.len());
        assert(f@ =~= path@.skip(files@.len() as int));
        return handle_file_path(f, request);
    }
    if contains_bytes(path, "/user-agent".as_bytes()) {
        return Action::Respond(handle_user_agent(&request.headers));
    }
    Action::Respond(StatusLine::NotFound)
}

/// Routes a decoded request.
pub fn generate_response(request: &Request) -> (r: Action)
    ensures
        r@ == route(request.request_line@, lines_view(request.headers@), request.body@),
{
    match resolve_path(request.request_line.as_slice()) {
        Some(path) => if bytes_equal(path.as_slice(), "/".as_bytes()) {
            Action::Respond(StatusLine::Success(None, None))
        } else {
            path_to_status_line(path.as_slice(), request)
        },
        None => Action::Respond(StatusLine::NotFound),
    }
}

/// The reply to a `GET` of a file, given what reading it gave.
pub open spec fn read_reply(contents: Option<Seq<u8>>) -> Seq<u8> {
    match contents {
        Some(c) => ok_message(Some(c), Some(ContentType::ApplicationOctetStream)),
        None => not_found_message(),
    }
}

/// The response to a `GET` of a file: its contents as an octet stream, or
/// not found where it could not be read.
pub fn file_read_response(contents: Option<Vec<u8>>) -> (r: StatusLine)
    ensures
        r.message() == read_reply(
            match contents {
                Some(c) => Some(c@),
                None => None,
            },
        ),
{
    match contents {
        Some(c) => StatusLine::Success(Some(c), Some(ContentType::ApplicationOctetStream)),
        None => StatusLine::NotFound,
    }
}

/// The response to a `POST` of a file: created where the write succeeded;
/// none where it failed, and the connection is then closed without a reply.
pub fn file_write_response(written: bool) -> (r: Option<StatusLine>)
    ensures
        r is Some <==> written,
        r matches Some(s) ==> s.message() == created_message(ContentType::TextPlain),
{
    if written {
        Some(StatusLine::Created(ContentType::TextPlain))
    } else {
        None
    }
}

} // verus!
