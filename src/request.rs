//! Decoding a request: the lines read up to the blank line that ends the
//! head, the declared `Content-Length`, and the body.
use vstd::prelude::*;
use vstd::string::StringSliceAdditionalSpecFns;
use crate::bytes::{has_prefix, nth_token, parse_nat, parse_usize, starts_with, strip_eol, token_at, trim_line_ending};

verus! {

/// Why no request could be decoded.
#[derive(Clone, Copy, Debug, PartialEq, Eq, Structural)]
pub enum DecodeError {
    /// The connection closed, or sent a blank line, before any request line.
    EmptyRequest,
    /// The stream ended before the head or the declared body was complete.
    MalformedRequest,
}

/// The head of a request: its request line and header lines, without line
/// terminators and without the blank line that ends them.
#[derive(Clone, Debug)]
pub struct Head {
    pub request_line: Vec<u8>,
    pub headers: Vec<Vec<u8>>,
}

/// A complete request: the head and a body of exactly the declared length.
#[derive(Clone, Debug)]
pub struct Request {
    pub request_line: Vec<u8>,
    pub headers: Vec<Vec<u8>>,
    pub body: Vec<u8>,
}

/// The contents of a list of lines.
pub open spec fn lines_view(v: Seq<Vec<u8>>) -> Seq<Seq<u8>> {
    v.map_values(|l: Vec<u8>| l@)
}

/// The raw lines with their terminators removed.
pub open spec fn trimmed_lines(raw: Seq<Vec<u8>>) -> Seq<Seq<u8>> {
    raw.map_values(|l: Vec<u8>| strip_eol(l@))
}

/// Line `k` of `t` is the first blank one.
pub open spec fn head_ends_at(t: Seq<Seq<u8>>, k: int) -> bool {
    0 <= k < t.len() && t[k].len() == 0 && forall|j: int| 0 <= j < k ==> #[trigger] t[j].len() > 0
}

/// No request line came: the stream ended first, or its first line was blank.
pub open spec fn is_empty_head(t: Seq<Seq<u8>>) -> bool {
    t.len() == 0 || t[0].len() == 0
}

/// No line of `t` is blank.
pub open spec fn no_blank_line(t: Seq<Seq<u8>>) -> bool {
    forall|j: int| 0 <= j < t.len() ==> #[trigger] t[j].len() > 0
}

/// `h` starts with the name of the `Content-Length` header.
pub open spec fn is_content_length_header(h: Seq<u8>) -> bool {
    has_prefix(h, "Content-Length:".spec_bytes())
}

/// The length that a `Content-Length` header line declares: the token that
/// follows the name, read as a `usize`; 0 where it is missing or no such number.
pub open spec fn declared_length(h: Seq<u8>) -> nat {
    match nth_token(h, 1) {
        Some(t) => match parse_nat(t) {
            Some(v) => if v <= usize::MAX {
                v
            } else {
                0
            },
            None => 0,
        },
        None => 0,
    }
}

/// The body length declared by the first `Content-Length` header, 0 without one.
pub open spec fn content_length(headers: Seq<Seq<u8>>) -> nat
    decreases headers.len(),
{
    if headers.len() == 0 {
        0
    } else if is_content_length_header(headers[0]) {
        declared_length(headers[0])
    } else {
        content_length(headers.drop_first())
    }
}

/// Whether a line as read, terminator included, is the blank line that ends
/// the head.
pub fn is_blank_line(line: &[u8]) -> (r: bool)
    ensures
        r == (strip_eol(line@).len() == 0),
{
    trim_line_ending(line).len() == 0
}

/// Decodes the head from the lines read so far, each with its terminator.
/// Reading stops at the first blank line; the lines before it are the head.
pub fn decode_head(raw: &Vec<Vec<u8>>) -> (r: Result<Head, DecodeError>)
    ensures
        r == Err::<Head, DecodeError>(DecodeError::EmptyRequest) <==> is_empty_head(
            trimmed_lines(raw@),
        ),
        r == Err::<Head, DecodeError>(DecodeError::MalformedRequest) <==> (!is_empty_head(
            trimmed_lines(raw@),
        ) && no_blank_line(trimmed_lines(raw@))),
        r matches Ok(h) ==> {
            let t = trimmed_lines(raw@);
            &&& head_ends_at(t, h.headers@.len() + 1 as int)
            &&& h.request_line@ == t[0]
            &&& lines_view(h.headers@) == t.subrange(1, h.headers@.len() + 1 as int)
        },
{
    let ghost t = trimmed_lines(raw@);
    if raw.len() == 0 {
        return Err(DecodeError::EmptyRequest);
    }
    let request_line = trim_line_ending(raw[0].as_slice());
    if request_line.len() == 0 {
        return Err(DecodeError::EmptyRequest);
    }
    let mut headers: Vec<Vec<u8>> = Vec::new();
    let mut i: usize = 1;
    while i < raw.len()
        invariant
            1 <= i <= raw@.len(),
            t == trimmed_lines(raw@),
            t[0].len() > 0,
            request_line@ == t[0],
            forall|j: int| 0 <= j < i ==> #[trigger] t[j].len() > 0,
            headers@.len() == i - 1,
            lines_view(headers@) == t.subrange(1, i as int),
        decreases raw@.len() - i,
    {
        let line = trim_line_ending(raw[i].as_slice());
        if line.len() == 0 {
            assert(head_ends_at(t, i as int));
            return Ok(Head { request_line, headers });
        }
        headers.push(line);
        i = i + 1;
        assert(lines_view(headers@) =~= t.subrange(1, i as int));
    }
    Err(DecodeError::MalformedRequest)
}

/// The body length declared by the first header that starts with
/// `Content-Length:`; 0 where there is none or its value is no number.
pub fn find_content_length(headers: &Vec<Vec<u8>>) -> (r: usize)
    ensures
        r as nat == content_length(lines_view(headers@)),
{
    let ghost hs = lines_view(headers@);
    let mut i: usize = 0;
    assert(hs.skip(0) =~= hs);
    while i < headers.len()
        invariant
            i <= headers@.len(),
            hs == lines_view(headers@),
            content_length(hs) == content_length(hs.skip(i as int)),
        decreases headers@.len() - i,
    {
        assert(hs.skip(i as int).drop_first() =~= hs.skip(i + 1));
        let h = headers[i].as_slice();
        if starts_with(h, "Content-Length:".as_bytes()) {
            return match token_at(h, 1) {
                Some(t) => match parse_usize(t.as_slice()) {
                    Some(v) => v,
                    None => 0,
                },
                None => 0,
            };
        }
        i = i + 1;
    }
    0
}

impl Head {
    /// The number of body bytes that follow this head.
    pub fn body_length(&self) -> (r: usize)
        ensures
            r as nat == content_length(lines_view(self.headers@)),
    {
        find_content_length(&self.headers)
    }

    /// The complete request, where `body` holds exactly the declared number of
    /// bytes; fewer mean that the stream ended early.
    pub fn with_body(self, body: Vec<u8>) -> (r: Result<Request, DecodeError>)
        ensures
            r is Ok <==> body@.len() == content_length(lines_view(self.headers@)),
            r is Err ==> r == Err::<Request, DecodeError>(DecodeError::MalformedRequest),
            r matches Ok(q) ==> q.request_line@ == self.request_line@ && q.headers@ == self.headers@
                && q.body@ == body@,
    {
        if body.len() != self.body_length() {
            return Err(DecodeError::MalformedRequest);
        }
        Ok(Request { request_line: self.request_line, headers: self.headers, body })
    }
}

} // verus!
