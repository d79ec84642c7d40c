//! Responses and their encoding as HTTP/1.1 bytes.
use vstd::prelude::*;
use vstd::string::StringSliceAdditionalSpecFns;
use crate::bytes::{append, decimal, push_decimal};

verus! {

/// The media type named in a `Content-Type` header.
#[derive(Clone, Copy, Debug, PartialEq, Eq, Structural)]
pub enum ContentType {
    TextPlain,
    ApplicationOctetStream,
}

/// A response: its status, and what goes with it.
#[derive(Clone, Debug)]
pub enum StatusLine {
    /// `200 OK`, with an optional body and an optional content type.
    Success(Option<Vec<u8>>, Option<ContentType>),
    /// `201 Created`, with a content type and never a body.
    Created(ContentType),
    /// `404 Not Found`, with neither headers nor body.
    NotFound,
}

/// The name of a media type as it stands in the header.
pub open spec fn content_type_name(c: ContentType) -> Seq<u8> {
    match c {
        ContentType::TextPlain => "text/plain".spec_bytes(),
        ContentType::ApplicationOctetStream => "application/octet-stream".spec_bytes(),
    }
}

/// The `Content-Type` header line.
pub open spec fn content_type_line(c: ContentType) -> Seq<u8> {
    "Content-Type: ".spec_bytes() + content_type_name(c) + "\r\n".spec_bytes()
}

/// The `Content-Length` header line for a body of `n` bytes.
pub open spec fn content_length_line(n: nat) -> Seq<u8> {
    "Content-Length: ".spec_bytes() + decimal(n) + "\r\n".spec_bytes()
}

/// What follows the status line of a `200 OK`: the headers that apply, the
/// blank line, and the body.
pub open spec fn ok_tail(body: Option<Seq<u8>>, c: Option<ContentType>) -> Seq<u8> {
    let type_line = match c {
        Some(t) => content_type_line(t),
        None => seq![],
    };
    match body {
        Some(b) => type_line + content_length_line(b.len()) + "\r\n".spec_bytes() + b,
        None => type_line + "\r\n".spec_bytes(),
    }
}

/// The bytes of a `200 OK` response.
pub open spec fn ok_message(body: Option<Seq<u8>>, c: Option<ContentType>) -> Seq<u8> {
    "HTTP/1.1 200 OK\r\n".spec_bytes() + ok_tail(body, c)
}

/// The bytes of a `201 Created` response.
pub open spec fn created_message(c: ContentType) -> Seq<u8> {
    "HTTP/1.1 201 Created\r\n".spec_bytes() + content_type_line(c) + "\r\n".spec_bytes()
}

/// The bytes of a `404 Not Found` response.
pub open spec fn not_found_message() -> Seq<u8> {
    "HTTP/1.1 404 Not Found\r\n\r\n".spec_bytes()
}

impl StatusLine {
    /// The body carried by the response, if any.
    pub open spec fn body_view(&self) -> Option<Seq<u8>> {
        match self {
            StatusLine::Success(Some(b), _) => Some(b@),
            _ => None,
        }
    }

    /// The exact bytes that go on the wire for this response.
    pub open spec fn message(&self) -> Seq<u8> {
        match self {
            StatusLine::Success(_, c) => ok_message(self.body_view(), *c),
            StatusLine::Created(c) => created_message(*c),
            StatusLine::NotFound => not_found_message(),
        }
    }

    /// Encodes the response as HTTP/1.1 bytes. `Content-Length` counts the
    /// bytes of the body, and stands only where there is a body.
    pub fn get_message(&self) -> (r: Vec<u8>)
        ensures
            r@ == self.message(),
    {
        let mut out: Vec<u8> = Vec::new();
        match self {
            StatusLine::Success(body, c) => {
                append(&mut out, "HTTP/1.1 200 OK\r\n".as_bytes());
                if let Some(t) = c {
                    push_content_type(&mut out, *t);
                }
                match body {
                    Some(b) => {
                        append(&mut out, "Content-Length: ".as_bytes());
                        push_decimal(&mut out, b.len());
                        append(&mut out, "\r\n".as_bytes());
                        append(&mut out, "\r\n".as_bytes());
                        append(&mut out, b.as_slice());
                    },
                    None => {
                        append(&mut out, "\r\n".as_bytes());
                    },
                }
            },
            StatusLine::Created(c) => {
                append(&mut out, "HTTP/1.1 201 Created\r\n".as_bytes());
                push_content_type(&mut out, *c);
                append(&mut out, "\r\n".as_bytes());
            },
            StatusLine::NotFound => {
                append(&mut out, "HTTP/1.1 404 Not Found\r\n\r\n".as_bytes());
            },
        }
        assert(out@ =~= self.message());
        out
    }
}

/// Appends the `Content-Type` header line for `c`.
fn push_content_type(out: &mut Vec<u8>, c: ContentType)
    ensures
        final(out)@ == old(out)@ + content_type_line(c),
{
    append(out, "Content-Type: ".as_bytes());
    match c {
        ContentType::TextPlain => append(out, "text/plain".as_bytes()),
        ContentType::ApplicationOctetStream => append(out, "application/octet-stream".as_bytes()),
    }
    append(out, "\r\n".as_bytes());
    assert(final(out)@ =~= old(out)@ + content_type_line(c));
}

} // verus!
