//! Laws of the router and the codec, stated over the wire bytes of replies.
use vstd::prelude::*;
use vstd::string::StringSliceAdditionalSpecFns;
use crate::bytes::{decimal, has_prefix, nth_token, occurs_in};
use crate::response::{ok_message, ContentType};
use crate::router::{read_reply, route, Outcome};

verus! {

/// The bytes of an ASCII literal are its characters, one byte each.
proof fn lemma_literal_bytes(s: &str)
    requires
        vstd::string::is_ascii(s),
    ensures
        s.spec_bytes() =~= Seq::new(s@.len(), |i: int| s@[i] as u8),
{
    vstd::string::is_ascii_spec_bytes(s);
}

/// Every request for `/` gets exactly `HTTP/1.1 200 OK` and a blank line.
pub proof fn lemma_root_reply(line: Seq<u8>, headers: Seq<Seq<u8>>, body: Seq<u8>)
    requires
        nth_token(line, 1) == Some("/".spec_bytes()),
    ensures
        route(line, headers, body) == Outcome::Reply("HTTP/1.1 200 OK\r\n\r\n".spec_bytes()),
{
    reveal_strlit("HTTP/1.1 200 OK\r\n");
    lemma_literal_bytes("HTTP/1.1 200 OK\r\n");
    reveal_strlit("\r\n");
    lemma_literal_bytes("\r\n");
    reveal_strlit("HTTP/1.1 200 OK\r\n\r\n");
    lemma_literal_bytes("HTTP/1.1 200 OK\r\n");
    lemma_literal_bytes("\r\n");
    lemma_literal_bytes("HTTP/1.1 200 OK\r\n\r\n");
    assert("HTTP/1.1 200 OK\r\n".spec_bytes() + "\r\n".spec_bytes()
        =~= "HTTP/1.1 200 OK\r\n\r\n".spec_bytes());
}

/// A request for `/echo/` followed by `s` gets `s` back as a plain-text body,
/// with a `Content-Length` of its byte length.
pub proof fn lemma_echo_reply(line: Seq<u8>, headers: Seq<Seq<u8>>, body: Seq<u8>, s: Seq<u8>)
    requires
        nth_token(line, 1) == Some("/echo/".spec_bytes() + s),
    ensures
        route(line, headers, body) == Outcome::Reply(
            "HTTP/1.1 200 OK\r\nContent-Type: text/plain\r\nContent-Length: ".spec_bytes()
                + decimal(s.len()) + "\r\n\r\n".spec_bytes() + s,
        ),
{
    reveal_strlit("/echo/");
    reveal_strlit("/");
    lemma_literal_bytes("/echo/");
    lemma_literal_bytes("/");
    let p = "/echo/".spec_bytes() + s;
    assert(p.len() != "/".spec_bytes().len());
    assert(p.subrange(0, "/echo/".spec_bytes().len() as int) =~= "/echo/".spec_bytes());
    assert(p.skip("/echo/".spec_bytes().len() as int) =~= s);
    reveal_strlit("HTTP/1.1 200 OK\r\n");
    lemma_literal_bytes("HTTP/1.1 200 OK\r\n");
    reveal_strlit("Content-Type: ");
    lemma_literal_bytes("Content-Type: ");
    reveal_strlit("text/plain");
    lemma_literal_bytes("text/plain");
    reveal_strlit("\r\n");
    lemma_literal_bytes("\r\n");
    reveal_strlit("Content-Length: ");
    lemma_literal_bytes("Content-Length: ");
    reveal_strlit("HTTP/1.1 200 OK\r\nContent-Type: text/plain\r\nContent-Length: ");
    lemma_literal_bytes("HTTP/1.1 200 OK\r\nContent-Type: text/plain\r\nContent-Length: ");
    reveal_strlit("\r\n\r\n");
    lemma_literal_bytes("\r\n\r\n");
    assert(route(line, headers, body) == Outcome::Reply(
        ok_message(Some(s), Some(ContentType::TextPlain)),
    ));
    assert(ok_message(Some(s), Some(ContentType::TextPlain))
        =~= "HTTP/1.1 200 OK\r\nContent-Type: text/plain\r\nContent-Length: ".spec_bytes()
        + decimal(s.len()) + "\r\n\r\n".spec_bytes() + s);
}

/// The target `/files/` followed by `name` is no `/`, and does not start with `/echo/`.
proof fn lemma_files_target(name: Seq<u8>)
    ensures
        "/files/".spec_bytes() + name != "/".spec_bytes(),
        !has_prefix("/files/".spec_bytes() + name, "/echo/".spec_bytes()),
        has_prefix("/files/".spec_bytes() + name, "/files/".spec_bytes()),
        ("/files/".spec_bytes() + name).skip("/files/".spec_bytes().len() as int) == name,
{
    reveal_strlit("/files/");
    reveal_strlit("/echo/");
    reveal_strlit("/");
    lemma_literal_bytes("/files/");
    lemma_literal_bytes("/echo/");
    lemma_literal_bytes("/");
    let p = "/files/".spec_bytes() + name;
    assert(p.len() != "/".spec_bytes().len());
    assert(p.subrange(0, 6)[1] != "/echo/".spec_bytes()[1]);
    assert(p.subrange(0, 7) =~= "/files/".spec_bytes());
    assert(p.skip(7) =~= name);
}

/// Writing `b` with a `POST` to `/files/` and a name, then a `GET` of the same
/// target, reads back the file that was written, and a file that holds `b`
/// is served as status 200 with body exactly `b`.
pub proof fn lemma_file_round_trip(
    post_line: Seq<u8>,
    post_headers: Seq<Seq<u8>>,
    get_line: Seq<u8>,
    get_headers: Seq<Seq<u8>>,
    get_body: Seq<u8>,
    name: Seq<u8>,
    b: Seq<u8>,
)
    requires
        nth_token(post_line, 0) == Some("POST".spec_bytes()),
        nth_token(post_line, 1) == Some("/files/".spec_bytes() + name),
        nth_token(get_line, 0) == Some("GET".spec_bytes()),
        nth_token(get_line, 1) == Some("/files/".spec_bytes() + name),
    ensures
        route(post_line, post_headers, b) == Outcome::Write(name, b),
        route(get_line, get_headers, get_body) == Outcome::Read(name),
        read_reply(Some(b))
            == "HTTP/1.1 200 OK\r\nContent-Type: application/octet-stream\r\nContent-Length: ".spec_bytes()
            + decimal(b.len()) + "\r\n\r\n".spec_bytes() + b,
{
    lemma_files_target(name);
    reveal_strlit("GET");
    reveal_strlit("POST");
    lemma_literal_bytes("GET");
    lemma_literal_bytes("POST");
    assert("POST".spec_bytes() != "GET".spec_bytes());
    reveal_strlit("HTTP/1.1 200 OK\r\n");
    lemma_literal_bytes("HTTP/1.1 200 OK\r\n");
    reveal_strlit("Content-Type: ");
    lemma_literal_bytes("Content-Type: ");
    reveal_strlit("application/octet-stream");
    lemma_literal_bytes("application/octet-stream");
    reveal_strlit("\r\n");
    lemma_literal_bytes("\r\n");
    reveal_strlit("Content-Length: ");
    lemma_literal_bytes("Content-Length: ");
    reveal_strlit("\r\n\r\n");
    lemma_literal_bytes("\r\n\r\n");
    reveal_strlit("HTTP/1.1 200 OK\r\nContent-Type: application/octet-stream\r\nContent-Length: ");
    lemma_literal_bytes(
        "HTTP/1.1 200 OK\r\nContent-Type: application/octet-stream\r\nContent-Length: ",
    );
    assert(read_reply(Some(b))
        =~= "HTTP/1.1 200 OK\r\nContent-Type: application/octet-stream\r\nContent-Length: ".spec_bytes()
        + decimal(b.len()) + "\r\n\r\n".spec_bytes() + b);
}

/// A `GET` of a file under `/files/` that cannot be read is answered with
/// `404 Not Found` and nothing else.
pub proof fn lemma_missing_file(line: Seq<u8>, headers: Seq<Seq<u8>>, body: Seq<u8>, name: Seq<u8>)
    requires
        nth_token(line, 0) == Some("GET".spec_bytes()),
        nth_token(line, 1) == Some("/files/".spec_bytes() + name),
    ensures
        route(line, headers, body) == Outcome::Read(name),
        read_reply(None) == "HTTP/1.1 404 Not Found\r\n\r\n".spec_bytes(),
{
    lemma_files_target(name);
}

/// A target that no route claims is answered with exactly
/// `HTTP/1.1 404 Not Found` and a blank line, with no body.
pub proof fn lemma_unrecognized_not_found(line: Seq<u8>, headers: Seq<Seq<u8>>, body: Seq<u8>, path: Seq<u8>)
    requires
        nth_token(line, 1) == Some(path),
        path != "/".spec_bytes(),
        !has_prefix(path, "/echo/".spec_bytes()),
        !has_prefix(path, "/files/".spec_bytes()),
        !occurs_in(path, "/user-agent".spec_bytes()),
    ensures
        route(line, headers, body) == Outcome::Reply("HTTP/1.1 404 Not Found\r\n\r\n".spec_bytes()),
{
}

} // verus!
