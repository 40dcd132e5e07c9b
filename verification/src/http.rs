//! How a query goes over the wire: the head of the POST request, and what
//! of the answer is its body.
//!
//! The request asks in HTTP/1.0, so that the body of the answer is all
//! that follows its head, up to the end of the connection.

use crate::response::HttpOutcome;
use crate::scan::{find_seq, lemma_find_seq, scan_seq};
use crate::soap::HttpRequest;
use crate::text::{
    append_decimal, append_str, chars_of, decimal_of, has_at, holds_at, string_of,
    string_of_range,
};
use vstd::prelude::*;
use vstd::utf8::encode_utf8;

verus! {

/// How the request line starts.
pub const REQUEST_LINE_HEAD: &'static str = "POST /";

/// How the request line ends, and the name of the host header.
pub const REQUEST_LINE_TAIL: &'static str = " HTTP/1.0\r\nHost: ";

/// The name of the content type header.
pub const CONTENT_TYPE_HEADER: &'static str = "\r\nContent-Type: ";

/// The name of the content length header.
pub const CONTENT_LENGTH_HEADER: &'static str = "\r\nContent-Length: ";

/// The header that asks the server to close the connection, and the end of
/// the head.
pub const CLOSE_AND_END: &'static str = "\r\nConnection: close\r\n\r\n";

/// The header that lets the server keep the connection, and the end of the
/// head.
pub const KEEP_AND_END: &'static str = "\r\nConnection: keep-alive\r\n\r\n";

/// How every answer starts.
pub const STATUS_LINE_HEAD: &'static str = "HTTP/";

/// The length of a text in bytes, as UTF-8 writes it.
pub open spec fn byte_length(text: Seq<char>) -> usize {
    encode_utf8(text).len() as usize
}

/// The empty line that ends the head of a message.
pub open spec fn blank_line() -> Seq<char> {
    seq!['\r', '\n', '\r', '\n']
}

/// The head of the request: the request line, the host, the content type,
/// the length of the body in bytes, and the wish to close the connection.
pub open spec fn head_of(
    path: Seq<char>,
    host: Seq<char>,
    port: u16,
    content_type: Seq<char>,
    length: nat,
    close: bool,
) -> Seq<char> {
    REQUEST_LINE_HEAD@ + path + REQUEST_LINE_TAIL@ + host + ":"@ + decimal_of(port as nat)
        + CONTENT_TYPE_HEADER@ + content_type + CONTENT_LENGTH_HEADER@ + decimal_of(length) + (if close {
        CLOSE_AND_END@
    } else {
        KEEP_AND_END@
    })
}

/// Writes the head of a request. The body follows it as it stands.
pub fn request_head(request: &HttpRequest) -> (r: String)
    ensures
        r@ == head_of(
            request.path@,
            request.host@,
            request.port,
            request.content_type@,
            byte_length(request.body@) as nat,
            request.connection_close,
        ),
{
    let length: usize = request.body.as_str().len();
    let mut out: Vec<char> = Vec::new();
    append_str(&mut out, REQUEST_LINE_HEAD);
    append_str(&mut out, request.path.as_str());
    append_str(&mut out, REQUEST_LINE_TAIL);
    append_str(&mut out, request.host.as_str());
    append_str(&mut out, ":");
    append_decimal(&mut out, request.port as u64);
    append_str(&mut out, CONTENT_TYPE_HEADER);
    append_str(&mut out, request.content_type.as_str());
    append_str(&mut out, CONTENT_LENGTH_HEADER);
    append_decimal(&mut out, length as u64);
    if request.connection_close {
        append_str(&mut out, CLOSE_AND_END);
    } else {
        append_str(&mut out, KEEP_AND_END);
    }
    assert(out@ =~= head_of(
        request.path@,
        request.host@,
        request.port,
        request.content_type@,
        byte_length(request.body@) as nat,
        request.connection_close,
    ));
    string_of(&out)
}

/// The body of an answer: what follows the first empty line of a text that
/// starts as an answer does. There is none where the text starts otherwise
/// or holds no empty line.
pub open spec fn body_of(answer: Seq<char>) -> Option<Seq<char>> {
    let at = find_seq(answer, 0, blank_line());
    if !holds_at(answer, 0, STATUS_LINE_HEAD@) || at >= answer.len() {
        None
    } else {
        Some(answer.subrange(at + 4, answer.len() as int))
    }
}

/// Takes the body out of an answer.
pub fn response_body(answer: &str) -> (r: Option<String>)
    ensures
        match r {
            Some(body) => body_of(answer@) == Some(body@),
            None => body_of(answer@) is None,
        },
{
    let s = chars_of(answer);
    let start = chars_of(STATUS_LINE_HEAD);
    if !has_at(&s, 0, &start) {
        return None;
    }
    let blank: Vec<char> = vec!['\r', '\n', '\r', '\n'];
    assert(blank@ =~= blank_line());
    let at = scan_seq(&s, 0, &blank);
    if at >= s.len() {
        return None;
    }
    proof {
        lemma_find_seq(s@, 0, blank@);
    }
    Some(string_of_range(&s, at + 4, s.len()))
}

/// The outcome of a request that was answered with `answer`.
pub fn answered(answer: &str) -> (r: HttpOutcome)
    ensures
        match r {
            HttpOutcome::Body(body) => body_of(answer@) == Some(body@),
            HttpOutcome::Failed => body_of(answer@) is None,
            HttpOutcome::TimedOut => false,
        },
{
    match response_body(answer) {
        Some(body) => HttpOutcome::Body(body),
        None => HttpOutcome::Failed,
    }
}

} // verus!
