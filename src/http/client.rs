//! What the client writes: the wire form of a request.
use crate::http::codec::{
    bounded_decimal, content_length_of, decimal_digits, lemma_decimal_round_trip, lossy_headers,
    push_bytes, push_decimal, text_of, Progress, MAX_HEADERS,
};
use crate::http::request::{request_head_of, request_progress, RequestView};
use vstd::prelude::*;
use vstd::utf8::{encode_utf8, encode_utf8_decode_utf8, encode_utf8_valid_utf8};

verus! {

/// The wire form of a request: request line, `Content-Length`, a blank line
/// and the body.
pub open spec fn request_wire(method: Seq<char>, endpoint: Seq<char>, body: Seq<char>) -> Seq<u8> {
    encode_utf8(method) + encode_utf8(" "@) + encode_utf8(endpoint) + encode_utf8(
        " HTTP/1.1\r\nContent-Length: "@,
    ) + decimal_digits(encode_utf8(body).len()) + encode_utf8("\r\n\r\n"@) + encode_utf8(body)
}

/// Writes a request in its wire form.
pub fn serialize_request(method: &str, endpoint: &str, body: &str) -> (r: Vec<u8>)
    ensures
        r@ == request_wire(method@, endpoint@, body@),
{
    let body_bytes = body.as_bytes();
    let mut out: Vec<u8> = Vec::new();
    push_bytes(&mut out, method.as_bytes());
    push_bytes(&mut out, " ".as_bytes());
    push_bytes(&mut out, endpoint.as_bytes());
    push_bytes(&mut out, " HTTP/1.1\r\nContent-Length: ".as_bytes());
    push_decimal(&mut out, body_bytes.len() as u64);
    push_bytes(&mut out, "\r\n\r\n".as_bytes());
    push_bytes(&mut out, body_bytes);
    assert(out@ =~= request_wire(method@, endpoint@, body@));
    out
}

/// The head of a request's wire form: all of it but the body.
pub open spec fn request_wire_head(method: Seq<char>, endpoint: Seq<char>, body_len: nat) -> Seq<
    u8,
> {
    encode_utf8(method) + encode_utf8(" "@) + encode_utf8(endpoint) + encode_utf8(
        " HTTP/1.1\r\nContent-Length: "@,
    ) + decimal_digits(body_len) + encode_utf8("\r\n\r\n"@)
}

/// Where the grammar reads the wire form of a request, and whatever bytes
/// follow it, as a head as it was written (method, path and one
/// `Content-Length` header), parsing gives back the method, the path and the
/// body.
pub proof fn lemma_request_wire_round_trip(
    method: Seq<char>,
    endpoint: Seq<char>,
    body: Seq<char>,
    rest: Seq<u8>,
)
    requires
        encode_utf8(body).len() <= usize::MAX,
        request_head_of(request_wire(method, endpoint, body) + rest, MAX_HEADERS as nat) == Some(
            Some(
                (
                    request_wire_head(method, endpoint, encode_utf8(body).len()).len(),
                    Some(method),
                    Some(endpoint),
                    seq![("Content-Length"@, decimal_digits(encode_utf8(body).len()))],
                ),
            ),
        ),
    ensures
        request_progress(request_wire(method, endpoint, body) + rest) == Progress::Parsed(
            RequestView {
                method,
                path: endpoint,
                headers: lossy_headers(
                    seq![("Content-Length"@, decimal_digits(encode_utf8(body).len()))],
                ),
                body,
            },
        ),
{
    let len = encode_utf8(body).len();
    let h = request_wire_head(method, endpoint, len);
    let bb = encode_utf8(body);
    let s = request_wire(method, endpoint, body) + rest;
    assert(s =~= h + (bb + rest));
    let n = h.len() as int;
    lemma_decimal_round_trip(len);
    assert(h.len() > 0);
    let hs = seq![("Content-Length"@, decimal_digits(len))];
    assert(bounded_decimal(hs[0].1, usize::MAX as nat) == Some(len));
    assert(content_length_of(hs) == len);
    assert(s.subrange(n, n + len) =~= bb);
    encode_utf8_valid_utf8(body);
    encode_utf8_decode_utf8(body);
    assert(text_of(bb) == body);
}

} // verus!
