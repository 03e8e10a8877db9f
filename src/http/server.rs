//! What the server writes back: status lines and the wire form of responses.
use crate::errors::{error_status, Error, Result};
use crate::http::codec::{
    bounded_decimal, content_length_of, decimal_digits, lemma_decimal_round_trip, lossy_headers,
    push_bytes, push_decimal, text_headers_view, text_of, Progress, MAX_HEADERS,
};
use crate::http::response::{response_head_of, response_progress, Response, ResponseView};
use vstd::prelude::*;
use vstd::utf8::{encode_utf8, encode_utf8_decode_utf8, encode_utf8_valid_utf8};

verus! {

/// The reason phrase of each status code that the server sends.
pub open spec fn reason_phrase(code: u16) -> Option<Seq<char>> {
    if code == 400 {
        Some("Bad Request"@)
    } else if code == 404 {
        Some("Not Found"@)
    } else if code == 200 {
        Some("OK"@)
    } else if code == 204 {
        Some("No Content"@)
    } else if code == 500 {
        Some("Internal Server Error"@)
    } else {
        None
    }
}

/// The reason phrase of an HTTP status code; only the codes that the server
/// sends have one.
pub fn code_to_string(code: u16) -> (r: &'static str)
    requires
        reason_phrase(code) is Some,
    ensures
        r@ == reason_phrase(code)->0,
{
    match code {
        400 => "Bad Request",
        404 => "Not Found",
        200 => "OK",
        204 => "No Content",
        _ => "Internal Server Error",
    }
}

/// The header lines `Name:Value` CR LF, in order.
pub open spec fn header_lines(hs: Seq<(Seq<char>, Seq<char>)>) -> Seq<u8>
    decreases hs.len(),
{
    if hs.len() == 0 {
        Seq::empty()
    } else {
        header_lines(hs.drop_last()) + encode_utf8(hs.last().0) + encode_utf8(":"@) + encode_utf8(
            hs.last().1,
        ) + encode_utf8("\r\n"@)
    }
}

/// The status written for a response: its own, or 500 where it has none.
pub open spec fn sent_status(status: Option<u16>) -> u16 {
    match status {
        Some(c) => c,
        None => 500,
    }
}

/// The wire form of a response: status line, the computed `Content-Length`,
/// the response's own headers but any named `Content-Length`, a blank line and
/// the body.
pub open spec fn response_wire(
    code: u16,
    headers: Seq<(Seq<char>, Seq<char>)>,
    body: Seq<char>,
) -> Seq<u8> {
    encode_utf8("HTTP/1.1 "@) + decimal_digits(code as nat) + encode_utf8(" "@) + encode_utf8(
        reason_phrase(code)->0,
    ) + encode_utf8("\r\nContent-Length: "@) + decimal_digits(encode_utf8(body).len())
        + encode_utf8("\r\n"@) + header_lines(kept_headers(headers)) + encode_utf8("\r\n"@)
        + encode_utf8(body)
}

/// Writes a response in its wire form. A response without a status is sent
/// as a 500; a `Content-Length` among its headers is left out, the length
/// written being that of the body.
pub fn serialize_response(resp: &Response) -> (r: Vec<u8>)
    requires
        reason_phrase(sent_status(resp.status)) is Some,
    ensures
        r@ == response_wire(sent_status(resp.status), resp@.headers, resp@.body),
{
    let code: u16 = match resp.status {
        Some(c) => c,
        None => 500,
    };
    let body = resp.body.as_str().as_bytes();
    let mut out: Vec<u8> = Vec::new();
    push_bytes(&mut out, "HTTP/1.1 ".as_bytes());
    push_decimal(&mut out, code as u64);
    push_bytes(&mut out, " ".as_bytes());
    push_bytes(&mut out, code_to_string(code).as_bytes());
    push_bytes(&mut out, "\r\nContent-Length: ".as_bytes());
    push_decimal(&mut out, body.len() as u64);
    push_bytes(&mut out, "\r\n".as_bytes());
    let ghost before_headers = out@;
    let computed = String::from_str("Content-Length");
    let mut i: usize = 0;
    while i < resp.headers.len()
        invariant
            i <= resp.headers@.len(),
            computed@ == "Content-Length"@,
            out@ == before_headers + header_lines(
                kept_headers(text_headers_view(resp.headers@).subrange(0, i as int)),
            ),
        decreases resp.headers.len() - i,
    {
        let ghost prev = out@;
        let ghost hs = text_headers_view(resp.headers@);
        let ghost next = hs.subrange(0, i + 1);
        assert(next.drop_last() =~= hs.subrange(0, i as int));
        if resp.headers[i].0 != computed {
            push_bytes(&mut out, resp.headers[i].0.as_str().as_bytes());
            push_bytes(&mut out, ":".as_bytes());
            push_bytes(&mut out, resp.headers[i].1.as_str().as_bytes());
            push_bytes(&mut out, "\r\n".as_bytes());
            proof {
                let k = kept_headers(next);
                assert(k.drop_last() =~= kept_headers(hs.subrange(0, i as int)));
                assert(out@ =~= prev + encode_utf8(k.last().0) + encode_utf8(":"@) + encode_utf8(
                    k.last().1,
                ) + encode_utf8("\r\n"@));
            }
        }
        i = i + 1;
    }
    assert(text_headers_view(resp.headers@).subrange(0, i as int) =~= text_headers_view(
        resp.headers@,
    ));
    push_bytes(&mut out, "\r\n".as_bytes());
    push_bytes(&mut out, body);
    assert(out@ =~= response_wire(code, resp@.headers, resp@.body));
    out
}

/// The response sent where a request could not be read: 400, no body.
pub fn bad_request() -> (r: Response)
    ensures
        r.status == Some(400u16),
        r.headers@.len() == 0,
        r.body@ == Seq::<char>::empty(),
{
    Response::error(400)
}

/// The response sent for the outcome of handling a request: the handler's own
/// response, or for an error a response with its status code and no body, so
/// that nothing about the server leaks.
pub fn response_for(outcome: Result<Response>) -> (r: Response)
    ensures
        match outcome {
            Ok(resp) => r == resp,
            Err(e) => r.status == Some(error_status(e)) && r.headers@.len() == 0 && r.body@
                == Seq::<char>::empty(),
        },
{
    match outcome {
        Ok(resp) => resp,
        Err(e) => Response::error(e.status_code()),
    }
}

/// The headers of a response that are written: all but those named
/// `Content-Length`, which is always computed from the body.
pub open spec fn kept_headers(hs: Seq<(Seq<char>, Seq<char>)>) -> Seq<(Seq<char>, Seq<char>)>
    decreases hs.len(),
{
    if hs.len() == 0 {
        hs
    } else if hs.last().0 == "Content-Length"@ {
        kept_headers(hs.drop_last())
    } else {
        kept_headers(hs.drop_last()).push(hs.last())
    }
}

/// The headers as the grammar would read them back: names as written, values
/// as their bytes.
pub open spec fn raw_of(hs: Seq<(Seq<char>, Seq<char>)>) -> Seq<(Seq<char>, Seq<u8>)> {
    hs.map_values(|h: (Seq<char>, Seq<char>)| (h.0, encode_utf8(h.1)))
}

/// The head of a response's wire form: all of it but the body.
pub open spec fn response_wire_head(code: u16, headers: Seq<(Seq<char>, Seq<char>)>, body_len: nat) -> Seq<u8> {
    encode_utf8("HTTP/1.1 "@) + decimal_digits(code as nat) + encode_utf8(" "@) + encode_utf8(
        reason_phrase(code)->0,
    ) + encode_utf8("\r\nContent-Length: "@) + decimal_digits(body_len) + encode_utf8("\r\n"@)
        + header_lines(kept_headers(headers)) + encode_utf8("\r\n"@)
}

/// Where the grammar reads the wire form of a response, and whatever bytes
/// follow it, as a head as it was written (status code, the computed
/// `Content-Length`, then the response's own headers), parsing gives back
/// the status and the body.
pub proof fn lemma_response_wire_round_trip(
    code: u16,
    headers: Seq<(Seq<char>, Seq<char>)>,
    body: Seq<char>,
    rest: Seq<u8>,
)
    requires
        reason_phrase(code) is Some,
        encode_utf8(body).len() <= usize::MAX,
        response_head_of(response_wire(code, headers, body) + rest, MAX_HEADERS as nat) == Some(
            Some(
                (
                    response_wire_head(code, headers, encode_utf8(body).len()).len(),
                    Some(code),
                    seq![("Content-Length"@, decimal_digits(encode_utf8(body).len()))] + raw_of(
                        kept_headers(headers),
                    ),
                ),
            ),
        ),
    ensures
        response_progress(response_wire(code, headers, body) + rest) == Progress::Parsed(
            ResponseView {
                status: Some(code),
                headers: lossy_headers(
                    seq![("Content-Length"@, decimal_digits(encode_utf8(body).len()))] + raw_of(
                        kept_headers(headers),
                    ),
                ),
                body,
            },
        ),
{
    let len = encode_utf8(body).len();
    let h = response_wire_head(code, headers, len);
    let bb = encode_utf8(body);
    let s = response_wire(code, headers, body) + rest;
    assert(s =~= h + (bb + rest));
    let n = h.len() as int;
    lemma_decimal_round_trip(code as nat);
    assert(h.len() > 0);
    let hs = seq![("Content-Length"@, decimal_digits(len))] + raw_of(kept_headers(headers));
    lemma_decimal_round_trip(len);
    assert(hs[0] == ("Content-Length"@, decimal_digits(len)));
    assert(bounded_decimal(hs[0].1, usize::MAX as nat) == Some(len));
    assert(content_length_of(hs) == len);
    assert(s.subrange(n, n + len) =~= bb);
    encode_utf8_valid_utf8(body);
    encode_utf8_decode_utf8(body);
    assert(text_of(bb) == body);
}

} // verus!
