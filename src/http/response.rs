//! HTTP responses and the parser that reads them from a byte stream.
use crate::errors::{Error, Result};
use crate::http::codec::{
    body_text, content_length, content_length_of, lossy_headers, raw_headers_view, text_headers,
    text_headers_view, text_of, HeadParse, Progress, RawHeader, MAX_HEADERS,
};
use crate::http::request::READ_CHUNK;
use vstd::prelude::*;

verus! {

/// An HTTP response.
#[derive(Debug)]
pub struct Response {
    /// Status code of the response; always set on the responses the server builds
    pub status: Option<u16>,
    /// Headers of the response. `Content-Length` is not among them: it is
    /// computed when the response is written.
    pub headers: Vec<(String, String)>,
    /// Body of the response; empty for no body
    pub body: String,
}

/// What a response holds.
pub struct ResponseView {
    pub status: Option<u16>,
    pub headers: Seq<(Seq<char>, Seq<char>)>,
    pub body: Seq<char>,
}

impl View for Response {
    type V = ResponseView;

    open spec fn view(&self) -> ResponseView {
        ResponseView {
            status: self.status,
            headers: text_headers_view(self.headers@),
            body: self.body@,
        }
    }
}

impl Response {
    /// An empty OK response (204).
    pub fn ok() -> (r: Response)
        ensures
            r.status == Some(204u16),
            r.headers@.len() == 0,
            r.body@ == Seq::<char>::empty(),
    {
        Response { status: Some(204), headers: Vec::new(), body: String::new() }
    }

    /// An OK (200) response with the given body.
    pub fn ok_with_body(str: String) -> (r: Response)
        ensures
            r.status == Some(200u16),
            r.headers@.len() == 0,
            r.body == str,
    {
        Response { status: Some(200), headers: Vec::new(), body: str }
    }

    /// An error response with the given code, in the 4xx or 5xx range, and no
    /// body, so that nothing about the server leaks.
    pub fn error(code: u16) -> (r: Response)
        requires
            400 <= code < 600,
        ensures
            r.status == Some(code),
            r.headers@.len() == 0,
            r.body@ == Seq::<char>::empty(),
    {
        Response { status: Some(code), headers: Vec::new(), body: String::new() }
    }

    /// An Internal Server Error (500) response.
    pub fn internal_server_error() -> (r: Response)
        ensures
            r.status == Some(500u16),
            r.headers@.len() == 0,
            r.body@ == Seq::<char>::empty(),
    {
        Self::error(500)
    }
}

/// A response head as the grammar reads it.
pub struct ResponseHead {
    /// Length of the head in bytes
    pub len: usize,
    pub code: Option<u16>,
    pub headers: Vec<RawHeader>,
}

/// The shape in which a head reading is named: `None` for bytes outside the
/// grammar, `Some(None)` where more bytes are needed, and else the head's
/// length, status code and headers.
pub open spec fn response_head_view(p: HeadParse<ResponseHead>) -> Option<
    Option<(nat, Option<u16>, Seq<(Seq<char>, Seq<u8>)>)>,
> {
    match p {
        HeadParse::Invalid => None,
        HeadParse::Partial => Some(None),
        HeadParse::Complete(h) => Some(Some((h.len as nat, h.code, raw_headers_view(h.headers@)))),
    }
}

/// How the HTTP/1.1 response grammar reads the bytes `buf`, with room for
/// `max_headers` headers.
pub uninterp spec fn response_head_of(buf: Seq<u8>, max_headers: nat) -> Option<
    Option<(nat, Option<u16>, Seq<(Seq<char>, Seq<u8>)>)>,
>;

/// Relies on httparse::Response::parse to read a status line and its headers.
/// The parser reads from the start and stops at the blank line that ends the
/// head or at the first byte outside the grammar, so a head that is complete,
/// or bytes that are not a head, read the same whatever follows.
#[verifier::external_body]
fn parse_response_head(buf: &[u8], max_headers: usize) -> (r: HeadParse<ResponseHead>)
    ensures
        response_head_view(r) == response_head_of(buf@, max_headers as nat),
        r matches HeadParse::Complete(h) ==> h.len <= buf@.len(),
        !(r is Partial) ==> forall|t: Seq<u8>|
            #[trigger] response_head_of(buf@ + t, max_headers as nat) == response_head_of(
                buf@,
                max_headers as nat,
            ),
{
    let mut headers = vec![httparse::EMPTY_HEADER; max_headers];
    let mut resp = httparse::Response::new(&mut headers);
    match resp.parse(buf) {
        Ok(httparse::Status::Complete(len)) => HeadParse::Complete(ResponseHead {
            len,
            code: resp.code,
            headers: resp.headers.iter().map(|h| (h.name.to_string(), h.value.to_vec())).collect(),
        }),
        Ok(httparse::Status::Partial) => HeadParse::Partial,
        Err(_) => HeadParse::Invalid,
    }
}

/// What the bytes `s` hold, given that the grammar reads them as `head`: a
/// complete head is followed by a body as long as its `Content-Length` says.
pub open spec fn response_frame(s: Seq<u8>, head: Option<Option<(nat, Option<u16>, Seq<(Seq<char>, Seq<u8>)>)>>) -> Progress<ResponseView> {
    match head {
        Some(Some((n, code, hs))) => if n <= s.len() {
            let cl = content_length_of(hs);
            if s.len() < n + cl {
                Progress::Pending
            } else {
                Progress::Parsed(
                    ResponseView {
                        status: code,
                        headers: lossy_headers(hs),
                        body: text_of(s.subrange(n as int, (n + cl) as int)),
                    },
                )
            }
        } else {
            Progress::Malformed
        },
        Some(None) => Progress::Pending,
        None => Progress::Malformed,
    }
}

/// What the bytes `s` received so far hold: nothing yet where there are none;
/// else the grammar reads the head from all of them, and the body follows the
/// head's length.
pub open spec fn response_progress(s: Seq<u8>) -> Progress<ResponseView> {
    if s.len() == 0 {
        Progress::Pending
    } else {
        response_frame(s, response_head_of(s, MAX_HEADERS as nat))
    }
}

/// The response that a whole byte stream yields: where the stream ends before
/// the response is complete, the connection was reset.
pub open spec fn response_outcome(r: Result<Response>, s: Seq<u8>) -> bool {
    match response_progress(s) {
        Progress::Pending => r matches Err(Error::ConnectionReset),
        Progress::Malformed => r matches Err(Error::BadRequest(_)),
        Progress::Parsed(v) => r matches Ok(resp) && resp@ == v,
    }
}

/// Framing a message that is complete (or malformed) under a given head
/// reading gives the same whatever bytes follow.
proof fn lemma_response_frame_extends(s: Seq<u8>, t: Seq<u8>, head: Option<Option<(nat, Option<u16>, Seq<(Seq<char>, Seq<u8>)>)>>)
    requires
        !(response_frame(s, head) is Pending),
        head matches Some(Some((n, _, _))) ==> n <= s.len(),
    ensures
        response_frame(s + t, head) == response_frame(s, head),
{
    if let Some(Some((n, code, hs))) = head {
        let cl = content_length_of(hs);
        assert((s + t).subrange(n as int, (n + cl) as int) =~= s.subrange(n as int, (n + cl) as int));
    }
}

/// Reads a response from the bytes of a connection as they arrive.
pub struct ResponseReader {
    buf: Vec<u8>,
}

impl View for ResponseReader {
    type V = Seq<u8>;

    closed spec fn view(&self) -> Seq<u8> {
        self.buf@
    }
}

impl ResponseReader {
    /// A reader that has received nothing yet.
    pub fn new() -> (r: Self)
        ensures
            r@ == Seq::<u8>::empty(),
    {
        ResponseReader { buf: Vec::new() }
    }

    /// Takes the next chunk read from the connection; an empty chunk means that
    /// the peer closed it. Returns `None` while more bytes are needed. Once it
    /// returns a response or a malformed head, bytes that follow would change
    /// nothing.
    pub fn feed(&mut self, chunk: &[u8]) -> (r: Option<Result<Response>>)
        ensures
            final(self)@ == old(self)@ + chunk@,
            chunk@.len() == 0 ==> r matches Some(Err(Error::ConnectionReset)),
            chunk@.len() > 0 ==> match r {
                None => response_progress(final(self)@) is Pending,
                Some(res) => !(response_progress(final(self)@) is Pending) && response_outcome(
                    res,
                    final(self)@,
                ) && forall|t: Seq<u8>|
                    #[trigger] response_progress(final(self)@ + t) == response_progress(final(self)@),
            },
    {
        if chunk.len() == 0 {
            assert(self.buf@ + chunk@ =~= self.buf@);
            return Some(Err(Error::ConnectionReset));
        }
        let mut i: usize = 0;
        let ghost start = self.buf@;
        while i < chunk.len()
            invariant
                i <= chunk@.len(),
                self.buf@ =~= start + chunk@.subrange(0, i as int),
            decreases chunk.len() - i,
        {
            self.buf.push(chunk[i]);
            i = i + 1;
        }
        assert(chunk@.subrange(0, chunk@.len() as int) =~= chunk@);
        assert(self.buf@.len() > 0);
        self.progress()
    }

    /// What the bytes received so far hold.
    fn progress(&self) -> (r: Option<Result<Response>>)
        requires
            self@.len() > 0,
        ensures
            match r {
                None => response_progress(self@) is Pending,
                Some(res) => !(response_progress(self@) is Pending) && response_outcome(res, self@)
                    && forall|t: Seq<u8>|
                    #[trigger] response_progress(self@ + t) == response_progress(self@),
            },
    {
        let head = parse_response_head(self.buf.as_slice(), MAX_HEADERS);
        let ghost hv = response_head_view(head);
        proof {
            if !(response_progress(self@) is Pending) {
                assert forall|t: Seq<u8>| #[trigger]
                    response_progress(self@ + t) == response_progress(self@) by {
                    assert(response_head_of(self@ + t, MAX_HEADERS as nat) == hv);
                    assert((self@ + t).len() > 0);
                    lemma_response_frame_extends(self@, t, hv);
                }
            }
        }
        frame_response(self.buf.as_slice(), head)
    }
}

/// Builds the response that `buf` holds, given that the grammar read its head
/// as `head`. Returns `None` while the head or the body is incomplete.
pub fn frame_response(buf: &[u8], head: HeadParse<ResponseHead>) -> (r: Option<Result<Response>>)
    ensures
        match response_frame(buf@, response_head_view(head)) {
            Progress::Pending => r is None,
            Progress::Malformed => r matches Some(Err(Error::BadRequest(_))),
            Progress::Parsed(v) => r matches Some(Ok(resp)) && resp@ == v,
        },
{
    match head {
        HeadParse::Complete(h) => {
            if h.len > buf.len() {
                return Some(Err(Error::BadRequest(String::from_str("malformed response head"))));
            }
            let len = content_length(&h.headers);
            match body_text(buf, h.len, len) {
                None => None,
                Some(body) => {
                    let headers = text_headers(&h.headers);
                    Some(Ok(Response { status: h.code, headers, body }))
                },
            }
        },
        HeadParse::Partial => None,
        HeadParse::Invalid => Some(Err(Error::BadRequest(String::from_str("malformed response head")))),
    }
}

/// Reads one response from `data`, taking it `chunk` bytes at a time as a
/// connection would deliver it. The result does not depend on `chunk`.
pub fn read_response(data: &[u8], chunk: usize) -> (r: Result<Response>)
    requires
        chunk > 0,
    ensures
        response_outcome(r, data@),
{
    let mut reader = ResponseReader::new();
    let mut pos: usize = 0;
    loop
        invariant
            pos <= data@.len(),
            chunk > 0,
            reader@ =~= data@.subrange(0, pos as int),
            pos > 0 ==> response_progress(reader@) is Pending,
        decreases data@.len() - pos,
    {
        let end = if data.len() - pos < chunk {
            data.len()
        } else {
            pos + chunk
        };
        let piece = &data[pos..end];
        match reader.feed(piece) {
            None => {
                pos = end;
            },
            Some(res) => {
                proof {
                    if piece@.len() == 0 {
                        assert(data@.subrange(0, pos as int) =~= data@);
                        if pos == 0 {
                            assert(data@ =~= Seq::<u8>::empty());
                        }
                    } else {
                        let rest = data@.subrange(end as int, data@.len() as int);
                        assert(reader@ =~= data@.subrange(0, end as int));
                        assert(reader@ + rest =~= data@);
                        assert(response_progress(reader@ + rest) == response_progress(reader@));
                    }
                }
                return res;
            },
        }
    }
}

/// Reads one response from a byte stream, as it arrives from a connection.
pub fn parse_response(data: &[u8]) -> (r: Result<Response>)
    ensures
        response_outcome(r, data@),
{
    read_response(data, READ_CHUNK)
}

} // verus!
