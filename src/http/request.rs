//! HTTP requests and the parser that reads them from a byte stream.
use crate::errors::{Error, Result};
use crate::http::codec::{
    body_text, content_length, content_length_of, lossy_headers, raw_headers_view, text_headers,
    text_headers_view, text_of, HeadParse, Progress, RawHeader, MAX_HEADERS,
};
use vstd::prelude::*;

verus! {

/// An HTTP request.
#[derive(Debug)]
pub struct Request {
    /// The HTTP method used in the request
    pub method: String,
    /// The full path of the request
    pub path: String,
    /// Headers of the request, in the order received
    pub headers: Vec<(String, String)>,
    /// Body of the request
    pub body: String,
}

/// What a request holds.
pub struct RequestView {
    pub method: Seq<char>,
    pub path: Seq<char>,
    pub headers: Seq<(Seq<char>, Seq<char>)>,
    pub body: Seq<char>,
}

impl View for Request {
    type V = RequestView;

    open spec fn view(&self) -> RequestView {
        RequestView {
            method: self.method@,
            path: self.path@,
            headers: text_headers_view(self.headers@),
            body: self.body@,
        }
    }
}

impl Request {
    /// Creates a request from its parts.
    pub fn new(method: &str, path: &str, headers: Vec<(String, String)>, body: String) -> (r:
        Request)
        ensures
            r.method@ == method@,
            r.path@ == path@,
            r.headers == headers,
            r.body == body,
    {
        Request { method: String::from_str(method), path: String::from_str(path), headers, body }
    }

    /// Creates a GET request for the given path, with an empty body.
    pub fn get(path: &str) -> (r: Request)
        ensures
            r.method@ == "GET"@,
            r.path@ == path@,
            r.headers@.len() == 0,
            r.body@ == Seq::<char>::empty(),
    {
        Request {
            method: String::from_str("GET"),
            body: String::new(),
            headers: Vec::new(),
            path: String::from_str(path),
        }
    }

    /// Creates a POST request for the given path, with the given body.
    pub fn post(path: &str, body: String) -> (r: Request)
        ensures
            r.method@ == "POST"@,
            r.path@ == path@,
            r.headers@.len() == 0,
            r.body == body,
    {
        Request { method: String::from_str("POST"), body, headers: Vec::new(), path: String::from_str(path) }
    }

    /// Creates a DELETE request for the given path, with the given body.
    pub fn delete(path: &str, body: String) -> (r: Request)
        ensures
            r.method@ == "DELETE"@,
            r.path@ == path@,
            r.headers@.len() == 0,
            r.body == body,
    {
        Request {
            method: String::from_str("DELETE"),
            body,
            headers: Vec::new(),
            path: String::from_str(path),
        }
    }
}

/// A request head as the grammar reads it.
pub struct RequestHead {
    /// Length of the head in bytes
    pub len: usize,
    pub method: Option<String>,
    pub path: Option<String>,
    pub headers: Vec<RawHeader>,
}

pub open spec fn opt_text(o: Option<String>) -> Option<Seq<char>> {
    match o {
        Some(s) => Some(s@),
        None => None,
    }
}

/// The shape in which a head reading is named: `None` for bytes outside the
/// grammar, `Some(None)` where more bytes are needed, and else the head's
/// length, method, path and headers.
pub open spec fn request_head_view(p: HeadParse<RequestHead>) -> Option<
    Option<(nat, Option<Seq<char>>, Option<Seq<char>>, Seq<(Seq<char>, Seq<u8>)>)>,
> {
    match p {
        HeadParse::Invalid => None,
        HeadParse::Partial => Some(None),
        HeadParse::Complete(h) => Some(
            Some((h.len as nat, opt_text(h.method), opt_text(h.path), raw_headers_view(h.headers@))),
        ),
    }
}

/// How the HTTP/1.1 request grammar reads the bytes `buf`, with room for
/// `max_headers` headers.
pub uninterp spec fn request_head_of(buf: Seq<u8>, max_headers: nat) -> Option<
    Option<(nat, Option<Seq<char>>, Option<Seq<char>>, Seq<(Seq<char>, Seq<u8>)>)>,
>;

/// Relies on httparse::Request::parse to read a request line and its headers.
/// The parser reads from the start and stops at the blank line that ends the
/// head or at the first byte outside the grammar, so a head that is complete,
/// or bytes that are not a head, read the same whatever follows.
#[verifier::external_body]
fn parse_request_head(buf: &[u8], max_headers: usize) -> (r: HeadParse<RequestHead>)
    ensures
        request_head_view(r) == request_head_of(buf@, max_headers as nat),
        r matches HeadParse::Complete(h) ==> h.len <= buf@.len(),
        !(r is Partial) ==> forall|t: Seq<u8>|
            #[trigger] request_head_of(buf@ + t, max_headers as nat) == request_head_of(
                buf@,
                max_headers as nat,
            ),
{
    let mut headers = vec![httparse::EMPTY_HEADER; max_headers];
    let mut req = httparse::Request::new(&mut headers);
    match req.parse(buf) {
        Ok(httparse::Status::Complete(len)) => HeadParse::Complete(RequestHead {
            len,
            method: req.method.map(String::from),
            path: req.path.map(String::from),
            headers: req.headers.iter().map(|h| (h.name.to_string(), h.value.to_vec())).collect(),
        }),
        Ok(httparse::Status::Partial) => HeadParse::Partial,
        Err(_) => HeadParse::Invalid,
    }
}

pub open spec fn text_or(o: Option<Seq<char>>, d: Seq<char>) -> Seq<char> {
    match o {
        Some(s) => s,
        None => d,
    }
}

/// What the bytes `s` hold, given that the grammar reads them as `head`: a
/// complete head is followed by a body as long as its `Content-Length` says.
pub open spec fn request_frame(
    s: Seq<u8>,
    head: Option<Option<(nat, Option<Seq<char>>, Option<Seq<char>>, Seq<(Seq<char>, Seq<u8>)>)>>,
) -> Progress<RequestView> {
    match head {
        Some(Some((n, m, p, hs))) => if n <= s.len() {
            let cl = content_length_of(hs);
            if s.len() < n + cl {
                Progress::Pending
            } else {
                Progress::Parsed(
                    RequestView {
                        method: text_or(m, "GET"@),
                        path: text_or(p, "/"@),
                        headers: lossy_headers(hs),
                        body: text_of(s.subrange(n as int, (n + cl) as int)),
                    },
                )
            }
        } else {
            Progress::Malformed
        },
        Some(None) => Progress::Pending,
        None => Progress::Malformed,
    }
}

/// What the bytes `s` received so far hold: nothing yet where there are none;
/// else the grammar reads the head from all of them, and the body follows the
/// head's length.
pub open spec fn request_progress(s: Seq<u8>) -> Progress<RequestView> {
    if s.len() == 0 {
        Progress::Pending
    } else {
        request_frame(s, request_head_of(s, MAX_HEADERS as nat))
    }
}

/// The request that a whole byte stream yields: where the stream ends before
/// the request is complete, the connection was reset.
pub open spec fn request_outcome(r: Result<Request>, s: Seq<u8>) -> bool {
    match request_progress(s) {
        Progress::Pending => r matches Err(Error::ConnectionReset),
        Progress::Malformed => r matches Err(Error::BadRequest(_)),
        Progress::Parsed(v) => r matches Ok(req) && req@ == v,
    }
}

/// Framing a message that is complete (or malformed) under a given head
/// reading gives the same whatever bytes follow.
proof fn lemma_request_frame_extends(
    s: Seq<u8>,
    t: Seq<u8>,
    head: Option<Option<(nat, Option<Seq<char>>, Option<Seq<char>>, Seq<(Seq<char>, Seq<u8>)>)>>,
)
    requires
        !(request_frame(s, head) is Pending),
        head matches Some(Some((n, _, _, _))) ==> n <= s.len(),
    ensures
        request_frame(s + t, head) == request_frame(s, head),
{
    if let Some(Some((n, m, p, hs))) = head {
        if n <= s.len() {
            let cl = content_length_of(hs);
            assert((s + t).subrange(n as int, (n + cl) as int) =~= s.subrange(n as int, (n + cl) as int));
        }
    }
}

/// Reads a request from the bytes of a connection as they arrive.
pub struct RequestReader {
    buf: Vec<u8>,
}

impl View for RequestReader {
    type V = Seq<u8>;

    closed spec fn view(&self) -> Seq<u8> {
        self.buf@
    }
}

impl RequestReader {
    /// A reader that has received nothing yet.
    pub fn new() -> (r: Self)
        ensures
            r@ == Seq::<u8>::empty(),
    {
        RequestReader { buf: Vec::new() }
    }

    /// Takes the next chunk read from the connection; an empty chunk means that
    /// the peer closed it. Returns `None` while more bytes are needed. Once it
    /// returns a request or a malformed head, bytes that follow would change
    /// nothing.
    pub fn feed(&mut self, chunk: &[u8]) -> (r: Option<Result<Request>>)
        ensures
            final(self)@ == old(self)@ + chunk@,
            chunk@.len() == 0 ==> r matches Some(Err(Error::ConnectionReset)),
            chunk@.len() > 0 ==> match r {
                None => request_progress(final(self)@) is Pending,
                Some(res) => !(request_progress(final(self)@) is Pending) && request_outcome(
                    res,
                    final(self)@,
                ) && forall|t: Seq<u8>|
                    #[trigger] request_progress(final(self)@ + t) == request_progress(final(self)@),
            },
    {
        if chunk.len() == 0 {
            assert(self.buf@ + chunk@ =~= self.buf@);
            return Some(Err(Error::ConnectionReset));
        }
        let mut i: usize = 0;
        let ghost start = self.buf@;
        while i < chunk.len()
            invariant
                i <= chunk@.len(),
                self.buf@ =~= start + chunk@.subrange(0, i as int),
            decreases chunk.len() - i,
        {
            self.buf.push(chunk[i]);
            i = i + 1;
        }
        assert(chunk@.subrange(0, chunk@.len() as int) =~= chunk@);
        assert(self.buf@.len() > 0);
        self.progress()
    }

    /// What the bytes received so far hold.
    fn progress(&self) -> (r: Option<Result<Request>>)
        requires
            self@.len() > 0,
        ensures
            match r {
                None => request_progress(self@) is Pending,
                Some(res) => !(request_progress(self@) is Pending) && request_outcome(res, self@)
                    && forall|t: Seq<u8>|
                    #[trigger] request_progress(self@ + t) == request_progress(self@),
            },
    {
        let head = parse_request_head(self.buf.as_slice(), MAX_HEADERS);
        let ghost hv = request_head_view(head);
        proof {
            if !(request_progress(self@) is Pending) {
                assert forall|t: Seq<u8>| #[trigger]
                    request_progress(self@ + t) == request_progress(self@) by {
                    assert(request_head_of(self@ + t, MAX_HEADERS as nat) == hv);
                    assert((self@ + t).len() > 0);
                    lemma_request_frame_extends(self@, t, hv);
                }
            }
        }
        frame_request(self.buf.as_slice(), head)
    }
}

/// Builds the request that `buf` holds, given that the grammar read its head
/// as `head`. Returns `None` while the head or the body is incomplete.
pub fn frame_request(buf: &[u8], head: HeadParse<RequestHead>) -> (r: Option<Result<Request>>)
    ensures
        match request_frame(buf@, request_head_view(head)) {
            Progress::Pending => r is None,
            Progress::Malformed => r matches Some(Err(Error::BadRequest(_))),
            Progress::Parsed(v) => r matches Some(Ok(req)) && req@ == v,
        },
{
    match head {
        HeadParse::Complete(h) => {
            if h.len > buf.len() {
                return Some(Err(Error::BadRequest(String::from_str("malformed request head"))));
            }
            let len = content_length(&h.headers);
            match body_text(buf, h.len, len) {
                None => None,
                Some(body) => {
                    let method = match h.method {
                        Some(m) => m,
                        None => String::from_str("GET"),
                    };
                    let path = match h.path {
                        Some(p) => p,
                        None => String::from_str("/"),
                    };
                    let headers = text_headers(&h.headers);
                    Some(Ok(Request { method, path, headers, body }))
                },
            }
        },
        HeadParse::Partial => None,
        HeadParse::Invalid => Some(Err(Error::BadRequest(String::from_str("malformed request head")))),
    }
}

/// Reads one request from `data`, taking it `chunk` bytes at a time as a
/// connection would deliver it. The result does not depend on `chunk`.
pub fn read_request(data: &[u8], chunk: usize) -> (r: Result<Request>)
    requires
        chunk > 0,
    ensures
        request_outcome(r, data@),
{
    let mut reader = RequestReader::new();
    let mut pos: usize = 0;
    loop
        invariant
            pos <= data@.len(),
            chunk > 0,
            reader@ =~= data@.subrange(0, pos as int),
            pos > 0 ==> request_progress(reader@) is Pending,
        decreases data@.len() - pos,
    {
        let end = if data.len() - pos < chunk {
            data.len()
        } else {
            pos + chunk
        };
        let piece = &data[pos..end];
        match reader.feed(piece) {
            None => {
                pos = end;
            },
            Some(res) => {
                proof {
                    if piece@.len() == 0 {
                        assert(data@.subrange(0, pos as int) =~= data@);
                        if pos == 0 {
                            assert(data@ =~= Seq::<u8>::empty());
                        }
                    } else {
                        let rest = data@.subrange(end as int, data@.len() as int);
                        assert(reader@ =~= data@.subrange(0, end as int));
                        assert(reader@ + rest =~= data@);
                        assert(request_progress(reader@ + rest) == request_progress(reader@));
                    }
                }
                return res;
            },
        }
    }
}

/// The read buffer's size: a connection delivers at most this many bytes at a time.
pub const READ_CHUNK: usize = 4096;

/// Reads one request from a byte stream, as it arrives from a connection.
pub fn parse_request(data: &[u8]) -> (r: Result<Request>)
    ensures
        request_outcome(r, data@),
{
    read_request(data, READ_CHUNK)
}

} // verus!
