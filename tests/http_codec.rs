use restaurant::http::codec::HeadParse;
use restaurant::http::request::{frame_request, RequestHead};
use restaurant::http::response::{frame_response, ResponseHead};
use rand::Rng;
use restaurant::errors::Error;
use restaurant::http::{
    code_to_string, parse_request, parse_response, read_request, read_response, response_for,
    serialize_request, serialize_response, Request, RequestReader, Response,
};

fn random_letters(n: usize) -> String {
    let mut rng = rand::thread_rng();
    let mut buffer = vec![0u8; n];
    for c in buffer.iter_mut() {
        *c = rng.gen_range(b'a'..=b'z');
    }
    String::from_utf8_lossy(&buffer).to_string()
}

#[test]
fn http_test_parse_simple_request() {
    let req_str = b"GET / HTTP/1.1\r\nHost: localhost:8080\r\nUser-Agent: curl/7.68.0\r\nAccept: */*\r\n\r\n";
    let parsed_req = parse_request(&req_str[..]).unwrap();
    assert_eq!(parsed_req.method, "GET");
    assert_eq!(parsed_req.path, "/");
    assert_eq!(parsed_req.headers.len(), 3);
    assert_eq!(parsed_req.body, "");
}

#[test]
fn request_test_parse_simple_request() {
    let req_str = b"GET / HTTP/1.1\r\nHost: localhost:8080\r\nUser-Agent: curl/7.68.0\r\nAccept: */*\r\n\r\n";
    let parsed_req = parse_request(&req_str[..]).unwrap();
    assert_eq!(parsed_req.method, "GET");
    assert_eq!(parsed_req.path, "/");
    assert_eq!(parsed_req.headers.len(), 3);
    assert_eq!(parsed_req.body, "");
}

#[test]
fn http_test_parse_incomplete_request() {
    let req_str = b"GET / HTTP/1.1\r\nHost: localhost:8080\r\nUser-Agent: curl/7.68.0\r\nAccept: */*";
    let parsed_req = parse_request(&req_str[..]);
    assert!(parsed_req.is_err());
}

#[test]
fn request_test_parse_incomplete_request() {
    let req_str = b"GET / HTTP/1.1\r\nHost: localhost:8080\r\nUser-Agent: curl/7.68.0\r\nAccept: */*";
    let parsed_req = parse_request(&req_str[..]);
    assert!(parsed_req.is_err());
}

fn request_with_body() -> (String, String) {
    let body = "{ \"content\": \"Hello, world!\" }";
    let req_str = format!(
        "POST / HTTP/1.1\r\nHost: localhost:8080\r\nUser-Agent: curl/7.68.0\r\nAccept: */*\r\nContent-Length: {}\r\n\r\n{}",
        body.len(),
        body
    );
    (body.to_string(), req_str)
}

#[test]
fn http_test_parse_request_with_body() {
    let (body, req_str) = request_with_body();
    let parsed_req = parse_request(req_str.as_bytes()).unwrap();
    assert_eq!(parsed_req.method, "POST");
    assert_eq!(parsed_req.path, "/");
    assert_eq!(parsed_req.headers.len(), 4);
    assert_eq!(parsed_req.body, body);
}

#[test]
fn request_test_parse_request_with_body() {
    let (body, req_str) = request_with_body();
    let parsed_req = parse_request(req_str.as_bytes()).unwrap();
    assert_eq!(parsed_req.method, "POST");
    assert_eq!(parsed_req.path, "/");
    assert_eq!(parsed_req.headers.len(), 4);
    assert_eq!(parsed_req.body, body);
}

#[test]
fn test_parse_request_with_large_header() {
    let x_test_header = random_letters(4096);
    let req_str = format!(
        "GET / HTTP/1.1\r\nHost: localhost:8080\r\nUser-Agent: curl/7.68.0\r\nAccept: */*\r\nX-Test: {}\r\n\r\n",
        x_test_header
    );
    let parsed_req = parse_request(req_str.as_bytes()).unwrap();
    assert_eq!(parsed_req.method, "GET");
    assert_eq!(parsed_req.path, "/");
    assert_eq!(parsed_req.headers.len(), 4);
    let x_test = parsed_req.headers.iter().find(|(k, _)| k == "X-Test").unwrap();
    assert_eq!(x_test.1, x_test_header);
}

#[test]
fn test_parse_request_with_large_body() {
    let body = random_letters(4096);
    let req_str = format!(
        "GET / HTTP/1.1\r\nHost: localhost:8080\r\nUser-Agent: curl/7.68.0\r\nAccept: */*\r\nContent-Length: {}\r\n\r\n{}",
        body.len(),
        body
    );
    let parsed_req = parse_request(req_str.as_bytes()).unwrap();
    assert_eq!(parsed_req.method, "GET");
    assert_eq!(parsed_req.path, "/");
    assert_eq!(parsed_req.headers.len(), 4);
    assert_eq!(parsed_req.body, body);
}

#[test]
fn test_parse_request_with_very_large_body_and_header() {
    let body = random_letters(40960);
    let x_test_header = random_letters(40960);
    let req_str = format!(
        "GET / HTTP/1.1\r\nHost: localhost:8080\r\nUser-Agent: curl/7.68.0\r\nAccept: */*\r\nContent-Length: {}\r\nX-TEST: {}\r\n\r\n{}",
        body.len(),
        x_test_header,
        body
    );
    let parsed_req = parse_request(req_str.as_bytes()).unwrap();
    assert_eq!(parsed_req.method, "GET");
    assert_eq!(parsed_req.path, "/");
    assert_eq!(parsed_req.headers.len(), 5);
    assert_eq!(parsed_req.body, body);
    let x_test = parsed_req.headers.iter().find(|(k, _)| k == "X-TEST").unwrap();
    assert_eq!(x_test.1, x_test_header);
}

#[test]
fn http_test_parse_simple_response() {
    let req_str = b"HTTP/1.1 200 OK\r\nContent-Length: 0\r\n\r\n";
    let parsed_req = parse_response(&req_str[..]).unwrap();
    assert_eq!(parsed_req.status, Some(200));
    assert_eq!(parsed_req.headers.len(), 1);
    assert_eq!(parsed_req.body, "");
}

#[test]
fn response_test_parse_simple_response() {
    let req_str = b"HTTP/1.1 200 OK\r\nContent-Length: 0\r\n\r\n";
    let parsed_req = parse_response(&req_str[..]).unwrap();
    assert_eq!(parsed_req.status, Some(200));
    assert_eq!(parsed_req.headers.len(), 1);
    assert_eq!(parsed_req.body, "");
}

#[test]
fn http_test_parse_response_with_body() {
    let body = "{ \"content\": \"Hello, world!\" }";
    let req_str = format!("HTTP/1.1 200 OK\r\nContent-Length: {}\r\n\r\n{}", body.len(), body);
    let parsed_req = parse_response(req_str.as_bytes()).unwrap();
    assert_eq!(parsed_req.status, Some(200));
    assert_eq!(parsed_req.headers.len(), 1);
    assert_eq!(parsed_req.body, body);
}

#[test]
fn response_test_parse_response_with_body() {
    let body = "{ \"content\": \"Hello, world!\" }";
    let req_str = format!("HTTP/1.1 200 OK\r\nContent-Length: {}\r\n\r\n{}", body.len(), body);
    let parsed_req = parse_response(req_str.as_bytes()).unwrap();
    assert_eq!(parsed_req.status, Some(200));
    assert_eq!(parsed_req.headers.len(), 1);
    assert_eq!(parsed_req.body, body);
}

#[test]
fn test_parse_response_with_large_header() {
    let x_test_header = random_letters(4096);
    let req_str = format!("HTTP/1.1 200 OK\r\nX-Test: {}\r\n\r\n", x_test_header);
    let parsed_resp = parse_response(req_str.as_bytes()).unwrap();
    assert_eq!(parsed_resp.headers.len(), 1);
    let x_test = parsed_resp.headers.iter().find(|(k, _)| k == "X-Test").unwrap();
    assert_eq!(x_test.1, x_test_header);
}

#[test]
fn test_parse_response_with_large_body() {
    let body = random_letters(4096);
    let req_str = format!("HTTP/1.1 200 OK\r\nContent-Length: {}\r\n\r\n{}", body.len(), body);
    let parsed_resp = parse_response(req_str.as_bytes()).unwrap();
    assert_eq!(parsed_resp.headers.len(), 1);
    assert_eq!(parsed_resp.body, body);
}

#[test]
fn test_parse_response_with_very_large_body_and_header() {
    let body = random_letters(40960);
    let x_test_header = random_letters(40960);
    let req_str = format!(
        "HTTP/1.1 200 OK\r\nContent-Length: {}\r\nX-TEST: {}\r\n\r\n{}",
        body.len(),
        x_test_header,
        body
    );
    let parsed_req = parse_response(req_str.as_bytes()).unwrap();
    assert_eq!(parsed_req.headers.len(), 2);
    assert_eq!(parsed_req.body, body);
    let x_test = parsed_req.headers.iter().find(|(k, _)| k == "X-TEST").unwrap();
    assert_eq!(x_test.1, x_test_header);
}

#[test]
fn one_byte_reads_give_the_same_request() {
    let (body, req_str) = request_with_body();
    let whole = parse_request(req_str.as_bytes()).unwrap();
    for chunk in [1usize, 2, 3, 7, 64, 4096] {
        let parsed = read_request(req_str.as_bytes(), chunk).unwrap();
        assert_eq!(parsed.method, whole.method);
        assert_eq!(parsed.path, whole.path);
        assert_eq!(parsed.headers, whole.headers);
        assert_eq!(parsed.body, body);
    }
}

#[test]
fn one_byte_reads_give_the_same_response() {
    let wire = b"HTTP/1.1 404 Not Found\r\nContent-Length: 5\r\nX-A: b\r\n\r\nhello";
    for chunk in [1usize, 2, 5, 4096] {
        let parsed = read_response(&wire[..], chunk).unwrap();
        assert_eq!(parsed.status, Some(404));
        assert_eq!(parsed.headers.len(), 2);
        assert_eq!(parsed.headers[1], ("X-A".to_string(), "b".to_string()));
        assert_eq!(parsed.body, "hello");
    }
}

#[test]
fn reader_waits_for_the_body_and_ignores_what_follows() {
    let mut reader = RequestReader::new();
    assert!(reader.feed(b"POST /x HTTP/1.1\r\nContent-Len").is_none());
    assert!(reader.feed(b"gth: 4\r\n\r\nab").is_none());
    let req = reader.feed(b"cdEXTRA").unwrap().unwrap();
    assert_eq!(req.method, "POST");
    assert_eq!(req.path, "/x");
    assert_eq!(req.body, "abcd");
}

#[test]
fn closed_connection_resets() {
    let mut reader = RequestReader::new();
    assert!(reader.feed(b"GET / HTTP/1.1\r\n").is_none());
    assert!(matches!(reader.feed(b""), Some(Err(Error::ConnectionReset))));
    let short_body = b"POST / HTTP/1.1\r\nContent-Length: 10\r\n\r\nabc";
    assert!(matches!(parse_request(&short_body[..]), Err(Error::ConnectionReset)));
    assert!(matches!(parse_request(b""), Err(Error::ConnectionReset)));
    assert!(matches!(parse_response(b"HTTP/1.1 200 OK\r\n"), Err(Error::ConnectionReset)));
}

#[test]
fn malformed_head_is_a_bad_request() {
    assert!(matches!(parse_request(b"GET / HTTP/1.1\r\nBad Header\r\n\r\n"), Err(Error::BadRequest(_))));
    assert!(matches!(parse_request(b"\x01\x02 / HTTP/1.1\r\n\r\n"), Err(Error::BadRequest(_))));
    assert!(matches!(parse_response(b"HTTP/1.1 abc OK\r\n\r\n"), Err(Error::BadRequest(_))));
}

#[test]
fn unparseable_content_length_means_no_body() {
    let parsed = parse_request(b"POST / HTTP/1.1\r\nContent-Length: x1\r\n\r\nabc").unwrap();
    assert_eq!(parsed.body, "");
    let parsed = parse_request(b"POST / HTTP/1.1\r\nContent-Length: +3\r\n\r\nabcdef").unwrap();
    assert_eq!(parsed.body, "abc");
    let parsed = parse_request(b"POST / HTTP/1.1\r\ncontent-length: 3\r\n\r\nabc").unwrap();
    assert_eq!(parsed.body, "");
}

#[test]
fn non_utf8_body_is_read_lossily() {
    let parsed = parse_request(b"POST / HTTP/1.1\r\nContent-Length: 3\r\n\r\na\xffb").unwrap();
    assert_eq!(parsed.body, "a\u{FFFD}b");
}

#[test]
fn request_wire_form() {
    let wire = serialize_request("POST", "/api/v1/orders", "{\"a\":1}");
    assert_eq!(
        wire,
        b"POST /api/v1/orders HTTP/1.1\r\nContent-Length: 7\r\n\r\n{\"a\":1}".to_vec()
    );
    let wire = serialize_request("GET", "/", "");
    assert_eq!(wire, b"GET / HTTP/1.1\r\nContent-Length: 0\r\n\r\n".to_vec());
}

#[test]
fn response_wire_form() {
    let mut resp = Response::ok_with_body("héllo".to_string());
    resp.headers.push(("X-A".to_string(), "b".to_string()));
    let wire = serialize_response(&resp);
    assert_eq!(
        wire,
        "HTTP/1.1 200 OK\r\nContent-Length: 6\r\nX-A:b\r\n\r\nhéllo".as_bytes().to_vec()
    );
    let wire = serialize_response(&Response::ok());
    assert_eq!(wire, b"HTTP/1.1 204 No Content\r\nContent-Length: 0\r\n\r\n".to_vec());
    let none = Response { status: None, headers: vec![], body: String::new() };
    assert_eq!(
        serialize_response(&none),
        b"HTTP/1.1 500 Internal Server Error\r\nContent-Length: 0\r\n\r\n".to_vec()
    );
}

#[test]
fn request_round_trip() {
    let body = "{\"table_number\":1,\"items\":[\"Pizza\",\"Burger\"]} é";
    let wire = serialize_request("DELETE", "/api/v1/orders/1/items/2", body);
    let parsed = read_request(&wire, 1).unwrap();
    assert_eq!(parsed.method, "DELETE");
    assert_eq!(parsed.path, "/api/v1/orders/1/items/2");
    assert_eq!(parsed.body, body);
    assert_eq!(parsed.headers, vec![("Content-Length".to_string(), body.len().to_string())]);
}

#[test]
fn response_round_trip() {
    let mut resp = Response::ok_with_body("{\"id\":3}".to_string());
    resp.headers.push(("X-Trace".to_string(), "abc".to_string()));
    let wire = serialize_response(&resp);
    let parsed = read_response(&wire, 3).unwrap();
    assert_eq!(parsed.status, Some(200));
    assert_eq!(parsed.body, resp.body);
    assert!(parsed.headers.contains(&("X-Trace".to_string(), "abc".to_string())));
    assert!(parsed.headers.contains(&("Content-Length".to_string(), "8".to_string())));
}

#[test]
fn reason_phrases() {
    assert_eq!(code_to_string(200), "OK");
    assert_eq!(code_to_string(204), "No Content");
    assert_eq!(code_to_string(400), "Bad Request");
    assert_eq!(code_to_string(404), "Not Found");
    assert_eq!(code_to_string(500), "Internal Server Error");
}

#[test]
fn response_constructors() {
    let r = Response::ok();
    assert_eq!(r.status, Some(204));
    assert_eq!(r.body, "");
    let r = Response::ok_with_body("x".to_string());
    assert_eq!(r.status, Some(200));
    assert_eq!(r.body, "x");
    let r = Response::error(404);
    assert_eq!(r.status, Some(404));
    assert!(r.body.is_empty() && r.headers.is_empty());
    assert_eq!(Response::internal_server_error().status, Some(500));
}

#[test]
fn request_constructors() {
    let r = Request::new("PUT", "/p", vec![("A".to_string(), "b".to_string())], "x".to_string());
    assert_eq!((r.method.as_str(), r.path.as_str(), r.body.as_str()), ("PUT", "/p", "x"));
    assert_eq!(r.headers.len(), 1);
    let r = Request::get("/g");
    assert_eq!((r.method.as_str(), r.path.as_str(), r.body.as_str()), ("GET", "/g", ""));
    let r = Request::post("/p", "b".to_string());
    assert_eq!((r.method.as_str(), r.body.as_str()), ("POST", "b"));
    let r = Request::delete("/d", "".to_string());
    assert_eq!((r.method.as_str(), r.path.as_str()), ("DELETE", "/d"));
}

#[test]
fn errors_map_to_status_codes() {
    assert_eq!(response_for(Err(Error::NotFound("x".to_string()))).status, Some(404));
    assert_eq!(response_for(Err(Error::BadRequest("x".to_string()))).status, Some(400));
    assert_eq!(response_for(Err(Error::InternalServerError("x".to_string()))).status, Some(500));
    assert_eq!(response_for(Err(Error::ConnectionReset)).status, Some(500));
    let resp = response_for(Err(Error::NotFound("secret".to_string())));
    assert!(resp.body.is_empty());
    assert_eq!(response_for(Ok(Response::ok())).status, Some(204));
    assert_eq!(Error::NotFound("x".to_string()).message(), "Not found: x");
    assert_eq!(Error::NoResponse.message(), "No response from server");
}

#[test]
fn framing_from_a_read_head() {
    let buf = b"HEADxxxxxxxxxxxxbody!".to_vec();
    let head = |len: usize| RequestHead {
        len,
        method: Some("PUT".to_string()),
        path: None,
        headers: vec![("Content-Length".to_string(), b"5".to_vec()), ("A".to_string(), b"\xff".to_vec())],
    };
    let req = frame_request(&buf, HeadParse::Complete(head(16))).unwrap().unwrap();
    assert_eq!(req.method, "PUT");
    assert_eq!(req.path, "/");
    assert_eq!(req.body, "body!");
    assert_eq!(req.headers[1], ("A".to_string(), "\u{FFFD}".to_string()));
    assert!(frame_request(&buf[..18], HeadParse::Complete(head(16))).is_none());
    assert_eq!(frame_request(&buf, HeadParse::Complete(head(15))).unwrap().unwrap().body, "xbody");
    assert!(matches!(frame_request(&buf, HeadParse::Complete(head(100))), Some(Err(Error::BadRequest(_)))));
    assert!(frame_request(&buf, HeadParse::Partial).is_none());
    assert!(matches!(frame_request(&buf, HeadParse::Invalid), Some(Err(Error::BadRequest(_)))));

    let resp_head = ResponseHead { len: 4, code: Some(201), headers: vec![] };
    let resp = frame_response(&buf, HeadParse::Complete(resp_head)).unwrap().unwrap();
    assert_eq!(resp.status, Some(201));
    assert_eq!(resp.body, "");
}

#[test]
fn at_most_sixty_four_headers() {
    let mut req = String::from("GET / HTTP/1.1\r\n");
    for i in 0..64 {
        req.push_str(&format!("H{}: v\r\n", i));
    }
    let ok = format!("{}\r\n", req);
    assert_eq!(parse_request(ok.as_bytes()).unwrap().headers.len(), 64);
    let too_many = format!("{}H64: v\r\n\r\n", req);
    assert!(matches!(parse_request(too_many.as_bytes()), Err(Error::BadRequest(_))));
}

#[test]
fn caller_content_length_is_not_written() {
    let mut resp = Response::ok_with_body("abc".to_string());
    resp.headers.push(("Content-Length".to_string(), "99".to_string()));
    resp.headers.push(("X-A".to_string(), "b".to_string()));
    let wire = serialize_response(&resp);
    assert_eq!(wire, b"HTTP/1.1 200 OK\r\nContent-Length: 3\r\nX-A:b\r\n\r\nabc".to_vec());
    let parsed = parse_response(&wire).unwrap();
    assert_eq!(parsed.body, "abc");
}

#[test]
fn heads_the_grammar_accepts() {
    let parsed = parse_request(b"\r\nGET /a HTTP/1.1\r\nX: y\r\n\r\n").unwrap();
    assert_eq!(parsed.path, "/a");
    let parsed = read_request(b"POST /b HTTP/1.1\nContent-Length: 2\n\nhi", 1).unwrap();
    assert_eq!(parsed.method, "POST");
    assert_eq!(parsed.body, "hi");
    let parsed = parse_response(b"HTTP/1.1 204 No Content\n\n").unwrap();
    assert_eq!(parsed.status, Some(204));
}
