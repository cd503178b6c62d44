use ps5::error::{Errno, Error, EINTR, EINVAL};
use ps5::reader::{find_double_crlf, Limits, ReadOutcome, RequestReader};
use ps5::request::Request;
use ps5::response::{reason_phrase, Response};
use ps5::server::{accept_step, connection_step, AcceptStep, ConnectionStep, Server};

fn limits() -> Limits {
    Limits { max_header_bytes: 64 * 1024, max_body_bytes: 8 * 1024 * 1024 }
}

/// Feeds `chunks` one by one, then end of stream; returns the first result.
fn read_all(limits: Limits, chunks: &[&[u8]]) -> Result<Option<Request>, Error> {
    let mut reader = RequestReader::new(limits);
    for chunk in chunks {
        match reader.feed(Ok(*chunk)) {
            ReadOutcome::NeedMore => {}
            ReadOutcome::Complete(r) => return Ok(r),
            ReadOutcome::Rejected(e) => return Err(e),
        }
    }
    match reader.feed(Ok(&[])) {
        ReadOutcome::NeedMore => panic!("reader wants more after end of stream"),
        ReadOutcome::Complete(r) => Ok(r),
        ReadOutcome::Rejected(e) => Err(e),
    }
}

fn read_one(bytes: &[u8]) -> Result<Option<Request>, Error> {
    read_all(limits(), &[bytes])
}

#[test]
fn parses_simple_get() {
    let req = read_one(b"GET /a?b=1 HTTP/1.1\r\nHost: x\r\nAccept:  */* \r\n\r\n")
        .unwrap()
        .unwrap();
    assert_eq!(req.method, "GET");
    assert_eq!(req.target, "/a?b=1");
    assert_eq!(req.version, "HTTP/1.1");
    assert_eq!(
        req.headers,
        vec![("Host".to_string(), "x".to_string()), ("Accept".to_string(), "*/*".to_string())]
    );
    assert!(req.body.is_empty());
    assert_eq!(req.path(), "/a");
    assert_eq!(req.query(), Some("b=1"));
}

#[test]
fn path_without_query_is_whole_target() {
    let req = read_one(b"GET /only/path HTTP/1.1\r\n\r\n").unwrap().unwrap();
    assert_eq!(req.path(), "/only/path");
    assert_eq!(req.query(), None);
}

#[test]
fn query_splits_at_first_question_mark() {
    let req = read_one(b"GET /p?x=1?y=2 HTTP/1.1\r\n\r\n").unwrap().unwrap();
    assert_eq!(req.path(), "/p");
    assert_eq!(req.query(), Some("x=1?y=2"));
    let joined = format!("{}?{}", req.path(), req.query().unwrap());
    assert_eq!(joined, req.target);
}

#[test]
fn header_lookup_ignores_case_and_takes_first() {
    let req = read_one(b"GET / HTTP/1.1\r\nX-Key: one\r\nx-key: two\r\n\r\n").unwrap().unwrap();
    assert_eq!(req.header("x-key"), Some("one"));
    assert_eq!(req.header("X-KEY"), Some("one"));
    assert_eq!(req.header("missing"), None);
}

#[test]
fn reads_content_length_body() {
    let req = read_one(b"POST /u HTTP/1.1\r\ncontent-LENGTH: 5\r\n\r\nhello").unwrap().unwrap();
    assert_eq!(req.body, b"hello".to_vec());
}

#[test]
fn extra_bytes_after_body_are_dropped() {
    let req = read_one(b"POST /u HTTP/1.1\r\nContent-Length: 3\r\n\r\nabcdef").unwrap().unwrap();
    assert_eq!(req.body, b"abc".to_vec());
}

#[test]
fn body_arriving_in_pieces() {
    let req = read_all(
        limits(),
        &[b"POST / HTTP/1.1\r\nContent-", b"Length: 6\r\n\r", b"\nab", b"cd", b"efXYZ"],
    )
    .unwrap()
    .unwrap();
    assert_eq!(req.body, b"abcdef".to_vec());
    assert_eq!(req.header("content-length"), Some("6"));
}

#[test]
fn short_body_is_handed_over_at_close() {
    let req = read_one(b"POST / HTTP/1.1\r\nContent-Length: 10\r\n\r\nabc").unwrap().unwrap();
    assert_eq!(req.body, b"abc".to_vec());
}

#[test]
fn unparsable_content_length_means_no_body() {
    let req = read_one(b"POST / HTTP/1.1\r\nContent-Length: 12x\r\n\r\nabc").unwrap().unwrap();
    assert!(req.body.is_empty());
    let req = read_one(b"POST / HTTP/1.1\r\nContent-Length: +2\r\n\r\nabc").unwrap().unwrap();
    assert_eq!(req.body, b"ab".to_vec());
    let req = read_one(b"POST / HTTP/1.1\r\nContent-Length: -2\r\n\r\nabc").unwrap().unwrap();
    assert!(req.body.is_empty());
}

#[test]
fn only_first_content_length_counts() {
    let req = read_one(b"POST / HTTP/1.1\r\nContent-Length: bad\r\nContent-Length: 2\r\n\r\nabc")
        .unwrap()
        .unwrap();
    assert!(req.body.is_empty());
}

#[test]
fn close_before_any_byte_is_no_request() {
    assert!(matches!(read_all(limits(), &[]), Ok(None)));
}

#[test]
fn close_mid_head_is_rejected() {
    assert_eq!(
        read_one(b"GET / HTTP/1.1\r\n").unwrap_err(),
        Error::InvalidInput("connection closed mid-request")
    );
}

#[test]
fn read_error_is_passed_on() {
    let mut reader = RequestReader::new(limits());
    let e = Error::Gai(7);
    assert!(matches!(reader.feed(Err(e)), ReadOutcome::Rejected(x) if x == e));
    assert!(reader.is_finished());
}

#[test]
fn missing_target_and_version() {
    assert_eq!(read_one(b"GET\r\n\r\n").unwrap_err(), Error::InvalidInput("missing request target"));
    assert_eq!(read_one(b"GET /\r\n\r\n").unwrap_err(), Error::InvalidInput("missing HTTP version"));
}

#[test]
fn malformed_header_line() {
    assert_eq!(
        read_one(b"GET / HTTP/1.1\r\nno colon here\r\n\r\n").unwrap_err(),
        Error::InvalidInput("malformed header line")
    );
}

#[test]
fn head_must_be_utf8() {
    assert_eq!(
        read_one(b"GET /\xff HTTP/1.1\r\n\r\n").unwrap_err(),
        Error::InvalidInput("request head is not valid UTF-8")
    );
}

#[test]
fn non_ascii_head_is_kept() {
    let req = read_one("GET /caf\u{e9} HTTP/1.1\r\nName:\u{a0}v\u{3000}\r\n\r\n".as_bytes())
        .unwrap()
        .unwrap();
    assert_eq!(req.target, "/caf\u{e9}");
    assert_eq!(req.header("name"), Some("v"));
}

#[test]
fn head_over_limit_is_rejected() {
    let small = Limits { max_header_bytes: 10, max_body_bytes: 100 };
    assert_eq!(
        read_all(small, &[b"GET / HTTP/1.1\r\n"]).unwrap_err(),
        Error::InvalidInput("request head exceeds limit")
    );
    // The blank line arriving in the read that crosses the limit does not
    // let an oversized head through.
    assert_eq!(
        read_all(small, &[b"GET / HTTP/1.1\r\n\r\n"]).unwrap_err(),
        Error::InvalidInput("request head exceeds limit")
    );
}

#[test]
fn head_at_limit_is_accepted() {
    // "GET / HTTP/1.1" is a 14-byte head, followed by its blank line.
    let whole: &[u8] = b"GET / HTTP/1.1\r\n\r\n";
    let exact = Limits { max_header_bytes: 14, max_body_bytes: 0 };
    let req = read_all(exact, &[whole]).unwrap().unwrap();
    assert_eq!(req.target, "/");
    // With room for the first three bytes of the blank line, any split works.
    let roomy = Limits { max_header_bytes: 17, max_body_bytes: 0 };
    for cut in 1..whole.len() {
        let req = read_all(roomy, &[&whole[..cut], &whole[cut..]]).unwrap().unwrap();
        assert_eq!(req.target, "/");
    }
    // One byte short of the head: rejected however it is split.
    let short = Limits { max_header_bytes: 13, max_body_bytes: 0 };
    assert_eq!(
        read_all(short, &[whole]).unwrap_err(),
        Error::InvalidInput("request head exceeds limit")
    );
    for cut in 1..whole.len() {
        assert_eq!(
            read_all(short, &[&whole[..cut], &whole[cut..]]).unwrap_err(),
            Error::InvalidInput("request head exceeds limit")
        );
    }
}

#[test]
fn oversized_head_in_one_large_read_is_rejected() {
    let mut bytes = b"GET / HTTP/1.1\r\nX: ".to_vec();
    bytes.extend(std::iter::repeat(b'a').take(3000));
    bytes.extend_from_slice(b"\r\n\r\n");
    let limits = Limits { max_header_bytes: 1024, max_body_bytes: 0 };
    assert_eq!(
        read_all(limits, &[&bytes]).unwrap_err(),
        Error::InvalidInput("request head exceeds limit")
    );
}

#[test]
fn accept_loop_decisions() {
    assert!(matches!(accept_step::<u8>(Ok(7)), AcceptStep::Serve(7)));
    assert!(matches!(accept_step::<u8>(Err(Error::Os(Errno(EINTR)))), AcceptStep::Retry));
    assert!(matches!(
        accept_step::<u8>(Err(Error::Os(Errno(EINVAL)))),
        AcceptStep::Stop(Error::Os(Errno(22)))
    ));
    assert!(matches!(
        accept_step::<u8>(Err(Error::Gai(4))),
        AcceptStep::Stop(Error::Gai(4))
    ));
}

#[test]
fn body_over_limit_is_rejected() {
    let small = Limits { max_header_bytes: 1000, max_body_bytes: 4 };
    assert_eq!(
        read_all(small, &[b"POST / HTTP/1.1\r\nContent-Length: 5\r\n\r\nhello"]).unwrap_err(),
        Error::InvalidInput("request body exceeds limit")
    );
}

#[test]
fn extra_request_line_words_are_ignored() {
    let req = read_one(b"GET / HTTP/1.1 extra\r\n\r\n").unwrap().unwrap();
    assert_eq!(req.version, "HTTP/1.1");
}

#[test]
fn finds_double_crlf() {
    assert_eq!(find_double_crlf(b"ab\r\n\r\ncd\r\n\r\n"), Some(2));
    assert_eq!(find_double_crlf(b"\r\n\r"), None);
    assert_eq!(find_double_crlf(b""), None);
}

#[test]
fn encodes_response() {
    let r = Response::new(404).header("X-A", "1").text("not found");
    let bytes = r.encode();
    assert_eq!(
        String::from_utf8(bytes).unwrap(),
        "HTTP/1.1 404 Not Found\r\nX-A: 1\r\nContent-Type: text/plain; charset=utf-8\r\n\
         Content-Length: 9\r\nConnection: close\r\n\r\nnot found"
    );
}

#[test]
fn encode_ignores_managed_headers() {
    let plain = Response::ok().body(b"xy".to_vec());
    let with = Response::ok()
        .header("content-LENGTH", "99")
        .header("Connection", "keep-alive")
        .body(b"xy".to_vec());
    assert_eq!(plain.encode(), with.encode());
    assert_eq!(
        plain.encode(),
        b"HTTP/1.1 200 OK\r\nContent-Length: 2\r\nConnection: close\r\n\r\nxy".to_vec()
    );
}

#[test]
fn builders_set_status_and_types() {
    let r = Response::ok().status(201).html("<p>");
    assert_eq!(r.status_code(), 201);
    assert_eq!(r.body_bytes(), &b"<p>".to_vec());
    let s = String::from_utf8(r.encode()).unwrap();
    assert!(s.starts_with("HTTP/1.1 201 Created\r\nContent-Type: text/html; charset=utf-8\r\n"));
    let j = String::from_utf8(Response::new(500).json("{}").encode()).unwrap();
    assert!(j.contains("Content-Type: application/json\r\n"));
    assert!(j.starts_with("HTTP/1.1 500 Internal Server Error\r\n"));
}

#[test]
fn reason_phrases() {
    assert_eq!(reason_phrase(200), "OK");
    assert_eq!(reason_phrase(204), "No Content");
    assert_eq!(reason_phrase(301), "Moved Permanently");
    assert_eq!(reason_phrase(431), "Request Header Fields Too Large");
    assert_eq!(reason_phrase(503), "Service Unavailable");
    assert_eq!(reason_phrase(418), "OK");
    assert_eq!(reason_phrase(0), "OK");
}

#[test]
fn server_defaults_and_builders() {
    let s = Server::new();
    assert_eq!(s.thread_stack_size(), 128 * 1024);
    assert_eq!(s.limits().max_header_bytes, 64 * 1024);
    assert_eq!(s.limits().max_body_bytes, 8 * 1024 * 1024);
    let s = Server::default().stack_size(4096).max_header_bytes(10).max_body_bytes(20);
    assert_eq!(s.thread_stack_size(), 4096);
    assert_eq!(s.limits().max_header_bytes, 10);
    assert_eq!(s.limits().max_body_bytes, 20);
}

#[test]
fn malformed_request_gets_400() {
    match connection_step(Err(Error::InvalidInput("malformed header line"))) {
        ConnectionStep::Reply(r) => {
            assert_eq!(
                r.encode(),
                b"HTTP/1.1 400 Bad Request\r\nContent-Type: text/plain; charset=utf-8\r\n\
                  Content-Length: 11\r\nConnection: close\r\n\r\nBad Request"
                    .to_vec()
            );
        }
        _ => panic!("expected a reply"),
    }
    assert!(matches!(connection_step(Ok(None)), ConnectionStep::Close));
    let req = read_one(b"GET / HTTP/1.1\r\n\r\n").unwrap().unwrap();
    assert!(matches!(connection_step(Ok(Some(req))), ConnectionStep::Handle(r) if r.method == "GET"));
}

#[test]
fn any_split_into_reads_gives_the_same_request() {
    let msg: &[u8] = b"PUT /x?y HTTP/1.1\r\nA: b\r\nContent-Length: 4\r\n\r\nwxyzTRAILING";
    let whole = read_one(msg).unwrap().unwrap();
    assert_eq!(whole.body, b"wxyz".to_vec());
    let bytes: Vec<&[u8]> = msg.chunks(1).collect();
    let one_by_one = read_all(limits(), &bytes).unwrap().unwrap();
    assert_eq!(one_by_one.body, whole.body);
    assert_eq!(one_by_one.headers, whole.headers);
    assert_eq!(one_by_one.target, whole.target);
    for size in 2..msg.len() {
        let pieces: Vec<&[u8]> = msg.chunks(size).collect();
        let r = read_all(limits(), &pieces).unwrap().unwrap();
        assert_eq!((r.method, r.target, r.version, r.headers, r.body), (
            whole.method.clone(),
            whole.target.clone(),
            whole.version.clone(),
            whole.headers.clone(),
            whole.body.clone()
        ));
    }
}
