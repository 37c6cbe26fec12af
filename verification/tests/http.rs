use cpxy_ng::http_protocol::{
    encode_request, encode_response, method, user_agent, CamoError, Request, Response,
};
use cpxy_ng::http_stream::HttpStream;
use cpxy_ng::http_util::{
    HeadError, HeadParse, HeadReader, HeadStep, HttpHeader, HttpHeaderExt, HttpRequestHead,
    HttpResponseHead,
};
use cpxy_ng::protocol;
use cpxy_ng::protocol::ProtocolError;
use cpxy_ng::encrypt_stream::Configuration;
use cpxy_ng::server::{not_found_response, ServerAction, ServerSession};

fn header(name: &str, value: &[u8]) -> HttpHeader {
    HttpHeader { name: name.as_bytes().to_vec(), value: value.to_vec() }
}

fn read_request(text: &[u8], piece: usize) -> (HttpRequestHead, Vec<u8>, usize) {
    let mut reader = HeadReader::new();
    for (i, chunk) in text.chunks(piece).enumerate() {
        match reader.accept_request(chunk) {
            HeadStep::NeedMore => continue,
            HeadStep::Done(head, remnant) => return (head, remnant, (i + 1) * piece),
            HeadStep::Failed(e) => panic!("no head: {e:?}"),
        }
    }
    panic!("head did not end");
}

fn read_response(text: &[u8], piece: usize) -> (HttpResponseHead, Vec<u8>) {
    let mut reader = HeadReader::new();
    for chunk in text.chunks(piece) {
        match reader.accept_response(chunk) {
            HeadStep::NeedMore => continue,
            HeadStep::Done(head, remnant) => return (head, remnant),
            HeadStep::Failed(e) => panic!("no head: {e:?}"),
        }
    }
    panic!("head did not end");
}

fn inner_request() -> protocol::Request {
    protocol::Request {
        host: "google.com".to_string(),
        port: 23,
        tls: true,
        client_send_cipher: Configuration::random_partial(32),
        server_send_cipher: Configuration::random_full(),
        initial_plaintext: vec![1, 2, 3, 4, 5],
        timestamp_epoch_seconds: 12345,
    }
}

#[test]
fn http_request_parsing_works() {
    let request_text = b"GET /get HTTP/1.1\r\nHost: example.com\r\n\r\nHello, world";

    let mut reader = HeadReader::new();
    let (head, remnant) = match reader.accept_request(request_text) {
        HeadStep::Done(head, remnant) => (head, remnant),
        other => panic!("Parsing request fails: {other:?}"),
    };
    assert_eq!(head.method, Some(b"GET".to_vec()));
    assert_eq!(head.path, Some(b"/get".to_vec()));
    assert_eq!(head.version, Some(1));
    assert_eq!(head.headers.len(), 1);
    assert_eq!(head.headers.get_header_value("Host").unwrap(), b"example.com");

    let mut req = HttpStream::new(head, remnant, ());
    let mut actual_read = vec![];
    while req.has_remnant() {
        actual_read.extend_from_slice(&req.read_remnant(5));
    }
    assert_eq!(actual_read, b"Hello, world");
}

#[test]
fn http_response_parsing_works() {
    let response_text = b"HTTP/1.1 200 OK\r\nContent-Length: 13\r\n\r\nHello, world";

    let mut reader = HeadReader::new();
    let (head, remnant) = match reader.accept_response(response_text) {
        HeadStep::Done(head, remnant) => (head, remnant),
        other => panic!("Parsing response fails: {other:?}"),
    };
    assert_eq!(head.code, Some(200));
    assert_eq!(head.version, Some(1));
    assert_eq!(head.headers.len(), 1);
    assert_eq!(head.headers.get_header_value("Content-Length").unwrap(), b"13");

    let mut res = HttpStream::new((), remnant, ());
    let actual_read = res.read_remnant(1024);
    assert_eq!(actual_read, b"Hello, world");
    assert!(!res.has_remnant());
}

#[test]
fn http_protocol_http_protocol_works() {
    let encrypt_key = [11u8; 32];
    let archived_request = b"the archived inner request, long enough to overflow".to_vec();

    let request = Request {
        request: inner_request(),
        websocket_key: vec![0u8; 12],
        host: "example.com".to_string(),
    };

    let sent = request.send_over_http(&archived_request, &encrypt_key).expect("To send request");
    let (head, remnant, _) = read_request(&sent, 32);
    let received_request = Request::parse(&head, &encrypt_key).expect("To receive request");

    assert_eq!(received_request.archived, archived_request);
    assert_eq!(received_request.websocket_key, request.websocket_key);
    assert_eq!(received_request.host, request.host);
    assert!(remnant.is_empty());

    let archived_response = vec![6u8, 7, 8, 9, 10];
    let response = Response {
        response: protocol::Response::Success {
            initial_response: vec![6, 7, 8, 9, 10],
            timestamp_epoch_seconds: 54321,
        },
        websocket_key: request.websocket_key,
    };

    let sent = response.send_over_http(&archived_response, &encrypt_key).expect("To send response");
    let (head, remnant) = read_response(&sent, 32);
    let received_response = Response::parse(&head, &encrypt_key).expect("To receive response");

    assert_eq!(received_response.archived, archived_response);
    assert_eq!(received_response.websocket_key.len(), 20);
    assert!(remnant.is_empty());
}

#[test]
fn a_request_reads_as_a_websocket_upgrade() {
    let text = encode_request(
        "PATCH",
        b"AAAAAAAAAAAAAAAAAAAAAAAAABBBB",
        "tunnel.example",
        b"AAECAwQFBgcICQoLDA0ODw",
        "Browser/1.0",
    );
    let expected = "PATCH /AAAAAAAAAAAAAAAAAAAAAAAAA HTTP/1.1\r\n\
        Host: tunnel.example\r\n\
        Upgrade: websocket\r\n\
        Connection: Upgrade\r\n\
        Sec-WebSocket-Version: 14\r\n\
        Sec-WebSocket-Key: AAECAwQFBgcICQoLDA0ODw\r\n\
        Authorization: BBBB\r\n\
        User-Agent: Browser/1.0\r\n\
        \r\n";
    assert_eq!(String::from_utf8(text).unwrap(), expected);
}

#[test]
fn a_short_sealed_text_needs_no_overflow_header() {
    let sealed = b"AAAAAAAAAAAAAAAAAAAAAAAAA";
    assert_eq!(sealed.len(), 25);
    let text = encode_request("GET", sealed, "h", b"k", "ua");
    let expected = "GET /AAAAAAAAAAAAAAAAAAAAAAAAA HTTP/1.1\r\n\
        Host: h\r\n\
        Upgrade: websocket\r\n\
        Connection: Upgrade\r\n\
        Sec-WebSocket-Version: 14\r\n\
        Sec-WebSocket-Key: k\r\n\
        User-Agent: ua\r\n\
        \r\n";
    assert_eq!(String::from_utf8(text).unwrap(), expected);
}

#[test]
fn methods_and_user_agents_are_the_listed_ones() {
    assert_eq!(method(0), "GET");
    assert_eq!(method(1), "POST");
    assert_eq!(method(2), "PATCH");
    assert_eq!(method(3), "PUT");
    assert_eq!(
        user_agent(4),
        "Mozilla/5.0 (Windows NT 10.0; Win64; x64; rv:141.0) Gecko/20100101 Firefox/141.0"
    );
    for i in 0..5 {
        assert!(user_agent(i).starts_with("Mozilla/5.0 ("));
    }
}

#[test]
fn sent_requests_use_only_listed_methods_and_agents() {
    let request = Request {
        request: inner_request(),
        websocket_key: (0u8..16).collect(),
        host: "example.com".to_string(),
    };
    for _ in 0..40 {
        let text = request.send_over_http(b"archive", &[1u8; 32]).unwrap();
        let (head, _, _) = read_request(&text, 4096);
        let m = head.method.clone().unwrap();
        assert!([&b"GET"[..], b"POST", b"PATCH", b"PUT"].contains(&&m[..]));
        let path = head.path.clone().unwrap();
        assert_eq!(path.len(), 26);
        assert_eq!(path[0], b'/');
        assert_ne!(path[1], b'/');
        let agent = head.headers.get_header_value("User-Agent").unwrap().to_vec();
        assert!((0..5).any(|i| user_agent(i).as_bytes() == &agent[..]));
        assert_eq!(head.headers.get_header_value("Sec-WebSocket-Version").unwrap(), b"14");
        assert_eq!(head.headers.get_header_value("Connection").unwrap(), b"Upgrade");
        assert_eq!(
            head.headers.get_header_value("Sec-WebSocket-Key").unwrap(),
            b"AAECAwQFBgcICQoLDA0ODw"
        );
    }
}

#[test]
fn a_response_reads_as_switching_protocols() {
    let text = encode_response(b"ACCEPT", b"RESULT");
    let expected = "HTTP/1.1 101 Switching Protocols\r\n\
        Upgrade: websocket\r\n\
        Connection: Upgrade\r\n\
        Sec-WebSocket-Accept: ACCEPT\r\n\
        X-Cache-Result: RESULT\r\n\
        \r\n";
    assert_eq!(String::from_utf8(text).unwrap(), expected);
}

#[test]
fn the_accept_key_is_the_sha1_of_key_and_guid() {
    let response = Response {
        response: protocol::Response::Success {
            initial_response: vec![],
            timestamp_epoch_seconds: 0,
        },
        websocket_key: vec![0u8; 12],
    };
    let text = response.send_over_http(b"x", &[0u8; 32]).unwrap();
    let (head, _) = read_response(&text, 4096);
    assert_eq!(head.code, Some(101));
    assert_eq!(
        head.headers.get_header_value("Sec-WebSocket-Accept").unwrap(),
        b"WcRUdKoGZj9JVq9bhiOXXQezFgo"
    );
    let other = Response { websocket_key: (0u8..16).collect(), ..response };
    let text = other.send_over_http(b"x", &[0u8; 32]).unwrap();
    let (head, _) = read_response(&text, 4096);
    assert_eq!(
        head.headers.get_header_value("Sec-WebSocket-Accept").unwrap(),
        b"Ms8LTtp8BbKeX7qA4TBWy9j4mOs"
    );
}

#[test]
fn bytes_after_the_head_come_out_first_and_unchanged() {
    let body: Vec<u8> = (0u8..=255).cycle().take(1000).collect();
    let mut text = b"GET /x HTTP/1.1\r\nHost: a\r\n\r\n".to_vec();
    let head_len = text.len();
    text.extend_from_slice(&body);
    for piece in [1usize, 7, 28, 29, 300, 5000] {
        let (head, remnant, fed) = read_request(&text, piece);
        assert_eq!(head.path, Some(b"/x".to_vec()));
        let fed = fed.min(text.len());
        assert_eq!(remnant, &text[head_len..fed], "piece {piece}");
        let expected = remnant.clone();
        let mut stream = HttpStream::new(head, remnant, 0u8);
        let first = stream.read_remnant(expected.len() + 10);
        assert_eq!(first, expected);
        assert!(!stream.has_remnant());
        assert_eq!(stream.read_remnant(10), Vec::<u8>::new());
    }
}

#[test]
fn a_small_read_takes_the_start_of_the_remnant() {
    let mut stream = HttpStream::new("head", b"abcdef".to_vec(), 7u32);
    assert_eq!(*stream.head(), "head");
    assert_eq!(stream.read_remnant(4), b"abcd".to_vec());
    assert!(stream.has_remnant());
    let (head, mut stream) = stream.take_head();
    assert_eq!(head, "head");
    assert_eq!(stream.read_remnant(0), Vec::<u8>::new());
    assert_eq!(stream.read_remnant(4), b"ef".to_vec());
    assert!(!stream.has_remnant());
    *stream.get_mut() += 1;
    assert_eq!(*stream.get_ref(), 8);
    assert_eq!(stream.into_parts(), (vec![], 8));
}

#[test]
fn the_head_buffer_doubles_up_to_the_limit() {
    let mut reader = HeadReader::new();
    assert_eq!(reader.read_capacity(), 256);
    let mut text = b"GET / HTTP/1.1\r\nX: ".to_vec();
    text.resize(256, b'a');
    assert!(matches!(reader.accept_request(&text), HeadStep::NeedMore));
    assert_eq!(reader.filled_buf().len(), 256);
    assert_eq!(reader.read_capacity(), 256);
    assert!(matches!(reader.accept_request(&[b'a'; 100]), HeadStep::NeedMore));
    assert_eq!(reader.read_capacity(), 156);
    assert!(matches!(reader.accept_request(&[b'a'; 156]), HeadStep::NeedMore));
    assert_eq!(reader.read_capacity(), 512);
    let mut sizes = vec![];
    loop {
        let room = reader.read_capacity();
        if room == 0 {
            break;
        }
        sizes.push(room);
        match reader.accept_request(&vec![b'a'; room]) {
            HeadStep::NeedMore => continue,
            HeadStep::Failed(HeadError::HeadTooLarge) => break,
            other => panic!("unexpected {other:?}"),
        }
    }
    assert_eq!(sizes, vec![512, 1024, 2048, 4096, 8192, 16384, 32768]);
}

#[test]
fn a_head_that_does_not_end_in_64k_is_too_large() {
    let mut reader = HeadReader::new();
    let mut text = b"GET / HTTP/1.1\r\nX: ".to_vec();
    text.resize(65535, b'a');
    assert!(matches!(reader.accept_request(&text), HeadStep::NeedMore));
    assert_eq!(reader.read_capacity(), 1);
    assert_eq!(reader.accept_request(b"a"), HeadStep::Failed(HeadError::HeadTooLarge));
}

#[test]
fn a_closed_connection_and_garbage_give_no_head() {
    let mut reader = HeadReader::new();
    assert_eq!(reader.accept_request(b""), HeadStep::Failed(HeadError::ConnectionClosed));
    let mut reader = HeadReader::new();
    assert_eq!(reader.accept_request(b"\x00\x01\x02 nonsense\r\n\r\n"), HeadStep::Failed(HeadError::InvalidHead));
    let mut reader = HeadReader::new();
    assert_eq!(reader.accept_response(b"HTTP/9.9 200 OK\r\n\r\n"), HeadStep::Failed(HeadError::InvalidHead));
    let mut reader = HeadReader::new();
    assert!(matches!(reader.accept_response(b"HTTP/1.1 200 OK\r\n"), HeadStep::NeedMore));
    assert_eq!(reader.accept_response(b""), HeadStep::Failed(HeadError::ConnectionClosed));
}

#[test]
fn the_head_ends_where_the_body_starts() {
    let text = b"POST /p HTTP/1.0\r\nA: 1\r\nB: 2\r\n\r\nbody";
    let mut reader = HeadReader::new();
    match reader.accept_request(text) {
        HeadStep::Done(head, remnant) => {
            assert_eq!(remnant, b"body".to_vec());
            assert_eq!(head.method, Some(b"POST".to_vec()));
            assert_eq!(head.version, Some(0));
            assert_eq!(head.headers, vec![header("A", b"1"), header("B", b"2")]);
        }
        other => panic!("unexpected {other:?}"),
    }
    let mut reader = HeadReader::new();
    assert_eq!(reader.accept_request(b"POST /p HT"), HeadStep::NeedMore);
    assert_eq!(reader.filled_buf(), b"POST /p HT");
    assert_eq!(reader.accept_request(b"TP/3\r\n\r\n"), HeadStep::Failed(HeadError::InvalidHead));
    let mut reader = HeadReader::new();
    match reader.accept_response(b"HTTP/1.1 404 Not Found\r\n\r\n") {
        HeadStep::Done(head, remnant) => {
            assert!(remnant.is_empty());
            assert_eq!(head.code, Some(404));
            assert_eq!(head.reason, Some(b"Not Found".to_vec()));
            assert!(head.headers.is_empty());
        }
        other => panic!("unexpected {other:?}"),
    }
}

#[test]
fn a_parse_is_concluded_by_what_was_read() {
    let mut reader = HeadReader::new();
    assert!(reader.accept(b"0123456789"));
    assert_eq!(reader.conclude(HeadParse::Complete("head", 4)), HeadStep::Done("head", b"456789".to_vec()));
    let mut reader = HeadReader::new();
    assert!(reader.accept(b"0123"));
    assert_eq!(reader.conclude(HeadParse::Complete((), 4)), HeadStep::Done((), vec![]));
    let mut reader = HeadReader::new();
    assert!(reader.accept(b"0123"));
    assert_eq!(reader.conclude(HeadParse::Complete((), 5)), HeadStep::Failed(HeadError::InvalidHead));
    assert_eq!(reader.conclude(HeadParse::<()>::Partial), HeadStep::NeedMore);
    assert_eq!(reader.conclude(HeadParse::<()>::Invalid), HeadStep::Failed(HeadError::InvalidHead));
    assert!(!reader.accept(b""));
    assert!(reader.accept(&vec![0u8; 65532]));
    assert_eq!(reader.conclude(HeadParse::<()>::Partial), HeadStep::Failed(HeadError::HeadTooLarge));
}

#[test]
fn more_than_32_headers_are_no_head() {
    let mut text = b"GET / HTTP/1.1\r\n".to_vec();
    for i in 0..33 {
        text.extend_from_slice(format!("H{i}: v\r\n").as_bytes());
    }
    text.extend_from_slice(b"\r\n");
    let mut reader = HeadReader::new();
    assert_eq!(reader.accept_request(&text), HeadStep::Failed(HeadError::InvalidHead));
}

#[test]
fn headers_are_found_by_name_without_case_and_first_wins() {
    let headers = vec![
        header("Host", b"first"),
        header("X-Other", b"x"),
        header("HOST", b"second"),
    ];
    assert_eq!(headers.get_header_value("host"), Some(&b"first"[..]));
    assert_eq!(headers.get_header_value("hOsT"), Some(&b"first"[..]));
    assert_eq!(headers.get_header_value("x-other"), Some(&b"x"[..]));
    assert_eq!(headers.get_header_value("Hos"), None);
    assert_eq!(headers.get_header_value("Hostx"), None);
    assert_eq!(Vec::<HttpHeader>::new().get_header_value("Host"), None);
}

fn disguised_head(key: &[u8; 32]) -> HttpRequestHead {
    let request = Request {
        request: inner_request(),
        websocket_key: (0u8..16).collect(),
        host: "example.com".to_string(),
    };
    let text = request.send_over_http(b"a fairly long archived request body", key).unwrap();
    read_request(&text, 4096).0
}

#[test]
fn a_corrupted_overflow_is_refused_and_answered_with_404() {
    let key = [4u8; 32];
    let mut head = disguised_head(&key);
    let overflow = head
        .headers
        .iter_mut()
        .find(|h| h.name.eq_ignore_ascii_case(b"authorization"))
        .expect("an overflow header");
    let at = overflow.value.iter().position(|b| *b != b'/').unwrap();
    overflow.value[at] = if overflow.value[at] == b'A' { b'B' } else { b'A' };

    let parsed = Request::parse(&head, &key);
    assert!(matches!(parsed, Err(CamoError::Sealed(_))), "{parsed:?}");

    let (session, action) = ServerSession::handle_connection(None);
    assert!(session.is_none());
    assert_eq!(
        action,
        ServerAction::RefuseAndClose(b"HTTP/1.1 404 Not Found\r\n\r\n".to_vec())
    );
    assert_eq!(not_found_response(), b"HTTP/1.1 404 Not Found\r\n\r\n".to_vec());
}

#[test]
fn a_request_under_another_key_is_refused() {
    let head = disguised_head(&[4u8; 32]);
    assert_eq!(
        Request::parse(&head, &[5u8; 32]),
        Err(CamoError::Sealed(ProtocolError::SealBroken))
    );
}

#[test]
fn a_request_must_ask_for_the_upgrade_and_carry_a_key() {
    let key = [4u8; 32];
    let good = disguised_head(&key);
    assert!(Request::parse(&good, &key).is_ok());

    let mut no_path = good.clone();
    no_path.path = None;
    assert_eq!(Request::parse(&no_path, &key), Err(CamoError::MissingPath));

    let mut no_upgrade = good.clone();
    no_upgrade.headers.retain(|h| !h.name.eq_ignore_ascii_case(b"upgrade"));
    assert_eq!(Request::parse(&no_upgrade, &key), Err(CamoError::MissingUpgrade));

    let mut other_upgrade = good.clone();
    for h in other_upgrade.headers.iter_mut() {
        if h.name.eq_ignore_ascii_case(b"upgrade") {
            h.value = b"h2c".to_vec();
        }
    }
    assert_eq!(Request::parse(&other_upgrade, &key), Err(CamoError::MissingUpgrade));

    let mut loud_upgrade = good.clone();
    for h in loud_upgrade.headers.iter_mut() {
        if h.name.eq_ignore_ascii_case(b"upgrade") {
            h.name = b"UPGRADE".to_vec();
            h.value = b"WebSocket".to_vec();
        }
    }
    assert!(Request::parse(&loud_upgrade, &key).is_ok());

    let mut no_key = good.clone();
    no_key.headers.retain(|h| !h.name.eq_ignore_ascii_case(b"sec-websocket-key"));
    assert_eq!(Request::parse(&no_key, &key), Err(CamoError::MissingWebsocketKey));

    let mut bad_key = good.clone();
    for h in bad_key.headers.iter_mut() {
        if h.name.eq_ignore_ascii_case(b"sec-websocket-key") {
            h.value = b"not base64!".to_vec();
        }
    }
    assert_eq!(Request::parse(&bad_key, &key), Err(CamoError::MissingWebsocketKey));

    let mut no_host = good.clone();
    no_host.headers.retain(|h| !h.name.eq_ignore_ascii_case(b"host"));
    assert_eq!(Request::parse(&no_host, &key).unwrap().host, "");
}

#[test]
fn a_response_must_carry_both_headers() {
    let key = [4u8; 32];
    let response = Response {
        response: protocol::Response::Error { msg: "no".to_string(), timestamp_epoch_seconds: 1 },
        websocket_key: vec![1, 2, 3],
    };
    let text = response.send_over_http(b"archived", &key).unwrap();
    let (good, _) = read_response(&text, 4096);
    assert_eq!(Response::parse(&good, &key).unwrap().archived, b"archived".to_vec());
    assert_eq!(
        Response::parse(&good, &[0u8; 32]),
        Err(CamoError::Sealed(ProtocolError::SealBroken))
    );

    let mut no_result = good.clone();
    no_result.headers.retain(|h| !h.name.eq_ignore_ascii_case(b"x-cache-result"));
    assert_eq!(Response::parse(&no_result, &key), Err(CamoError::MissingResult));

    let mut bad_result = good.clone();
    for h in bad_result.headers.iter_mut() {
        if h.name.eq_ignore_ascii_case(b"x-cache-result") {
            h.value.push(b'*');
        }
    }
    assert_eq!(Response::parse(&bad_result, &key), Err(CamoError::InvalidResult));

    let mut no_accept = good.clone();
    no_accept.headers.retain(|h| !h.name.eq_ignore_ascii_case(b"sec-websocket-accept"));
    assert_eq!(Response::parse(&no_accept, &key), Err(CamoError::MissingAccept));

    let mut bad_accept = good.clone();
    for h in bad_accept.headers.iter_mut() {
        if h.name.eq_ignore_ascii_case(b"sec-websocket-accept") {
            h.value = b"=".to_vec();
        }
    }
    assert_eq!(Response::parse(&bad_accept, &key), Err(CamoError::InvalidAccept));

    let mut short = good.clone();
    for h in short.headers.iter_mut() {
        if h.name.eq_ignore_ascii_case(b"x-cache-result") {
            h.value = b"AAEC".to_vec();
        }
    }
    assert_eq!(
        Response::parse(&short, &key),
        Err(CamoError::Sealed(ProtocolError::SealTooShort))
    );
}

#[test]
fn the_websocket_key_is_sent_as_url_safe_base64_without_padding() {
    for (key, text) in [
        (vec![], &b""[..]),
        (vec![0xfb], &b"-w"[..]),
        (vec![0xfb, 0xff], &b"-_8"[..]),
        (vec![0xfb, 0xff, 0xfe], &b"-__-"[..]),
        (b"\xfb\xff\xfe hello".to_vec(), &b"-__-IGhlbGxv"[..]),
        (vec![0, 0x10, 0x83, 0x10, 0x51, 0x87], &b"ABCDEFGH"[..]),
    ] {
        let request = Request { request: inner_request(), websocket_key: key.clone(), host: "h".to_string() };
        let sent = request.send_over_http(b"archive", &[1u8; 32]).unwrap();
        let (head, _, _) = read_request(&sent, 4096);
        assert_eq!(head.headers.get_header_value("Sec-WebSocket-Key").unwrap(), text);
        if !key.is_empty() {
            assert_eq!(Request::parse(&head, &[1u8; 32]).unwrap().websocket_key, key);
        }
    }
}
