use proxy_server::request::read_request_head;
use proxy_server::request::HeadReader;
use proxy_server::request::InboundRequest;
use proxy_server::request::ReadError;

fn lines_of(bytes: &[u8]) -> Vec<String> {
    match read_request_head(bytes) {
        Ok(request) => request.into_head_lines(),
        Err(error) => panic!("no head was read: {:?}", error),
    }
}

fn error_of(bytes: &[u8]) -> ReadError {
    match read_request_head(bytes) {
        Ok(_) => panic!("a head was read"),
        Err(error) => error,
    }
}

#[test]
fn head_of_a_plain_get() {
    assert_eq!(
        lines_of(b"GET / HTTP/1.1\r\nHost: x\r\n\r\n"),
        vec![String::from("GET / HTTP/1.1"), String::from("Host: x")]
    );
}

#[test]
fn head_with_bare_line_feeds() {
    assert_eq!(
        lines_of(b"GET / HTTP/1.1\nHost: x\n\n"),
        vec![String::from("GET / HTTP/1.1"), String::from("Host: x")]
    );
}

#[test]
fn head_stops_at_the_first_empty_line() {
    assert_eq!(
        lines_of(b"POST /upload HTTP/1.1\r\nContent-Length: 4\r\n\r\nbody\r\nmore\r\n\r\n"),
        vec![String::from("POST /upload HTTP/1.1"), String::from("Content-Length: 4")]
    );
}

#[test]
fn head_ignores_invalid_bytes_behind_the_empty_line() {
    assert_eq!(lines_of(b"GET / HTTP/1.1\r\n\r\n\xff\xfe\n"), vec![String::from("GET / HTTP/1.1")]);
}

#[test]
fn head_of_an_empty_stream_has_no_lines() {
    assert_eq!(lines_of(b""), Vec::<String>::new());
}

#[test]
fn head_that_starts_with_an_empty_line_has_no_lines() {
    assert_eq!(lines_of(b"\r\nGET / HTTP/1.1\r\n\r\n"), Vec::<String>::new());
    assert_eq!(lines_of(b"\n"), Vec::<String>::new());
}

#[test]
fn head_ends_where_the_stream_ends() {
    assert_eq!(
        lines_of(b"GET / HTTP/1.1\r\nHost: x\r\n"),
        vec![String::from("GET / HTTP/1.1"), String::from("Host: x")]
    );
}

#[test]
fn last_line_without_line_end_counts() {
    assert_eq!(
        lines_of(b"GET / HTTP/1.1\r\nHost: x"),
        vec![String::from("GET / HTTP/1.1"), String::from("Host: x")]
    );
}

#[test]
fn carriage_return_is_taken_off_only_before_a_line_feed() {
    assert_eq!(lines_of(b"abc\r"), vec![String::from("abc\r")]);
    assert_eq!(lines_of(b"a\rb\r\n\r\n"), vec![String::from("a\rb")]);
    assert_eq!(lines_of(b"abc\r\r\n\r\n"), vec![String::from("abc\r")]);
}

#[test]
fn line_of_one_carriage_return_is_no_empty_line() {
    assert_eq!(lines_of(b"\r\r\nnext\n\n"), vec![String::from("\r"), String::from("next")]);
}

#[test]
fn lines_are_decoded_as_utf8() {
    assert_eq!(
        lines_of("GET /caf\u{e9} HTTP/1.1\r\nX-Name: \u{4f60}\u{597d}\r\n\r\n".as_bytes()),
        vec![String::from("GET /caf\u{e9} HTTP/1.1"), String::from("X-Name: \u{4f60}\u{597d}")]
    );
}

#[test]
fn line_that_is_not_utf8_is_a_read_error() {
    assert_eq!(error_of(b"GET / HTTP/1.1\r\nX: \xff\r\n\r\n"), ReadError::InvalidText);
    assert_eq!(error_of(b"\xc3\n"), ReadError::InvalidText);
}

#[test]
fn last_line_that_is_not_utf8_is_a_read_error() {
    assert_eq!(error_of(b"GET / HTTP/1.1\r\n\xe4\xbd"), ReadError::InvalidText);
}

#[test]
fn reader_starts_out_reading() {
    let reader = HeadReader::new();
    assert!(reader.is_reading());
    assert!(!reader.is_complete());
}

#[test]
fn reader_completes_on_the_empty_line() {
    let reader = HeadReader::new().feed(b"GET / HTTP/1.1\r\n");
    assert!(reader.is_reading());
    let reader = reader.feed(b"Host: x\r\n");
    assert!(reader.is_reading());
    let reader = reader.feed(b"\r\n");
    assert!(!reader.is_reading());
    assert!(reader.is_complete());
    match reader.finish() {
        Ok(request) => assert_eq!(
            request.head_lines(),
            &vec![String::from("GET / HTTP/1.1"), String::from("Host: x")]
        ),
        Err(error) => panic!("no head was read: {:?}", error),
    }
}

#[test]
fn reader_takes_chunks_cut_anywhere() {
    let whole: &[u8] = b"GET /a HTTP/1.1\r\nHost: example\r\nAccept: */*\r\n\r\nrest";
    let expected = lines_of(whole);
    assert_eq!(expected.len(), 3);
    let mut cut: usize = 0;
    while cut <= whole.len() {
        let reader = HeadReader::new().feed(&whole[..cut]).feed(&whole[cut..]);
        assert!(reader.is_complete());
        match reader.finish() {
            Ok(request) => assert_eq!(request.into_head_lines(), expected),
            Err(error) => panic!("no head was read: {:?}", error),
        }
        cut += 1;
    }
}

#[test]
fn reader_takes_single_bytes() {
    let whole: &[u8] = b"GET / HTTP/1.1\r\nHost: x\r\n\r\n";
    let mut reader = HeadReader::new();
    for byte in whole {
        reader = reader.feed(&[*byte]);
    }
    assert!(reader.is_complete());
    match reader.finish() {
        Ok(request) => assert_eq!(
            request.into_head_lines(),
            vec![String::from("GET / HTTP/1.1"), String::from("Host: x")]
        ),
        Err(error) => panic!("no head was read: {:?}", error),
    }
}

#[test]
fn reader_ignores_what_follows_the_head() {
    let reader = HeadReader::new().feed(b"A\n\n").feed(b"B\n\xff\n");
    assert!(reader.is_complete());
    match reader.finish() {
        Ok(request) => assert_eq!(request.into_head_lines(), vec![String::from("A")]),
        Err(error) => panic!("no head was read: {:?}", error),
    }
}

#[test]
fn reader_stays_invalid() {
    let reader = HeadReader::new().feed(b"\xff\n");
    assert!(!reader.is_reading());
    assert!(!reader.is_complete());
    let reader = reader.feed(b"GET / HTTP/1.1\r\n\r\n");
    assert!(!reader.is_complete());
    match reader.finish() {
        Ok(_) => panic!("a head was read"),
        Err(error) => assert_eq!(error, ReadError::InvalidText),
    }
}

#[test]
fn reader_fed_nothing_is_unchanged() {
    let reader = HeadReader::new().feed(b"GET /").feed(b"").feed(b" HTTP/1.1");
    assert!(reader.is_reading());
    match reader.finish() {
        Ok(request) => assert_eq!(request.into_head_lines(), vec![String::from("GET / HTTP/1.1")]),
        Err(error) => panic!("no head was read: {:?}", error),
    }
}

#[test]
fn request_keeps_its_lines() {
    let lines = vec![String::from("GET / HTTP/1.1"), String::from("Host: x")];
    let request = InboundRequest::new(lines.clone());
    assert_eq!(request.head_lines(), &lines);
    assert_eq!(request.into_head_lines(), lines);
}
