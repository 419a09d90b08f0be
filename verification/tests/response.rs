use proxy_server::decimal::push_decimal;
use proxy_server::response::error_body_bytes;
use proxy_server::response::OutboundResponse;
use proxy_server::response::Status;
use proxy_server::upstream::status_is_success;
use proxy_server::upstream::UpstreamOutcome;

fn render_decimal(n: usize) -> Vec<u8> {
    let mut out = Vec::new();
    push_decimal(&mut out, n);
    out
}

#[test]
fn decimal_of_zero_is_one_digit() {
    assert_eq!(render_decimal(0), b"0".to_vec());
}

#[test]
fn decimal_of_small_numbers() {
    assert_eq!(render_decimal(5), b"5".to_vec());
    assert_eq!(render_decimal(9), b"9".to_vec());
    assert_eq!(render_decimal(10), b"10".to_vec());
    assert_eq!(render_decimal(19), b"19".to_vec());
    assert_eq!(render_decimal(21), b"21".to_vec());
    assert_eq!(render_decimal(100), b"100".to_vec());
    assert_eq!(render_decimal(4096), b"4096".to_vec());
    assert_eq!(render_decimal(1234567890), b"1234567890".to_vec());
}

#[test]
fn decimal_of_largest_number() {
    assert_eq!(render_decimal(usize::MAX), format!("{}", usize::MAX).into_bytes());
}

#[test]
fn decimal_is_appended_behind_what_is_there() {
    let mut out = b"Content-Length: ".to_vec();
    push_decimal(&mut out, 305);
    assert_eq!(out, b"Content-Length: 305".to_vec());
}

#[test]
fn decimal_agrees_with_std_formatting() {
    let mut n: usize = 0;
    while n < 3000 {
        assert_eq!(render_decimal(n), format!("{}", n).into_bytes());
        n += 7;
    }
}

#[test]
fn success_statuses_are_200_to_299() {
    assert!(!status_is_success(0));
    assert!(!status_is_success(100));
    assert!(!status_is_success(199));
    assert!(status_is_success(200));
    assert!(status_is_success(204));
    assert!(status_is_success(299));
    assert!(!status_is_success(300));
    assert!(!status_is_success(404));
    assert!(!status_is_success(500));
    assert!(!status_is_success(u16::MAX));
}

#[test]
fn reply_with_success_status_delivers() {
    let outcome = UpstreamOutcome::from_reply(200, b"hello".to_vec());
    assert!(outcome.delivers());
    match outcome {
        UpstreamOutcome::Success { status_is_ok, body } => {
            assert!(status_is_ok);
            assert_eq!(body, b"hello".to_vec());
        }
        UpstreamOutcome::TransportFailure { .. } => panic!("a reply is no transport failure"),
    }
}

#[test]
fn reply_with_other_status_keeps_body_but_does_not_deliver() {
    let outcome = UpstreamOutcome::from_reply(404, b"not here".to_vec());
    assert!(!outcome.delivers());
    match outcome {
        UpstreamOutcome::Success { status_is_ok, body } => {
            assert!(!status_is_ok);
            assert_eq!(body, b"not here".to_vec());
        }
        UpstreamOutcome::TransportFailure { .. } => panic!("a reply is no transport failure"),
    }
}

#[test]
fn transport_failure_does_not_deliver() {
    let outcome = UpstreamOutcome::transport_failure(String::from("connection refused"));
    assert!(!outcome.delivers());
    match outcome {
        UpstreamOutcome::TransportFailure { cause } => assert_eq!(cause, "connection refused"),
        UpstreamOutcome::Success { .. } => panic!("a failure is no reply"),
    }
}

#[test]
fn error_body_is_the_fixed_text() {
    assert_eq!(error_body_bytes(), b"Google Request Failed".to_vec());
    assert_eq!(error_body_bytes().len(), 21);
}

#[test]
fn success_response_on_the_wire() {
    let response = OutboundResponse::success(b"hello".to_vec());
    assert_eq!(response.status(), Status::Success);
    assert_eq!(response.content_length(), 5);
    assert_eq!(response.body(), &b"hello".to_vec());
    assert_eq!(
        response.to_bytes(),
        b"HTTP/1.1 200 OK\r\nContent-Length: 5\r\n\r\nhello".to_vec()
    );
}

#[test]
fn success_response_with_empty_body() {
    let response = OutboundResponse::success(Vec::new());
    assert_eq!(response.content_length(), 0);
    assert_eq!(response.to_bytes(), b"HTTP/1.1 200 OK\r\nContent-Length: 0\r\n\r\n".to_vec());
}

#[test]
fn success_response_with_large_body() {
    let mut body: Vec<u8> = Vec::new();
    let mut i: usize = 0;
    while i < 70_000 {
        body.push((i % 251) as u8);
        i += 1;
    }
    let response = OutboundResponse::success(body.clone());
    assert_eq!(response.content_length(), 70_000);
    let wire = response.to_bytes();
    let head = b"HTTP/1.1 200 OK\r\nContent-Length: 70000\r\n\r\n".to_vec();
    assert_eq!(wire.len(), head.len() + 70_000);
    assert_eq!(wire[..head.len()].to_vec(), head);
    assert_eq!(wire[head.len()..].to_vec(), body);
}

#[test]
fn success_response_keeps_body_bytes_that_look_like_a_head() {
    let body = b"\r\n\r\nContent-Length: 99\r\n\r\n".to_vec();
    let response = OutboundResponse::success(body.clone());
    assert_eq!(response.content_length(), body.len());
    let mut expected = b"HTTP/1.1 200 OK\r\nContent-Length: 26\r\n\r\n".to_vec();
    expected.extend_from_slice(&body);
    assert_eq!(response.to_bytes(), expected);
}

#[test]
fn failure_response_on_the_wire() {
    let response = OutboundResponse::failure();
    assert_eq!(response.status(), Status::ServerError);
    assert_eq!(response.content_length(), 21);
    assert_eq!(response.body(), &b"Google Request Failed".to_vec());
    assert_eq!(
        response.to_bytes(),
        b"HTTP/1.1 500 Internal Server Error\r\nContent-Length: 21\r\n\r\nGoogle Request Failed"
            .to_vec()
    );
}

#[test]
fn response_for_delivering_outcome_relays_the_body() {
    let response = OutboundResponse::for_outcome(UpstreamOutcome::from_reply(204, b"abc".to_vec()));
    assert_eq!(response.status(), Status::Success);
    assert_eq!(response.to_bytes(), b"HTTP/1.1 200 OK\r\nContent-Length: 3\r\n\r\nabc".to_vec());
}

#[test]
fn response_for_non_success_status_is_the_error_response() {
    let response =
        OutboundResponse::for_outcome(UpstreamOutcome::from_reply(503, b"upstream is down".to_vec()));
    assert_eq!(response.status(), Status::ServerError);
    assert_eq!(response.to_bytes(), OutboundResponse::failure().to_bytes());
}

#[test]
fn response_for_transport_failure_is_the_error_response() {
    let response = OutboundResponse::for_outcome(UpstreamOutcome::transport_failure(String::from(
        "timed out",
    )));
    assert_eq!(response.status(), Status::ServerError);
    assert_eq!(response.content_length(), response.body().len());
    assert_eq!(response.to_bytes(), OutboundResponse::failure().to_bytes());
}

#[test]
fn declared_length_is_body_length_for_many_sizes() {
    let sizes: Vec<usize> = vec![0, 1, 9, 10, 11, 99, 100, 101, 999, 1000, 1024, 4095, 4096, 65536];
    for size in sizes {
        let response = OutboundResponse::success(vec![b'x'; size]);
        assert_eq!(response.content_length(), size);
        let wire = response.to_bytes();
        let head = format!("HTTP/1.1 200 OK\r\nContent-Length: {}\r\n\r\n", size).into_bytes();
        assert_eq!(wire.len(), head.len() + size);
        assert_eq!(wire[..head.len()].to_vec(), head);
    }
}
