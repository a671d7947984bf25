use std::io::{self, Read, Write};
use std::sync::mpsc::Sender;
use tiny_http::framing::{is_chunked_only, read_framing, BodyPlan, Refusal};
use tiny_http::io_error::ignore_client_closing_errors;
use tiny_http::request::{AnswerAction, Body, NewRequest, PendingRequest, CLOSED_EARLY};
use tiny_http::{
    new_request, ErrorKind, HTTPVersion, Header, IoError, Method, Request, RequestCreationError,
    StatusCode,
};

type Source = &'static [u8];
type Built = Request<Body<Source>, io::Sink, String, Sender<()>>;
type Pending = PendingRequest<Source, io::Sink, String, Sender<()>>;

fn f<T: Send>(_: &T) {}

fn bar(rq: &Request<Box<dyn Read + Send>, Box<dyn io::Write + Send>, String, Sender<()>>) {
    f(rq);
}

#[test]
fn must_be_send() {
    let _ = bar;
}

fn start(
    method: Method,
    headers: Vec<Header>,
    body: &'static str,
) -> Result<NewRequest<Source, io::Sink, String, Sender<()>>, RequestCreationError<io::Error>> {
    new_request(
        false,
        method,
        "/".to_string(),
        HTTPVersion::from((1, 1)),
        headers,
        None,
        body.as_bytes(),
        io::sink(),
    )
}

fn build_with(
    method: Method,
    headers: Vec<Header>,
    body: &'static str,
) -> Result<Built, RequestCreationError<io::Error>> {
    let mut state = start(method, headers, body)?;
    loop {
        match state {
            NewRequest::Ready(request) => return Ok(request),
            NewRequest::ReadBody(mut pending) => {
                // two bytes at a time, to make it more than one read
                let mut buf = vec![0u8; pending.wanted().min(2)];
                let n = pending.source_mut().read(&mut buf).unwrap();
                buf.truncate(n);
                state = pending.received(Ok(buf))?;
            }
        }
    }
}

fn build(headers: Vec<Header>, body: &'static str) -> Result<Built, RequestCreationError<io::Error>> {
    build_with(Method::Post, headers, body)
}

fn header(field: &str, value: &str) -> Header {
    Header::from_bytes(field.as_bytes(), value.as_bytes()).unwrap()
}

fn te_header(value: &str) -> Header {
    Header::from_bytes(&b"Transfer-Encoding"[..], value.as_bytes()).unwrap()
}

fn cl_header(value: &str) -> Header {
    Header::from_bytes(&b"Content-Length"[..], value.as_bytes()).unwrap()
}

// A bare "chunked" coding is accepted.
#[test]
fn transfer_encoding_chunked_is_accepted() {
    let body = "5\r\nhello\r\n0\r\n\r\n";
    assert!(build(vec![te_header("chunked")], body).is_ok());
    assert!(build(vec![te_header("  Chunked  ")], body).is_ok());
}

// An unrecognized or non-chunked coding is not silently treated as chunked.
#[test]
fn transfer_encoding_identity_is_rejected() {
    let err = build(vec![te_header("identity")], "hello").unwrap_err();
    assert!(matches!(err, RequestCreationError::InvalidTransferEncoding));
}

// A coding list where "chunked" is not the (only) final coding is rejected
// rather than decoded as chunked.
#[test]
fn transfer_encoding_coding_list_is_rejected() {
    let body = "5\r\nhello\r\n0\r\n\r\n";
    let err = build(vec![te_header("chunked, identity")], body).unwrap_err();
    assert!(matches!(err, RequestCreationError::InvalidTransferEncoding));

    let err = build(vec![te_header("gzip, chunked")], body).unwrap_err();
    assert!(matches!(err, RequestCreationError::InvalidTransferEncoding));
}

// RFC 9112 #6.1: a message with both Transfer-Encoding and Content-Length is
// rejected.
#[test]
fn transfer_encoding_with_content_length_is_rejected() {
    let err = build(vec![te_header("chunked"), cl_header("5")], "hello").unwrap_err();
    assert!(matches!(err, RequestCreationError::InvalidTransferEncoding));
}

#[test]
fn chunked_values_are_told_apart() {
    assert!(is_chunked_only(b"chunked"));
    assert!(is_chunked_only(b"\t CHUNKED\r\n"));
    assert!(!is_chunked_only(b""));
    assert!(!is_chunked_only(b"chunked,"));
    assert!(!is_chunked_only(b",chunked"));
    assert!(!is_chunked_only(b"chunked chunked"));
    assert!(!is_chunked_only(b"xchunked"));
}

#[test]
fn a_chunked_body_has_no_length() {
    let mut request = build(vec![te_header("chunked")], "0\r\n\r\n").unwrap();
    assert_eq!(request.body_length(), None);
    let (interim, body, _) = request.as_reader();
    assert!(interim.is_none());
    assert!(matches!(body, Body::Chunked(_)));
}

#[test]
fn a_chunked_body_is_decoded_from_the_source() {
    let request = build(vec![te_header("chunked")], "5\r\nhello\r\n0\r\n\r\n").unwrap();
    let mut request = request.map_reader(|body| match body {
        Body::Chunked(source) => chunked_transfer::Decoder::new(source),
        other => panic!("unexpected {:?}", other),
    });
    let mut string = String::new();
    request.as_reader().1.read_to_string(&mut string).unwrap();
    assert_eq!(string, "hello");
}

#[test]
fn a_bad_encoding_is_reported_before_a_bad_expectation() {
    let headers = vec![header("Expect", "tea"), te_header("identity")];
    let err = build(headers, "").unwrap_err();
    assert!(matches!(err, RequestCreationError::InvalidTransferEncoding));
}

#[test]
fn only_the_first_length_and_connection_count() {
    let framing = read_framing(&[cl_header("7"), cl_header("9")]).unwrap();
    assert_eq!(framing.content_length, Some(7));
    let headers = [header("Connection", "close"), header("Connection", "upgrade")];
    assert!(!read_framing(&headers).unwrap().connection_upgrade);
}

#[test]
fn every_transfer_encoding_has_to_be_chunked() {
    let body = "5\r\nhello\r\n0\r\n\r\n";
    let err = build(vec![te_header("chunked"), te_header("identity")], body).unwrap_err();
    assert!(matches!(err, RequestCreationError::InvalidTransferEncoding));
    let err = build(vec![te_header("identity"), te_header("chunked")], body).unwrap_err();
    assert!(matches!(err, RequestCreationError::InvalidTransferEncoding));
    assert!(build(vec![te_header("chunked"), te_header("Chunked")], body).is_ok());
}

#[test]
fn every_expectation_has_to_be_known() {
    let headers = vec![header("Expect", "100-continue"), header("Expect", "tea")];
    let err = build(headers, "").unwrap_err();
    assert!(matches!(err, RequestCreationError::ExpectationFailed));
    let headers = vec![header("Expect", "100-continue"), header("Expect", "100-CONTINUE")];
    assert!(build(headers, "").unwrap().as_reader().0.is_some());
}

#[test]
fn header_names_are_compared_without_case() {
    let framing = read_framing(&[header("cOnTeNt-lEnGtH", "12")]).unwrap();
    assert_eq!(framing.content_length, Some(12));
    assert!(header("EXPECT", "").field().equiv("Expect"));
    assert!(!header("EXPECT", "").field().equiv("Expected"));
    assert!(!header("EXPECT", "").field().equiv("\u{e9}xpect"));
}

#[test]
fn headers_are_ascii() {
    assert!(Header::from_bytes("\u{e9}".as_bytes(), b"x").is_err());
    assert!(Header::from_bytes(b"x", "\u{e9}".as_bytes()).is_err());
    let header = Header::from_bytes(b"", b"v").unwrap();
    assert_eq!(header.value(), b"v");
}

#[test]
fn lengths_are_decimal_numbers() {
    let length = |value: &str| read_framing(&[cl_header(value)]).unwrap().content_length;
    assert_eq!(length("0"), Some(0));
    assert_eq!(length("0042"), Some(42));
    assert_eq!(length("+5"), Some(5));
    assert_eq!(length("18446744073709551615"), Some(usize::MAX));
    assert_eq!(length("18446744073709551616"), None);
    assert_eq!(length("99999999999999999999999"), None);
    assert_eq!(length(""), None);
    assert_eq!(length("+"), None);
    assert_eq!(length("++5"), None);
    assert_eq!(length("-0"), None);
    assert_eq!(length(" 5"), None);
    assert_eq!(length("5a"), None);
}

#[test]
fn a_malformed_length_means_no_body() {
    let mut request = build(vec![cl_header("five")], "hello").unwrap();
    assert_eq!(request.body_length(), None);
    assert!(matches!(request.as_reader().1, Body::Empty));
}

#[test]
fn no_header_means_no_body() {
    let mut request = build(vec![], "hello").unwrap();
    assert_eq!(request.body_length(), None);
    assert!(matches!(request.as_reader().1, Body::Empty));
    let mut request = build(vec![cl_header("0")], "hello").unwrap();
    assert_eq!(request.body_length(), Some(0));
    assert!(matches!(request.as_reader().1, Body::Empty));
}

#[test]
fn a_small_body_is_read_at_once() {
    let mut request = build(vec![cl_header("5")], "hello world").unwrap();
    assert_eq!(request.body_length(), Some(5));
    match request.as_reader().1 {
        Body::Buffered(bytes) => assert_eq!(bytes, b"hello"),
        other => panic!("unexpected {:?}", other),
    }
}

#[test]
fn body_plans_depend_on_length_expectation_and_upgrade() {
    let plan = |headers: &[Header]| read_framing(headers).unwrap().plan();
    assert!(matches!(plan(&[cl_header("1024")]), BodyPlan::Buffer(1024)));
    assert!(matches!(plan(&[cl_header("1025")]), BodyPlan::Limit(1025)));
    assert!(matches!(
        plan(&[cl_header("10"), header("Expect", "100-Continue")]),
        BodyPlan::Limit(10)
    ));
    assert!(matches!(
        plan(&[cl_header("10"), header("Connection", "keep-alive, UpGrade")]),
        BodyPlan::Whole
    ));
    assert!(matches!(plan(&[header("Connection", "close")]), BodyPlan::Empty));
    assert!(matches!(plan(&[te_header("chunked")]), BodyPlan::Chunked));
}

#[test]
fn a_large_body_is_limited() {
    let mut request = build(vec![cl_header("2000")], "hello").unwrap();
    match request.as_reader().1 {
        Body::Limited(reader) => assert_eq!(reader.begin_read(4096), Some(2000)),
        other => panic!("unexpected {:?}", other),
    }
}

#[test]
fn an_upgrade_keeps_the_whole_source() {
    let headers = vec![header("Connection", "Upgrade"), cl_header("3")];
    let mut request = build(headers, "hello").unwrap();
    assert_eq!(request.body_length(), Some(3));
    match request.as_reader().1 {
        Body::Whole(source) => assert_eq!(*source, b"hello"),
        other => panic!("unexpected {:?}", other),
    }
}

#[test]
fn a_body_that_ends_too_early_is_an_error() {
    let err = build(vec![cl_header("10")], "hello").unwrap_err();
    match err {
        RequestCreationError::CreationIoError(IoError::Raised { kind, info }) => {
            assert_eq!(kind, ErrorKind::ConnectionAborted);
            assert_eq!(info, "Connection has been closed before we received enough data");
            assert_eq!(info, CLOSED_EARLY);
        }
        other => panic!("unexpected {:?}", other),
    }
}

fn pending(length: &str) -> Pending {
    match start(Method::Post, vec![cl_header(length)], "hello") {
        Ok(NewRequest::ReadBody(pending)) => pending,
        other => panic!("unexpected {:?}", other),
    }
}

#[test]
fn an_error_while_reading_the_body_is_handed_on() {
    let pending = pending("5");
    assert_eq!(pending.wanted(), 5);
    let error = io::Error::new(io::ErrorKind::TimedOut, "late");
    let reported = IoError::Reported { kind: ErrorKind::Other, error };
    match pending.received(Err(reported)) {
        Err(RequestCreationError::CreationIoError(IoError::Reported { kind, error })) => {
            assert_eq!(kind, ErrorKind::Other);
            assert_eq!(error.kind(), io::ErrorKind::TimedOut);
        }
        other => panic!("unexpected {:?}", other),
    }
}

#[test]
fn wanted_goes_down_with_what_came() {
    match pending("5").received::<()>(Ok(b"he".to_vec())).unwrap() {
        NewRequest::ReadBody(pending) => {
            assert_eq!(pending.wanted(), 3);
            assert!(matches!(
                pending.received::<()>(Ok(b"llo".to_vec())),
                Ok(NewRequest::Ready(_))
            ));
        }
        other => panic!("unexpected {:?}", other),
    }
}

#[test]
fn an_unknown_expectation_fails() {
    let err = build(vec![header("Expect", "200-ok")], "").unwrap_err();
    assert!(matches!(err, RequestCreationError::ExpectationFailed));
    assert_eq!(
        read_framing(&[header("Expect", " 100-continue")]).unwrap_err(),
        Refusal::ExpectationFailed
    );
}

#[test]
fn continue_is_sent_once() {
    let headers = vec![header("Expect", "100-continue"), cl_header("5")];
    let mut request = build(headers, "hello").unwrap();
    {
        let (interim, _, _) = request.as_reader();
        let interim = interim.unwrap();
        assert_eq!(interim.status, StatusCode(100));
        assert_eq!(interim.http_version, HTTPVersion(1, 1));
        assert_eq!(interim.headers.len(), 2);
        assert!(interim.do_not_send_body);
    }
    assert!(request.as_reader().0.is_none());
}

#[test]
fn getters_return_what_came_in() {
    let request: Result<NewRequest<Source, u8, &str, ()>, RequestCreationError<()>> = new_request(
        true,
        Method::NonStandard("BREW".to_string()),
        "/pot".to_string(),
        HTTPVersion(1, 0),
        vec![header("Accept", "tea")],
        Some("here"),
        b"",
        1u8,
    );
    match request {
        Ok(NewRequest::Ready(request)) => {
            assert!(request.secure());
            assert_eq!(request.method().as_str(), "BREW");
            assert_eq!(request.url(), "/pot");
            assert_eq!(*request.http_version(), HTTPVersion(1, 0));
            assert_eq!(request.headers().len(), 1);
            assert_eq!(request.headers()[0].value(), b"tea");
            assert_eq!(request.remote_addr(), Some(&"here"));
            assert_eq!(
                request.description("Some(here)"),
                "Request(BREW /pot from Some(here))"
            );
        }
        other => panic!("unexpected {:?}", other),
    }
}

#[test]
fn methods_have_their_names() {
    assert_eq!(Method::Get.as_str(), "GET");
    assert_eq!(Method::Head.as_str(), "HEAD");
    assert_eq!(Method::Patch.as_str(), "PATCH");
}

#[test]
fn only_head_requests_are_answered_without_a_body() {
    let answer = build_with(Method::Head, vec![], "").unwrap().respond();
    assert!(answer.printing.do_not_send_body);
    let answer = build_with(Method::Get, vec![], "").unwrap().respond();
    assert!(!answer.printing.do_not_send_body);
    assert!(answer.printing.upgrade.is_none());
    assert_eq!(answer.printing.http_version, HTTPVersion(1, 1));
}

#[test]
fn an_abandoned_request_is_answered_with_500() {
    let (status, answer) = build_with(Method::Head, vec![], "").unwrap().abandon().unwrap();
    assert_eq!(status, StatusCode(500));
    assert!(answer.printing.do_not_send_body);
}

#[test]
fn an_upgrade_gives_up_reader_and_writer() {
    let request = build(vec![header("Connection", "upgrade")], "rest").unwrap();
    let (printing, mut stream) = request.upgrade("websocket");
    assert_eq!(printing.upgrade, Some("websocket"));
    assert!(!printing.do_not_send_body);
    assert_eq!(printing.headers.len(), 1);
    assert!(matches!(stream.inner_mut().0, Body::Whole(b"rest")));
    assert!(stream.give_up().is_none());
}

#[test]
fn the_notification_follows_the_writer() {
    let (tx, rx) = std::sync::mpsc::channel();
    let request = build(vec![], "").unwrap().with_notify_sender(tx);
    let mut writer = request.into_writer();
    writer.inner_mut().write_all(b"hello").unwrap();
    assert!(rx.try_recv().is_err());
    writer.give_up().unwrap().send(()).unwrap();
    assert!(rx.recv().is_ok());
    assert!(writer.give_up().is_none());
}

#[test]
fn the_notification_follows_the_upgraded_stream() {
    let (tx, rx) = std::sync::mpsc::channel();
    let headers = vec![header("Connection", "upgrade")];
    let request = build(headers, "rest").unwrap().with_notify_sender(tx);
    let (_, mut stream) = request.upgrade("websocket");
    stream.inner_mut().1.write_all(b"hello").unwrap();
    assert!(rx.try_recv().is_err());
    stream.give_up().unwrap().send(()).unwrap();
    assert!(rx.recv().is_ok());
    assert!(stream.give_up().is_none());
}

#[test]
fn a_request_whose_writer_was_taken_is_answered() {
    let mut request = build(vec![cl_header("5")], "hello").unwrap();
    let _writer = request.extract_writer_impl();
    assert_eq!(request.body_length(), Some(5));
    assert_eq!(request.url(), "/");
    assert!(matches!(request.extract_reader_impl(), Body::Buffered(_)));
    assert!(request.abandon().is_none());
}

fn reported(kind: ErrorKind) -> Result<(), IoError<u8>> {
    Err(IoError::Reported { kind, error: 3 })
}

#[test]
fn client_closing_errors_are_ignored() {
    for kind in [
        ErrorKind::BrokenPipe,
        ErrorKind::ConnectionAborted,
        ErrorKind::ConnectionRefused,
        ErrorKind::ConnectionReset,
    ] {
        assert!(ignore_client_closing_errors(reported(kind)).is_ok());
    }
    assert!(ignore_client_closing_errors::<u8>(Ok(())).is_ok());
    assert!(matches!(
        ignore_client_closing_errors(reported(ErrorKind::Other)),
        Err(IoError::Reported { kind: ErrorKind::Other, error: 3 })
    ));
}

#[test]
fn an_answer_is_printed_then_flushed_then_notified() {
    let (tx, _rx) = std::sync::mpsc::channel();
    let mut answer = build(vec![], "").unwrap().with_notify_sender(tx).respond();
    assert!(matches!(
        answer.printed(reported(ErrorKind::BrokenPipe)),
        AnswerAction::Flush
    ));
    assert!(matches!(
        answer.flushed::<u8>(Ok(())),
        AnswerAction::Finish { notify: Some(_), result: Ok(()) }
    ));
}

#[test]
fn an_answer_that_fails_is_notified_too() {
    let (tx, _rx) = std::sync::mpsc::channel();
    let mut answer = build(vec![], "").unwrap().with_notify_sender(tx).respond();
    assert!(matches!(
        answer.printed(reported(ErrorKind::Other)),
        AnswerAction::Finish { notify: Some(_), result: Err(_) }
    ));
    let (tx, _rx) = std::sync::mpsc::channel();
    let mut answer = build(vec![], "").unwrap().with_notify_sender(tx).respond();
    assert!(matches!(
        answer.flushed(reported(ErrorKind::Other)),
        AnswerAction::Finish { notify: Some(_), result: Err(_) }
    ));
}

#[test]
fn a_reader_can_be_wrapped() {
    let request = build(vec![cl_header("5")], "hello").unwrap();
    let mut request = request.map_reader(|body| match body {
        Body::Buffered(bytes) => bytes.len(),
        _ => 0,
    });
    assert_eq!(*request.as_reader().1, 5);
    assert_eq!(request.body_length(), Some(5));
}
