//! The transport cores: HTTP routing and reply mapping, SSE framing and
//! reading, line splitting, and the command-line transport choice.

use techne::http::HttpReply;
use techne::http::Route;
use techne::http::SseDecoder;
use techne::http::http_reply;
use techne::http::route;
use techne::message::ErrorKind;
use techne::message::Id;
use techne::message::Message;
use techne::server::Reply;
use techne::server::TransportChoice;
use techne::server::choose_transport;
use techne::stdio::LineSplitter;
use techne::stdio::frame_line;
use techne::json::Json;
use techne::client::BodyKind;
use techne::client::classify_content_type;

#[test]
fn routing() {
    assert!(matches!(route("POST", "/"), Route::Handle));
    assert!(matches!(route("GET", "/"), Route::Subscribe));
    assert!(matches!(route("PUT", "/"), Route::MethodNotAllowed));
    assert!(matches!(route("POST", "/other"), Route::NotFound));
}

#[test]
fn single_reply_is_json_body() {
    let m = Message::response(Id(1), Json::Bool(true));
    let h = http_reply(Reply::Send(m));
    match &h {
        HttpReply::Json { status, body } => {
            assert_eq!(*status, 200);
            assert_eq!(body, br#"{"jsonrpc":"2.0","id":1,"result":true}"#);
        },
        _ => panic!("expected a json body"),
    }
    assert_eq!(h.content_type(), Some("application/json"));
}

#[test]
fn stream_reply_is_event_stream() {
    let frames = vec![
        Message::notification("a".to_owned(), None),
        Message::response(Id(2), Json::Null),
    ];
    let h = http_reply(Reply::Stream(frames));
    match &h {
        HttpReply::Sse { status, body } => {
            assert_eq!(*status, 200);
            assert_eq!(
                body,
                b"data:{\"jsonrpc\":\"2.0\",\"method\":\"a\"}\n\ndata:{\"jsonrpc\":\"2.0\",\"id\":2,\"result\":null}\n\n"
            );
        },
        _ => panic!("expected an event stream"),
    }
    assert_eq!(h.content_type(), Some("text/event-stream"));
}

#[test]
fn parse_error_replies_are_bad_requests() {
    let e = Message::Error(techne::message::Error::invalid_json("x".to_owned()));
    match http_reply(Reply::Send(e)) {
        HttpReply::Json { status, .. } => assert_eq!(status, 400),
        _ => panic!("expected a json body"),
    }
    let unknown = Message::error(Some(Id(1)), ErrorKind::new(-32601, "m".to_owned()));
    match http_reply(Reply::Send(unknown)) {
        HttpReply::Json { status, .. } => assert_eq!(status, 200),
        _ => panic!("expected a json body"),
    }
}

#[test]
fn statuses_without_bodies() {
    assert!(matches!(http_reply(Reply::Accept), HttpReply::Empty { status: 202 }));
    assert!(matches!(http_reply(Reply::Reject), HttpReply::Empty { status: 400 }));
    assert!(matches!(http_reply(Reply::Unsupported), HttpReply::Empty { status: 405 }));
}

#[test]
fn sse_reader_inverts_the_writer() {
    let frames = vec![
        Message::notification("one".to_owned(), None),
        Message::error(None, ErrorKind::new(-32700, "x".to_owned())),
        Message::response(Id(3), Json::Int(7)),
    ];
    let expected: Vec<Vec<u8>> = frames.iter().map(|f| f.serialize()).collect();
    let h = http_reply(Reply::Stream(frames));
    let body = match h {
        HttpReply::Sse { body, .. } => body,
        _ => panic!("expected an event stream"),
    };
    let mut reader = SseDecoder::new();
    let events = reader.push(&body);
    assert_eq!(events, expected);
}

#[test]
fn sse_reader_handles_arbitrary_chunking() {
    let frames = vec![Message::response(Id(1), Json::Bool(false))];
    let expected: Vec<Vec<u8>> = frames.iter().map(|f| f.serialize()).collect();
    let body = match http_reply(Reply::Stream(frames)) {
        HttpReply::Sse { body, .. } => body,
        _ => panic!("expected an event stream"),
    };
    let mut reader = SseDecoder::new();
    let mut events: Vec<Vec<u8>> = Vec::new();
    for chunk in body.chunks(3) {
        events.extend(reader.push(chunk));
    }
    assert_eq!(events, expected);
}

#[test]
fn line_splitter_inverts_line_framing() {
    let a = Message::request(Id(0), "ping".to_owned(), None);
    let b = Message::response(Id(0), Json::Obj(Vec::new()));
    let expected = vec![a.serialize(), b.serialize()];
    let mut stream = frame_line(&a);
    stream.extend(frame_line(&b));
    let mut splitter = LineSplitter::new();
    let mut lines: Vec<Vec<u8>> = Vec::new();
    for chunk in stream.chunks(5) {
        lines.extend(splitter.push(chunk));
    }
    assert_eq!(lines, expected);
}

#[test]
fn line_splitter_keeps_partial_lines_pending() {
    let mut splitter = LineSplitter::new();
    assert_eq!(splitter.push(b"abc"), Vec::<Vec<u8>>::new());
    assert_eq!(splitter.push(b"def\ng"), vec![b"abcdef".to_vec()]);
    assert_eq!(splitter.push(b"\n"), vec![b"g".to_vec()]);
}

#[test]
fn transport_choice() {
    let none: Vec<String> = vec![];
    assert!(matches!(choose_transport(&none), Ok(TransportChoice::Stdio)));
    let plain = vec!["--http".to_owned()];
    match choose_transport(&plain) {
        Ok(TransportChoice::Http(a)) => assert_eq!(a, "127.0.0.1:8080"),
        _ => panic!("expected the default address"),
    }
    let addressed = vec!["--http".to_owned(), "0.0.0.0:9000".to_owned()];
    match choose_transport(&addressed) {
        Ok(TransportChoice::Http(a)) => assert_eq!(a, "0.0.0.0:9000"),
        _ => panic!("expected the given address"),
    }
    let extra = vec!["--http".to_owned(), "a".to_owned(), "b".to_owned()];
    assert!(choose_transport(&extra).is_err());
    let unknown = vec!["--tcp".to_owned()];
    assert!(choose_transport(&unknown).is_err());
}

#[test]
fn classify_content_types() {
    assert!(matches!(classify_content_type("application/json"), BodyKind::SingleJson));
    assert!(matches!(classify_content_type("text/event-stream"), BodyKind::EventStream));
    assert!(matches!(classify_content_type("text/plain"), BodyKind::Unusable));
}
