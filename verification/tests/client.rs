//! The client core against a real server: handshake, listing, calling,
//! and the sifting of peer traffic.

use techne::client::ClientError;
use techne::client::Event;
use techne::client::Session;
use techne::client::Sift;
use techne::client::accept_initialize;
use techne::client::call_tool_request;
use techne::client::initialize_request;
use techne::client::is_response_frame;
use techne::client::list_tools_request;
use techne::client::parse_tools_list;
use techne::client::sift;
use techne::client::tool_outcome;
use techne::content::Content;
use techne::content::Outcome;
use techne::content::Unstructured;
use techne::handshake::Notification;
use techne::json::Json;
use techne::message::Message;
use techne::server::Handler;
use techne::server::Reply;
use techne::server::Server;
use techne::server::ToolRun;
use techne::tool::string;
use techne::tool::tool;

struct Greeter;

impl Handler for Greeter {
    fn run(&self, _tool: &String, args: Vec<Json>) -> ToolRun {
        let name = match &args[0] {
            Json::Str(s) => s.clone(),
            _ => panic!("expected a string"),
        };
        ToolRun { events: Vec::new(), outcome: Outcome::text(format!("Hello, {name}!")) }
    }
}

fn greeter_server() -> Server {
    Server::new("srv".to_owned(), "1".to_owned()).tools(vec![
        tool(string("name".to_owned(), "who".to_owned()))
            .name("say_hello".to_owned())
            .description("greets".to_owned()),
    ])
}

/// Runs one request through the server and hands back the response result.
fn exchange(server: &Server, request: &Message, want: u64) -> Json {
    let reply = server.handle(&request.serialize(), &Greeter);
    let frame = match reply {
        Reply::Send(m) => m,
        _ => panic!("expected a single reply"),
    };
    match sift(frame, want) {
        Sift::Done(result) => result,
        _ => panic!("expected the matching response"),
    }
}

#[test]
fn session_ids_count_up_from_zero() {
    let mut session = Session::new();
    let a = session.request("ping".to_owned(), None);
    let b = session.request("ping".to_owned(), None);
    let c = session.request("ping".to_owned(), None);
    let ids: Vec<u64> = [a, b, c]
        .into_iter()
        .map(|m| match m {
            Message::Request { id, .. } => id,
            _ => panic!("expected requests"),
        })
        .collect();
    assert_eq!(ids, vec![0, 1, 2]);
}

#[test]
fn handshake_against_the_server() {
    let server = greeter_server();
    let mut session = Session::new();
    let request = initialize_request(&mut session, "cli".to_owned(), "0".to_owned());
    let result = exchange(&server, &request, 0);
    let handle = accept_initialize(&result).expect("handshake must succeed");
    assert_eq!(handle.information().name, "srv");
    assert_eq!(handle.information().version, "1");
    assert!(handle.capabilities().tools.is_some());
    // The client then announces it is initialized; the server rejects the
    // notification without a reply.
    let note = Notification::Initialized.stamp();
    let reply = server.handle(&note.serialize(), &Greeter);
    assert!(matches!(reply, Reply::Reject));
}

#[test]
fn handshake_rejects_other_protocol_revisions() {
    let result = techne::parse::parse_json(
        br#"{"protocolVersion":"2024-01-01","capabilities":{},"serverInfo":{"name":"s","version":"0"}}"#,
    )
    .unwrap();
    assert_eq!(accept_initialize(&result).err(), Some(ClientError::Unsupported));
}

#[test]
fn handshake_rejects_malformed_results() {
    let result = techne::parse::parse_json(br#"{"protocolVersion":7}"#).unwrap();
    assert_eq!(accept_initialize(&result).err(), Some(ClientError::InvalidData));
}

#[test]
fn list_tools_against_the_server() {
    let server = greeter_server();
    let mut session = Session::new();
    let _init = initialize_request(&mut session, "cli".to_owned(), "0".to_owned());
    let request = list_tools_request(&mut session);
    let result = exchange(&server, &request, 1);
    let tools = parse_tools_list(&result).expect("tool list must parse");
    assert_eq!(tools.len(), 1);
    assert_eq!(tools[0].name, "say_hello");
    assert_eq!(tools[0].description, "greets");
}

#[test]
fn call_tool_against_the_server() {
    let server = greeter_server();
    let mut session = Session::new();
    let _init = initialize_request(&mut session, "cli".to_owned(), "0".to_owned());
    let _list = list_tools_request(&mut session);
    let mut args: Vec<(String, Json)> = Vec::new();
    args.push(("name".to_owned(), Json::Str("World".to_owned())));
    let request = call_tool_request(&mut session, "say_hello".to_owned(), Json::Obj(args));
    let result = exchange(&server, &request, 2);
    let outcome = tool_outcome(&result).expect("outcome must parse");
    assert!(!outcome.is_error);
    match &outcome.content {
        Content::Unstructured(parts) => match &parts[0] {
            Unstructured::Text { text } => assert_eq!(text, "Hello, World!"),
            _ => panic!("expected text content"),
        },
        _ => panic!("expected unstructured content"),
    }
}

#[test]
fn streaming_call_through_sse_reaches_the_client() {
    struct Narrator;
    impl Handler for Narrator {
        fn run(&self, _tool: &String, _args: Vec<Json>) -> ToolRun {
            ToolRun {
                events: vec![techne::server::ToolEvent::Notify {
                    method: "progress".to_owned(),
                    params: None,
                }],
                outcome: Outcome::text("finished".to_owned()),
            }
        }
    }
    let server = Server::new("srv".to_owned(), "1".to_owned()).tools(vec![
        tool(string("x".to_owned(), "x".to_owned()))
            .name("narrate".to_owned())
            .description("d".to_owned()),
    ]);
    let mut session = Session::new();
    let mut args: Vec<(String, Json)> = Vec::new();
    args.push(("x".to_owned(), Json::Str("y".to_owned())));
    let request = call_tool_request(&mut session, "narrate".to_owned(), Json::Obj(args));
    // The server answers over HTTP with an SSE body; the client reads the
    // events back and sifts them for the outstanding request.
    let reply = server.handle(&request.serialize(), &Narrator);
    let http = techne::http::http_reply(reply);
    assert_eq!(http.content_type(), Some("text/event-stream"));
    let body = match http {
        techne::http::HttpReply::Sse { body, .. } => body,
        _ => panic!("a multi-frame reply must stream"),
    };
    let mut reader = techne::http::SseDecoder::new();
    let mut events = Vec::new();
    let mut outcome = None;
    for frame_bytes in reader.push(&body) {
        let frame = Message::deserialize(&frame_bytes).expect("streamed frames decode");
        match sift(frame, 0) {
            Sift::Event(e) => events.push(e),
            Sift::Done(result) => outcome = Some(tool_outcome(&result).unwrap()),
            Sift::Skip => {},
        }
    }
    assert_eq!(events.len(), 1);
    match &events[0] {
        Event::Notification { method, .. } => assert_eq!(method, "progress"),
        _ => panic!("expected the progress notification"),
    }
    let outcome = outcome.expect("the stream must end with the response");
    assert!(!outcome.is_error);
}

#[test]
fn response_frames_are_recognized() {
    assert!(is_response_frame(br#"{"jsonrpc":"2.0","id":1,"result":{}}"#));
    assert!(!is_response_frame(br#"{"jsonrpc":"2.0","method":"note"}"#));
    assert!(!is_response_frame(b"{not json"));
}

#[test]
fn sift_surfaces_peer_traffic() {
    let note = Message::notification("n".to_owned(), None);
    match sift(note, 5) {
        Sift::Event(Event::Notification { method, .. }) => assert_eq!(method, "n"),
        _ => panic!("expected a surfaced notification"),
    }
    let req = Message::request(techne::message::Id(0), "ask".to_owned(), None);
    match sift(req, 5) {
        Sift::Event(Event::Request { id, method, .. }) => {
            assert_eq!(id, 0);
            assert_eq!(method, "ask");
        },
        _ => panic!("expected a surfaced request"),
    }
    let other = Message::response(techne::message::Id(4), Json::Null);
    assert!(matches!(sift(other, 5), Sift::Skip));
    let done = Message::response(techne::message::Id(5), Json::Bool(true));
    assert!(matches!(sift(done, 5), Sift::Done(Json::Bool(true))));
    let err = Message::Error(techne::message::Error::invalid_json("x".to_owned()));
    assert!(matches!(sift(err, 5), Sift::Skip));
}
