//! The server scenarios: handshake, tool listing, tool calls, and the
//! error paths, each checked against the exact wire bytes.

use techne::content::Outcome;
use techne::json::Json;
use techne::server::Handler;
use techne::server::Reply;
use techne::server::Server;
use techne::server::ToolEvent;
use techne::server::ToolRun;
use techne::tool::optional;
use techne::tool::string;
use techne::tool::tool;
use techne::tool::tool_2;
use techne::tool::u32;

struct Greeter;

impl Handler for Greeter {
    fn run(&self, tool: &String, args: Vec<Json>) -> ToolRun {
        assert_eq!(tool, "say_hello");
        let name = match &args[0] {
            Json::Str(s) => s.clone(),
            other => panic!("expected a string argument, got {other:?}"),
        };
        ToolRun { events: Vec::new(), outcome: Outcome::text(format!("Hello, {name}!")) }
    }
}

struct NoTools;

impl Handler for NoTools {
    fn run(&self, _tool: &String, _args: Vec<Json>) -> ToolRun {
        panic!("no tool should ever run");
    }
}

/// A handler that emits two notifications before finishing.
struct Chatty;

impl Handler for Chatty {
    fn run(&self, _tool: &String, _args: Vec<Json>) -> ToolRun {
        ToolRun {
            events: vec![
                ToolEvent::Notify { method: "note/one".to_owned(), params: None },
                ToolEvent::Request { method: "ask/back".to_owned(), params: None },
            ],
            outcome: Outcome::text("done".to_owned()),
        }
    }
}

fn greeter_server() -> Server {
    Server::new("s".to_owned(), "0".to_owned()).tools(vec![
        tool(string("name".to_owned(), "The name to say hello to".to_owned()))
            .name("say_hello".to_owned())
            .description("Say hello to someone".to_owned()),
    ])
}

fn sent(reply: Reply) -> Vec<u8> {
    match reply {
        Reply::Send(m) => m.serialize(),
        other => panic!("expected a single message, got {}", kind(&other)),
    }
}

fn kind(r: &Reply) -> &'static str {
    match r {
        Reply::Accept => "accept",
        Reply::Reject => "reject",
        Reply::Send(_) => "send",
        Reply::Stream(_) => "stream",
        Reply::Unsupported => "unsupported",
    }
}

#[test]
fn initialize_handshake() {
    let server = Server::new("s".to_owned(), "0".to_owned());
    let request = br#"{"jsonrpc":"2.0","id":0,"method":"initialize","params":{"protocolVersion":"2025-06-18","capabilities":{},"clientInfo":{"name":"c","version":"0"}}}"#;
    let reply = server.handle(request, &NoTools);
    assert_eq!(
        sent(reply),
        br#"{"jsonrpc":"2.0","id":0,"result":{"protocolVersion":"2025-06-18","capabilities":{},"serverInfo":{"name":"s","version":"0"}}}"#
    );
    let note = server.handle(br#"{"jsonrpc":"2.0","method":"initialized"}"#, &NoTools);
    assert!(matches!(note, Reply::Reject));
}

#[test]
fn initialize_announces_tools_only_when_some_exist() {
    let server = greeter_server();
    let reply = server.handle(br#"{"jsonrpc":"2.0","id":0,"method":"initialize"}"#, &Greeter);
    assert_eq!(
        sent(reply),
        br#"{"jsonrpc":"2.0","id":0,"result":{"protocolVersion":"2025-06-18","capabilities":{"tools":{}},"serverInfo":{"name":"s","version":"0"}}}"#
    );
}

#[test]
fn tools_list_on_empty_server() {
    let server = Server::new("s".to_owned(), "0".to_owned());
    let reply = server.handle(br#"{"jsonrpc":"2.0","id":1,"method":"tools/list"}"#, &NoTools);
    assert_eq!(sent(reply), br#"{"jsonrpc":"2.0","id":1,"result":{"tools":[]}}"#);
}

#[test]
fn tools_list_describes_the_tool() {
    let server = greeter_server();
    let reply = server.handle(br#"{"jsonrpc":"2.0","id":1,"method":"tools/list"}"#, &Greeter);
    assert_eq!(
        sent(reply),
        br#"{"jsonrpc":"2.0","id":1,"result":{"tools":[{"name":"say_hello","description":"Say hello to someone","inputSchema":{"type":"object","properties":{"name":{"type":"string","description":"The name to say hello to"}},"required":["name"]}}]}}"#
    );
}

#[test]
fn tools_list_is_sorted_by_name() {
    let server = Server::new("s".to_owned(), "0".to_owned()).tools(vec![
        tool(string("x".to_owned(), "x".to_owned()))
            .name("zulu".to_owned())
            .description("z".to_owned()),
        tool(string("x".to_owned(), "x".to_owned()))
            .name("alpha".to_owned())
            .description("a".to_owned()),
    ]);
    let bytes = sent(server.handle(br#"{"jsonrpc":"2.0","id":1,"method":"tools/list"}"#, &NoTools));
    let text = String::from_utf8(bytes).unwrap();
    let alpha = text.find("alpha").unwrap();
    let zulu = text.find("zulu").unwrap();
    assert!(alpha < zulu);
}

#[test]
fn later_tool_replaces_earlier_of_same_name() {
    let server = Server::new("s".to_owned(), "0".to_owned()).tools(vec![
        tool(string("x".to_owned(), "x".to_owned()))
            .name("dup".to_owned())
            .description("first".to_owned()),
        tool(string("x".to_owned(), "x".to_owned()))
            .name("dup".to_owned())
            .description("second".to_owned()),
    ]);
    let bytes = sent(server.handle(br#"{"jsonrpc":"2.0","id":1,"method":"tools/list"}"#, &NoTools));
    let text = String::from_utf8(bytes).unwrap();
    assert!(text.contains("second"));
    assert!(!text.contains("first"));
}

#[test]
fn tool_call_success() {
    let server = greeter_server();
    let request = br#"{"jsonrpc":"2.0","id":2,"method":"tools/call","params":{"name":"say_hello","arguments":{"name":"World"}}}"#;
    let reply = server.handle(request, &Greeter);
    assert_eq!(
        sent(reply),
        br#"{"jsonrpc":"2.0","id":2,"result":{"content":[{"type":"text","text":"Hello, World!"}],"isError":false}}"#
    );
}

#[test]
fn unknown_tool() {
    let server = greeter_server();
    let request =
        br#"{"jsonrpc":"2.0","id":2,"method":"tools/call","params":{"name":"foo","arguments":{}}}"#;
    let reply = server.handle(request, &Greeter);
    assert_eq!(
        sent(reply),
        br#"{"jsonrpc":"2.0","id":2,"error":{"code":-32602,"message":"Unknown tool: foo"}}"#
    );
}

#[test]
fn unknown_method() {
    let server = Server::new("s".to_owned(), "0".to_owned());
    let reply = server.handle(br#"{"jsonrpc":"2.0","id":9,"method":"no/such"}"#, &NoTools);
    assert_eq!(
        sent(reply),
        br#"{"jsonrpc":"2.0","id":9,"error":{"code":-32601,"message":"Unknown method: no/such"}}"#
    );
}

#[test]
fn ping_returns_empty_object() {
    let server = Server::new("s".to_owned(), "0".to_owned());
    let reply = server.handle(br#"{"jsonrpc":"2.0","id":7,"method":"ping"}"#, &NoTools);
    assert_eq!(sent(reply), br#"{"jsonrpc":"2.0","id":7,"result":{}}"#);
}

#[test]
fn missing_required_argument_never_reaches_the_handler() {
    let server = greeter_server();
    // `NoTools` panics if its handler runs; the binder must fail first.
    let request =
        br#"{"jsonrpc":"2.0","id":3,"method":"tools/call","params":{"name":"say_hello","arguments":{}}}"#;
    let reply = server.handle(request, &NoTools);
    assert_eq!(
        sent(reply),
        br#"{"jsonrpc":"2.0","id":3,"error":{"code":-32602,"message":"invalid arguments"}}"#
    );
}

#[test]
fn null_for_required_argument_fails_too() {
    let server = greeter_server();
    let request = br#"{"jsonrpc":"2.0","id":3,"method":"tools/call","params":{"name":"say_hello","arguments":{"name":null}}}"#;
    let reply = server.handle(request, &NoTools);
    assert_eq!(
        sent(reply),
        br#"{"jsonrpc":"2.0","id":3,"error":{"code":-32602,"message":"invalid arguments"}}"#
    );
}

#[test]
fn optional_argument_may_be_omitted() {
    struct TakesOptional;
    impl Handler for TakesOptional {
        fn run(&self, _tool: &String, args: Vec<Json>) -> ToolRun {
            assert!(matches!(args[0], Json::Str(_)));
            assert!(matches!(args[1], Json::Null));
            ToolRun { events: Vec::new(), outcome: Outcome::text("ok".to_owned()) }
        }
    }
    let server = Server::new("s".to_owned(), "0".to_owned()).tools(vec![
        tool_2(
            string("a".to_owned(), "a".to_owned()),
            optional(u32("b".to_owned(), "b".to_owned())),
        )
        .name("t".to_owned())
        .description("d".to_owned()),
    ]);
    let request = br#"{"jsonrpc":"2.0","id":4,"method":"tools/call","params":{"name":"t","arguments":{"a":"x"}}}"#;
    let reply = server.handle(request, &TakesOptional);
    assert_eq!(
        sent(reply),
        br#"{"jsonrpc":"2.0","id":4,"result":{"content":[{"type":"text","text":"ok"}],"isError":false}}"#
    );
}

#[test]
fn invalid_json_then_next_message_is_served() {
    let server = Server::new("s".to_owned(), "0".to_owned());
    let mut splitter = techne::stdio::LineSplitter::new();
    let lines = splitter.push(b"{not json\n{\"jsonrpc\":\"2.0\",\"id\":5,\"method\":\"ping\"}\n");
    assert_eq!(lines.len(), 2);
    match server.handle(&lines[0], &NoTools) {
        Reply::Send(m) => match m {
            techne::message::Message::Error(e) => {
                assert_eq!(e.payload.code, -32700);
                assert!(e.id.is_none());
            },
            _ => panic!("expected an error frame"),
        },
        other => panic!("expected a single error frame, got {}", kind(&other)),
    }
    assert_eq!(
        sent(server.handle(&lines[1], &NoTools)),
        br#"{"jsonrpc":"2.0","id":5,"result":{}}"#
    );
}

#[test]
fn streaming_tool_emits_intermediates_then_the_response() {
    let server = Server::new("s".to_owned(), "0".to_owned()).tools(vec![
        tool(string("x".to_owned(), "x".to_owned()))
            .name("chat".to_owned())
            .description("d".to_owned()),
    ]);
    let request = br#"{"jsonrpc":"2.0","id":6,"method":"tools/call","params":{"name":"chat","arguments":{"x":"y"}}}"#;
    let reply = server.handle(request, &Chatty);
    match reply {
        Reply::Stream(frames) => {
            assert_eq!(frames.len(), 3);
            assert_eq!(
                frames[0].serialize(),
                br#"{"jsonrpc":"2.0","method":"note/one"}"#
            );
            assert_eq!(frames[1].serialize(), br#"{"jsonrpc":"2.0","id":0,"method":"ask/back"}"#);
            assert_eq!(
                frames[2].serialize(),
                br#"{"jsonrpc":"2.0","id":6,"result":{"content":[{"type":"text","text":"done"}],"isError":false}}"#
            );
        },
        other => panic!("expected a stream, got {}", kind(&other)),
    }
}

#[test]
fn argument_types_are_checked() {
    struct Echo;
    impl Handler for Echo {
        fn run(&self, _tool: &String, _args: Vec<Json>) -> ToolRun {
            ToolRun { events: Vec::new(), outcome: Outcome::text("ok".to_owned()) }
        }
    }
    let server = Server::new("s".to_owned(), "0".to_owned()).tools(vec![
        tool_2(
            u32("n".to_owned(), "count".to_owned()),
            optional(techne::tool::bool("flag".to_owned(), "flag".to_owned())),
        )
        .name("typed".to_owned())
        .description("d".to_owned()),
    ]);
    let ok = br#"{"jsonrpc":"2.0","id":1,"method":"tools/call","params":{"name":"typed","arguments":{"n":3,"flag":true}}}"#;
    assert_eq!(
        sent(server.handle(ok, &Echo)),
        br#"{"jsonrpc":"2.0","id":1,"result":{"content":[{"type":"text","text":"ok"}],"isError":false}}"#
    );
    // A string where an integer is required is rejected.
    let bad_type = br#"{"jsonrpc":"2.0","id":1,"method":"tools/call","params":{"name":"typed","arguments":{"n":"three"}}}"#;
    assert_eq!(
        sent(server.handle(bad_type, &NoTools)),
        br#"{"jsonrpc":"2.0","id":1,"error":{"code":-32602,"message":"invalid arguments"}}"#
    );
    // An integer outside the unsigned 32-bit range is rejected.
    let too_big = br#"{"jsonrpc":"2.0","id":1,"method":"tools/call","params":{"name":"typed","arguments":{"n":4294967296}}}"#;
    assert_eq!(
        sent(server.handle(too_big, &NoTools)),
        br#"{"jsonrpc":"2.0","id":1,"error":{"code":-32602,"message":"invalid arguments"}}"#
    );
    // Unknown members of the arguments object are ignored.
    let extra = br#"{"jsonrpc":"2.0","id":1,"method":"tools/call","params":{"name":"typed","arguments":{"n":3,"stray":null}}}"#;
    assert_eq!(
        sent(server.handle(extra, &Echo)),
        br#"{"jsonrpc":"2.0","id":1,"result":{"content":[{"type":"text","text":"ok"}],"isError":false}}"#
    );
}

#[test]
fn number_arguments_pass_through_exactly() {
    struct SeeNumber;
    impl Handler for SeeNumber {
        fn run(&self, _tool: &String, args: Vec<Json>) -> ToolRun {
            let text = match &args[0] {
                Json::Num(s) => s.clone(),
                Json::Int(i) => i.to_string(),
                _ => panic!("expected a number"),
            };
            ToolRun { events: Vec::new(), outcome: Outcome::text(text) }
        }
    }
    let server = Server::new("s".to_owned(), "0".to_owned()).tools(vec![
        tool(techne::tool::number("x".to_owned(), "x".to_owned()))
            .name("num".to_owned())
            .description("d".to_owned()),
    ]);
    let request = br#"{"jsonrpc":"2.0","id":1,"method":"tools/call","params":{"name":"num","arguments":{"x":1.5}}}"#;
    assert_eq!(
        sent(server.handle(request, &SeeNumber)),
        br#"{"jsonrpc":"2.0","id":1,"result":{"content":[{"type":"text","text":"1.5"}],"isError":false}}"#
    );
}

#[test]
fn inbound_responses_and_notifications_are_rejected() {
    let server = Server::new("s".to_owned(), "0".to_owned());
    let r1 = server.handle(br#"{"jsonrpc":"2.0","id":1,"result":{}}"#, &NoTools);
    assert!(matches!(r1, Reply::Reject));
    let r2 = server.handle(br#"{"jsonrpc":"2.0","method":"whatever"}"#, &NoTools);
    assert!(matches!(r2, Reply::Reject));
}
