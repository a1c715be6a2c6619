//! The wire model: rendering, parsing, discrimination, and the byte-level
//! round trip of every message kind.

use techne::json::Json;
use techne::message::Error;
use techne::message::ErrorKind;
use techne::message::Id;
use techne::message::Message;
use techne::text::render_json;

fn obj(pairs: Vec<(&str, Json)>) -> Json {
    Json::Obj(pairs.into_iter().map(|(k, v)| (k.to_owned(), v)).collect())
}

fn s(text: &str) -> Json {
    Json::Str(text.to_owned())
}

#[test]
fn render_scalars() {
    assert_eq!(render_json(&Json::Null), b"null");
    assert_eq!(render_json(&Json::Bool(true)), b"true");
    assert_eq!(render_json(&Json::Bool(false)), b"false");
    assert_eq!(render_json(&Json::Int(0)), b"0");
    assert_eq!(render_json(&Json::Int(-32700)), b"-32700");
    assert_eq!(render_json(&Json::Int(18446744073709551615)), b"18446744073709551615");
}

#[test]
fn render_strings_escapes() {
    assert_eq!(render_json(&s("hello")), b"\"hello\"");
    assert_eq!(render_json(&s("a\"b")), b"\"a\\\"b\"");
    assert_eq!(render_json(&s("a\\b")), b"\"a\\\\b\"");
    assert_eq!(render_json(&s("line\nfeed")), b"\"line\\u000afeed\"");
    // Non-ASCII characters are written as escapes, with a surrogate pair
    // above the basic plane.
    assert_eq!(render_json(&s("é")), b"\"\\u00e9\"");
    assert_eq!(render_json(&s("\u{1F600}")), b"\"\\ud83d\\ude00\"");
}

#[test]
fn render_composites() {
    let doc = obj(vec![
        ("a", Json::Arr(vec![Json::Int(1), Json::Int(2)])),
        ("b", Json::Null),
    ]);
    assert_eq!(render_json(&doc), b"{\"a\":[1,2],\"b\":null}");
}

#[test]
fn rendered_output_reparses() {
    // Keys are given in sorted order, since the parser hands objects back
    // sorted by key; the document itself survives the trip unchanged.
    let doc = obj(vec![
        ("n", Json::Int(-7)),
        ("nested", obj(vec![("inner", Json::Arr(vec![s("x"), Json::Bool(false)]))])),
    ]);
    let bytes = render_json(&doc);
    let back = techne::parse::parse_json(&bytes).expect("rendered bytes must parse");
    assert_eq!(render_json(&back), bytes);
}

#[test]
fn request_round_trip() {
    let m = Message::request(
        Id(3),
        "tools/call".to_owned(),
        Some(obj(vec![("name", s("x"))])),
    );
    let bytes = m.serialize();
    let back = Message::deserialize(&bytes).expect("own frames must decode");
    assert_eq!(back.serialize(), bytes);
}

#[test]
fn notification_round_trip() {
    let m = Message::notification("initialized".to_owned(), None);
    let bytes = m.serialize();
    assert_eq!(bytes, b"{\"jsonrpc\":\"2.0\",\"method\":\"initialized\"}");
    let back = Message::deserialize(&bytes).expect("own frames must decode");
    assert_eq!(back.serialize(), bytes);
}

#[test]
fn response_round_trip() {
    let m = Message::response(Id(9), obj(vec![("ok", Json::Bool(true))]));
    let bytes = m.serialize();
    assert_eq!(bytes, b"{\"jsonrpc\":\"2.0\",\"id\":9,\"result\":{\"ok\":true}}");
    let back = Message::deserialize(&bytes).expect("own frames must decode");
    assert_eq!(back.serialize(), bytes);
}

#[test]
fn error_round_trip() {
    let m = Message::error(Some(Id(4)), ErrorKind::invalid_params("bad".to_owned()));
    let bytes = m.serialize();
    assert_eq!(
        bytes,
        b"{\"jsonrpc\":\"2.0\",\"id\":4,\"error\":{\"code\":-32602,\"message\":\"bad\"}}"
    );
    let back = Message::deserialize(&bytes).expect("own frames must decode");
    assert_eq!(back.serialize(), bytes);
}

#[test]
fn error_without_id_round_trip() {
    let m = Message::Error(Error::invalid_json("oops".to_owned()));
    let bytes = m.serialize();
    assert_eq!(bytes, b"{\"jsonrpc\":\"2.0\",\"error\":{\"code\":-32700,\"message\":\"oops\"}}");
    let back = Message::deserialize(&bytes).expect("own frames must decode");
    assert_eq!(back.serialize(), bytes);
}

#[test]
fn malformed_bytes_are_invalid_json() {
    let r = Message::deserialize(b"{not json");
    match r {
        Err(e) => {
            assert_eq!(e.payload.code, -32700);
            assert!(e.id.is_none());
        },
        Ok(_) => panic!("malformed bytes must not decode"),
    }
}

#[test]
fn unknown_shape_with_method_reports_the_method() {
    // `id` is present but not an integer, so no variant fits; the decoder
    // still reports the method it saw.
    let r = Message::deserialize(b"{\"jsonrpc\":\"2.0\",\"id\":true,\"method\":\"foo\"}");
    match r {
        Err(e) => {
            assert_eq!(e.payload.code, -32601);
            assert_eq!(e.payload.message, "Unknown method: foo");
            assert!(e.id.is_none());
        },
        Ok(_) => panic!("frame with a broken id must not decode"),
    }
}

#[test]
fn shape_without_method_is_invalid_json() {
    let r = Message::deserialize(b"{\"jsonrpc\":\"2.0\"}");
    match r {
        Err(e) => assert_eq!(e.payload.code, -32700),
        Ok(_) => panic!("frame without any discriminating key must not decode"),
    }
}

#[test]
fn result_key_wins_discrimination() {
    let m = Message::deserialize(b"{\"jsonrpc\":\"2.0\",\"id\":1,\"result\":5,\"method\":\"x\"}")
        .expect("a result key makes a response");
    match m {
        Message::Response { id, .. } => assert_eq!(id, 1),
        _ => panic!("expected a response"),
    }
}

#[test]
fn null_error_id_reads_as_absent() {
    let m = Message::deserialize(
        b"{\"jsonrpc\":\"2.0\",\"id\":null,\"error\":{\"code\":-32700,\"message\":\"m\"}}",
    )
    .expect("error with null id must decode");
    match m {
        Message::Error(e) => assert!(e.id.is_none()),
        _ => panic!("expected an error frame"),
    }
}

#[test]
fn extra_keys_are_tolerated() {
    let m = Message::deserialize(
        b"{\"jsonrpc\":\"2.0\",\"id\":2,\"method\":\"ping\",\"extra\":[1,2]}",
    )
    .expect("unknown members are ignored");
    match m {
        Message::Request { id, method, .. } => {
            assert_eq!(id, 2);
            assert_eq!(method, "ping");
        },
        _ => panic!("expected a request"),
    }
}

#[test]
fn float_arguments_survive_as_number_tokens() {
    let back = techne::parse::parse_json(b"{\"x\":1.5,\"y\":-2e3}").expect("floats parse");
    let bytes = render_json(&back);
    let again = techne::parse::parse_json(&bytes).expect("number tokens reparse");
    assert_eq!(render_json(&again), bytes);
}

#[test]
fn id_counter_increments() {
    let mut id = Id(0);
    let first = id.increment();
    let second = id.increment();
    assert_eq!(first.0, 0);
    assert_eq!(second.0, 1);
    assert_eq!(id.0, 2);
}
