//! The schema and outcome codecs: exact wire forms and round trips.

use techne::content::Base64;
use techne::content::Content;
use techne::content::IntoOutcome;
use techne::content::Outcome;
use techne::content::Unstructured;
use techne::json::Json;
use techne::schema::Schema;
use techne::text::render_json;
use techne::payload::Payload;

fn sample_schema() -> Schema {
    Schema::Object {
        description: Some("args".to_owned()),
        properties: vec![
            ("name".to_owned(), Schema::String { description: Some("who".to_owned()) }),
            ("count".to_owned(), Schema::Integer { description: None }),
            (
                "tags".to_owned(),
                Schema::Array {
                    description: None,
                    items: Some(Box::new(Schema::String { description: None })),
                },
            ),
            ("flag".to_owned(), Schema::Boolean { description: None }),
            ("ratio".to_owned(), Schema::Number { description: None }),
            ("nothing".to_owned(), Schema::Null),
        ],
        required: vec!["name".to_owned()],
    }
}

#[test]
fn schema_wire_form() {
    let bytes = render_json(&sample_schema().to_json());
    assert_eq!(
        bytes,
        br#"{"type":"object","description":"args","properties":{"name":{"type":"string","description":"who"},"count":{"type":"integer"},"tags":{"type":"array","items":{"type":"string"}},"flag":{"type":"boolean"},"ratio":{"type":"number"},"nothing":{"type":"null"}},"required":["name"]}"#
    );
}

#[test]
fn schema_round_trips_through_json() {
    let schema = sample_schema();
    let j = schema.to_json();
    let back = Schema::from_json(&j).expect("own schema documents must parse");
    assert_eq!(render_json(&back.to_json()), render_json(&schema.to_json()));
}

#[test]
fn schema_duplicate_is_equal() {
    let schema = sample_schema();
    let copy = schema.duplicate();
    assert_eq!(render_json(&copy.to_json()), render_json(&schema.to_json()));
}

#[test]
fn structured_outcome_round_trips() {
    let v = Json::Obj(vec![
        ("answer".to_owned(), Json::Int(42)),
        ("tags".to_owned(), Json::Arr(vec![Json::Str("x".to_owned())])),
    ]);
    let outcome = Outcome { content: Content::Structured(v), is_error: false };
    let j = outcome.to_json();
    assert_eq!(
        render_json(&j),
        br#"{"structuredContent":{"answer":42,"tags":["x"]},"isError":false}"#
    );
    let back = Outcome::from_json(&j).expect("own outcome documents must parse");
    assert_eq!(render_json(&back.to_json()), render_json(&outcome.to_json()));
}

#[test]
fn unstructured_outcome_round_trips() {
    let outcome = Outcome {
        content: Content::Unstructured(vec![
            Unstructured::Text { text: "hi".to_owned() },
            Unstructured::Image { data: Base64("QUJD".to_owned()), mime_type: "image/png".to_owned() },
            Unstructured::Audio { data: Base64("REVG".to_owned()), mime_type: "audio/wav".to_owned() },
            Unstructured::ResourceLink {
                uri: "file:///a".to_owned(),
                name: "a".to_owned(),
                description: "d".to_owned(),
                mime_type: "text/plain".to_owned(),
            },
            Unstructured::Resource {
                uri: "file:///b".to_owned(),
                title: "b".to_owned(),
                mime_type: "text/plain".to_owned(),
                text: "body".to_owned(),
            },
        ]),
        is_error: true,
    };
    let j = outcome.to_json();
    let back = Outcome::from_json(&j).expect("own outcome documents must parse");
    assert_eq!(render_json(&back.to_json()), render_json(&outcome.to_json()));
}

#[test]
fn into_outcome_conversions() {
    let ok = "fine".to_owned().into_outcome();
    assert!(!ok.is_error);
    let passed = Outcome::text("x".to_owned()).into_outcome();
    assert!(!passed.is_error);
    let failed: Result<String, String> = Err("boom".to_owned());
    let outcome = failed.into_outcome();
    assert!(outcome.is_error);
    match &outcome.content {
        Content::Unstructured(parts) => match &parts[0] {
            Unstructured::Text { text } => assert_eq!(text, "boom"),
            _ => panic!("expected the error text"),
        },
        _ => panic!("expected unstructured content"),
    }
}

#[test]
fn payload_wraps_and_unwraps() {
    let p = Payload::new(7u64);
    assert_eq!(p.into_raw(), 7u64);
}
