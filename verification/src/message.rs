//! The JSON-RPC 2.0 message model: the four-way untagged union, its
//! structural discriminator, and the exact round trip between messages and
//! JSON documents.
//!
//! A document is discriminated by shape, not by a tag: a `result` key makes
//! a response, an `error` key an error, `id` together with `method` a
//! request, `method` alone a notification; anything else is rejected as
//! invalid JSON (or, when a `method` string is present in a frame that fits
//! no variant, as an unknown method).

use vstd::prelude::*;

use crate::json::Json;
use crate::json::JsonV;
use crate::json::json_view;
use crate::json::lemma_obj_view;
use crate::json::obj_get;
use crate::json::lemma_lookup_chain;
use crate::json::obj_has;
use crate::json::obj_view_from;
use crate::text::render;

verus! {

broadcast use vstd::std_specs::vec::group_vec_axioms, vstd::seq::group_seq_axioms;

/// The JSON-RPC version tag every frame carries.
pub const JSONRPC: &'static str = "2.0";

/// The monotone request-id counter of one endpoint.
///
/// `increment` hands out the current value and advances; within one
/// endpoint ids are therefore strictly increasing from the value the
/// counter started at, and never reused.
#[derive(Clone, Copy, PartialEq, Eq, Structural, Debug)]
pub struct Id(pub u64);

impl Id {
    /// Returns the pre-increment value and advances the counter by one.
    pub fn increment(&mut self) -> (r: Id)
        requires
            old(self).0 < u64::MAX,
        ensures
            final (self).0 == old(self).0 + 1,
            r == *old(self),
    {
        let current = *self;
        self.0 = self.0 + 1;
        current
    }
}

impl Default for Id {
    /// A counter starting at zero.
    fn default() -> (r: Id)
        ensures
            r.0 == 0,
    {
        Id(0)
    }
}

/// A JSON-RPC error object: a numeric code and a human-readable message.
#[derive(Debug)]
pub struct ErrorKind {
    pub code: i64,
    pub message: String,
}

/// The shape of an error object.
#[verifier::ext_equal]
pub struct ErrorKindV {
    pub code: i64,
    pub message: Seq<char>,
}

impl View for ErrorKind {
    type V = ErrorKindV;

    open spec fn view(&self) -> ErrorKindV {
        ErrorKindV { code: self.code, message: self.message@ }
    }
}

impl ErrorKind {
    pub fn new(code: i64, message: String) -> (r: ErrorKind)
        ensures
            r@ == (ErrorKindV { code, message: message@ }),
    {
        ErrorKind { code, message }
    }

    /// The `invalid params` error, code `-32602`.
    pub fn invalid_params(message: String) -> (r: ErrorKind)
        ensures
            r@ == (ErrorKindV { code: -32602i64, message: message@ }),
    {
        ErrorKind { code: -32602i64, message }
    }

}

/// An error frame: the error object, addressed to the request it answers
/// when that request could be identified.
#[derive(Debug)]
pub struct Error {
    pub id: Option<u64>,
    pub payload: ErrorKind,
}

/// The shape of an error frame.
#[verifier::ext_equal]
pub struct ErrorV {
    pub id: Option<u64>,
    pub code: i64,
    pub message: Seq<char>,
}

impl View for Error {
    type V = ErrorV;

    open spec fn view(&self) -> ErrorV {
        ErrorV { id: self.id, code: self.payload.code, message: self.payload.message@ }
    }
}

impl Error {
    pub fn new(id: Option<u64>, payload: ErrorKind) -> (r: Error)
        ensures
            r@ == (ErrorV { id, code: payload.code, message: payload.message@ }),
    {
        Error { id, payload }
    }

    /// The `method not found` error, code `-32601`, with no id.
    pub fn method_not_found(method: String) -> (r: Error)
        ensures
            r@ == (ErrorV { id: None, code: -32601i64, message: "Unknown method: "@ + method@ }),
    {
        let mut message: String = "Unknown method: ".to_owned();
        message.append(method.as_str());
        Error { id: None, payload: ErrorKind { code: -32601i64, message } }
    }

    /// The `invalid JSON` error, code `-32700`, with no id.
    pub fn invalid_json(message: String) -> (r: Error)
        ensures
            r@ == (ErrorV { id: None, code: -32700i64, message: message@ }),
    {
        Error { id: None, payload: ErrorKind { code: -32700i64, message } }
    }

    /// The `invalid params` error, code `-32602`, with no id.
    pub fn invalid_params(message: String) -> (r: Error)
        ensures
            r@ == (ErrorV { id: None, code: -32602i64, message: message@ }),
    {
        Error { id: None, payload: ErrorKind { code: -32602i64, message } }
    }

    /// The same error, stamped with the id of the request it answers.
    pub fn stamp(self, id: Option<u64>) -> (r: Error)
        ensures
            r@ == (ErrorV { id, code: self@.code, message: self@.message }),
    {
        Error { id, payload: self.payload }
    }
}

/// One JSON-RPC frame, of any of the four kinds.
#[derive(Debug)]
pub enum Message {
    Request { id: u64, method: String, params: Option<Json> },
    Notification { method: String, params: Option<Json> },
    Response { id: u64, result: Json },
    Error(Error),
}

/// The shape of a frame.
#[verifier::ext_equal]
pub enum MessageV {
    Request { id: u64, method: Seq<char>, params: Option<JsonV> },
    Notification { method: Seq<char>, params: Option<JsonV> },
    Response { id: u64, result: JsonV },
    Error(ErrorV),
}

pub open spec fn opt_json_view(p: Option<Json>) -> Option<JsonV> {
    match p {
        Some(j) => Some(json_view(j)),
        None => None,
    }
}

impl View for Message {
    type V = MessageV;

    open spec fn view(&self) -> MessageV {
        match self {
            Message::Request { id, method, params } => MessageV::Request {
                id: *id,
                method: method@,
                params: opt_json_view(*params),
            },
            Message::Notification { method, params } => MessageV::Notification {
                method: method@,
                params: opt_json_view(*params),
            },
            Message::Response { id, result } => MessageV::Response {
                id: *id,
                result: json_view(*result),
            },
            Message::Error(e) => MessageV::Error(e@),
        }
    }
}

impl Message {
    /// A request frame.
    pub fn request(id: Id, method: String, params: Option<Json>) -> (r: Message)
        ensures
            r@ == (MessageV::Request { id: id.0, method: method@, params: opt_json_view(params) }),
    {
        Message::Request { id: id.0, method, params }
    }

    /// A notification frame.
    pub fn notification(method: String, params: Option<Json>) -> (r: Message)
        ensures
            r@ == (MessageV::Notification { method: method@, params: opt_json_view(params) }),
    {
        Message::Notification { method, params }
    }

    /// A response frame.
    pub fn response(id: Id, result: Json) -> (r: Message)
        ensures
            r@ == (MessageV::Response { id: id.0, result: result@ }),
    {
        Message::Response { id: id.0, result }
    }

    /// An error frame.
    pub fn error(id: Option<Id>, payload: ErrorKind) -> (r: Message)
        ensures
            r@ == (MessageV::Error(
                ErrorV {
                    id: match id {
                        Some(i) => Some(i.0),
                        None => None,
                    },
                    code: payload.code,
                    message: payload.message@,
                },
            )),
    {
        let raw = match id {
            Some(i) => Some(i.0),
            None => None,
        };
        Message::Error(Error { id: raw, payload })
    }
}

/// The `params` member, present exactly when the frame carries params.
pub open spec fn params_entries(p: Option<JsonV>) -> Seq<(Seq<char>, JsonV)> {
    match p {
        Some(v) => seq![("params"@, v)],
        None => Seq::empty(),
    }
}

/// The `id` member, present exactly when the error answers a request.
pub open spec fn id_entries(id: Option<u64>) -> Seq<(Seq<char>, JsonV)> {
    match id {
        Some(n) => seq![("id"@, JsonV::Int(n as int))],
        None => Seq::empty(),
    }
}

/// The document an error frame is written as.
pub open spec fn enc_error(e: ErrorV) -> JsonV {
    JsonV::Obj(
        seq![("jsonrpc"@, JsonV::Str("2.0"@))] + id_entries(e.id) + seq![
            (
                "error"@,
                JsonV::Obj(
                    seq![("code"@, JsonV::Int(e.code as int)), ("message"@, JsonV::Str(e.message))],
                ),
            ),
        ],
    )
}

/// The document a frame is written as.
pub open spec fn enc_msg(m: MessageV) -> JsonV {
    match m {
        MessageV::Request { id, method, params } => JsonV::Obj(
            seq![
                ("jsonrpc"@, JsonV::Str("2.0"@)),
                ("id"@, JsonV::Int(id as int)),
                ("method"@, JsonV::Str(method)),
            ] + params_entries(params),
        ),
        MessageV::Notification { method, params } => JsonV::Obj(
            seq![("jsonrpc"@, JsonV::Str("2.0"@)), ("method"@, JsonV::Str(method))]
                + params_entries(params),
        ),
        MessageV::Response { id, result } => JsonV::Obj(
            seq![
                ("jsonrpc"@, JsonV::Str("2.0"@)),
                ("id"@, JsonV::Int(id as int)),
                ("result"@, result),
            ],
        ),
        MessageV::Error(e) => enc_error(e),
    }
}

/// A document read as an unsigned 64-bit id.
pub open spec fn as_u64(v: JsonV) -> Option<u64> {
    match v {
        JsonV::Int(i) => if 0 <= i <= u64::MAX {
            Some(i as u64)
        } else {
            None
        },
        _ => None,
    }
}

pub open spec fn dec_response(pairs: Seq<(Seq<char>, JsonV)>) -> Option<MessageV> {
    match (obj_get(pairs, "id"@), obj_get(pairs, "result"@)) {
        (Some(idv), Some(result)) => match as_u64(idv) {
            Some(id) => Some(MessageV::Response { id, result }),
            None => None,
        },
        _ => None,
    }
}

pub open spec fn dec_error(pairs: Seq<(Seq<char>, JsonV)>) -> Option<MessageV> {
    match obj_get(pairs, "error"@) {
        Some(JsonV::Obj(epairs)) => match (obj_get(epairs, "code"@), obj_get(epairs, "message"@)) {
            (Some(JsonV::Int(c)), Some(JsonV::Str(message))) => if i64::MIN <= c <= i64::MAX {
                match obj_get(pairs, "id"@) {
                    None => Some(
                        MessageV::Error(ErrorV { id: None, code: c as i64, message }),
                    ),
                    Some(JsonV::Null) => Some(
                        MessageV::Error(ErrorV { id: None, code: c as i64, message }),
                    ),
                    Some(idv) => match as_u64(idv) {
                        Some(id) => Some(
                            MessageV::Error(ErrorV { id: Some(id), code: c as i64, message }),
                        ),
                        None => None,
                    },
                }
            } else {
                None
            },
            _ => None,
        },
        _ => None,
    }
}

pub open spec fn dec_request_or_notification(pairs: Seq<(Seq<char>, JsonV)>) -> Option<MessageV> {
    match obj_get(pairs, "method"@) {
        Some(JsonV::Str(method)) => {
            let params = obj_get(pairs, "params"@);
            match obj_get(pairs, "id"@) {
                None => Some(MessageV::Notification { method, params }),
                Some(idv) => match as_u64(idv) {
                    Some(id) => Some(MessageV::Request { id, method, params }),
                    None => None,
                },
            }
        },
        _ => None,
    }
}

/// The structural discriminator: which frame a document denotes, if any.
pub open spec fn dec_msg(j: JsonV) -> Option<MessageV> {
    match j {
        JsonV::Obj(pairs) => if obj_has(pairs, "result"@) {
            dec_response(pairs)
        } else if obj_has(pairs, "error"@) {
            dec_error(pairs)
        } else if obj_has(pairs, "method"@) {
            dec_request_or_notification(pairs)
        } else {
            None
        },
        _ => None,
    }
}

/// The `method` string of a document, where one is present.
pub open spec fn method_of(j: JsonV) -> Option<Seq<char>> {
    match j {
        JsonV::Obj(pairs) => match obj_get(pairs, "method"@) {
            Some(JsonV::Str(m)) => Some(m),
            _ => None,
        },
        _ => None,
    }
}

/// The error reported for a document that fits no frame shape: an unknown
/// method when a `method` string is present, invalid JSON otherwise.
pub open spec fn decode_failure(j: JsonV) -> ErrorV {
    match method_of(j) {
        Some(name) => ErrorV { id: None, code: -32601i64, message: "Unknown method: "@ + name },
        None => ErrorV { id: None, code: -32700i64, message: "unexpected message shape"@ },
    }
}

fn json_as_u64(v: &Json) -> (r: Option<u64>)
    ensures
        r == as_u64(v@),
{
    match v {
        Json::Int(i) => {
            if 0 <= *i && *i <= u64::MAX as i128 {
                Some(*i as u64)
            } else {
                None
            }
        },
        _ => None,
    }
}

/// The error for a frame that fits no shape, per `decode_failure`.
fn shape_error(pairs: &Vec<(String, Json)>) -> (r: Error)
    ensures
        r@ == decode_failure(JsonV::Obj(obj_view_from(pairs@, 0))),
{
    match crate::json::obj_lookup(pairs, "method") {
        Some(Json::Str(name)) => Error::method_not_found(name.clone()),
        _ => Error::invalid_json("unexpected message shape".to_owned()),
    }
}

fn decode_obj(pairs: &Vec<(String, Json)>) -> (r: Result<Message, Error>)
    ensures
        ({
            let j = JsonV::Obj(obj_view_from(pairs@, 0));
            &&& (dec_msg(j) matches Some(m) ==> (r matches Ok(msg) && msg@ == m))
            &&& (dec_msg(j) is None ==> (r matches Err(e) && e@ == decode_failure(j)))
        }),
{
    if let Some(_) = crate::json::obj_lookup(pairs, "result") {
        let id = match crate::json::obj_lookup(pairs, "id") {
            Some(v) => json_as_u64(v),
            None => None,
        };
        match (id, crate::json::obj_lookup(pairs, "result")) {
            (Some(id), Some(result)) => Ok(Message::Response { id, result: result.duplicate() }),
            _ => Err(shape_error(pairs)),
        }
    } else if let Some(e) = crate::json::obj_lookup(pairs, "error") {
        match e {
            Json::Obj(epairs) => {
                let code = crate::json::obj_lookup(epairs, "code");
                let message = crate::json::obj_lookup(epairs, "message");
                match (code, message) {
                    (Some(Json::Int(c)), Some(Json::Str(m))) => {
                        if i64::MIN as i128 <= *c && *c <= i64::MAX as i128 {
                            let id = match crate::json::obj_lookup(pairs, "id") {
                                None => Some(None),
                                Some(Json::Null) => Some(None),
                                Some(v) => match json_as_u64(v) {
                                    Some(n) => Some(Some(n)),
                                    None => None,
                                },
                            };
                            match id {
                                Some(id) => Ok(
                                    Message::Error(
                                        Error {
                                            id,
                                            payload: ErrorKind { code: *c as i64, message: m.clone() },
                                        },
                                    ),
                                ),
                                None => Err(shape_error(pairs)),
                            }
                        } else {
                            Err(shape_error(pairs))
                        }
                    },
                    _ => Err(shape_error(pairs)),
                }
            },
            _ => Err(shape_error(pairs)),
        }
    } else if let Some(m) = crate::json::obj_lookup(pairs, "method") {
        match m {
            Json::Str(method) => {
                let params = match crate::json::obj_lookup(pairs, "params") {
                    Some(p) => Some(p.duplicate()),
                    None => None,
                };
                match crate::json::obj_lookup(pairs, "id") {
                    None => Ok(Message::Notification { method: method.clone(), params }),
                    Some(v) => match json_as_u64(v) {
                        Some(id) => Ok(Message::Request { id, method: method.clone(), params }),
                        None => Err(shape_error(pairs)),
                    },
                }
            },
            _ => Err(shape_error(pairs)),
        }
    } else {
        Err(shape_error(pairs))
    }
}

impl Message {
    /// Reads a frame out of a document, by the structural rule.
    pub fn decode(j: &Json) -> (r: Result<Message, Error>)
        ensures
            dec_msg(j@) matches Some(m) ==> (r matches Ok(msg) && msg@ == m),
            dec_msg(j@) is None ==> (r matches Err(e) && e@ == decode_failure(j@)),
    {
        match j {
            Json::Obj(pairs) => decode_obj(pairs),
            _ => Err(Error::invalid_json("unexpected message shape".to_owned())),
        }
    }

    /// The document this frame is written as.
    pub fn wire_json(&self) -> (j: Json)
        ensures
            j@ == enc_msg(self@),
    {
        match self {
            Message::Request { id, method, params } => {
                let mut pairs: Vec<(String, Json)> = Vec::new();
                pairs.push(("jsonrpc".to_owned(), Json::Str("2.0".to_owned())));
                pairs.push(("id".to_owned(), Json::Int(*id as i128)));
                pairs.push(("method".to_owned(), Json::Str(method.clone())));
                match params {
                    Some(p) => {
                        pairs.push(("params".to_owned(), p.duplicate()));
                    },
                    None => {},
                }
                let j = Json::Obj(pairs);
                proof {
                    lemma_obj_view(pairs@);
                    assert(obj_view_from(pairs@, 0) =~~= seq![
                        ("jsonrpc"@, JsonV::Str("2.0"@)),
                        ("id"@, JsonV::Int(*id as int)),
                        ("method"@, JsonV::Str(method@)),
                    ] + params_entries(opt_json_view(*params)));
                }
                j
            },
            Message::Notification { method, params } => {
                let mut pairs: Vec<(String, Json)> = Vec::new();
                pairs.push(("jsonrpc".to_owned(), Json::Str("2.0".to_owned())));
                pairs.push(("method".to_owned(), Json::Str(method.clone())));
                match params {
                    Some(p) => {
                        pairs.push(("params".to_owned(), p.duplicate()));
                    },
                    None => {},
                }
                let j = Json::Obj(pairs);
                proof {
                    lemma_obj_view(pairs@);
                    assert(obj_view_from(pairs@, 0) =~~= seq![
                        ("jsonrpc"@, JsonV::Str("2.0"@)),
                        ("method"@, JsonV::Str(method@)),
                    ] + params_entries(opt_json_view(*params)));
                }
                j
            },
            Message::Response { id, result } => {
                let mut pairs: Vec<(String, Json)> = Vec::new();
                pairs.push(("jsonrpc".to_owned(), Json::Str("2.0".to_owned())));
                pairs.push(("id".to_owned(), Json::Int(*id as i128)));
                pairs.push(("result".to_owned(), result.duplicate()));
                let j = Json::Obj(pairs);
                proof {
                    lemma_obj_view(pairs@);
                    assert(obj_view_from(pairs@, 0) =~~= seq![
                        ("jsonrpc"@, JsonV::Str("2.0"@)),
                        ("id"@, JsonV::Int(*id as int)),
                        ("result"@, json_view(*result)),
                    ]);
                }
                j
            },
            Message::Error(e) => {
                let mut epairs: Vec<(String, Json)> = Vec::new();
                epairs.push(("code".to_owned(), Json::Int(e.payload.code as i128)));
                epairs.push(("message".to_owned(), Json::Str(e.payload.message.clone())));
                let error_obj = Json::Obj(epairs);
                let mut pairs: Vec<(String, Json)> = Vec::new();
                pairs.push(("jsonrpc".to_owned(), Json::Str("2.0".to_owned())));
                match e.id {
                    Some(n) => {
                        pairs.push(("id".to_owned(), Json::Int(n as i128)));
                    },
                    None => {},
                }
                pairs.push(("error".to_owned(), error_obj));
                let j = Json::Obj(pairs);
                proof {
                    lemma_obj_view(epairs@);
                    lemma_obj_view(pairs@);
                    assert(obj_view_from(epairs@, 0) =~~= seq![
                        ("code"@, JsonV::Int(e.payload.code as int)),
                        ("message"@, JsonV::Str(e.payload.message@)),
                    ]);
                    assert(obj_view_from(pairs@, 0) =~~= seq![("jsonrpc"@, JsonV::Str("2.0"@))]
                        + id_entries(e.id) + seq![
                        (
                            "error"@,
                            JsonV::Obj(
                                seq![
                                    ("code"@, JsonV::Int(e.payload.code as int)),
                                    ("message"@, JsonV::Str(e.payload.message@)),
                                ],
                            ),
                        ),
                    ]);
                }
                j
            },
        }
    }

    /// The canonical bytes of this frame.
    pub fn serialize(&self) -> (out: Vec<u8>)
        ensures
            out@ == render(enc_msg(self@)),
    {
        let j = self.wire_json();
        crate::text::render_json(&j)
    }

    /// Reads one frame from raw bytes: parse, then discriminate.
    pub fn deserialize(bytes: &[u8]) -> (r: Result<Message, Error>)
        ensures
            crate::parse::json_of(bytes@) is None ==> (r matches Err(e) && e@.code
                == -32700i64 && e@.id is None),
            crate::parse::json_of(bytes@) matches Some(jv) ==> {
                &&& (dec_msg(jv) matches Some(m) ==> (r matches Ok(msg) && msg@ == m))
                &&& (dec_msg(jv) is None ==> (r matches Err(e) && e@ == decode_failure(jv)))
            },
    {
        match crate::parse::parse_json(bytes) {
            Ok(j) => Message::decode(&j),
            Err(text) => Err(Error::invalid_json(text)),
        }
    }
}

/// The member names of the envelope are pairwise distinct.
proof fn lemma_keys_distinct()
    ensures
        "jsonrpc"@ != "id"@,
        "jsonrpc"@ != "method"@,
        "jsonrpc"@ != "params"@,
        "jsonrpc"@ != "result"@,
        "jsonrpc"@ != "error"@,
        "id"@ != "method"@,
        "id"@ != "params"@,
        "id"@ != "result"@,
        "id"@ != "error"@,
        "method"@ != "params"@,
        "method"@ != "result"@,
        "method"@ != "error"@,
        "params"@ != "result"@,
        "params"@ != "error"@,
        "result"@ != "error"@,
        "code"@ != "message"@,
{
    reveal_strlit("jsonrpc");
    reveal_strlit("id");
    reveal_strlit("method");
    reveal_strlit("params");
    reveal_strlit("result");
    reveal_strlit("error");
    reveal_strlit("code");
    reveal_strlit("message");
    assert("jsonrpc"@.len() == 7);
    assert("id"@.len() == 2);
    assert("method"@.len() == 6);
    assert("params"@.len() == 6);
    assert("result"@.len() == 6);
    assert("error"@.len() == 5);
    assert("code"@.len() == 4);
    assert("message"@.len() == 7);
    assert("method"@[0] == 'm');
    assert("params"@[0] == 'p');
    assert("result"@[0] == 'r');
    assert("jsonrpc"@[0] == 'j');
    assert("message"@[0] == 'm');
}

/// Writing a frame and reading it back yields the frame unchanged: the
/// discriminator inverts the encoder on every message.
pub proof fn lemma_message_round_trip(m: MessageV)
    ensures
        dec_msg(enc_msg(m)) == Some(m),
{
    lemma_keys_distinct();
    match m {
        MessageV::Request { id, method, params } => {
            let pairs = seq![
                ("jsonrpc"@, JsonV::Str("2.0"@)),
                ("id"@, JsonV::Int(id as int)),
                ("method"@, JsonV::Str(method)),
            ] + params_entries(params);
            match params {
                Some(v) => {
                    assert(pairs.len() == 4);
                    assert(pairs[0] == ("jsonrpc"@, JsonV::Str("2.0"@)));
                    assert(pairs[1] == ("id"@, JsonV::Int(id as int)));
                    assert(pairs[2] == ("method"@, JsonV::Str(method)));
                    assert(pairs[3] == ("params"@, v));
                },
                None => {
                    assert(pairs.len() == 3);
                    assert(pairs[0] == ("jsonrpc"@, JsonV::Str("2.0"@)));
                    assert(pairs[1] == ("id"@, JsonV::Int(id as int)));
                    assert(pairs[2] == ("method"@, JsonV::Str(method)));
                },
            }
            lemma_lookup_chain(pairs, "result"@);
            lemma_lookup_chain(pairs, "error"@);
            lemma_lookup_chain(pairs, "method"@);
            lemma_lookup_chain(pairs, "id"@);
            lemma_lookup_chain(pairs, "params"@);
            assert(obj_get(pairs, "method"@) == Some(JsonV::Str(method)));
            assert(obj_get(pairs, "id"@) == Some(JsonV::Int(id as int)));
            assert(dec_msg(enc_msg(m)) == Some(m));
        },
        MessageV::Notification { method, params } => {
            let pairs = seq![("jsonrpc"@, JsonV::Str("2.0"@)), ("method"@, JsonV::Str(method))]
                + params_entries(params);
            match params {
                Some(v) => {
                    assert(pairs.len() == 3);
                    assert(pairs[0] == ("jsonrpc"@, JsonV::Str("2.0"@)));
                    assert(pairs[1] == ("method"@, JsonV::Str(method)));
                    assert(pairs[2] == ("params"@, v));
                },
                None => {
                    assert(pairs.len() == 2);
                    assert(pairs[0] == ("jsonrpc"@, JsonV::Str("2.0"@)));
                    assert(pairs[1] == ("method"@, JsonV::Str(method)));
                },
            }
            lemma_lookup_chain(pairs, "result"@);
            lemma_lookup_chain(pairs, "error"@);
            lemma_lookup_chain(pairs, "method"@);
            lemma_lookup_chain(pairs, "id"@);
            lemma_lookup_chain(pairs, "params"@);
            assert(dec_msg(enc_msg(m)) == Some(m));
        },
        MessageV::Response { id, result } => {
            let pairs = seq![
                ("jsonrpc"@, JsonV::Str("2.0"@)),
                ("id"@, JsonV::Int(id as int)),
                ("result"@, result),
            ];
            assert(pairs.len() == 3);
            assert(pairs[0] == ("jsonrpc"@, JsonV::Str("2.0"@)));
            assert(pairs[1] == ("id"@, JsonV::Int(id as int)));
            assert(pairs[2] == ("result"@, result));
            lemma_lookup_chain(pairs, "result"@);
            lemma_lookup_chain(pairs, "id"@);
            assert(dec_msg(enc_msg(m)) == Some(m));
        },
        MessageV::Error(e) => {
            let epairs = seq![
                ("code"@, JsonV::Int(e.code as int)),
                ("message"@, JsonV::Str(e.message)),
            ];
            let pairs = seq![("jsonrpc"@, JsonV::Str("2.0"@))] + id_entries(e.id) + seq![
                ("error"@, JsonV::Obj(epairs)),
            ];
            match e.id {
                Some(n) => {
                    assert(pairs.len() == 3);
                    assert(pairs[0] == ("jsonrpc"@, JsonV::Str("2.0"@)));
                    assert(pairs[1] == ("id"@, JsonV::Int(n as int)));
                    assert(pairs[2] == ("error"@, JsonV::Obj(epairs)));
                },
                None => {
                    assert(pairs.len() == 2);
                    assert(pairs[0] == ("jsonrpc"@, JsonV::Str("2.0"@)));
                    assert(pairs[1] == ("error"@, JsonV::Obj(epairs)));
                },
            }
            lemma_lookup_chain(pairs, "result"@);
            lemma_lookup_chain(pairs, "error"@);
            lemma_lookup_chain(pairs, "id"@);
            lemma_lookup_chain(epairs, "code"@);
            lemma_lookup_chain(epairs, "message"@);
            assert(dec_msg(enc_msg(m)) == Some(m));
        },
    }
}



} // verus!
