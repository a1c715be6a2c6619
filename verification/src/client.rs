//! The client core: the session counter that stamps outbound requests,
//! the initialize handshake check, the sifting of peer traffic for one
//! outstanding request, and the typed reading of results.

use vstd::prelude::*;

use crate::content::Outcome;
use crate::handshake::Capabilities;
use crate::handshake::InitializeParams;
use crate::handshake::InitializeResult;
use crate::handshake::ClientInfo;
use crate::handshake::ServerInfo;
use crate::handshake::dec_initialize_result;
use crate::handshake::enc_initialize_params;
use crate::json::Json;
use crate::json::JsonV;
use crate::json::obj_get;
use crate::json::obj_lookup;
use crate::message::Id;
use crate::message::Message;
use crate::message::MessageV;
use crate::message::opt_json_view;
use crate::tool::Tool;
use crate::tool::ToolCall;
use crate::tool::ToolCallV;
use crate::tool::ToolV;
use crate::tool::dec_tool;
use crate::tool::enc_call;

verus! {

broadcast use vstd::std_specs::vec::group_vec_axioms, vstd::seq::group_seq_axioms;

/// Why a client operation failed.
#[derive(Clone, Copy, PartialEq, Eq, Structural, Debug)]
pub enum ClientError {
    /// The server speaks a protocol revision this client does not.
    Unsupported,
    /// A result did not have the expected shape.
    InvalidData,
}

/// One client session: the shared counter that stamps every outbound
/// request with a fresh id.
pub struct Session {
    next_request: Id,
    issued: Ghost<Seq<u64>>,
}

impl Session {
    /// The ids stamped so far, oldest first.
    pub closed spec fn issued(&self) -> Seq<u64> {
        self.issued@
    }

    /// The id the next request will carry.
    pub closed spec fn next(&self) -> u64 {
        self.next_request.0
    }

    /// Ids are handed out consecutively from zero, none reused.
    pub closed spec fn wf(&self) -> bool {
        self.issued@ == Seq::new(self.next_request.0 as nat, |i: int| i as u64)
    }

    /// A fresh session; its first request will carry id `0`.
    pub fn new() -> (r: Session)
        ensures
            r.wf(),
            r.next() == 0,
            r.issued() == Seq::<u64>::empty(),
    {
        let r = Session { next_request: Id(0), issued: Ghost(Seq::empty()) };
        proof {
            assert(r.issued@ =~= Seq::new(0nat, |i: int| i as u64));
        }
        r
    }

    /// Stamps and returns the next outbound request.
    pub fn request(&mut self, method: String, params: Option<Json>) -> (m: Message)
        requires
            old(self).wf(),
            old(self).next() < u64::MAX,
        ensures
            final (self).wf(),
            final (self).next() == old(self).next() + 1,
            final (self).issued() == old(self).issued().push(old(self).next()),
            m@ == (MessageV::Request {
                id: old(self).next(),
                method: method@,
                params: opt_json_view(params),
            }),
    {
        let id = self.next_request.increment();
        proof {
            assert(self.issued@.push(id.0) =~= Seq::new(
                self.next_request.0 as nat,
                |i: int| i as u64,
            ));
        }
        self.issued = Ghost(self.issued@.push(id.0));
        Message::request(id, method, params)
    }

    /// An outbound notification; no id is spent.
    pub fn notify(&self, method: String, params: Option<Json>) -> (m: Message)
        ensures
            m@ == (MessageV::Notification { method: method@, params: opt_json_view(params) }),
    {
        Message::notification(method, params)
    }

    /// An outbound response to a server-initiated request.
    pub fn response(&self, id: u64, result: Json) -> (m: Message)
        ensures
            m@ == (MessageV::Response { id, result: result@ }),
    {
        Message::response(Id(id), result)
    }
}

/// The ids a session has stamped are strictly increasing with step one,
/// starting at zero.
pub proof fn lemma_session_ids(s: Session)
    requires
        s.wf(),
    ensures
        forall|i: int| 0 <= i < s.issued().len() ==> s.issued()[i] == i as u64,
        forall|i: int, j: int| 0 <= i < j < s.issued().len() ==> s.issued()[i] < s.issued()[j],
{
    assert(forall|i: int| 0 <= i < s.issued().len() ==> s.issued()[i] == i as u64);
}

/// The server's side of an established session: what it announced during
/// the handshake.
pub struct Server {
    capabilities: Capabilities,
    information: ServerInfo,
}

impl Server {
    pub closed spec fn spec_capabilities(&self) -> crate::handshake::CapabilitiesV {
        self.capabilities@
    }

    pub closed spec fn spec_information(&self) -> crate::handshake::ServerInfoV {
        self.information@
    }

    /// What the server announced it can do.
    pub fn capabilities(&self) -> (r: &Capabilities)
        ensures
            r@ == self.spec_capabilities(),
    {
        &self.capabilities
    }

    /// The server's name and version.
    pub fn information(&self) -> (r: &ServerInfo)
        ensures
            r@ == self.spec_information(),
    {
        &self.information
    }
}

/// The `initialize` request opening a handshake, stamped by the session.
pub fn initialize_request(session: &mut Session, name: String, version: String) -> (m: Message)
    requires
        old(session).wf(),
        old(session).next() < u64::MAX,
    ensures
        final (session).wf(),
        final (session).next() == old(session).next() + 1,
        final (session).issued() == old(session).issued().push(old(session).next()),
        m@ == (MessageV::Request {
            id: old(session).next(),
            method: "initialize"@,
            params: Some(
                enc_initialize_params(
                    crate::handshake::InitializeParamsV {
                        protocol_version: "2025-06-18"@,
                        client_info: crate::handshake::ClientInfoV {
                            name: name@,
                            title: None,
                            version: version@,
                        },
                    },
                ),
            ),
        }),
{
    let params = InitializeParams {
        protocol_version: "2025-06-18".to_owned(),
        client_info: ClientInfo { name, title: None, version },
    };
    let p = params.to_json();
    session.request("initialize".to_owned(), Some(p))
}

/// Checks an `initialize` response: its result must be well formed and
/// carry exactly the supported protocol revision; anything else is
/// unsupported.
pub fn accept_initialize(result: &Json) -> (r: Result<Server, ClientError>)
    ensures
        match dec_initialize_result(result@) {
            None => r == Err::<Server, ClientError>(ClientError::InvalidData),
            Some(ir) => if ir.protocol_version == "2025-06-18"@ {
                r matches Ok(s) && s.spec_capabilities() == ir.capabilities
                    && s.spec_information() == ir.server_info
            } else {
                r == Err::<Server, ClientError>(ClientError::Unsupported)
            },
        },
{
    match InitializeResult::from_json(result) {
        Some(ir) => {
            if crate::json::str_eq(ir.protocol_version.as_str(), "2025-06-18") {
                Ok(Server { capabilities: ir.capabilities, information: ir.server_info })
            } else {
                Err(ClientError::Unsupported)
            }
        },
        None => Err(ClientError::InvalidData),
    }
}

/// The `tools/list` request, stamped by the session.
pub fn list_tools_request(session: &mut Session) -> (m: Message)
    requires
        old(session).wf(),
        old(session).next() < u64::MAX,
    ensures
        final (session).wf(),
        final (session).next() == old(session).next() + 1,
        final (session).issued() == old(session).issued().push(old(session).next()),
        m@ == (MessageV::Request {
            id: old(session).next(),
            method: "tools/list"@,
            params: None,
        }),
{
    session.request("tools/list".to_owned(), None)
}

/// The `tools/call` request for one tool, stamped by the session.
pub fn call_tool_request(session: &mut Session, name: String, arguments: Json) -> (m: Message)
    requires
        old(session).wf(),
        old(session).next() < u64::MAX,
    ensures
        final (session).wf(),
        final (session).next() == old(session).next() + 1,
        final (session).issued() == old(session).issued().push(old(session).next()),
        m@ == (MessageV::Request {
            id: old(session).next(),
            method: "tools/call"@,
            params: Some(enc_call(ToolCallV { name: name@, arguments: arguments@ })),
        }),
{
    let call = ToolCall { name, arguments };
    let p = call.to_json();
    session.request("tools/call".to_owned(), Some(p))
}

/// One piece of peer traffic surfaced while a call is outstanding.
pub enum Event {
    Notification { method: String, params: Option<Json> },
    Request { id: u64, method: String, params: Option<Json> },
}

/// The shape of a surfaced event.
#[verifier::ext_equal]
pub enum EventV {
    Notification { method: Seq<char>, params: Option<JsonV> },
    Request { id: u64, method: Seq<char>, params: Option<JsonV> },
}

impl View for Event {
    type V = EventV;

    open spec fn view(&self) -> EventV {
        match self {
            Event::Notification { method, params } => EventV::Notification {
                method: method@,
                params: opt_json_view(*params),
            },
            Event::Request { id, method, params } => EventV::Request {
                id: *id,
                method: method@,
                params: opt_json_view(*params),
            },
        }
    }
}

/// What one inbound frame means for an outstanding request.
pub enum Sift {
    /// Peer traffic to surface to the caller.
    Event(Event),
    /// The awaited response: its result. The channel is complete.
    Done(Json),
    /// Not for this request; an unrelated response, or a protocol-level
    /// error worth only a log line.
    Skip,
}

/// Sorts one inbound frame for the request with id `want`: server-bound
/// requests and notifications surface as events, the response with the
/// awaited id completes the channel, anything else is skipped.
pub fn sift(m: Message, want: u64) -> (r: Sift)
    ensures
        match m@ {
            MessageV::Request { id, method, params } => r matches Sift::Event(e) && e@ == (
            EventV::Request { id, method, params }),
            MessageV::Notification { method, params } => r matches Sift::Event(e) && e@ == (
            EventV::Notification { method, params }),
            MessageV::Response { id, result } => if id == want {
                r matches Sift::Done(j) && j@ == result
            } else {
                r is Skip
            },
            MessageV::Error(_) => r is Skip,
        },
{
    match m {
        Message::Request { id, method, params } => Sift::Event(
            Event::Request { id, method, params },
        ),
        Message::Notification { method, params } => Sift::Event(
            Event::Notification { method, params },
        ),
        Message::Response { id, result } => {
            if id == want {
                Sift::Done(result)
            } else {
                Sift::Skip
            }
        },
        Message::Error(_) => Sift::Skip,
    }
}

/// The published tool list a `tools/list` result denotes, if any.
pub open spec fn dec_tools_list(j: JsonV) -> Option<Seq<ToolV>> {
    match j {
        JsonV::Obj(pairs) => match obj_get(pairs, "tools"@) {
            Some(JsonV::Arr(items)) => dec_tool_items(items, 0),
            _ => None,
        },
        _ => None,
    }
}

pub open spec fn dec_tool_items(items: Seq<JsonV>, k: int) -> Option<Seq<ToolV>>
    decreases items.len() - k,
{
    if 0 <= k < items.len() {
        match dec_tool(items[k]) {
            Some(t) => match dec_tool_items(items, k + 1) {
                Some(rest) => Some(seq![t] + rest),
                None => None,
            },
            None => None,
        }
    } else {
        Some(Seq::empty())
    }
}

/// Reads the tool list out of a `tools/list` result.
pub fn parse_tools_list(result: &Json) -> (r: Result<Vec<Tool>, ClientError>)
    ensures
        match r {
            Ok(tools) => dec_tools_list(result@) == Some(
                Seq::new(tools@.len(), |i: int| tools@[i]@),
            ),
            Err(e) => dec_tools_list(result@) is None && e == ClientError::InvalidData,
        },
{
    let pairs = match result {
        Json::Obj(pairs) => pairs,
        _ => {
            return Err(ClientError::InvalidData);
        },
    };
    match obj_lookup(pairs, "tools") {
        Some(Json::Arr(items)) => match tool_items_from(items, 0) {
            Some(tools) => Ok(tools),
            None => Err(ClientError::InvalidData),
        },
        _ => Err(ClientError::InvalidData),
    }
}

fn tool_items_from(items: &Vec<Json>, k: usize) -> (r: Option<Vec<Tool>>)
    requires
        k <= items.len(),
    ensures
        match r {
            Some(v) => dec_tool_items(crate::json::arr_view_from(items@, 0), k as int) == Some(
                Seq::new(v@.len(), |i: int| v@[i]@),
            ),
            None => dec_tool_items(crate::json::arr_view_from(items@, 0), k as int) is None,
        },
    decreases items.len() - k,
{
    proof {
        crate::json::lemma_arr_view(items@);
    }
    if k < items.len() {
        match Tool::from_json(&items[k]) {
            Some(t) => match tool_items_from(items, k + 1) {
                Some(mut rest) => {
                    let ghost before = rest@;
                    rest.insert(0, t);
                    proof {
                        assert(rest@.skip(1) =~= before);
                        assert(Seq::new(rest@.len(), |i: int| rest@[i]@) =~~= seq![rest@[0]@]
                            + Seq::new(before.len(), |i: int| before[i]@));
                    }
                    Some(rest)
                },
                None => None,
            },
            None => None,
        }
    } else {
        let v: Vec<Tool> = Vec::new();
        proof {
            assert(Seq::new(v@.len(), |i: int| v@[i]@) =~~= Seq::<ToolV>::empty());
        }
        Some(v)
    }
}

/// Reads the outcome out of a `tools/call` result.
pub fn tool_outcome(result: &Json) -> (r: Result<Outcome, ClientError>)
    ensures
        match r {
            Ok(o) => crate::content::dec_outcome(result@) == Some(o@),
            Err(e) => crate::content::dec_outcome(result@) is None && e
                == ClientError::InvalidData,
        },
{
    match Outcome::from_json(result) {
        Some(o) => Ok(o),
        None => Err(ClientError::InvalidData),
    }
}

/// Whether a byte frame is a response: what the child-process transport
/// watches for to know an exchange is complete.
pub open spec fn is_response_spec(b: Seq<u8>) -> bool {
    match crate::parse::json_of(b) {
        Some(jv) => crate::message::dec_msg(jv) matches Some(m) && m matches MessageV::Response {
            ..
        },
        None => false,
    }
}

/// Decides whether one inbound line carries a response frame.
pub fn is_response_frame(bytes: &[u8]) -> (r: bool)
    ensures
        r == is_response_spec(bytes@),
{
    match Message::deserialize(bytes) {
        Ok(Message::Response { .. }) => true,
        _ => false,
    }
}

/// Classifies a reply's content type the way the HTTP client does: one
/// JSON body, an event stream, or something it cannot use.
pub enum BodyKind {
    SingleJson,
    EventStream,
    Unusable,
}

/// Sorts a response's content type: `application/json` is a single body,
/// `text/event-stream` an SSE stream, anything else unusable.
pub fn classify_content_type(content_type: &str) -> (r: BodyKind)
    ensures
        content_type@ == "application/json"@ ==> r is SingleJson,
        content_type@ == "text/event-stream"@ ==> r is EventStream,
        content_type@ != "application/json"@ && content_type@ != "text/event-stream"@ ==> r
            is Unusable,
{
    proof {
        reveal_strlit("application/json");
        reveal_strlit("text/event-stream");
        assert("application/json"@.len() == 16);
        assert("text/event-stream"@.len() == 17);
    }
    if crate::json::str_eq(content_type, "application/json") {
        BodyKind::SingleJson
    } else if crate::json::str_eq(content_type, "text/event-stream") {
        BodyKind::EventStream
    } else {
        BodyKind::Unusable
    }
}

} // verus!
