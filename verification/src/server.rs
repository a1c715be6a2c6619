//! The server core: the tool registry and the dispatch of one inbound
//! frame to its reply.
//!
//! `handle` decodes raw bytes and answers: malformed bytes with an
//! `invalid JSON` error frame, a frame that fits no shape with the
//! discriminator's error, notifications and peer responses with a
//! rejection, and a request by method — `initialize` (announcing the tools
//! capability exactly when the registry is nonempty), `ping`, `tools/list`
//! (the registry in name order), `tools/call` (look up, bind, run the
//! handler, relay its events and outcome), and an `Unknown method` error
//! for anything else.

use vstd::prelude::*;

use crate::connection::Connection;
use crate::connection::Emit;
use crate::connection::is_terminal;
use crate::connection::request_ids;
use crate::content::Outcome;
use crate::content::OutcomeV;
use crate::content::enc_outcome;
use crate::handshake::CapabilitiesV;
use crate::handshake::Capabilities;
use crate::handshake::InitializeResult;
use crate::handshake::InitializeResultV;
use crate::handshake::ServerInfo;
use crate::handshake::ServerInfoV;
use crate::handshake::Tools;
use crate::handshake::enc_initialize_result;
use crate::json::Json;
use crate::json::JsonV;
use crate::json::str_eq;
use crate::message::Error;
use crate::message::ErrorKind;
use crate::message::ErrorV;
use crate::message::Id;
use crate::message::Message;
use crate::message::MessageV;
use crate::message::decode_failure;
use crate::message::dec_msg;
use crate::message::opt_json_view;
use crate::tool::ToolDef;

verus! {

broadcast use vstd::std_specs::vec::group_vec_axioms, vstd::seq::group_seq_axioms;

/// The answer the core hands the transport's reply slot.
pub enum Reply {
    /// Acknowledge without a body.
    Accept,
    /// Decline; the peer sent something unhandled.
    Reject,
    /// Exactly one message.
    Send(Message),
    /// An open stream of messages, closed after the last.
    Stream(Vec<Message>),
    /// The operation is not supported at all.
    Unsupported,
}

/// The shape of a reply.
#[verifier::ext_equal]
pub enum ReplyV {
    Accept,
    Reject,
    Send(MessageV),
    Stream(Seq<MessageV>),
    Unsupported,
}

impl View for Reply {
    type V = ReplyV;

    open spec fn view(&self) -> ReplyV {
        match self {
            Reply::Accept => ReplyV::Accept,
            Reply::Reject => ReplyV::Reject,
            Reply::Send(m) => ReplyV::Send(m@),
            Reply::Stream(frames) => ReplyV::Stream(Seq::new(frames@.len(), |i: int| frames@[i]@)),
            Reply::Unsupported => ReplyV::Unsupported,
        }
    }
}

/// One intermediate message a running tool sends to the peer.
pub enum ToolEvent {
    Request { method: String, params: Option<Json> },
    Notify { method: String, params: Option<Json> },
}

/// The shape of an intermediate message.
#[verifier::ext_equal]
pub enum ToolEventV {
    Request { method: Seq<char>, params: Option<JsonV> },
    Notify { method: Seq<char>, params: Option<JsonV> },
}

impl View for ToolEvent {
    type V = ToolEventV;

    open spec fn view(&self) -> ToolEventV {
        match self {
            ToolEvent::Request { method, params } => ToolEventV::Request {
                method: method@,
                params: opt_json_view(*params),
            },
            ToolEvent::Notify { method, params } => ToolEventV::Notify {
                method: method@,
                params: opt_json_view(*params),
            },
        }
    }
}

/// Everything one tool invocation produced: its intermediate messages in
/// order, then its outcome. The outcome is a field, not an event, so a run
/// finishes exactly once by construction.
pub struct ToolRun {
    pub events: Vec<ToolEvent>,
    pub outcome: Outcome,
}

/// The shape of a tool run.
#[verifier::ext_equal]
pub struct ToolRunV {
    pub events: Seq<ToolEventV>,
    pub outcome: OutcomeV,
}

impl View for ToolRun {
    type V = ToolRunV;

    open spec fn view(&self) -> ToolRunV {
        ToolRunV {
            events: Seq::new(self.events@.len(), |i: int| self.events@[i]@),
            outcome: self.outcome@,
        }
    }
}

/// The behavior behind the registered tools, supplied by the library's
/// user: invoked with a tool's name and its bound argument values, one per
/// declared argument in order. What it returns is the user's business;
/// the dispatcher relays any run faithfully.
pub trait Handler {
    fn run(&self, tool: &String, args: Vec<Json>) -> ToolRun;
}

/// How many of the first `i` events are requests; the id the next request
/// event is stamped with.
pub open spec fn req_count(events: Seq<ToolEventV>, i: int) -> int
    decreases i,
{
    if i <= 0 {
        0int
    } else {
        req_count(events, i - 1) + (match events[i - 1] {
            ToolEventV::Request { .. } => 1int,
            _ => 0int,
        })
    }
}

proof fn lemma_req_count_bound(events: Seq<ToolEventV>, i: int)
    requires
        0 <= i,
    ensures
        0 <= req_count(events, i) <= i,
    decreases i,
{
    if i > 0 {
        lemma_req_count_bound(events, i - 1);
    }
}

/// The frame one event is relayed as.
pub open spec fn event_frame(events: Seq<ToolEventV>, i: int) -> MessageV {
    match events[i] {
        ToolEventV::Request { method, params } => MessageV::Request {
            id: req_count(events, i) as u64,
            method,
            params,
        },
        ToolEventV::Notify { method, params } => MessageV::Notification { method, params },
    }
}

/// Every frame a tool run is relayed as: its events in order, then the
/// response carrying the outcome.
pub open spec fn run_frames(id: u64, run: ToolRunV) -> Seq<MessageV> {
    Seq::new(run.events.len(), |i: int| event_frame(run.events, i)).push(
        MessageV::Response { id, result: enc_outcome(run.outcome) },
    )
}

/// The reply relaying one tool run produces: the lone response when the
/// run emitted nothing else, the whole frame list as a stream otherwise.
pub open spec fn run_reply(id: u64, run: ToolRunV) -> ReplyV {
    if run.events.len() == 0 {
        ReplyV::Send(run_frames(id, run)[0])
    } else {
        ReplyV::Stream(run_frames(id, run))
    }
}

/// What holds of a reply produced by relaying some tool run, whatever the
/// handler returned: the reply answers the request, with exactly one
/// terminal frame — the final response — after none or more intermediates
/// whose request ids count up from zero.
pub open spec fn run_reply_ok(id: u64, r: ReplyV) -> bool {
    match r {
        ReplyV::Send(m) => m matches MessageV::Response { id: i, .. } && i == id,
        ReplyV::Stream(frames) => {
            &&& frames.len() >= 2
            &&& frames.last() matches MessageV::Response { id: i, .. } && i == id
            &&& forall|i: int| 0 <= i < frames.len() - 1 ==> !is_terminal(#[trigger] frames[i], id)
            &&& request_ids(frames) =~= Seq::new(
                request_ids(frames).len(),
                |i: int| i as u64,
            )
        },
        _ => false,
    }
}

/// Relays one tool run through a fresh connection: each event becomes one
/// frame, the outcome the final response. With no events the reply is the
/// single response; with any, the whole run streams.
pub fn serve_tool_run(conn: Connection, run: ToolRun) -> (r: Reply)
    requires
        conn.wf(),
        !conn.is_streaming(),
        conn.requests_made() == 0,
        conn.history().len() == 0,
        run.events@.len() <= u64::MAX,
    ensures
        ({
            let frames = run_frames(conn.req_id(), run@);
            &&& (run@.events.len() == 0 ==> r@ == ReplyV::Send(frames[0]))
            &&& (run@.events.len() > 0 ==> r@ == ReplyV::Stream(frames))
        }),
        r@ == run_reply(conn.req_id(), run@),
        run_reply_ok(conn.req_id(), r@),
{
    let ghost id = conn.req_id();
    let ghost evs = run@.events;
    let ToolRun { events, outcome } = run;
    let result_json = outcome.to_json();
    let mut conn = conn;
    if events.len() == 0 {
        match conn.finish(result_json) {
            Emit::Single(m) => {
                proof {
                    assert(run_frames(id, ToolRunV { events: evs, outcome: outcome@ })[0] == m@);
                }
                Reply::Send(m)
            },
            _ => {
                proof {
                    assert(false);
                }
                Reply::Accept
            },
        }
    } else {
        let mut out: Vec<Message> = Vec::new();
        let mut k: usize = 0;
        while k < events.len()
            invariant
                k <= events.len(),
                events.len() <= u64::MAX,
                evs =~= Seq::new(events@.len(), |i: int| events@[i]@),
                conn.wf(),
                conn.req_id() == id,
                conn.requests_made() == req_count(evs, k as int),
                conn.is_streaming() == (k > 0),
                conn.history().len() == k as int,
                out@.len() == k as int,
                forall|i: int| 0 <= i < k ==> #[trigger] out@[i]@ == event_frame(evs, i),
                forall|i: int| 0 <= i < k ==> #[trigger] conn.history()[i] == event_frame(evs, i),
            decreases events.len() - k,
        {
            proof {
                lemma_req_count_bound(evs, k as int);
                assert(evs[k as int] == events@[k as int]@);
            }
            let emit = match &events[k] {
                ToolEvent::Request { method, params } => {
                    let p = match params {
                        Some(v) => Some(v.duplicate()),
                        None => None,
                    };
                    conn.request(method.clone(), p)
                },
                ToolEvent::Notify { method, params } => {
                    let p = match params {
                        Some(v) => Some(v.duplicate()),
                        None => None,
                    };
                    conn.notify(method.clone(), p)
                },
            };
            proof {
                assert(req_count(evs, k as int + 1) == conn.requests_made());
            }
            match emit {
                Emit::Open(m) => {
                    out.push(m);
                },
                Emit::Frame(m) => {
                    out.push(m);
                },
                _ => {
                    proof {
                        assert(false);
                    }
                },
            }
            k = k + 1;
        }
        let final_emit = conn.finish(result_json);
        match final_emit {
            Emit::Last(m) => {
                let ghost history = conn.history();
                out.push(m);
                proof {
                    let frames = run_frames(id, ToolRunV { events: evs, outcome: outcome@ });
                    assert(Seq::new(out@.len(), |i: int| out@[i]@) =~~= frames);
                    assert(request_ids(frames.drop_last()) == request_ids(history)) by {
                        assert(frames.drop_last() =~= history);
                    }
                    assert(request_ids(frames) =~= request_ids(history));
                    crate::connection::lemma_request_ids_consecutive(conn);
                    assert forall|i: int| 0 <= i < frames.len() - 1 implies !is_terminal(
                        #[trigger] frames[i],
                        id,
                    ) by {
                        assert(frames[i] == history[i]);
                    }
                }
                Reply::Stream(out)
            },
            _ => {
                proof {
                    assert(false);
                }
                Reply::Accept
            },
        }
    }
}

/// The initialize result a server answers with: the supported protocol
/// revision, the tools capability exactly when the registry is nonempty,
/// and the server's own name and version.
pub open spec fn init_result_spec(
    name: Seq<char>,
    version: Seq<char>,
    reg: Seq<crate::tool::ToolDefV>,
) -> InitializeResultV {
    InitializeResultV {
        protocol_version: "2025-06-18"@,
        capabilities: CapabilitiesV {
            tools: if reg.len() > 0 {
                Some(false)
            } else {
                None
            },
        },
        server_info: ServerInfoV { name, version },
    }
}

/// The published description of a registered tool.
pub open spec fn meta_of(t: crate::tool::ToolDefV) -> crate::tool::ToolV {
    crate::tool::ToolV {
        name: t.name,
        title: t.title,
        description: t.description,
        input_schema: crate::tool::input_schema_spec(t.args),
        output_schema: t.output,
    }
}

/// The `tools/list` result: every registered tool, in registry order —
/// sorted by name, since the registry is.
pub open spec fn enc_tools_list(reg: Seq<crate::tool::ToolDefV>) -> JsonV {
    JsonV::Obj(
        seq![
            (
                "tools"@,
                JsonV::Arr(Seq::new(reg.len(), |i: int| crate::tool::enc_tool(meta_of(reg[i])))),
            ),
        ],
    )
}

/// What the reply to a `tools/call` request must be.
pub open spec fn call_post(
    reg: Seq<crate::tool::ToolDefV>,
    id: u64,
    params: Option<JsonV>,
    r: ReplyV,
) -> bool {
    let pj = match params {
        Some(v) => v,
        None => JsonV::Null,
    };
    match crate::tool::dec_call(pj) {
        None => r == ReplyV::Send(
            MessageV::Error(
                ErrorV { id: Some(id), code: -32602i64, message: "invalid tools/call params"@ },
            ),
        ),
        Some(call) => match crate::tool::find_tool(reg, call.name) {
            None => r == ReplyV::Send(
                MessageV::Error(
                    ErrorV {
                        id: Some(id),
                        code: -32602i64,
                        message: "Unknown tool: "@ + call.name,
                    },
                ),
            ),
            Some(tool) => match call.arguments {
                JsonV::Obj(obj) => match crate::tool::bind_spec(tool.args, obj, 0) {
                    Some(_) => run_reply_ok(id, r),
                    None => r matches ReplyV::Send(m) && m matches MessageV::Error(e) && e.id
                        == Some(id) && e.code == -32602i64,
                },
                _ => r matches ReplyV::Send(m) && m matches MessageV::Error(e) && e.id == Some(id)
                    && e.code == -32602i64,
            },
        },
    }
}

/// What the reply to one request must be, method by method.
pub open spec fn serve_post(
    reg: Seq<crate::tool::ToolDefV>,
    name: Seq<char>,
    version: Seq<char>,
    id: u64,
    method: Seq<char>,
    params: Option<JsonV>,
    r: ReplyV,
) -> bool {
    if method == "initialize"@ {
        r == ReplyV::Send(
            MessageV::Response {
                id,
                result: enc_initialize_result(init_result_spec(name, version, reg)),
            },
        )
    } else if method == "ping"@ {
        r == ReplyV::Send(MessageV::Response { id, result: JsonV::Obj(Seq::empty()) })
    } else if method == "tools/list"@ {
        r == ReplyV::Send(MessageV::Response { id, result: enc_tools_list(reg) })
    } else if method == "tools/call"@ {
        call_post(reg, id, params, r)
    } else {
        r == ReplyV::Send(
            MessageV::Error(
                ErrorV { id: Some(id), code: -32601i64, message: "Unknown method: "@ + method },
            ),
        )
    }
}

/// What the reply to one inbound byte frame must be.
pub open spec fn handle_post(
    reg: Seq<crate::tool::ToolDefV>,
    name: Seq<char>,
    version: Seq<char>,
    bytes: Seq<u8>,
    r: ReplyV,
) -> bool {
    match crate::parse::json_of(bytes) {
        None => r matches ReplyV::Send(m) && m matches MessageV::Error(e) && e.code == -32700i64
            && e.id is None,
        Some(jv) => match dec_msg(jv) {
            None => r == ReplyV::Send(MessageV::Error(decode_failure(jv))),
            Some(m) => match m {
                MessageV::Request { id, method, params } => serve_post(
                    reg,
                    name,
                    version,
                    id,
                    method,
                    params,
                    r,
                ),
                _ => r == ReplyV::Reject,
            },
        },
    }
}

/// The server: its self-description and its tool registry, kept sorted by
/// name and read-only once serving begins.
pub struct Server {
    name: String,
    version: String,
    tools: Vec<ToolDef>,
}

impl Server {
    /// The registered tools, in name order.
    pub closed spec fn reg(&self) -> Seq<crate::tool::ToolDefV> {
        crate::tool::tools_view(self.tools@)
    }

    pub closed spec fn spec_name(&self) -> Seq<char> {
        self.name@
    }

    pub closed spec fn spec_version(&self) -> Seq<char> {
        self.version@
    }

    /// The registry is strictly sorted by name.
    pub closed spec fn wf(&self) -> bool {
        crate::tool::reg_sorted(self.reg())
    }

    /// A server with no tools.
    pub fn new(name: String, version: String) -> (r: Server)
        ensures
            r.wf(),
            r.reg() == Seq::<crate::tool::ToolDefV>::empty(),
            r.spec_name() == name@,
            r.spec_version() == version@,
    {
        let r = Server { name, version, tools: Vec::new() };
        proof {
            assert(r.reg() =~= Seq::<crate::tool::ToolDefV>::empty());
        }
        r
    }

    /// Registers every given tool, later entries replacing earlier ones of
    /// the same name; the registry stays sorted by name.
    pub fn tools(self, tools: Vec<ToolDef>) -> (r: Server)
        requires
            self.wf(),
        ensures
            r.wf(),
            r.spec_name() == self.spec_name(),
            r.spec_version() == self.spec_version(),
            forall|j: int|
                0 <= j < tools@.len() ==> crate::tool::find_tool(
                    r.reg(),
                    (#[trigger] tools@[j])@.name,
                ) is Some,
            forall|i: int|
                0 <= i < r.reg().len() ==> (exists|j: int|
                    0 <= j < tools@.len() && #[trigger] r.reg()[i] == tools@[j]@) || self.reg().contains(
                    r.reg()[i],
                ),
    {
        let mut server = self;
        let mut rest = tools;
        let ghost given = tools@;
        let n0 = rest.len();
        proof {
            assert(given.len() == n0 as int);
        }
        let mut k: usize = 0;
        while rest.len() > 0
            invariant
                given.len() <= usize::MAX,
                server.wf(),
                server.spec_name() == self.spec_name(),
                server.spec_version() == self.spec_version(),
                k + rest@.len() == given.len(),
                forall|i: int| 0 <= i < rest@.len() ==> #[trigger] rest@[i] == given[k + i],
                forall|j: int|
                    0 <= j < k ==> crate::tool::find_tool(
                        server.reg(),
                        (#[trigger] given[j])@.name,
                    ) is Some,
                forall|i: int|
                    0 <= i < server.reg().len() ==> (exists|j: int|
                        0 <= j < k && #[trigger] server.reg()[i] == given[j]@)
                        || self.reg().contains(server.reg()[i]),
            decreases rest@.len(),
        {
            let ghost old_reg = server.reg();
            let t = rest.remove(0);
            proof {
                assert(t == given[k as int]);
            }
            server.add_tool(t);
            k = k + 1;
            proof {
                assert forall|j: int|
                    0 <= j < k implies crate::tool::find_tool(
                    server.reg(),
                    (#[trigger] given[j])@.name,
                ) is Some by {
                    if given[j]@.name != given[k - 1]@.name {
                        assert(crate::tool::find_tool(server.reg(), given[j]@.name)
                            == crate::tool::find_tool(old_reg, given[j]@.name));
                    }
                }
            }
        }
        server
    }

    /// Inserts one tool in name order, replacing a tool of the same name.
    fn add_tool(&mut self, t: ToolDef)
        requires
            old(self).wf(),
        ensures
            final (self).wf(),
            final (self).spec_name() == old(self).spec_name(),
            final (self).spec_version() == old(self).spec_version(),
            crate::tool::find_tool(final (self).reg(), t@.name) == Some(t@),
            forall|n: Seq<char>|
                n != t@.name ==> crate::tool::find_tool(final (self).reg(), n)
                    == crate::tool::find_tool(old(self).reg(), n),
            forall|i: int|
                0 <= i < final (self).reg().len() ==> final (self).reg()[i] == t@ || old(
                    self,
                ).reg().contains(#[trigger] final (self).reg()[i]),
    {
        let ghost old_reg = self.reg();
        let ghost n = t@.name;
        let i = insert_pos(&self.tools, t.name.as_str());
        let ghost before = old_reg.take(i as int);
        let replace = i < self.tools.len() && str_eq(
            self.tools[i].name.as_str(),
            t.name.as_str(),
        );
        let ghost after = if replace {
            old_reg.skip(i as int + 1)
        } else {
            old_reg.skip(i as int)
        };
        if replace {
            let _removed = self.tools.remove(i);
        }
        self.tools.insert(i, t);
        proof {
            let new_reg = self.reg();
            assert(new_reg =~~= before + seq![t@] + after);
            // The names before the insertion point lie strictly below the
            // new name; those after it strictly above.
            assert forall|x: int| 0 <= x < before.len() implies crate::tool::lex_lt(
                (#[trigger] before[x]).name,
                n,
            ) by {
                assert(before[x] == old_reg[x]);
            }
            assert forall|x: int| 0 <= x < after.len() implies crate::tool::lex_lt(
                n,
                (#[trigger] after[x]).name,
            ) by {
                if replace {
                    assert(after[x] == old_reg[i + 1 + x]);
                    assert(crate::tool::lex_lt(old_reg[i as int].name, old_reg[i + 1 + x].name));
                } else {
                    assert(after[x] == old_reg[i + x]);
                    crate::tool::lemma_lex_order(old_reg[i as int].name, n);
                    if x > 0 {
                        assert(crate::tool::lex_lt(old_reg[i as int].name, old_reg[i + x].name));
                        crate::tool::lemma_lex_lt_trans(
                            n,
                            old_reg[i as int].name,
                            old_reg[i + x].name,
                        );
                    }
                }
            }
            // Sorted: compare by position in the decomposition.
            assert forall|x: int, y: int|
                0 <= x < y < new_reg.len() implies crate::tool::lex_lt(
                (#[trigger] new_reg[x]).name,
                (#[trigger] new_reg[y]).name,
            ) by {
                let b = before.len() as int;
                if x < b && y < b {
                    assert(new_reg[x] == old_reg[x] && new_reg[y] == old_reg[y]);
                } else if x < b && y == b {
                    assert(new_reg[y] == t@);
                } else if x < b && y > b {
                    assert(new_reg[y] == after[y - b - 1]);
                    crate::tool::lemma_lex_lt_trans(new_reg[x].name, n, new_reg[y].name);
                } else if x == b && y > b {
                    assert(new_reg[y] == after[y - b - 1]);
                } else {
                    assert(new_reg[x] == after[x - b - 1] && new_reg[y] == after[y - b - 1]);
                    if replace {
                        assert(new_reg[x] == old_reg[i + 1 + (x - b - 1)]);
                        assert(new_reg[y] == old_reg[i + 1 + (y - b - 1)]);
                    } else {
                        assert(new_reg[x] == old_reg[i + (x - b - 1)]);
                        assert(new_reg[y] == old_reg[i + (y - b - 1)]);
                    }
                }
            }
            // Lookup facts through the decomposition.
            assert forall|x: int| 0 <= x < before.len() implies (#[trigger] before[x]).name
                != n by {}
            crate::tool::lemma_find_tool_absent(before, n);
            crate::tool::lemma_find_tool_concat(before, seq![t@] + after, n);
            assert((before + seq![t@] + after) =~= before + (seq![t@] + after));
            assert((seq![t@] + after)[0] == t@);
            assert(crate::tool::find_tool(new_reg, n) == Some(t@));
            assert forall|n2: Seq<char>| n2 != n implies crate::tool::find_tool(new_reg, n2)
                == crate::tool::find_tool(old_reg, n2) by {
                crate::tool::lemma_find_tool_concat(before, seq![t@] + after, n2);
                assert((seq![t@] + after)[0] == t@);
                assert((seq![t@] + after).skip(1) =~= after);
                if replace {
                    let mid = seq![old_reg[i as int]];
                    assert(old_reg =~= before + (mid + after));
                    crate::tool::lemma_find_tool_concat(before, mid + after, n2);
                    assert((mid + after)[0] == old_reg[i as int]);
                    assert((mid + after).skip(1) =~= after);
                } else {
                    assert(old_reg =~= before + after);
                    crate::tool::lemma_find_tool_concat(before, after, n2);
                }
            }
            // Every entry of the new registry is the new tool or an old one.
            assert forall|x: int| 0 <= x < new_reg.len() implies new_reg[x] == t@
                || old_reg.contains(#[trigger] new_reg[x]) by {
                let b = before.len() as int;
                if x < b {
                    assert(new_reg[x] == old_reg[x]);
                } else if x > b {
                    if replace {
                        assert(new_reg[x] == old_reg[i + 1 + (x - b - 1)]);
                    } else {
                        assert(new_reg[x] == old_reg[i + (x - b - 1)]);
                    }
                }
            }
        }
    }
}

/// The position the given name belongs at in the sorted registry.
fn insert_pos(tools: &Vec<ToolDef>, name: &str) -> (i: usize)
    ensures
        i <= tools@.len(),
        forall|k: int|
            0 <= k < i ==> crate::tool::lex_lt(
                (#[trigger] crate::tool::tools_view(tools@)[k]).name,
                name@,
            ),
        i < tools@.len() ==> !crate::tool::lex_lt(
            crate::tool::tools_view(tools@)[i as int].name,
            name@,
        ),
{
    let mut i: usize = 0;
    while i < tools.len()
        invariant
            i <= tools@.len(),
            forall|k: int|
                0 <= k < i ==> crate::tool::lex_lt(
                    (#[trigger] crate::tool::tools_view(tools@)[k]).name,
                    name@,
                ),
        decreases tools@.len() - i,
    {
        if !crate::tool::str_lt(tools[i].name.as_str(), name) {
            return i;
        }
        i = i + 1;
    }
    i
}


/// Terminates a fresh connection with an error frame, as a single reply.
fn error_reply(conn: Connection, payload: ErrorKind) -> (r: Reply)
    requires
        conn.wf(),
        !conn.is_streaming(),
    ensures
        r@ == ReplyV::Send(
            MessageV::Error(
                ErrorV { id: Some(conn.req_id()), code: payload.code, message: payload.message@ },
            ),
        ),
{
    match conn.error(payload) {
        Emit::Single(m) => Reply::Send(m),
        _ => {
            proof {
                assert(false);
            }
            Reply::Accept
        },
    }
}

/// Terminates a fresh connection with a response frame, as a single reply.
fn finish_reply(conn: Connection, result: Json) -> (r: Reply)
    requires
        conn.wf(),
        !conn.is_streaming(),
    ensures
        r@ == ReplyV::Send(MessageV::Response { id: conn.req_id(), result: result@ }),
{
    match conn.finish(result) {
        Emit::Single(m) => Reply::Send(m),
        _ => {
            proof {
                assert(false);
            }
            Reply::Accept
        },
    }
}

impl Server {
    /// Answers `initialize`: protocol revision, capabilities, server info.
    fn initialize(&self, connection: Connection) -> (r: Reply)
        requires
            self.wf(),
            connection.wf(),
            !connection.is_streaming(),
        ensures
            r@ == ReplyV::Send(
                MessageV::Response {
                    id: connection.req_id(),
                    result: enc_initialize_result(
                        init_result_spec(self.spec_name(), self.spec_version(), self.reg()),
                    ),
                },
            ),
    {
        let result = InitializeResult {
            protocol_version: "2025-06-18".to_owned(),
            capabilities: Capabilities {
                tools: if self.tools.len() > 0 {
                    Some(Tools { list_changed: false })
                } else {
                    None
                },
            },
            server_info: ServerInfo { name: self.name.clone(), version: self.version.clone() },
        };
        proof {
            assert(result@ =~~= init_result_spec(
                self.spec_name(),
                self.spec_version(),
                self.reg(),
            ));
        }
        finish_reply(connection, result.to_json())
    }

    /// Answers `ping` with an empty object.
    fn ping(&self, connection: Connection) -> (r: Reply)
        requires
            connection.wf(),
            !connection.is_streaming(),
        ensures
            r@ == ReplyV::Send(
                MessageV::Response { id: connection.req_id(), result: JsonV::Obj(Seq::empty()) },
            ),
    {
        let empty: Vec<(String, Json)> = Vec::new();
        let result = Json::Obj(empty);
        proof {
            crate::json::lemma_obj_view(empty@);
            assert(result@ =~~= JsonV::Obj(Seq::<(Seq<char>, JsonV)>::empty()));
        }
        finish_reply(connection, result)
    }

    /// Answers `tools/list` with the registry in name order.
    fn list_tools(&self, connection: Connection) -> (r: Reply)
        requires
            self.wf(),
            connection.wf(),
            !connection.is_streaming(),
        ensures
            r@ == ReplyV::Send(
                MessageV::Response { id: connection.req_id(), result: enc_tools_list(self.reg()) },
            ),
    {
        let mut items: Vec<Json> = Vec::new();
        let mut k: usize = 0;
        while k < self.tools.len()
            invariant
                k <= self.tools@.len(),
                items@.len() == k as int,
                forall|i: int|
                    0 <= i < k ==> #[trigger] items@[i]@ == crate::tool::enc_tool(
                        meta_of(crate::tool::tools_view(self.tools@)[i]),
                    ),
            decreases self.tools@.len() - k,
        {
            let t = &self.tools[k];
            let meta = crate::tool::Tool {
                name: t.name.clone(),
                title: match &t.title {
                    Some(v) => Some(v.clone()),
                    None => None,
                },
                description: t.description.clone(),
                input_schema: t.input(),
                output_schema: match &t.output {
                    Some(sc) => Some(sc.duplicate()),
                    None => None,
                },
            };
            proof {
                assert(meta@ =~~= meta_of(crate::tool::tools_view(self.tools@)[k as int]));
            }
            items.push(meta.to_json());
            k = k + 1;
        }
        let mut pairs: Vec<(String, Json)> = Vec::new();
        pairs.push(("tools".to_owned(), Json::Arr(items)));
        let result = Json::Obj(pairs);
        proof {
            crate::json::lemma_obj_view(pairs@);
            crate::json::lemma_arr_view(items@);
            assert forall|i: int|
                0 <= i < items@.len() implies #[trigger] crate::json::arr_view_from(items@, 0)[i]
                == crate::tool::enc_tool(meta_of(self.reg()[i])) by {
                assert(crate::json::arr_view_from(items@, 0)[i] == crate::json::json_view(
                    items@[i],
                ));
                assert(items@[i]@ == crate::json::json_view(items@[i]));
                assert(items@[i]@ == crate::tool::enc_tool(
                    meta_of(crate::tool::tools_view(self.tools@)[i]),
                ));
            }
            assert(crate::json::arr_view_from(items@, 0) =~~= Seq::new(
                self.reg().len(),
                |i: int| crate::tool::enc_tool(meta_of(self.reg()[i])),
            ));
            assert(crate::json::obj_view_from(pairs@, 0) =~~= seq![
                (
                    "tools"@,
                    JsonV::Arr(
                        Seq::new(
                            self.reg().len(),
                            |i: int| crate::tool::enc_tool(meta_of(self.reg()[i])),
                        ),
                    ),
                ),
            ]);
            assert(result@ =~~= enc_tools_list(self.reg()));
        }
        finish_reply(connection, result)
    }

    /// Answers `tools/call`: look the tool up, bind the arguments, run the
    /// handler, and relay everything it produced.
    fn call_tool<H: Handler>(
        &self,
        connection: Connection,
        params: Option<Json>,
        handler: &H,
    ) -> (r: Reply)
        requires
            self.wf(),
            connection.wf(),
            !connection.is_streaming(),
            connection.requests_made() == 0,
            connection.history().len() == 0,
        ensures
            call_post(self.reg(), connection.req_id(), opt_json_view(params), r@),
    {
        let pj: Json = match params {
            Some(v) => v,
            None => Json::Null,
        };
        let call = match crate::tool::ToolCall::from_json(&pj) {
            Some(c) => c,
            None => {
                return error_reply(
                    connection,
                    ErrorKind::invalid_params("invalid tools/call params".to_owned()),
                );
            },
        };
        let tool = match crate::tool::lookup_tool(&self.tools, call.name.as_str()) {
            Some(t) => t,
            None => {
                let mut message: String = "Unknown tool: ".to_owned();
                message.append(call.name.as_str());
                return error_reply(connection, ErrorKind::new(-32602, message));
            },
        };
        let obj = match crate::tool::object(call.arguments) {
            Ok(o) => o,
            Err(e) => {
                return error_reply(connection, e);
            },
        };
        let values = match crate::tool::bind_args(&tool.args, &obj) {
            Ok(v) => v,
            Err(e) => {
                return error_reply(connection, e);
            },
        };
        let run = handler.run(&tool.name, values);
        let n = run.events.len();
        proof {
            assert(n <= usize::MAX);
            assert(run.events@.len() <= u64::MAX);
        }
        serve_tool_run(connection, run)
    }

    /// Dispatches one decoded request to its reply.
    pub fn serve<H: Handler>(
        &self,
        connection: Connection,
        method: String,
        params: Option<Json>,
        handler: &H,
    ) -> (r: Reply)
        requires
            self.wf(),
            connection.wf(),
            !connection.is_streaming(),
            connection.requests_made() == 0,
            connection.history().len() == 0,
        ensures
            serve_post(
                self.reg(),
                self.spec_name(),
                self.spec_version(),
                connection.req_id(),
                method@,
                opt_json_view(params),
                r@,
            ),
    {
        if str_eq(method.as_str(), "initialize") {
            self.initialize(connection)
        } else if str_eq(method.as_str(), "ping") {
            self.ping(connection)
        } else if str_eq(method.as_str(), "tools/list") {
            self.list_tools(connection)
        } else if str_eq(method.as_str(), "tools/call") {
            self.call_tool(connection, params, handler)
        } else {
            let e = Error::method_not_found(method);
            error_reply(connection, e.payload)
        }
    }

    /// Handles one inbound byte frame: decode, dispatch, reply.
    ///
    /// Malformed bytes are answered with an `invalid JSON` error frame and
    /// the loop goes on; a frame fitting no shape with the discriminator's
    /// error; notifications and peer responses are rejected; requests are
    /// served by method.
    pub fn handle<H: Handler>(&self, bytes: &[u8], handler: &H) -> (r: Reply)
        requires
            self.wf(),
        ensures
            handle_post(self.reg(), self.spec_name(), self.spec_version(), bytes@, r@),
    {
        match Message::deserialize(bytes) {
            Ok(m) => match m {
                Message::Request { id, method, params } => self.serve(
                    Connection::new(Id(id)),
                    method,
                    params,
                    handler,
                ),
                _ => Reply::Reject,
            },
            Err(e) => Reply::Send(Message::Error(e)),
        }
    }
}


/// Which transport a server process should serve on.
pub enum TransportChoice {
    /// Serve on the process's own standard streams.
    Stdio,
    /// Serve HTTP on the given address.
    Http(String),
}

/// Picks the transport from the command-line arguments after the
/// executable's name: nothing selects stdio; `--http` with an optional
/// address selects HTTP, `127.0.0.1:8080` by default; anything else is
/// rejected with the offending argument named.
pub fn choose_transport(args: &Vec<String>) -> (r: Result<TransportChoice, String>)
    ensures
        args@.len() == 0 ==> (r matches Ok(c) && c is Stdio),
        args@.len() >= 1 && args@[0]@ == "--http"@ && args@.len() == 1 ==> (r matches Ok(c)
            && c matches TransportChoice::Http(a) && a@ == "127.0.0.1:8080"@),
        args@.len() == 2 && args@[0]@ == "--http"@ ==> (r matches Ok(c)
            && c matches TransportChoice::Http(a) && a@ == args@[1]@),
        args@.len() > 2 && args@[0]@ == "--http"@ ==> r is Err,
        args@.len() >= 1 && args@[0]@ != "--http"@ ==> r is Err,
{
    if args.len() == 0 {
        return Ok(TransportChoice::Stdio);
    }
    if crate::json::str_eq(args[0].as_str(), "--http") {
        if args.len() == 1 {
            return Ok(TransportChoice::Http("127.0.0.1:8080".to_owned()));
        }
        if args.len() == 2 {
            return Ok(TransportChoice::Http(args[1].clone()));
        }
        let mut message: String = "Unknown argument: ".to_owned();
        message.append(args[2].as_str());
        return Err(message);
    }
    let mut message: String = "unknown argument: ".to_owned();
    message.append(args[0].as_str());
    Err(message)
}


} // verus!
