//! The per-request connection: the handle a dispatched request hands its
//! handler, owning the transport's one-shot reply slot.
//!
//! A connection starts idle. The first intermediate message consumes the
//! reply slot by opening a stream (`Emit::Open`); later intermediates flow
//! through it (`Emit::Frame`). The terminal operations `finish` and `error`
//! take the connection by value — nothing can follow them — and either
//! answer through the still-unused slot (`Emit::Single`) or close the open
//! stream with a final frame (`Emit::Last`). Request ids stamped on
//! peer-bound requests count up from zero, each used once.

use vstd::prelude::*;

use crate::json::Json;
use crate::message::ErrorKind;
use crate::message::Id;
use crate::message::Message;
use crate::message::MessageV;
use crate::message::ErrorV;
use crate::message::opt_json_view;

verus! {

broadcast use vstd::std_specs::vec::group_vec_axioms, vstd::seq::group_seq_axioms;

/// What one connection operation asks the transport to do.
pub enum Emit {
    /// Consume the reply slot by opening a stream; this is its first frame.
    Open(Message),
    /// Push one more frame into the already open stream.
    Frame(Message),
    /// Answer with this single message through the reply slot.
    Single(Message),
    /// Push this final frame into the open stream, then close it.
    Last(Message),
}

/// A frame that terminates the conversation for request `id`: the response
/// to it, or an error addressed to it.
pub open spec fn is_terminal(m: MessageV, id: u64) -> bool {
    match m {
        MessageV::Response { id: i, .. } => i == id,
        MessageV::Error(e) => e.id == Some(id),
        _ => false,
    }
}

/// The ids of the request frames in a frame sequence, in order.
pub open spec fn request_ids(frames: Seq<MessageV>) -> Seq<u64>
    decreases frames.len(),
{
    if frames.len() == 0 {
        Seq::empty()
    } else {
        request_ids(frames.drop_last()) + (match frames.last() {
            MessageV::Request { id, .. } => seq![id],
            _ => Seq::empty(),
        })
    }
}

/// How many frames of a sequence terminate request `id`.
pub open spec fn terminal_count(frames: Seq<MessageV>, id: u64) -> int
    decreases frames.len(),
{
    if frames.len() == 0 {
        0int
    } else {
        terminal_count(frames.drop_last(), id) + (if is_terminal(frames.last(), id) {
            1int
        } else {
            0int
        })
    }
}

/// A frame sequence whose last frame alone is terminal holds exactly one
/// terminal frame; nothing follows it.
pub proof fn lemma_exactly_one_terminal(frames: Seq<MessageV>, id: u64)
    requires
        frames.len() > 0,
        forall|i: int| 0 <= i < frames.len() - 1 ==> !is_terminal(#[trigger] frames[i], id),
        is_terminal(frames.last(), id),
    ensures
        terminal_count(frames, id) == 1,
    decreases frames.len(),
{
    assert forall|i: int|
        0 <= i < frames.drop_last().len() implies !is_terminal(
        #[trigger] frames.drop_last()[i],
        id,
    ) by {
        assert(frames.drop_last()[i] == frames[i]);
    }
    lemma_no_terminal_zero(frames.drop_last(), id);
}

proof fn lemma_no_terminal_zero(frames: Seq<MessageV>, id: u64)
    requires
        forall|i: int| 0 <= i < frames.len() ==> !is_terminal(#[trigger] frames[i], id),
    ensures
        terminal_count(frames, id) == 0,
    decreases frames.len(),
{
    if frames.len() > 0 {
        lemma_no_terminal_zero(frames.drop_last(), id);
    }
}

/// The per-request handle.
pub struct Connection {
    id: u64,
    streaming: bool,
    total_requests: Id,
    history: Ghost<Seq<MessageV>>,
}

impl Connection {
    /// The id of the inbound request this connection answers.
    pub closed spec fn req_id(&self) -> u64 {
        self.id
    }

    /// The intermediate frames emitted so far, oldest first.
    pub closed spec fn history(&self) -> Seq<MessageV> {
        self.history@
    }

    /// How many peer-bound requests have been stamped.
    pub closed spec fn requests_made(&self) -> u64 {
        self.total_requests.0
    }

    /// Whether the reply slot has been consumed by an open stream.
    pub closed spec fn is_streaming(&self) -> bool {
        self.streaming
    }

    /// The connection's invariant: it is streaming exactly when something
    /// was emitted, nothing emitted so far terminates the request, and the
    /// request ids handed out so far are exactly `0, 1, …`, in order.
    pub closed spec fn wf(&self) -> bool {
        &&& self.streaming == (self.history@.len() > 0)
        &&& forall|i: int|
            0 <= i < self.history@.len() ==> !is_terminal(#[trigger] self.history@[i], self.id)
        &&& request_ids(self.history@) == Seq::new(
            self.total_requests.0 as nat,
            |i: int| i as u64,
        )
    }

    /// A fresh connection for the request with the given id.
    pub fn new(id: Id) -> (r: Connection)
        ensures
            r.wf(),
            r.req_id() == id.0,
            r.history() == Seq::<MessageV>::empty(),
            r.requests_made() == 0,
            !r.is_streaming(),
    {
        let r = Connection {
            id: id.0,
            streaming: false,
            total_requests: Id(0),
            history: Ghost(Seq::empty()),
        };
        proof {
            assert(request_ids(r.history@) =~= Seq::new(0nat, |i: int| i as u64));
        }
        r
    }

    /// Emits one intermediate peer-bound request, stamped with the next
    /// request id.
    pub fn request(&mut self, method: String, params: Option<Json>) -> (e: Emit)
        requires
            old(self).wf(),
            old(self).requests_made() < u64::MAX,
        ensures
            final (self).wf(),
            final (self).req_id() == old(self).req_id(),
            final (self).requests_made() == old(self).requests_made() + 1,
            final (self).is_streaming(),
            final (self).history() == old(self).history().push(
                MessageV::Request {
                    id: old(self).requests_made(),
                    method: method@,
                    params: opt_json_view(params),
                },
            ),
            ({
                let m = MessageV::Request {
                    id: old(self).requests_made(),
                    method: method@,
                    params: opt_json_view(params),
                };
                match e {
                    Emit::Open(msg) => msg@ == m && !old(self).is_streaming(),
                    Emit::Frame(msg) => msg@ == m && old(self).is_streaming(),
                    _ => false,
                }
            }),
    {
        let id = self.total_requests.increment();
        let msg = Message::request(id, method, params);
        proof {
            let m = msg@;
            let h = self.history@.push(m);
            assert(h.drop_last() =~= self.history@);
            assert(request_ids(h) =~= Seq::new(
                self.total_requests.0 as nat,
                |i: int| i as u64,
            ));
        }
        self.history = Ghost(self.history@.push(msg@));
        if self.streaming {
            Emit::Frame(msg)
        } else {
            self.streaming = true;
            Emit::Open(msg)
        }
    }

    /// Emits one intermediate peer-bound notification.
    pub fn notify(&mut self, method: String, params: Option<Json>) -> (e: Emit)
        requires
            old(self).wf(),
        ensures
            final (self).wf(),
            final (self).req_id() == old(self).req_id(),
            final (self).requests_made() == old(self).requests_made(),
            final (self).is_streaming(),
            final (self).history() == old(self).history().push(
                MessageV::Notification { method: method@, params: opt_json_view(params) },
            ),
            ({
                let m = MessageV::Notification { method: method@, params: opt_json_view(params) };
                match e {
                    Emit::Open(msg) => msg@ == m && !old(self).is_streaming(),
                    Emit::Frame(msg) => msg@ == m && old(self).is_streaming(),
                    _ => false,
                }
            }),
    {
        let msg = Message::notification(method, params);
        proof {
            let m = msg@;
            let h = self.history@.push(m);
            assert(h.drop_last() =~= self.history@);
            assert(request_ids(h) =~= request_ids(self.history@));
        }
        self.history = Ghost(self.history@.push(msg@));
        if self.streaming {
            Emit::Frame(msg)
        } else {
            self.streaming = true;
            Emit::Open(msg)
        }
    }

    /// Terminates the conversation with the response carrying `result`.
    /// The connection is consumed: no frame can follow the terminal one.
    pub fn finish(self, result: Json) -> (e: Emit)
        requires
            self.wf(),
        ensures
            ({
                let m = MessageV::Response { id: self.req_id(), result: result@ };
                &&& is_terminal(m, self.req_id())
                &&& match e {
                    Emit::Single(msg) => msg@ == m && !self.is_streaming(),
                    Emit::Last(msg) => msg@ == m && self.is_streaming(),
                    _ => false,
                }
            }),
    {
        let msg = Message::response(Id(self.id), result);
        if self.streaming {
            Emit::Last(msg)
        } else {
            Emit::Single(msg)
        }
    }

    /// Terminates the conversation with an error addressed to the request.
    pub fn error(self, payload: ErrorKind) -> (e: Emit)
        requires
            self.wf(),
        ensures
            ({
                let m = MessageV::Error(
                    ErrorV { id: Some(self.req_id()), code: payload.code, message: payload.message@ },
                );
                &&& is_terminal(m, self.req_id())
                &&& match e {
                    Emit::Single(msg) => msg@ == m && !self.is_streaming(),
                    Emit::Last(msg) => msg@ == m && self.is_streaming(),
                    _ => false,
                }
            }),
    {
        let msg = Message::error(Some(Id(self.id)), payload);
        if self.streaming {
            Emit::Last(msg)
        } else {
            Emit::Single(msg)
        }
    }
}

/// Request ids stamped by one connection count up from zero with step one:
/// the ids of the request frames in its history are `0, 1, …`, in order.
pub proof fn lemma_request_ids_consecutive(c: Connection)
    requires
        c.wf(),
    ensures
        request_ids(c.history()) =~= Seq::new(c.requests_made() as nat, |i: int| i as u64),
        forall|i: int|
            0 <= i < request_ids(c.history()).len() ==> request_ids(c.history())[i] == i as u64,
{
}

} // verus!
