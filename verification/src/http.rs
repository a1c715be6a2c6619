//! The streamable HTTP transport's pure core: request routing, the mapping
//! from a core reply to status, content type and body, server-sent-event
//! framing, and the incremental SSE reader the client uses.
//!
//! A single reply is a 200 with an `application/json` body; a stream is a
//! 200 with a `text/event-stream` body holding one `data:` record per
//! frame; acknowledgements are 202, rejections 400, unsupported verbs 405.
//! A handler that emits two or more frames therefore always streams, and
//! one frame never does (`lemma_stream_iff_many_frames`).

use vstd::prelude::*;

use crate::message::Message;
use crate::message::MessageV;
use crate::message::enc_msg;
use crate::server::Reply;
use crate::server::ReplyV;
use crate::server::ToolRunV;
use crate::server::run_frames;
use crate::server::run_reply;
use crate::text::no_lf;
use crate::text::render;

verus! {

broadcast use vstd::std_specs::vec::group_vec_axioms, vstd::seq::group_seq_axioms;

/// Where one HTTP exchange goes.
pub enum Route {
    /// POST `/`: one message to handle.
    Handle,
    /// GET `/`: the peer asks for a long-lived server-push stream.
    Subscribe,
    /// Any other path.
    NotFound,
    /// `/` with any other verb.
    MethodNotAllowed,
}

/// Routes one exchange by verb and path: only `/` exists, POST delivers a
/// message, GET asks to subscribe, anything else on `/` is not allowed.
pub fn route(verb: &str, path: &str) -> (r: Route)
    ensures
        path@ != "/"@ ==> r is NotFound,
        path@ == "/"@ && verb@ == "POST"@ ==> r is Handle,
        path@ == "/"@ && verb@ == "GET"@ ==> r is Subscribe,
        path@ == "/"@ && verb@ != "POST"@ && verb@ != "GET"@ ==> r is MethodNotAllowed,
{
    proof {
        reveal_strlit("POST");
        reveal_strlit("GET");
        assert("POST"@.len() == 4);
        assert("GET"@.len() == 3);
    }
    if !crate::json::str_eq(path, "/") {
        Route::NotFound
    } else if crate::json::str_eq(verb, "POST") {
        Route::Handle
    } else if crate::json::str_eq(verb, "GET") {
        Route::Subscribe
    } else {
        Route::MethodNotAllowed
    }
}

/// The bytes of one server-sent event carrying `frame`.
pub open spec fn sse_frame_bytes(frame: Seq<u8>) -> Seq<u8> {
    seq![0x64u8, 0x61u8, 0x74u8, 0x61u8, 0x3au8] + frame + seq![0x0Au8, 0x0Au8]
}

/// The SSE body for a frame list, one event per frame, from index `k` on.
pub open spec fn sse_body(frames: Seq<MessageV>, k: int) -> Seq<u8>
    decreases frames.len() - k,
{
    if 0 <= k < frames.len() {
        sse_frame_bytes(render(enc_msg(frames[k]))) + sse_body(frames, k + 1)
    } else {
        Seq::empty()
    }
}

/// One HTTP response: its status and, where one exists, its body with the
/// content type the body carries.
pub enum HttpReply {
    /// A single JSON body, `Content-Type: application/json`.
    Json { status: u16, body: Vec<u8> },
    /// An event stream, `Content-Type: text/event-stream`.
    Sse { status: u16, body: Vec<u8> },
    /// No body.
    Empty { status: u16 },
}

/// The shape of an HTTP response.
#[verifier::ext_equal]
pub enum HttpReplyV {
    Json { status: u16, body: Seq<u8> },
    Sse { status: u16, body: Seq<u8> },
    Empty { status: u16 },
}

impl View for HttpReply {
    type V = HttpReplyV;

    open spec fn view(&self) -> HttpReplyV {
        match self {
            HttpReply::Json { status, body } => HttpReplyV::Json { status: *status, body: body@ },
            HttpReply::Sse { status, body } => HttpReplyV::Sse { status: *status, body: body@ },
            HttpReply::Empty { status } => HttpReplyV::Empty { status: *status },
        }
    }
}

impl HttpReply {
    /// The content type of the response's body, if it has one.
    pub fn content_type(&self) -> (r: Option<&str>)
        ensures
            match r {
                Some(t) => (self@ matches HttpReplyV::Json { .. } && t@ == "application/json"@) || (
                self@ matches HttpReplyV::Sse { .. } && t@ == "text/event-stream"@),
                None => self@ matches HttpReplyV::Empty { .. },
            },
    {
        match self {
            HttpReply::Json { .. } => Some("application/json"),
            HttpReply::Sse { .. } => Some("text/event-stream"),
            HttpReply::Empty { .. } => None,
        }
    }
}

/// Whether a frame reports unparseable input: such an answer is served as
/// a 400, its body still the standard error object.
pub open spec fn is_parse_error(m: MessageV) -> bool {
    m matches MessageV::Error(e) && e.code == -32700i64
}

/// The HTTP response a core reply is served as.
pub open spec fn http_reply_spec(r: ReplyV) -> HttpReplyV {
    match r {
        ReplyV::Accept => HttpReplyV::Empty { status: 202 },
        ReplyV::Reject => HttpReplyV::Empty { status: 400 },
        ReplyV::Send(m) => HttpReplyV::Json {
            status: if is_parse_error(m) {
                400
            } else {
                200
            },
            body: render(enc_msg(m)),
        },
        ReplyV::Stream(frames) => HttpReplyV::Sse { status: 200, body: sse_body(frames, 0) },
        ReplyV::Unsupported => HttpReplyV::Empty { status: 405 },
    }
}

/// Appends one `data:` record carrying the frame.
fn push_sse_frame(m: &Message, out: &mut Vec<u8>)
    ensures
        final (out)@ == old(out)@ + sse_frame_bytes(render(enc_msg(m@))),
{
    out.push(0x64);
    out.push(0x61);
    out.push(0x74);
    out.push(0x61);
    out.push(0x3a);
    let rendered = m.serialize();
    let mut k: usize = 0;
    while k < rendered.len()
        invariant
            k <= rendered@.len(),
            rendered@ == render(enc_msg(m@)),
            out@ == old(out)@ + seq![0x64u8, 0x61u8, 0x74u8, 0x61u8, 0x3au8] + rendered@.take(
                k as int,
            ),
        decreases rendered@.len() - k,
    {
        out.push(rendered[k]);
        proof {
            assert(out@ =~= old(out)@ + seq![0x64u8, 0x61u8, 0x74u8, 0x61u8, 0x3au8]
                + rendered@.take(k as int + 1));
        }
        k = k + 1;
    }
    out.push(0x0A);
    out.push(0x0A);
    proof {
        assert(rendered@.take(rendered@.len() as int) =~= rendered@);
        assert(final (out)@ =~= old(out)@ + sse_frame_bytes(render(enc_msg(m@))));
    }
}

/// Serves one core reply as an HTTP response.
pub fn http_reply(r: Reply) -> (h: HttpReply)
    ensures
        h@ == http_reply_spec(r@),
{
    match r {
        Reply::Accept => HttpReply::Empty { status: 202 },
        Reply::Reject => HttpReply::Empty { status: 400 },
        Reply::Send(m) => {
            let status: u16 = match &m {
                Message::Error(e) => if e.payload.code == -32700 {
                    400
                } else {
                    200
                },
                _ => 200,
            };
            HttpReply::Json { status, body: m.serialize() }
        },
        Reply::Stream(frames) => {
            let mut body: Vec<u8> = Vec::new();
            let ghost fv = Seq::new(frames@.len(), |i: int| frames@[i]@);
            let mut k: usize = 0;
            while k < frames.len()
                invariant
                    k <= frames@.len(),
                    fv =~= Seq::new(frames@.len(), |i: int| frames@[i]@),
                    body@ == sse_body_upto(fv, k as int),
                decreases frames@.len() - k,
            {
                push_sse_frame(&frames[k], &mut body);
                proof {
                    lemma_sse_body_upto(fv, k as int + 1);
                }
                k = k + 1;
            }
            proof {
                lemma_sse_body_upto_full(fv);
            }
            HttpReply::Sse { status: 200, body }
        },
        Reply::Unsupported => HttpReply::Empty { status: 405 },
    }
}

/// The SSE body of the first `k` frames.
pub open spec fn sse_body_upto(frames: Seq<MessageV>, k: int) -> Seq<u8>
    decreases k,
{
    if k <= 0 {
        Seq::empty()
    } else {
        sse_body_upto(frames, k - 1) + sse_frame_bytes(render(enc_msg(frames[k - 1])))
    }
}

proof fn lemma_sse_body_upto(frames: Seq<MessageV>, k: int)
    requires
        0 < k,
    ensures
        sse_body_upto(frames, k) == sse_body_upto(frames, k - 1) + sse_frame_bytes(
            render(enc_msg(frames[k - 1])),
        ),
{
}

/// The prefix form and the suffix form of the body agree on the whole.
proof fn lemma_sse_body_upto_full(frames: Seq<MessageV>)
    ensures
        sse_body_upto(frames, frames.len() as int) == sse_body(frames, 0),
{
    lemma_sse_body_split(frames, 0);
    assert(sse_body_upto(frames, 0) + sse_body(frames, 0) =~= sse_body(frames, 0));
}

proof fn lemma_sse_body_split(frames: Seq<MessageV>, k: int)
    requires
        0 <= k <= frames.len(),
    ensures
        sse_body_upto(frames, frames.len() as int) == sse_body_upto(frames, k) + sse_body(
            frames,
            k,
        ),
    decreases frames.len() - k,
{
    if k < frames.len() {
        lemma_sse_body_split(frames, k + 1);
        assert(sse_body_upto(frames, k + 1) == sse_body_upto(frames, k) + sse_frame_bytes(
            render(enc_msg(frames[k])),
        ));
        assert(sse_body_upto(frames, k) + sse_frame_bytes(render(enc_msg(frames[k]))) + sse_body(
            frames,
            k + 1,
        ) =~= sse_body_upto(frames, k) + (sse_frame_bytes(render(enc_msg(frames[k]))) + sse_body(
            frames,
            k + 1,
        )));
    } else {
        assert(sse_body(frames, k) =~= Seq::<u8>::empty());
        assert(sse_body_upto(frames, frames.len() as int) + Seq::<u8>::empty() =~= sse_body_upto(
            frames,
            frames.len() as int,
        ));
    }
}

/// A reply produced by relaying a tool run streams exactly when the run
/// emits two or more frames; a lone response is served as a single JSON
/// body.
pub proof fn lemma_stream_iff_many_frames(id: u64, run: ToolRunV)
    ensures
        run_frames(id, run).len() >= 2 <==> http_reply_spec(run_reply(id, run))
            matches HttpReplyV::Sse { .. },
        run_frames(id, run).len() < 2 ==> http_reply_spec(run_reply(id, run))
            matches HttpReplyV::Json { .. },
{
}

/// One step of the SSE reader: the accumulated event bytes, the current
/// line, and what one input byte does to them. A line feed ends a line; an
/// empty line ends an event, which is delivered without its five-byte
/// `data:` prefix (an event no longer than the prefix is dropped); any
/// other completed line joins the accumulated event.
pub open spec fn sse_step(buf: Seq<u8>, cur: Seq<u8>, b: u8) -> (Seq<u8>, Seq<u8>, Seq<Seq<u8>>) {
    if b != 0x0Au8 {
        (buf, cur.push(b), Seq::empty())
    } else if cur.len() == 0 && buf.len() > 0 {
        (
            Seq::empty(),
            Seq::empty(),
            if buf.len() > 5 {
                seq![buf.skip(5)]
            } else {
                Seq::empty()
            },
        )
    } else {
        (buf + cur, Seq::empty(), Seq::empty())
    }
}

/// The reader's state and output after the first `k` bytes of `bytes`.
pub open spec fn sse_run(buf: Seq<u8>, cur: Seq<u8>, bytes: Seq<u8>, k: int) -> (
    Seq<u8>,
    Seq<u8>,
    Seq<Seq<u8>>,
)
    decreases k,
{
    if k <= 0 {
        (buf, cur, Seq::empty())
    } else {
        let prev = sse_run(buf, cur, bytes, k - 1);
        let st = sse_step(prev.0, prev.1, bytes[k - 1]);
        (st.0, st.1, prev.2 + st.2)
    }
}

/// The client-side incremental SSE reader: feed it the response body chunk
/// by chunk; it hands back each completed event's payload.
pub struct SseDecoder {
    buffer: Vec<u8>,
    current: Vec<u8>,
}

impl SseDecoder {
    pub closed spec fn buf(&self) -> Seq<u8> {
        self.buffer@
    }

    pub closed spec fn cur(&self) -> Seq<u8> {
        self.current@
    }

    /// A fresh reader, with nothing pending.
    pub fn new() -> (r: SseDecoder)
        ensures
            r.buf() == Seq::<u8>::empty(),
            r.cur() == Seq::<u8>::empty(),
    {
        SseDecoder { buffer: Vec::new(), current: Vec::new() }
    }

    /// Feeds one chunk of body bytes; returns the payloads of the events it
    /// completed, in order.
    pub fn push(&mut self, chunk: &[u8]) -> (events: Vec<Vec<u8>>)
        ensures
            ({
                let r = sse_run(old(self).buf(), old(self).cur(), chunk@, chunk@.len() as int);
                &&& final (self).buf() == r.0
                &&& final (self).cur() == r.1
                &&& Seq::new(events@.len(), |i: int| events@[i]@) =~~= r.2
            }),
    {
        let ghost b0 = self.buffer@;
        let ghost c0 = self.current@;
        let mut events: Vec<Vec<u8>> = Vec::new();
        let mut k: usize = 0;
        while k < chunk.len()
            invariant
                k <= chunk@.len(),
                ({
                    let r = sse_run(b0, c0, chunk@, k as int);
                    &&& self.buffer@ == r.0
                    &&& self.current@ == r.1
                    &&& Seq::new(events@.len(), |i: int| events@[i]@) =~~= r.2
                }),
            decreases chunk@.len() - k,
        {
            let ghost before = sse_run(b0, c0, chunk@, k as int);
            let b = chunk[k];
            if b != 0x0A {
                self.current.push(b);
            } else if self.current.len() == 0 && self.buffer.len() > 0 {
                if self.buffer.len() > 5 {
                    let payload = self.buffer.split_off(5);
                    events.push(payload);
                }
                self.buffer.clear();
            } else {
                self.buffer.append(&mut self.current);
            }
            proof {
                let st = sse_step(before.0, before.1, chunk@[k as int]);
                assert(self.buffer@ =~= st.0);
                assert(self.current@ =~= st.1);
                assert(Seq::new(events@.len(), |i: int| events@[i]@) =~~= before.2 + st.2);
            }
            k = k + 1;
        }
        events
    }
}

/// Running the reader over a concatenation is running it over each part.
pub proof fn lemma_sse_run_concat(buf: Seq<u8>, cur: Seq<u8>, a: Seq<u8>, b: Seq<u8>)
    ensures
        ({
            let whole = sse_run(buf, cur, a + b, (a + b).len() as int);
            let first = sse_run(buf, cur, a, a.len() as int);
            let second = sse_run(first.0, first.1, b, b.len() as int);
            whole.0 == second.0 && whole.1 == second.1 && whole.2 =~~= first.2 + second.2
        }),
    decreases b.len(),
{
    let first = sse_run(buf, cur, a, a.len() as int);
    if b.len() == 0 {
        assert(a + b =~= a);
        assert(first.2 + Seq::<Seq<u8>>::empty() =~~= first.2);
    } else {
        let b2 = b.drop_last();
        lemma_sse_run_concat(buf, cur, a, b2);
        let n = (a + b).len() as int;
        assert((a + b).take(n - 1) =~= a + b2);
        lemma_sse_run_prefix(buf, cur, a + b, a + b2, n - 1);
        assert((a + b)[n - 1] == b.last());
        let w2 = sse_run(buf, cur, a + b2, (a + b2).len() as int);
        let s2 = sse_run(first.0, first.1, b2, b2.len() as int);
        let st = sse_step(s2.0, s2.1, b.last());
        assert(sse_run(buf, cur, a + b, n).2 =~~= w2.2 + st.2);
        assert(b2.take(b2.len() as int) =~= b2);
        lemma_sse_run_prefix(first.0, first.1, b, b2, b.len() as int - 1);
        assert(b.take(b.len() as int - 1) =~= b2);
        assert(first.2 + (s2.2 + st.2) =~~= (first.2 + s2.2) + st.2);
    }
}

/// Running the reader over the first `k` bytes of `bytes` is running it
/// over `bytes.take(k)` whole.
proof fn lemma_sse_run_prefix(buf: Seq<u8>, cur: Seq<u8>, bytes: Seq<u8>, prefix: Seq<u8>, k: int)
    requires
        0 <= k <= bytes.len(),
        prefix =~= bytes.take(k),
    ensures
        sse_run(buf, cur, bytes, k) == sse_run(buf, cur, prefix, k),
    decreases k,
{
    if k > 0 {
        lemma_sse_run_prefix(buf, cur, bytes, bytes.take(k - 1), k - 1);
        assert(prefix.take(k - 1) =~= bytes.take(k - 1));
        lemma_sse_run_prefix(buf, cur, prefix, prefix.take(k - 1), k - 1);
        assert(prefix[k - 1] == bytes[k - 1]);
    }
}

/// Bytes without a line feed just grow the current line.
proof fn lemma_sse_run_no_lf(buf: Seq<u8>, cur: Seq<u8>, bytes: Seq<u8>)
    requires
        no_lf(bytes),
    ensures
        sse_run(buf, cur, bytes, bytes.len() as int) == (buf, cur + bytes, Seq::<Seq<u8>>::empty()),
    decreases bytes.len(),
{
    if bytes.len() == 0 {
        assert(cur + bytes =~= cur);
    } else {
        assert(no_lf(bytes.drop_last())) by {
            assert(forall|i: int|
                0 <= i < bytes.drop_last().len() ==> #[trigger] bytes.drop_last()[i] == bytes[i]);
        }
        lemma_sse_run_no_lf(buf, cur, bytes.drop_last());
        let n = bytes.len() as int;
        assert(bytes.take(n - 1) =~= bytes.drop_last());
        lemma_sse_run_prefix(buf, cur, bytes, bytes.drop_last(), n - 1);
        assert(bytes.last() != 0x0Au8) by {
            assert(bytes[n - 1] != 0x0Au8);
        }
        assert((cur + bytes.drop_last()).push(bytes.last()) =~= cur + bytes);
        assert(Seq::<Seq<u8>>::empty() + Seq::<Seq<u8>>::empty() =~~= Seq::<Seq<u8>>::empty());
    }
}

/// Feeding one whole `data:` record to an idle reader delivers exactly its
/// payload and leaves the reader idle again.

/// One byte runs the reader for exactly one step.
proof fn lemma_sse_run_one(buf: Seq<u8>, cur: Seq<u8>, b: u8)
    ensures
        ({
            let st = sse_step(buf, cur, b);
            let r = sse_run(buf, cur, seq![b], 1);
            r.0 == st.0 && r.1 == st.1 && r.2 =~~= st.2
        }),
{
    reveal_with_fuel(sse_run, 3);
    assert(seq![b][0] == b);
    assert(Seq::<Seq<u8>>::empty() + sse_step(buf, cur, b).2 =~~= sse_step(buf, cur, b).2);
}

proof fn lemma_sse_one_event(frame: Seq<u8>)
    requires
        no_lf(frame),
        frame.len() > 0,
    ensures
        ({
            let r = sse_run(
                Seq::empty(),
                Seq::empty(),
                sse_frame_bytes(frame),
                sse_frame_bytes(frame).len() as int,
            );
            r.0 =~= Seq::<u8>::empty() && r.1 =~= Seq::<u8>::empty() && r.2 =~~= seq![frame]
        }),
{
    let head = seq![0x64u8, 0x61u8, 0x74u8, 0x61u8, 0x3au8] + frame;
    let lf = seq![0x0Au8];
    assert(no_lf(head)) by {
        assert(forall|i: int| 5 <= i < head.len() ==> #[trigger] head[i] == frame[i - 5]);
    }
    assert(sse_frame_bytes(frame) =~= head + lf + lf);
    lemma_sse_run_concat(Seq::empty(), Seq::empty(), head + lf, lf);
    lemma_sse_run_concat(Seq::empty(), Seq::empty(), head, lf);
    lemma_sse_run_no_lf(Seq::empty(), Seq::empty(), head);
    let after_head = sse_run(Seq::empty(), Seq::empty(), head, head.len() as int);
    assert(after_head.1 =~= head) by {
        assert(Seq::<u8>::empty() + head =~= head);
    }
    // First line feed: the completed line becomes the pending event.
    lemma_sse_run_one(after_head.0, after_head.1, 0x0Au8);
    let st1 = sse_step(after_head.0, after_head.1, 0x0Au8);
    assert(st1.0 =~= head) by {
        assert(after_head.0 + after_head.1 =~= head);
    }
    let after_first = sse_run(
        Seq::empty(),
        Seq::empty(),
        head + lf,
        (head + lf).len() as int,
    );
    assert(after_first.0 =~= head);
    assert(after_first.1 =~= Seq::<u8>::empty());
    assert(after_first.2 =~~= Seq::<Seq<u8>>::empty());
    // Second line feed: the empty line delivers the event.
    lemma_sse_run_one(after_first.0, after_first.1, 0x0Au8);
    let st2 = sse_step(after_first.0, after_first.1, 0x0Au8);
    assert(head.len() > 5);
    assert(head.skip(5) =~= frame);
    assert(st2.2 =~~= seq![frame]);
    let whole = sse_run(
        Seq::empty(),
        Seq::empty(),
        head + lf + lf,
        (head + lf + lf).len() as int,
    );
    assert(whole.0 =~= Seq::<u8>::empty());
    assert(whole.1 =~= Seq::<u8>::empty());
    assert(whole.2 =~~= after_first.2 + st2.2);
    assert(whole.2 =~~= seq![frame]);
}

/// Reading back an SSE body delivers exactly the rendered frames, in
/// order: the reader inverts the writer's framing.
pub proof fn lemma_sse_round_trip(frames: Seq<MessageV>)
    ensures
        ({
            let body = sse_body(frames, 0);
            let r = sse_run(Seq::empty(), Seq::empty(), body, body.len() as int);
            r.0 =~= Seq::<u8>::empty() && r.1 =~= Seq::<u8>::empty() && r.2 =~~= Seq::new(
                frames.len(),
                |i: int| render(enc_msg(frames[i])),
            )
        }),
    decreases frames.len(),
{
    if frames.len() == 0 {
        assert(sse_body(frames, 0) =~= Seq::<u8>::empty());
        assert(sse_run(Seq::empty(), Seq::empty(), Seq::empty(), 0).2 =~~= Seq::new(
            0nat,
            |i: int| render(enc_msg(frames[i])),
        ));
    } else {
        let first = render(enc_msg(frames[0]));
        let rest = frames.skip(1);
        assert(sse_body(frames, 0) =~= sse_frame_bytes(first) + sse_body(rest, 0)) by {
            lemma_sse_body_shift(frames);
        }
        crate::text::lemma_render_no_lf(enc_msg(frames[0]));
        lemma_render_nonempty(enc_msg(frames[0]));
        lemma_sse_run_concat(Seq::empty(), Seq::empty(), sse_frame_bytes(first), sse_body(rest, 0));
        lemma_sse_one_event(first);
        lemma_sse_round_trip(rest);
        assert(seq![first] + Seq::new(rest.len(), |i: int| render(enc_msg(rest[i]))) =~~= Seq::new(
            frames.len(),
            |i: int| render(enc_msg(frames[i])),
        ));
    }
}

/// The body of a nonempty frame list is its first event followed by the
/// body of the rest.
proof fn lemma_sse_body_shift(frames: Seq<MessageV>)
    requires
        frames.len() > 0,
    ensures
        sse_body(frames, 0) == sse_frame_bytes(render(enc_msg(frames[0]))) + sse_body(
            frames.skip(1),
            0,
        ),
{
    lemma_sse_body_shift_from(frames, 1);
}

proof fn lemma_sse_body_shift_from(frames: Seq<MessageV>, k: int)
    requires
        1 <= k <= frames.len(),
    ensures
        sse_body(frames, k) == sse_body(frames.skip(1), k - 1),
    decreases frames.len() - k,
{
    if k < frames.len() {
        lemma_sse_body_shift_from(frames, k + 1);
        assert(frames.skip(1)[k - 1] == frames[k]);
    }
}

/// A rendered document is never empty.
pub proof fn lemma_render_nonempty(j: crate::json::JsonV)
    ensures
        render(j).len() > 0,
{
    match j {
        crate::json::JsonV::Int(i) => {
            if i >= 0 {
                assert(crate::text::dec_digits(i).len() > 0) by {
                    crate::text::lemma_dec_digits_nonempty(i);
                }
            } else {
                assert(render(j) == seq![0x2du8] + crate::text::dec_digits(-i));
            }
        },
        crate::json::JsonV::Num(s) => {
            if crate::text::num_ok(s) {
                assert(crate::text::ascii_bytes(s).len() == s.len());
            }
        },
        _ => {},
    }
}


} // verus!
