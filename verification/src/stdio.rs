//! The stdio transport's pure core: one message per line, terminated by a
//! line feed, with an incremental splitter for the inbound byte stream.
//!
//! A rendered frame never contains a line feed, so writing one frame per
//! line is sound, and splitting the peer's stream at line feeds recovers
//! the frames exactly (`lemma_line_round_trip`).

use vstd::prelude::*;

use crate::message::Message;
use crate::message::MessageV;
use crate::message::enc_msg;
use crate::text::no_lf;
use crate::text::render;

verus! {

broadcast use vstd::std_specs::vec::group_vec_axioms, vstd::seq::group_seq_axioms;

/// One step of the line splitter: a line feed completes the current line,
/// any other byte extends it.
pub open spec fn line_step(cur: Seq<u8>, b: u8) -> (Seq<u8>, Seq<Seq<u8>>) {
    if b == 0x0Au8 {
        (Seq::empty(), seq![cur])
    } else {
        (cur.push(b), Seq::empty())
    }
}

/// The splitter's state and output after the first `k` bytes of `bytes`.
pub open spec fn line_run(cur: Seq<u8>, bytes: Seq<u8>, k: int) -> (Seq<u8>, Seq<Seq<u8>>)
    decreases k,
{
    if k <= 0 {
        (cur, Seq::empty())
    } else {
        let prev = line_run(cur, bytes, k - 1);
        let st = line_step(prev.0, bytes[k - 1]);
        (st.0, prev.1 + st.1)
    }
}

/// The incremental line splitter: feed it the inbound stream chunk by
/// chunk; it hands back each completed line, terminator stripped.
pub struct LineSplitter {
    current: Vec<u8>,
}

impl LineSplitter {
    pub closed spec fn cur(&self) -> Seq<u8> {
        self.current@
    }

    /// A fresh splitter with no partial line.
    pub fn new() -> (r: LineSplitter)
        ensures
            r.cur() == Seq::<u8>::empty(),
    {
        LineSplitter { current: Vec::new() }
    }

    /// Feeds one chunk; returns the lines it completed, in order.
    pub fn push(&mut self, chunk: &[u8]) -> (lines: Vec<Vec<u8>>)
        ensures
            ({
                let r = line_run(old(self).cur(), chunk@, chunk@.len() as int);
                &&& final (self).cur() == r.0
                &&& Seq::new(lines@.len(), |i: int| lines@[i]@) =~~= r.1
            }),
    {
        let ghost c0 = self.current@;
        let mut lines: Vec<Vec<u8>> = Vec::new();
        let mut k: usize = 0;
        while k < chunk.len()
            invariant
                k <= chunk@.len(),
                ({
                    let r = line_run(c0, chunk@, k as int);
                    &&& self.current@ == r.0
                    &&& Seq::new(lines@.len(), |i: int| lines@[i]@) =~~= r.1
                }),
            decreases chunk@.len() - k,
        {
            let ghost before = line_run(c0, chunk@, k as int);
            let b = chunk[k];
            if b == 0x0A {
                let mut line: Vec<u8> = Vec::new();
                core::mem::swap(&mut line, &mut self.current);
                lines.push(line);
            } else {
                self.current.push(b);
            }
            proof {
                let st = line_step(before.0, chunk@[k as int]);
                assert(self.current@ =~= st.0);
                assert(Seq::new(lines@.len(), |i: int| lines@[i]@) =~~= before.1 + st.1);
            }
            k = k + 1;
        }
        lines
    }
}

/// One frame as one line: its canonical bytes and the terminator.
pub fn frame_line(m: &Message) -> (out: Vec<u8>)
    ensures
        out@ == render(enc_msg(m@)).push(0x0Au8),
{
    let mut out = m.serialize();
    out.push(0x0A);
    out
}

/// The byte stream carrying the given frames, one per line.
pub open spec fn line_body(frames: Seq<MessageV>, k: int) -> Seq<u8>
    decreases frames.len() - k,
{
    if 0 <= k < frames.len() {
        render(enc_msg(frames[k])).push(0x0Au8) + line_body(frames, k + 1)
    } else {
        Seq::empty()
    }
}

/// Running the splitter over a concatenation is running it over each part.
pub proof fn lemma_line_run_concat(cur: Seq<u8>, a: Seq<u8>, b: Seq<u8>)
    ensures
        ({
            let whole = line_run(cur, a + b, (a + b).len() as int);
            let first = line_run(cur, a, a.len() as int);
            let second = line_run(first.0, b, b.len() as int);
            whole.0 == second.0 && whole.1 =~~= first.1 + second.1
        }),
    decreases b.len(),
{
    let first = line_run(cur, a, a.len() as int);
    if b.len() == 0 {
        assert(a + b =~= a);
        assert(first.1 + Seq::<Seq<u8>>::empty() =~~= first.1);
    } else {
        let b2 = b.drop_last();
        lemma_line_run_concat(cur, a, b2);
        let n = (a + b).len() as int;
        assert((a + b).take(n - 1) =~= a + b2);
        lemma_line_run_prefix(cur, a + b, a + b2, n - 1);
        assert((a + b)[n - 1] == b.last());
        let s2 = line_run(first.0, b2, b2.len() as int);
        let st = line_step(s2.0, b.last());
        assert(b.take(b.len() as int - 1) =~= b2);
        lemma_line_run_prefix(first.0, b, b2, b.len() as int - 1);
        assert(first.1 + (s2.1 + st.1) =~~= (first.1 + s2.1) + st.1);
    }
}

proof fn lemma_line_run_prefix(cur: Seq<u8>, bytes: Seq<u8>, prefix: Seq<u8>, k: int)
    requires
        0 <= k <= bytes.len(),
        prefix =~= bytes.take(k),
    ensures
        line_run(cur, bytes, k) == line_run(cur, prefix, k),
    decreases k,
{
    if k > 0 {
        assert(prefix.take(k - 1) =~= bytes.take(k - 1));
        lemma_line_run_prefix(cur, bytes, bytes.take(k - 1), k - 1);
        lemma_line_run_prefix(cur, prefix, prefix.take(k - 1), k - 1);
        assert(prefix[k - 1] == bytes[k - 1]);
    }
}

/// Bytes without a line feed just grow the current line.
proof fn lemma_line_run_no_lf(cur: Seq<u8>, bytes: Seq<u8>)
    requires
        no_lf(bytes),
    ensures
        line_run(cur, bytes, bytes.len() as int) == (cur + bytes, Seq::<Seq<u8>>::empty()),
    decreases bytes.len(),
{
    if bytes.len() == 0 {
        assert(cur + bytes =~= cur);
    } else {
        assert(no_lf(bytes.drop_last())) by {
            assert(forall|i: int|
                0 <= i < bytes.drop_last().len() ==> #[trigger] bytes.drop_last()[i] == bytes[i]);
        }
        lemma_line_run_no_lf(cur, bytes.drop_last());
        let n = bytes.len() as int;
        assert(bytes.take(n - 1) =~= bytes.drop_last());
        lemma_line_run_prefix(cur, bytes, bytes.drop_last(), n - 1);
        assert(bytes.last() != 0x0Au8) by {
            assert(bytes[n - 1] != 0x0Au8);
        }
        assert((cur + bytes.drop_last()).push(bytes.last()) =~= cur + bytes);
        assert(Seq::<Seq<u8>>::empty() + Seq::<Seq<u8>>::empty() =~~= Seq::<Seq<u8>>::empty());
    }
}

proof fn lemma_line_run_one(cur: Seq<u8>, b: u8)
    ensures
        ({
            let st = line_step(cur, b);
            let r = line_run(cur, seq![b], 1);
            r.0 == st.0 && r.1 =~~= st.1
        }),
{
    reveal_with_fuel(line_run, 3);
    assert(seq![b][0] == b);
    assert(Seq::<Seq<u8>>::empty() + line_step(cur, b).1 =~~= line_step(cur, b).1);
}

/// Splitting one frame's line from an idle splitter delivers exactly the
/// frame and leaves the splitter idle again.
proof fn lemma_line_one_frame(frame: Seq<u8>)
    requires
        no_lf(frame),
    ensures
        ({
            let r = line_run(Seq::empty(), frame.push(0x0Au8), frame.push(0x0Au8).len() as int);
            r.0 =~= Seq::<u8>::empty() && r.1 =~~= seq![frame]
        }),
{
    let lf = seq![0x0Au8];
    assert(frame.push(0x0Au8) =~= frame + lf);
    lemma_line_run_concat(Seq::empty(), frame, lf);
    lemma_line_run_no_lf(Seq::empty(), frame);
    let after = line_run(Seq::empty(), frame, frame.len() as int);
    assert(after.0 =~= frame) by {
        assert(Seq::<u8>::empty() + frame =~= frame);
    }
    lemma_line_run_one(after.0, 0x0Au8);
    let st = line_step(after.0, 0x0Au8);
    assert(st.1 =~~= seq![frame]);
    let whole = line_run(Seq::empty(), frame + lf, (frame + lf).len() as int);
    assert(whole.1 =~~= after.1 + st.1);
    assert(after.1 =~~= Seq::<Seq<u8>>::empty());
    assert(whole.1 =~~= seq![frame]);
}

/// Splitting a line-framed stream delivers exactly the rendered frames, in
/// order: the splitter inverts the writer's framing.
pub proof fn lemma_line_round_trip(frames: Seq<MessageV>)
    ensures
        ({
            let body = line_body(frames, 0);
            let r = line_run(Seq::empty(), body, body.len() as int);
            r.0 =~= Seq::<u8>::empty() && r.1 =~~= Seq::new(
                frames.len(),
                |i: int| render(enc_msg(frames[i])),
            )
        }),
    decreases frames.len(),
{
    if frames.len() == 0 {
        assert(line_body(frames, 0) =~= Seq::<u8>::empty());
        assert(line_run(Seq::empty(), Seq::empty(), 0).1 =~~= Seq::new(
            0nat,
            |i: int| render(enc_msg(frames[i])),
        ));
    } else {
        let first = render(enc_msg(frames[0]));
        let rest = frames.skip(1);
        assert(line_body(frames, 0) =~= first.push(0x0Au8) + line_body(rest, 0)) by {
            lemma_line_body_shift_from(frames, 1);
        }
        crate::text::lemma_render_no_lf(enc_msg(frames[0]));
        lemma_line_run_concat(Seq::empty(), first.push(0x0Au8), line_body(rest, 0));
        lemma_line_one_frame(first);
        lemma_line_round_trip(rest);
        assert(seq![first] + Seq::new(rest.len(), |i: int| render(enc_msg(rest[i]))) =~~= Seq::new(
            frames.len(),
            |i: int| render(enc_msg(frames[i])),
        ));
    }
}

proof fn lemma_line_body_shift_from(frames: Seq<MessageV>, k: int)
    requires
        1 <= k <= frames.len(),
    ensures
        line_body(frames, k) == line_body(frames.skip(1), k - 1),
    decreases frames.len() - k,
{
    if k < frames.len() {
        lemma_line_body_shift_from(frames, k + 1);
        assert(frames.skip(1)[k - 1] == frames[k]);
    }
}

} // verus!
