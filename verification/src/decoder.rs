//! The stream decoder: an unbounded byte stream, delivered in pieces of any
//! size, becomes an ordered, finite sequence of parsed generation chunks.
//!
//! The model is a byte-at-a-time state machine, `dec_step`: bytes buffer up
//! until a line feed, the completed line (less a trailing carriage return)
//! is decoded and classified, and the machine stops at the done sentinel or
//! at the first malformed line. `StreamDecoder` is the executable machine;
//! its state always equals `dec_run` of everything fed so far, so feeding
//! the same bytes in different pieces can never decode differently (see
//! `lemma_fragmentation_irrelevant`).

use vstd::prelude::*;
use vstd::slice::slice_index_get;
use vstd::utf8::{decode_utf8, valid_utf8};

use crate::chat::{MessageChunk, MessageChunkView};
use crate::error::HampterError;
use crate::line::{classify_line, spec_classify_line, LineClass, LineEvent};
use crate::unicode::utf8_to_string;

verus! {

/// Whether the decoder still accepts input, has seen the sentinel, or has
/// stopped at a malformed line.
#[derive(Clone, Copy, Debug, PartialEq, Eq, Structural)]
pub enum DecodeMode {
    /// Lines are still being decoded.
    Active,
    /// The done sentinel was seen: a normal end, nothing more is decoded.
    Done,
    /// A line failed to decode: nothing more is decoded.
    Failed,
}

/// The whole mathematical state of a decoder: the partial line being
/// buffered, the mode, and every chunk decoded so far.
#[verifier::ext_equal]
pub struct DecoderState {
    pub buf: Seq<u8>,
    pub mode: DecodeMode,
    pub out: Seq<MessageChunkView>,
}

/// The state of a fresh decoder.
pub open spec fn dec_init() -> DecoderState {
    DecoderState { buf: Seq::empty(), mode: DecodeMode::Active, out: Seq::empty() }
}

/// A completed line less its trailing carriage return, if one is there.
pub open spec fn strip_cr(line: Seq<u8>) -> Seq<u8> {
    if line.len() > 0 && line.last() == 13 {
        line.drop_last()
    } else {
        line
    }
}

/// What one completed line does to an active decoder: an invalid UTF-8 line
/// fails, otherwise the line's classification is applied.
pub open spec fn dec_line(out: Seq<MessageChunkView>, line: Seq<u8>) -> DecoderState {
    if !valid_utf8(line) {
        DecoderState { buf: Seq::empty(), mode: DecodeMode::Failed, out }
    } else {
        match spec_classify_line(decode_utf8(line)) {
            LineClass::Skip => DecoderState { buf: Seq::empty(), mode: DecodeMode::Active, out },
            LineClass::Done => DecoderState { buf: Seq::empty(), mode: DecodeMode::Done, out },
            LineClass::Chunk(c) => DecoderState {
                buf: Seq::empty(),
                mode: DecodeMode::Active,
                out: out.push(c),
            },
            LineClass::Bad => DecoderState { buf: Seq::empty(), mode: DecodeMode::Failed, out },
        }
    }
}

/// One byte of input: ignored once the machine has stopped; a line feed
/// completes the buffered line; anything else buffers.
pub open spec fn dec_step(st: DecoderState, b: u8) -> DecoderState {
    if !(st.mode is Active) {
        st
    } else if b == 10 {
        dec_line(st.out, strip_cr(st.buf))
    } else {
        DecoderState { buf: st.buf.push(b), ..st }
    }
}

/// The machine run over a whole byte sequence.
pub open spec fn dec_run(st: DecoderState, bytes: Seq<u8>) -> DecoderState
    decreases bytes.len(),
{
    if bytes.len() == 0 {
        st
    } else {
        dec_run(dec_step(st, bytes[0]), bytes.skip(1))
    }
}

/// Running one byte is one step.
pub proof fn lemma_run_one(st: DecoderState, b: u8)
    ensures
        dec_run(st, seq![b]) == dec_step(st, b),
{
    reveal_with_fuel(dec_run, 2);
    assert(seq![b].skip(1) =~= Seq::<u8>::empty());
}

/// Feeding `a` and then `b` is exactly feeding `a + b`: the machine cannot
/// tell where one delivery ended and the next began.
pub proof fn lemma_run_append(st: DecoderState, a: Seq<u8>, b: Seq<u8>)
    ensures
        dec_run(st, a + b) == dec_run(dec_run(st, a), b),
    decreases a.len(),
{
    if a.len() == 0 {
        assert(a + b =~= b);
    } else {
        assert((a + b)[0] == a[0]);
        assert((a + b).skip(1) =~= a.skip(1) + b);
        lemma_run_append(dec_step(st, a[0]), a.skip(1), b);
    }
}

/// A stopped machine ignores every further byte: after the sentinel (or a
/// failure) no more chunks appear, whatever else the transport delivers.
pub proof fn lemma_run_inert(st: DecoderState, bytes: Seq<u8>)
    requires
        !(st.mode is Active),
    ensures
        dec_run(st, bytes) == st,
    decreases bytes.len(),
{
    if bytes.len() > 0 {
        lemma_run_inert(st, bytes.skip(1));
    }
}

/// Bytes without a line feed only buffer.
pub proof fn lemma_run_buffers(st: DecoderState, bytes: Seq<u8>)
    requires
        st.mode is Active,
        forall|i: int| 0 <= i < bytes.len() ==> bytes[i] != 10,
    ensures
        dec_run(st, bytes) == (DecoderState { buf: st.buf + bytes, ..st }),
    decreases bytes.len(),
{
    if bytes.len() == 0 {
        assert(st.buf + bytes =~= st.buf);
        assert(dec_run(st, bytes) =~= (DecoderState { buf: st.buf + bytes, ..st }));
    } else {
        let st1 = dec_step(st, bytes[0]);
        assert(st1 == (DecoderState { buf: st.buf.push(bytes[0]), ..st }));
        lemma_run_buffers(st1, bytes.skip(1));
        assert(st.buf.push(bytes[0]) + bytes.skip(1) =~= st.buf + bytes);
    }
}

/// The chunks already decoded are never retracted: whatever is fed next,
/// the output only grows.
pub proof fn lemma_out_monotone(st: DecoderState, bytes: Seq<u8>)
    ensures
        st.out.is_prefix_of(dec_run(st, bytes).out),
    decreases bytes.len(),
{
    broadcast use vstd::seq_lib::group_seq_properties;

    if bytes.len() > 0 {
        let st1 = dec_step(st, bytes[0]);
        lemma_out_monotone(st1, bytes.skip(1));
        assert(st.out.is_prefix_of(st1.out));
    }
}

/// The byte sequences of a sequence of deliveries, joined.
pub open spec fn concat_frags(frags: Seq<Seq<u8>>) -> Seq<u8>
    decreases frags.len(),
{
    if frags.len() == 0 {
        Seq::empty()
    } else {
        frags[0] + concat_frags(frags.skip(1))
    }
}

/// The machine run over one delivery after another.
pub open spec fn run_frags(st: DecoderState, frags: Seq<Seq<u8>>) -> DecoderState
    decreases frags.len(),
{
    if frags.len() == 0 {
        st
    } else {
        run_frags(dec_run(st, frags[0]), frags.skip(1))
    }
}

/// Delivering a byte stream in any fragmentation whatever — line-aligned,
/// one byte at a time, or anything else — decodes exactly as delivering it
/// as one contiguous block.
pub proof fn lemma_fragmentation_irrelevant(st: DecoderState, frags: Seq<Seq<u8>>)
    ensures
        run_frags(st, frags) == dec_run(st, concat_frags(frags)),
    decreases frags.len(),
{
    if frags.len() > 0 {
        lemma_fragmentation_irrelevant(dec_run(st, frags[0]), frags.skip(1));
        lemma_run_append(st, frags[0], concat_frags(frags.skip(1)));
    }
}

/// An empty line between two deliveries is pure keep-alive: it neither
/// yields a chunk nor disturbs the ones around it.
pub proof fn lemma_empty_line_skipped(st: DecoderState, before: Seq<u8>, after: Seq<u8>)
    requires
        dec_run(st, before).mode is Active,
        dec_run(st, before).buf.len() == 0,
    ensures
        dec_run(st, before + seq![10u8] + after) == dec_run(st, before + after),
{
    reveal(crate::line::spec_classify_line);
    let mid = dec_run(st, before);
    lemma_run_append(st, before + seq![10u8], after);
    lemma_run_append(st, before, seq![10u8]);
    assert((before + seq![10u8]) + after =~= before + seq![10u8] + after);
    lemma_run_one(mid, 10u8);
    assert(strip_cr(mid.buf) =~= Seq::<u8>::empty());
    assert(decode_utf8(Seq::<u8>::empty()) =~= Seq::<char>::empty());
    assert(dec_step(mid, 10u8) =~= mid);
    lemma_run_append(st, before, after);
}

/// A line carrying the done sentinel ends the sequence: the machine reports
/// `Done`, and nothing that follows — not even further well-formed data
/// lines — adds a chunk.
pub proof fn lemma_sentinel_line_ends(st: DecoderState, line: Seq<u8>, rest: Seq<u8>)
    requires
        st.mode is Active,
        st.buf.len() == 0,
        valid_utf8(line),
        forall|i: int| 0 <= i < line.len() ==> line[i] != 10,
        line.len() == 0 || line.last() != 13,
        crate::line::spec_has_sentinel(decode_utf8(line)),
    ensures
        dec_run(st, line + seq![10u8] + rest) == (DecoderState {
            buf: Seq::empty(),
            mode: DecodeMode::Done,
            out: st.out,
        }),
{
    reveal(crate::line::spec_classify_line);
    let k = choose|k: int| crate::line::spec_sentinel_at(decode_utf8(line), k);
    assert(decode_utf8(line).len() >= k + 12 > 0);
    lemma_run_append(st, line + seq![10u8], rest);
    lemma_run_append(st, line, seq![10u8]);
    assert((line + seq![10u8]) + rest =~= line + seq![10u8] + rest);
    lemma_run_buffers(st, line);
    let mid = dec_run(st, line);
    lemma_run_one(mid, 10u8);
    assert(mid.buf =~= line);
    assert(strip_cr(line) =~= line);
    let done = dec_step(mid, 10u8);
    assert(done == (DecoderState { buf: Seq::empty(), mode: DecodeMode::Done, out: st.out }));
    lemma_run_inert(done, rest);
}

/// A line whose classification is a chunk appends exactly that chunk and
/// keeps the machine running.
pub proof fn lemma_data_line_yields(st: DecoderState, line: Seq<u8>, c: MessageChunkView)
    requires
        st.mode is Active,
        st.buf.len() == 0,
        valid_utf8(line),
        forall|i: int| 0 <= i < line.len() ==> line[i] != 10,
        line.len() == 0 || line.last() != 13,
        spec_classify_line(decode_utf8(line)) == LineClass::Chunk(c),
    ensures
        dec_run(st, line + seq![10u8]) == (DecoderState {
            buf: Seq::empty(),
            mode: DecodeMode::Active,
            out: st.out.push(c),
        }),
{
    lemma_run_append(st, line, seq![10u8]);
    lemma_run_buffers(st, line);
    let mid = dec_run(st, line);
    lemma_run_one(mid, 10u8);
    assert(mid.buf =~= line);
    assert(strip_cr(line) =~= line);
}

/// A non-empty line shorter than the event prefix, without the sentinel,
/// fails the machine: the sequence halts, keeps the chunks it had, and
/// ignores everything that follows.
pub proof fn lemma_short_line_fails(st: DecoderState, line: Seq<u8>, rest: Seq<u8>)
    requires
        st.mode is Active,
        st.buf.len() == 0,
        valid_utf8(line),
        forall|i: int| 0 <= i < line.len() ==> line[i] != 10,
        line.len() == 0 || line.last() != 13,
        0 < decode_utf8(line).len() < 6,
        !crate::line::spec_has_sentinel(decode_utf8(line)),
    ensures
        dec_run(st, line + seq![10u8] + rest) == (DecoderState {
            buf: Seq::empty(),
            mode: DecodeMode::Failed,
            out: st.out,
        }),
{
    reveal(crate::line::spec_classify_line);
    lemma_run_append(st, line + seq![10u8], rest);
    lemma_run_append(st, line, seq![10u8]);
    assert((line + seq![10u8]) + rest =~= line + seq![10u8] + rest);
    lemma_run_buffers(st, line);
    let mid = dec_run(st, line);
    lemma_run_one(mid, 10u8);
    assert(mid.buf =~= line);
    assert(strip_cr(line) =~= line);
    let failed = dec_step(mid, 10u8);
    assert(failed == (DecoderState { buf: Seq::empty(), mode: DecodeMode::Failed, out: st.out }));
    lemma_run_inert(failed, rest);
}

/// Views of a list of decoded chunks.
pub open spec fn chunks_view(chunks: Seq<MessageChunk>) -> Seq<MessageChunkView> {
    chunks.map_values(|c: MessageChunk| c@)
}

/// The executable decoder: bound to one response body, fed its bytes as
/// they arrive, consumed once.
pub struct StreamDecoder {
    buf: Vec<u8>,
    mode: DecodeMode,
    out: Vec<MessageChunk>,
    fed: Ghost<Seq<u8>>,
}

impl StreamDecoder {
    /// Every byte fed so far.
    pub closed spec fn fed(&self) -> Seq<u8> {
        self.fed@
    }

    /// The machine state that the fed bytes denote.
    pub open spec fn state(&self) -> DecoderState {
        dec_run(dec_init(), self.fed())
    }

    /// The decoder's fields always carry exactly `dec_run` of what was fed.
    pub closed spec fn inv(&self) -> bool {
        let st = dec_run(dec_init(), self.fed@);
        &&& st.buf == self.buf@
        &&& st.mode == self.mode
        &&& st.out == chunks_view(self.out@)
    }

    /// A fresh decoder with nothing fed.
    pub fn new() -> (d: StreamDecoder)
        ensures
            d.inv(),
            d.fed() == Seq::<u8>::empty(),
    {
        let d = StreamDecoder {
            buf: Vec::new(),
            mode: DecodeMode::Active,
            out: Vec::new(),
            fed: Ghost(Seq::empty()),
        };
        proof {
            assert(chunks_view(d.out@) =~= Seq::<MessageChunkView>::empty());
        }
        d
    }

    /// One byte of input, mirroring `dec_step`.
    fn step_byte(&mut self, b: u8)
        requires
            old(self).inv(),
        ensures
            final(self).inv(),
            final(self).fed() == old(self).fed() + seq![b],
    {
        proof {
            lemma_run_append(dec_init(), self.fed@, seq![b]);
            lemma_run_one(dec_run(dec_init(), self.fed@), b);
        }
        let ghost st0 = dec_run(dec_init(), self.fed@);
        self.fed = Ghost(self.fed@ + seq![b]);
        let active = match self.mode {
            DecodeMode::Active => true,
            _ => false,
        };
        if !active {
            return ;
        }
        if b == 10 {
            let mut line: Vec<u8> = Vec::new();
            core::mem::swap(&mut line, &mut self.buf);
            if line.len() > 0 && line[line.len() - 1] == 13 {
                line.pop();
            }
            proof {
                assert(line@ =~= strip_cr(st0.buf));
            }
            match utf8_to_string(line) {
                None => {
                    self.mode = DecodeMode::Failed;
                },
                Some(s) => {
                    match classify_line(s.as_str()) {
                        Ok(LineEvent::KeepAlive) => {},
                        Ok(LineEvent::Terminator) => {
                            self.mode = DecodeMode::Done;
                        },
                        Ok(LineEvent::Chunk(c)) => {
                            let ghost out0 = self.out@;
                            self.out.push(c);
                            proof {
                                assert(chunks_view(self.out@) =~= chunks_view(out0).push(c@));
                            }
                        },
                        Err(_) => {
                            self.mode = DecodeMode::Failed;
                        },
                    }
                },
            }
        } else {
            self.buf.push(b);
        }
    }

    /// Feeds one delivery of bytes, advancing the machine byte by byte.
    /// The result is `DecodeError` exactly when this delivery carried the
    /// machine from active to failed; chunks decoded before the bad line,
    /// in this delivery or earlier ones, stay available.
    pub fn feed(&mut self, bytes: &[u8]) -> (r: Result<(), HampterError>)
        requires
            old(self).inv(),
        ensures
            final(self).inv(),
            final(self).fed() == old(self).fed() + bytes@,
            ({
                let s0 = dec_run(dec_init(), old(self).fed());
                let s1 = dec_run(dec_init(), final(self).fed());
                &&& (r is Err <==> (s0.mode is Active && s1.mode is Failed))
                &&& (r is Err ==> r == Err::<(), HampterError>(HampterError::DecodeError))
            }),
    {
        let ghost fed0 = self.fed@;
        let was_active = match self.mode {
            DecodeMode::Active => true,
            _ => false,
        };
        let n = bytes.len();
        let mut i: usize = 0;
        proof {
            assert(fed0 + bytes@.take(0) =~= fed0);
        }
        while i < n
            invariant
                n == bytes@.len(),
                0 <= i <= n,
                self.inv(),
                self.fed@ == fed0 + bytes@.take(i as int),
            decreases n - i,
        {
            let b = *slice_index_get(bytes, i);
            self.step_byte(b);
            proof {
                assert((fed0 + bytes@.take(i as int)) + seq![bytes@[i as int]] =~= fed0
                    + bytes@.take(i as int + 1));
            }
            i = i + 1;
        }
        proof {
            assert(fed0 + bytes@.take(n as int) =~= fed0 + bytes@);
        }
        let failed = match self.mode {
            DecodeMode::Failed => true,
            _ => false,
        };
        if was_active && failed {
            Err(HampterError::DecodeError)
        } else {
            Ok(())
        }
    }

    /// Ends the stream: what is still buffered is decoded as one final
    /// line, exactly as if one closing line feed had arrived. A trailing
    /// partial line that cannot decode is a `DecodeError`, as when the
    /// transport closes mid-line.
    pub fn finish(&mut self) -> (r: Result<(), HampterError>)
        requires
            old(self).inv(),
        ensures
            final(self).inv(),
            final(self).fed() == old(self).fed() + seq![10u8],
            ({
                let s0 = dec_run(dec_init(), old(self).fed());
                let s1 = dec_run(dec_init(), final(self).fed());
                &&& (r is Err <==> (s0.mode is Active && s1.mode is Failed))
                &&& (r is Err ==> r == Err::<(), HampterError>(HampterError::DecodeError))
            }),
    {
        let was_active = match self.mode {
            DecodeMode::Active => true,
            _ => false,
        };
        self.step_byte(10);
        let failed = match self.mode {
            DecodeMode::Failed => true,
            _ => false,
        };
        if was_active && failed {
            Err(HampterError::DecodeError)
        } else {
            Ok(())
        }
    }

    /// Every chunk decoded so far, in arrival order.
    pub fn chunks(&self) -> (r: &Vec<MessageChunk>)
        requires
            self.inv(),
        ensures
            chunks_view(r@) == self.state().out,
    {
        &self.out
    }

    /// Every chunk decoded, handing the list over.
    pub fn into_chunks(self) -> (r: Vec<MessageChunk>)
        requires
            self.inv(),
        ensures
            chunks_view(r@) == self.state().out,
    {
        self.out
    }

    /// Whether the decoder is still active, done, or failed.
    pub fn mode(&self) -> (r: DecodeMode)
        requires
            self.inv(),
        ensures
            r == self.state().mode,
    {
        self.mode
    }
}

} // verus!
