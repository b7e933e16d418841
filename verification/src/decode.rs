//! Incremental stream decoders: one state machine per wire format, consuming
//! network bytes one at a time and emitting text chunks.
//!
//! The model processes one byte per step, so how the transport splits the
//! byte stream into reads cannot influence what is decoded: that is the
//! chunking-invariance law `lemma_chunking_invariance`, with
//! `lemma_run_append` (an arbitrary split changes nothing) and
//! `lemma_byte_at_a_time` (one byte per read changes nothing) beside it.
//! `lemma_run_keeps_wf` carries the guarantee that no emitted chunk is ever
//! empty.

use vstd::prelude::*;
use crate::json::is_ws;
use crate::wire::{line_eval, event_eval, frag_eval, sp_line_eval, sp_event_eval, sp_frag_eval,
    EventOutV, SseEventOut};

verus! {

/// The three wire encodings that backends stream in.
#[derive(Clone, Copy, PartialEq, Eq, Structural, Debug)]
pub enum WireFormat {
    /// One JSON object per line, with a text field and an end flag.
    NewlineJson,
    /// Server-Sent-Events blocks separated by a blank line.
    Sse,
    /// A top-level JSON array whose elements arrive in fragments.
    FragmentedArray,
}

#[derive(Clone, Copy, PartialEq, Eq, Structural, Debug)]
pub enum DecodePhase {
    /// Still consuming input.
    Active,
    /// The stream ended normally; further bytes are ignored.
    Done,
    /// A terminal decode failure; further bytes are ignored.
    Failed,
}

/// Model of a decoder: the partial frame buffered so far, the frame-boundary
/// scanner state of the fragmented-array format, and every chunk emitted.
pub struct DecModel {
    pub format: WireFormat,
    pub phase: DecodePhase,
    pub buf: Seq<u8>,
    pub depth: int,
    pub started: bool,
    pub in_str: bool,
    pub esc: bool,
    pub out: Seq<Seq<u8>>,
}

pub open spec fn sp_init(format: WireFormat) -> DecModel {
    DecModel {
        format,
        phase: DecodePhase::Active,
        buf: Seq::empty(),
        depth: 0,
        started: false,
        in_str: false,
        esc: false,
        out: Seq::empty(),
    }
}

/// Decoder states the executable decoder can be in.
pub open spec fn sp_wf(m: DecModel) -> bool {
    &&& 0 <= m.depth <= m.buf.len()
    &&& (m.started ==> m.depth >= 1)
    &&& (!m.started ==> m.depth == 0)
    &&& (!(m.format is FragmentedArray) ==> m.depth == 0 && !m.started)
    &&& forall|i: int| 0 <= i < m.out.len() ==> m.out[i].len() > 0
}

pub open spec fn sp_step_newline(st: DecModel, b: u8) -> DecModel {
    if b == 0x0a {
        let r = sp_line_eval(st.buf);
        DecModel {
            buf: Seq::empty(),
            phase: if r.1 {
                DecodePhase::Done
            } else {
                DecodePhase::Active
            },
            out: match r.0 {
                Some(t) => st.out.push(t),
                None => st.out,
            },
            ..st
        }
    } else {
        DecModel { buf: st.buf.push(b), ..st }
    }
}

pub open spec fn sp_step_sse(st: DecModel, b: u8) -> DecModel {
    if b == 0x0a && st.buf.len() > 0 && st.buf.last() == 0x0a {
        let event = st.buf.drop_last();
        match sp_event_eval(event) {
            EventOutV::Chunk(t) => DecModel {
                buf: Seq::empty(),
                out: if t.len() > 0 {
                    st.out.push(t)
                } else {
                    st.out
                },
                ..st
            },
            EventOutV::Nothing => DecModel { buf: Seq::empty(), ..st },
            EventOutV::Done => DecModel { buf: Seq::empty(), phase: DecodePhase::Done, ..st },
        }
    } else {
        DecModel { buf: st.buf.push(b), ..st }
    }
}

pub open spec fn sp_step_frag(st: DecModel, b: u8) -> DecModel {
    if !st.started {
        if is_ws(b) {
            st
        } else if b == 0x5b {
            DecModel { buf: st.buf.push(b), started: true, depth: 1, in_str: false, esc: false, ..st }
        } else {
            DecModel { phase: DecodePhase::Failed, ..st }
        }
    } else {
        let buf2 = st.buf.push(b);
        if st.in_str {
            if st.esc {
                DecModel { buf: buf2, esc: false, ..st }
            } else if b == 0x5c {
                DecModel { buf: buf2, esc: true, ..st }
            } else if b == 0x22 {
                DecModel { buf: buf2, in_str: false, ..st }
            } else {
                DecModel { buf: buf2, ..st }
            }
        } else {
            if b == 0x22 {
                DecModel { buf: buf2, in_str: true, ..st }
            } else if b == 0x5b || b == 0x7b {
                DecModel { buf: buf2, depth: st.depth + 1, ..st }
            } else if b == 0x5d || b == 0x7d {
                if st.depth == 1 {
                    match sp_frag_eval(buf2) {
                        None => DecModel {
                            phase: DecodePhase::Failed,
                            buf: Seq::empty(),
                            started: false,
                            depth: 0,
                            ..st
                        },
                        Some(t) => DecModel {
                            buf: Seq::empty(),
                            started: false,
                            depth: 0,
                            out: if t.len() > 0 {
                                st.out.push(t)
                            } else {
                                st.out
                            },
                            ..st
                        },
                    }
                } else {
                    DecModel { buf: buf2, depth: st.depth - 1, ..st }
                }
            } else {
                DecModel { buf: buf2, ..st }
            }
        }
    }
}

/// One byte of input.
#[verifier::opaque]
pub open spec fn sp_step(st: DecModel, b: u8) -> DecModel {
    if st.phase != DecodePhase::Active {
        st
    } else {
        match st.format {
            WireFormat::NewlineJson => sp_step_newline(st, b),
            WireFormat::Sse => sp_step_sse(st, b),
            WireFormat::FragmentedArray => sp_step_frag(st, b),
        }
    }
}

/// A whole read of input, byte by byte.
pub open spec fn sp_run(st: DecModel, bytes: Seq<u8>) -> DecModel
    decreases bytes.len(),
{
    if bytes.len() == 0 {
        st
    } else {
        sp_run(sp_step(st, bytes[0]), bytes.drop_first())
    }
}

/// End of the byte source.  The SSE format gives a non-empty leftover one
/// final decode attempt; the others drop an incomplete trailing frame.
pub open spec fn sp_finish(st: DecModel) -> DecModel {
    if st.phase != DecodePhase::Active {
        st
    } else {
        match st.format {
            WireFormat::Sse => {
                if st.buf.len() > 0 {
                    match sp_event_eval(st.buf) {
                        EventOutV::Chunk(t) => DecModel {
                            phase: DecodePhase::Done,
                            buf: Seq::empty(),
                            depth: 0,
                            started: false,
                            out: if t.len() > 0 {
                                st.out.push(t)
                            } else {
                                st.out
                            },
                            ..st
                        },
                        _ => DecModel {
                            phase: DecodePhase::Done,
                            buf: Seq::empty(),
                            depth: 0,
                            started: false,
                            ..st
                        },
                    }
                } else {
                    DecModel { phase: DecodePhase::Done, depth: 0, started: false, ..st }
                }
            },
            _ => DecModel {
                phase: DecodePhase::Done,
                buf: Seq::empty(),
                depth: 0,
                started: false,
                ..st
            },
        }
    }
}

// ---------------------------------------------------------------------------
// Laws.

/// Splitting the input at any point changes nothing: decoding `a ++ b` is
/// decoding `a`, then `b`.  With `lemma_chunking_invariance` this is the law
/// that the concatenation of the emitted chunks does not depend on where the
/// transport cuts its reads.
pub proof fn lemma_run_append(st: DecModel, a: Seq<u8>, b: Seq<u8>)
    ensures
        sp_run(st, a + b) == sp_run(sp_run(st, a), b),
    decreases a.len(),
{
    if a.len() == 0 {
        assert(a + b =~= b);
    } else {
        assert((a + b)[0] == a[0]);
        assert((a + b).drop_first() =~= a.drop_first() + b);
        lemma_run_append(sp_step(st, a[0]), a.drop_first(), b);
    }
}

/// The decoder state after a sequence of reads.
pub open spec fn sp_run_reads(st: DecModel, reads: Seq<Seq<u8>>) -> DecModel
    decreases reads.len(),
{
    if reads.len() == 0 {
        st
    } else {
        sp_run_reads(sp_run(st, reads[0]), reads.drop_first())
    }
}

/// However the byte stream is cut into reads, the decoder ends in the state
/// that the undivided stream gives: the decoded chunks are a function of the
/// bytes alone.
pub proof fn lemma_chunking_invariance(st: DecModel, reads: Seq<Seq<u8>>)
    ensures
        sp_run_reads(st, reads) == sp_run(st, reads.flatten()),
    decreases reads.len(),
{
    if reads.len() == 0 {
        assert(reads.flatten() =~= Seq::<u8>::empty());
    } else {
        lemma_chunking_invariance(sp_run(st, reads[0]), reads.drop_first());
        lemma_run_append(st, reads[0], reads.drop_first().flatten());
    }
}

/// Corollary: two transports that deliver the same bytes, cut into reads in
/// any two ways, leave the decoder with the same chunks and so the same
/// final response text (their concatenation).
pub proof fn lemma_same_response_text(
    st: DecModel,
    reads_a: Seq<Seq<u8>>,
    reads_b: Seq<Seq<u8>>,
)
    requires
        reads_a.flatten() == reads_b.flatten(),
    ensures
        sp_run_reads(st, reads_a).out == sp_run_reads(st, reads_b).out,
        sp_run_reads(st, reads_a).out.flatten() == sp_run_reads(st, reads_b).out.flatten(),
{
    lemma_chunking_invariance(st, reads_a);
    lemma_chunking_invariance(st, reads_b);
}

/// Feeding one byte at a time produces exactly the state (and so exactly the
/// chunks) of feeding the whole payload at once.
pub proof fn lemma_byte_at_a_time(st: DecModel, bytes: Seq<u8>)
    ensures
        sp_run_reads(st, bytes.map_values(|b: u8| seq![b])) == sp_run(st, bytes),
    decreases bytes.len(),
{
    let reads = bytes.map_values(|b: u8| seq![b]);
    if bytes.len() == 0 {
    } else {
        assert(reads[0] == seq![bytes[0]]);
        assert(seq![bytes[0]].drop_first() =~= Seq::<u8>::empty());
        assert(seq![bytes[0]][0] == bytes[0]);
        assert(sp_run(sp_step(st, bytes[0]), Seq::<u8>::empty()) == sp_step(st, bytes[0]));
        assert(sp_run(st, seq![bytes[0]]) == sp_step(st, bytes[0]));
        assert(reads.drop_first() =~= bytes.drop_first().map_values(|b: u8| seq![b]));
        lemma_byte_at_a_time(sp_step(st, bytes[0]), bytes.drop_first());
    }
}

/// One step keeps the decoder well formed; in particular it never emits an
/// empty chunk.
pub proof fn lemma_step_wf(st: DecModel, b: u8)
    requires
        sp_wf(st),
    ensures
        sp_wf(sp_step(st, b)),
{
    reveal(sp_step);
}

/// No decoder ever yields an empty chunk, whatever it is fed.
pub proof fn lemma_run_keeps_wf(st: DecModel, bytes: Seq<u8>)
    requires
        sp_wf(st),
    ensures
        sp_wf(sp_run(st, bytes)),
    decreases bytes.len(),
{
    if bytes.len() > 0 {
        lemma_step_wf(st, bytes[0]);
        lemma_run_keeps_wf(sp_step(st, bytes[0]), bytes.drop_first());
    }
}

/// The final decode attempt keeps the decoder well formed too.
pub proof fn lemma_finish_wf(st: DecModel)
    requires
        sp_wf(st),
    ensures
        sp_wf(sp_finish(st)),
{
}

/// Concatenate a streaming response's chunks, in emission order, into its
/// full response text.
pub fn concat_chunks(chunks: &Vec<Vec<u8>>) -> (r: Vec<u8>)
    ensures
        r@ == chunks.deep_view().flatten(),
{
    let ghost full = chunks.deep_view();
    let n = chunks.len();
    let mut out: Vec<u8> = Vec::new();
    let mut i: usize = 0;
    proof {
        assert(full.take(0) =~= Seq::<Seq<u8>>::empty());
    }
    while i < n
        invariant
            0 <= i <= n == chunks@.len(),
            full == chunks.deep_view(),
            out@ == full.take(i as int).flatten(),
        decreases n - i,
    {
        proof {
            assert(full.take(i as int + 1) =~= full.take(i as int).push(full[i as int]));
            full.take(i as int).lemma_flatten_push(full[i as int]);
            assert(full[i as int] == chunks[i as int]@);
        }
        out.extend_from_slice(chunks[i].as_slice());
        i += 1;
    }
    proof {
        assert(full.take(n as int) =~= full);
    }
    out
}

// ---------------------------------------------------------------------------
// The executable decoder.

/// Incremental decoder for one streaming response: feed it the raw bytes of
/// each network read and collect the text chunks it emits.
pub struct Decoder {
    format: WireFormat,
    phase: DecodePhase,
    buf: Vec<u8>,
    depth: usize,
    started: bool,
    in_str: bool,
    esc: bool,
    emitted: Ghost<Seq<Seq<u8>>>,
}

impl View for Decoder {
    type V = DecModel;

    closed spec fn view(&self) -> DecModel {
        DecModel {
            format: self.format,
            phase: self.phase,
            buf: self.buf@,
            depth: self.depth as int,
            started: self.started,
            in_str: self.in_str,
            esc: self.esc,
            out: self.emitted@,
        }
    }
}

impl Decoder {
    pub fn new(format: WireFormat) -> (r: Decoder)
        ensures
            r@ == sp_init(format),
            sp_wf(r@),
    {
        let r = Decoder {
            format,
            phase: DecodePhase::Active,
            buf: Vec::new(),
            depth: 0,
            started: false,
            in_str: false,
            esc: false,
            emitted: Ghost(Seq::empty()),
        };
        proof {
            assert(r@ == sp_init(format));
        }
        r
    }

    pub fn is_done(&self) -> (r: bool)
        ensures
            r == (self@.phase is Done),
    {
        match self.phase {
            DecodePhase::Done => true,
            _ => false,
        }
    }

    pub fn is_failed(&self) -> (r: bool)
        ensures
            r == (self@.phase is Failed),
    {
        match self.phase {
            DecodePhase::Failed => true,
            _ => false,
        }
    }

    /// One byte of the newline-delimited JSON format.
    fn step_newline(&mut self, b: u8) -> (out: Option<Vec<u8>>)
        requires
            sp_wf(old(self)@),
            old(self)@.phase is Active,
            old(self)@.format is NewlineJson,
        ensures
            final(self)@ == sp_step_newline(old(self)@, b),
            sp_wf(final(self)@),
            match out {
                Some(t) => final(self)@.out == old(self)@.out.push(t@) && t@.len() > 0,
                None => final(self)@.out == old(self)@.out,
            },
    {
        if b == 0x0a {
            let (chunk, done) = line_eval(&self.buf);
            self.buf = Vec::new();
            if done {
                self.phase = DecodePhase::Done;
            }
            match chunk {
                Some(t) => {
                    proof {
                        self.emitted@ = self.emitted@.push(t@);
                    }
                    Some(t)
                },
                None => None,
            }
        } else {
            self.buf.push(b);
            None
        }
    }

    /// One byte of the Server-Sent-Events format.
    fn step_sse(&mut self, b: u8) -> (out: Option<Vec<u8>>)
        requires
            sp_wf(old(self)@),
            old(self)@.phase is Active,
            old(self)@.format is Sse,
        ensures
            final(self)@ == sp_step_sse(old(self)@, b),
            sp_wf(final(self)@),
            match out {
                Some(t) => final(self)@.out == old(self)@.out.push(t@) && t@.len() > 0,
                None => final(self)@.out == old(self)@.out,
            },
    {
        let blank = b == 0x0a && self.buf.len() > 0 && self.buf[self.buf.len() - 1] == 0x0a;
        if blank {
            let event = crate::json::copy_range(&self.buf, 0, self.buf.len() - 1);
            proof {
                assert(event@ =~= self@.buf.drop_last());
            }
            self.buf = Vec::new();
            match event_eval(&event) {
                SseEventOut::Chunk(t) => {
                    proof {
                        self.emitted@ = self.emitted@.push(t@);
                    }
                    Some(t)
                },
                SseEventOut::Nothing => None,
                SseEventOut::Done => {
                    self.phase = DecodePhase::Done;
                    None
                },
            }
        } else {
            self.buf.push(b);
            None
        }
    }

    /// One byte of the fragmented-array format.
    fn step_frag(&mut self, b: u8) -> (out: Option<Vec<u8>>)
        requires
            sp_wf(old(self)@),
            old(self)@.phase is Active,
            old(self)@.format is FragmentedArray,
        ensures
            final(self)@ == sp_step_frag(old(self)@, b),
            sp_wf(final(self)@),
            match out {
                Some(t) => final(self)@.out == old(self)@.out.push(t@) && t@.len() > 0,
                None => final(self)@.out == old(self)@.out,
            },
    {
        if !self.started {
            if b == 0x20 || b == 0x09 || b == 0x0a || b == 0x0d {
                None
            } else if b == 0x5b {
                self.buf.push(b);
                self.started = true;
                self.depth = 1;
                self.in_str = false;
                self.esc = false;
                None
            } else {
                self.phase = DecodePhase::Failed;
                None
            }
        } else {
            self.buf.push(b);
            if self.in_str {
                if self.esc {
                    self.esc = false;
                } else if b == 0x5c {
                    self.esc = true;
                } else if b == 0x22 {
                    self.in_str = false;
                }
                None
            } else {
                if b == 0x22 {
                    self.in_str = true;
                    None
                } else if b == 0x5b || b == 0x7b {
                    let bl = self.buf.len();
                    proof {
                        assert(self@.depth + 1 <= bl);
                    }
                    self.depth = self.depth + 1;
                    None
                } else if b == 0x5d || b == 0x7d {
                    if self.depth == 1 {
                        let r = frag_eval(&self.buf);
                        self.buf = Vec::new();
                        self.started = false;
                        self.depth = 0;
                        match r {
                            None => {
                                self.phase = DecodePhase::Failed;
                                None
                            },
                            Some(t) => {
                                if t.len() > 0 {
                                    proof {
                                        self.emitted@ = self.emitted@.push(t@);
                                    }
                                    Some(t)
                                } else {
                                    None
                                }
                            },
                        }
                    } else {
                        self.depth = self.depth - 1;
                        None
                    }
                } else {
                    None
                }
            }
        }
    }

    /// Consume one byte; a completed frame may emit one chunk.
    fn step_byte(&mut self, b: u8) -> (out: Option<Vec<u8>>)
        requires
            sp_wf(old(self)@),
        ensures
            final(self)@ == sp_step(old(self)@, b),
            sp_wf(final(self)@),
            match out {
                Some(t) => final(self)@.out == old(self)@.out.push(t@) && t@.len() > 0,
                None => final(self)@.out == old(self)@.out,
            },
    {
        proof {
            reveal(sp_step);
        }
        match self.phase {
            DecodePhase::Done => {
                return None;
            },
            DecodePhase::Failed => {
                return None;
            },
            DecodePhase::Active => {},
        }
        match self.format {
            WireFormat::NewlineJson => self.step_newline(b),
            WireFormat::Sse => self.step_sse(b),
            WireFormat::FragmentedArray => self.step_frag(b),
        }
    }

    /// Feed the decoder the bytes of one network read; the returned chunks
    /// are exactly what this read completed, in order.
    #[verifier::rlimit(100)]
    pub fn feed(&mut self, bytes: &Vec<u8>) -> (out: Vec<Vec<u8>>)
        requires
            sp_wf(old(self)@),
        ensures
            final(self)@ == sp_run(old(self)@, bytes@),
            sp_wf(final(self)@),
            final(self)@.out == old(self)@.out + out.deep_view(),
            forall|i: int| 0 <= i < out.deep_view().len() ==> out.deep_view()[i].len() > 0,
    {
        let ghost st0 = self@;
        let n = bytes.len();
        let mut out: Vec<Vec<u8>> = Vec::new();
        let mut i: usize = 0;
        proof {
            assert(bytes@.take(0) =~= Seq::<u8>::empty());
            assert(st0.out + out.deep_view() =~= st0.out);
        }
        while i < n
            invariant
                0 <= i <= n == bytes@.len(),
                self@ == sp_run(st0, bytes@.take(i as int)),
                sp_wf(self@),
                self@.out == st0.out + out.deep_view(),
                forall|k: int| 0 <= k < out.deep_view().len() ==> out.deep_view()[k].len() > 0,
            decreases n - i,
        {
            let ghost pre = self@;
            let b = bytes[i];
            let chunk = self.step_byte(b);
            proof {
                assert(bytes@.take(i as int + 1) =~= bytes@.take(i as int) + seq![b]);
                lemma_run_append(st0, bytes@.take(i as int), seq![b]);
                assert(seq![b].drop_first() =~= Seq::<u8>::empty());
                assert(seq![b][0] == b);
                assert(sp_run(sp_step(pre, b), Seq::<u8>::empty()) == sp_step(pre, b));
                assert(sp_run(pre, seq![b]) == sp_step(pre, b));
            }
            match chunk {
                Some(t) => {
                    let ghost outv0 = out.deep_view();
                    let ghost tv = t@;
                    out.push(t);
                    proof {
                        assert(out.deep_view() =~~= outv0.push(tv));
                        assert(st0.out + outv0.push(tv) =~= (st0.out + outv0).push(tv));
                    }
                },
                None => {},
            }
            i += 1;
        }
        proof {
            assert(bytes@.take(n as int) =~= bytes@);
        }
        out
    }

    /// Tell the decoder the byte source has ended; for the SSE format a
    /// non-empty leftover gets one final decode attempt.
    pub fn finish(&mut self) -> (out: Option<Vec<u8>>)
        requires
            sp_wf(old(self)@),
        ensures
            final(self)@ == sp_finish(old(self)@),
            sp_wf(final(self)@),
            match out {
                Some(t) => final(self)@.out == old(self)@.out.push(t@) && t@.len() > 0,
                None => final(self)@.out == old(self)@.out,
            },
    {
        match self.phase {
            DecodePhase::Done => {
                return None;
            },
            DecodePhase::Failed => {
                return None;
            },
            DecodePhase::Active => {},
        }
        match self.format {
            WireFormat::Sse => {
                if self.buf.len() > 0 {
                    let event = crate::json::copy_range(&self.buf, 0, self.buf.len());
                    proof {
                        assert(event@ =~= self@.buf);
                    }
                    self.buf = Vec::new();
                    self.depth = 0;
                    self.started = false;
                    self.phase = DecodePhase::Done;
                    match event_eval(&event) {
                        SseEventOut::Chunk(t) => {
                            proof {
                                self.emitted@ = self.emitted@.push(t@);
                            }
                            Some(t)
                        },
                        _ => None,
                    }
                } else {
                    self.depth = 0;
                    self.started = false;
                    self.phase = DecodePhase::Done;
                    None
                }
            },
            _ => {
                self.buf = Vec::new();
                self.depth = 0;
                self.started = false;
                self.phase = DecodePhase::Done;
                None
            },
        }
    }
}

} // verus!
