//! Energy-gated batching of speech audio.
//!
//! Each chunk arrives already classified as speech or silence. Speech opens
//! an utterance and is buffered; inside an utterance short silences are
//! buffered too. A run of silent chunks closes the utterance and hands the
//! whole buffer over for recognition, and so does a buffer that reaches the
//! size cap. Silence outside an utterance is dropped.

use vstd::prelude::*;

verus! {

/// Consecutive silent chunks that close an utterance.
pub const SILENCE_CHUNKS_BEFORE_INFER: usize = 5;

/// Buffer size, in samples, that forces a recognition pass mid-utterance.
pub const MAX_SPEECH_SAMPLES: usize = 480_000;

/// Utterance batching state as the contracts see it.
pub struct GateView<T> {
    pub buffered: Seq<T>,
    pub silent: nat,
    pub in_speech: bool,
}

/// One chunk of input: the next state, and the audio to recognise, if any.
pub open spec fn gate_step<T>(v: GateView<T>, chunk: Seq<T>, is_speech: bool) -> (GateView<T>, Option<Seq<T>>) {
    let grown = v.buffered + chunk;
    if is_speech {
        if grown.len() >= MAX_SPEECH_SAMPLES {
            (GateView { buffered: Seq::empty(), silent: 0, in_speech: true }, Some(grown))
        } else {
            (GateView { buffered: grown, silent: 0, in_speech: true }, None)
        }
    } else if v.in_speech {
        if v.silent + 1 >= SILENCE_CHUNKS_BEFORE_INFER {
            (GateView { buffered: Seq::empty(), silent: 0, in_speech: false }, Some(grown))
        } else {
            (GateView { buffered: grown, silent: v.silent + 1, in_speech: true }, None)
        }
    } else {
        (v, None)
    }
}

/// The contents of a handed-over buffer.
pub open spec fn buffer_view<T>(r: Option<Vec<T>>) -> Option<Seq<T>> {
    match r {
        Some(b) => Some(b@),
        None => None,
    }
}

/// Buffers speech and decides when to run recognition.
pub struct SpeechGate<T> {
    speech_buf: Vec<T>,
    silent_chunks: usize,
    in_speech: bool,
}

impl<T> View for SpeechGate<T> {
    type V = GateView<T>;

    closed spec fn view(&self) -> GateView<T> {
        GateView {
            buffered: self.speech_buf@,
            silent: self.silent_chunks as nat,
            in_speech: self.in_speech,
        }
    }
}

impl<T> SpeechGate<T> {
    /// Well-formed: outside an utterance nothing is buffered, and inside one
    /// the silence run is shorter than the closing length.
    pub open spec fn wf(&self) -> bool {
        &&& !self@.in_speech ==> self@.buffered.len() == 0 && self@.silent == 0
        &&& self@.silent < SILENCE_CHUNKS_BEFORE_INFER
    }

    /// A batcher outside any utterance.
    pub fn new() -> (r: Self)
        ensures
            r.wf(),
            r@.buffered == Seq::<T>::empty(),
            r@.silent == 0,
            !r@.in_speech,
    {
        SpeechGate { speech_buf: Vec::new(), silent_chunks: 0, in_speech: false }
    }

    /// Takes one chunk, classified as speech or silence, and returns the
    /// buffered audio when it is time to recognise it.
    pub fn process(&mut self, chunk: Vec<T>, is_speech: bool) -> (r: Option<Vec<T>>)
        requires
            old(self).wf(),
        ensures
            final(self).wf(),
            (final(self)@, buffer_view(r)) == gate_step(old(self)@, chunk@, is_speech),
    {
        let mut chunk = chunk;
        if is_speech {
            self.in_speech = true;
            self.silent_chunks = 0;
            self.speech_buf.append(&mut chunk);
            if self.speech_buf.len() >= MAX_SPEECH_SAMPLES {
                return Some(self.take_buffer());
            }
            return None;
        }
        if self.in_speech {
            self.silent_chunks = self.silent_chunks + 1;
            self.speech_buf.append(&mut chunk);
            if self.silent_chunks >= SILENCE_CHUNKS_BEFORE_INFER {
                self.in_speech = false;
                self.silent_chunks = 0;
                return Some(self.take_buffer());
            }
        }
        None
    }

    /// Hands the buffer over and leaves it empty.
    fn take_buffer(&mut self) -> (r: Vec<T>)
        ensures
            r@ == old(self)@.buffered,
            final(self)@.buffered == Seq::<T>::empty(),
            final(self)@.silent == old(self)@.silent,
            final(self)@.in_speech == old(self)@.in_speech,
    {
        let mut r: Vec<T> = Vec::new();
        std::mem::swap(&mut self.speech_buf, &mut r);
        r
    }
}

/// Silence outside an utterance yields nothing and buffers nothing; speech
/// never yields less than a full cap's worth unless silence closes the
/// utterance.
pub proof fn lemma_gate_silence_and_cap<T>(v: GateView<T>, chunk: Seq<T>, is_speech: bool)
    ensures
        !is_speech && !v.in_speech ==> gate_step(v, chunk, is_speech) == (v, None::<Seq<T>>),
        is_speech ==> (gate_step(v, chunk, is_speech).1 is Some <==> v.buffered.len()
            + chunk.len() >= MAX_SPEECH_SAMPLES),
        gate_step(v, chunk, is_speech).1 matches Some(b) ==> b == v.buffered + chunk,
{
}

} // verus!
