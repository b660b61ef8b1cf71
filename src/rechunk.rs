//! Fixed-size re-chunking of a sample stream.
//!
//! Samples arrive in blocks of any length; they leave in chunks of exactly
//! the configured size, in order, and what does not fill a chunk waits for
//! the next block.

use vstd::prelude::*;
use vstd::arithmetic::div_mod::{
    lemma_basic_div, lemma_div_plus_one, lemma_mod_add_multiples_vanish, lemma_small_mod,
};

verus! {

/// The full chunks of size `n` at the front of `s`, in order.
pub open spec fn chunks_of<T>(s: Seq<T>, n: nat) -> Seq<Seq<T>>
    decreases s.len(),
{
    if n == 0 || s.len() < n {
        Seq::empty()
    } else {
        seq![s.take(n as int)] + chunks_of(s.skip(n as int), n)
    }
}

/// What is left of `s` once its full chunks of size `n` are taken.
pub open spec fn rest_of<T>(s: Seq<T>, n: nat) -> Seq<T>
    decreases s.len(),
{
    if n == 0 || s.len() < n {
        s
    } else {
        rest_of(s.skip(n as int), n)
    }
}

/// The concatenation of a sequence of sequences, in order.
pub open spec fn concat_all<T>(parts: Seq<Seq<T>>) -> Seq<T>
    decreases parts.len(),
{
    if parts.len() == 0 {
        Seq::empty()
    } else {
        concat_all(parts.drop_last()) + parts.last()
    }
}

proof fn lemma_concat_all_prepend<T>(first: Seq<T>, parts: Seq<Seq<T>>)
    ensures
        concat_all(seq![first] + parts) == first + concat_all(parts),
    decreases parts.len(),
{
    if parts.len() == 0 {
        assert(seq![first] + parts =~= seq![first]);
        assert(seq![first].drop_last() =~= Seq::<Seq<T>>::empty());
        assert(first + Seq::<T>::empty() =~= first);
        assert(Seq::<T>::empty() + first =~= first);
        assert(concat_all(seq![first]) == concat_all(Seq::<Seq<T>>::empty()) + first);
    } else {
        let whole = seq![first] + parts;
        assert(whole.last() == parts.last());
        assert((seq![first] + parts).drop_last() =~= seq![first] + parts.drop_last());
        lemma_concat_all_prepend(first, parts.drop_last());
        assert(first + concat_all(parts.drop_last()) + parts.last() =~= first + (concat_all(
            parts.drop_last(),
        ) + parts.last()));
    }
}

/// Chunking facts: every chunk has exactly `n` items, fewer than `n` are
/// left over, there are `s.len() / n` chunks, and chunks and rest put back
/// together give `s`.
pub proof fn lemma_chunks_exact<T>(s: Seq<T>, n: nat)
    requires
        n > 0,
    ensures
        forall|i: int| 0 <= i < chunks_of(s, n).len() ==> (#[trigger] chunks_of(s, n)[i]).len() == n,
        rest_of(s, n).len() < n,
        rest_of(s, n).len() == (s.len() as int) % (n as int),
        chunks_of(s, n).len() == (s.len() as int) / (n as int),
        concat_all(chunks_of(s, n)) + rest_of(s, n) == s,
    decreases s.len(),
{
    if s.len() < n {
        lemma_basic_div(s.len() as int, n as int);
        lemma_small_mod(s.len(), n);
        assert(s =~= Seq::<T>::empty() + s);
    } else {
        let t = s.skip(n as int);
        lemma_chunks_exact(t, n);
        lemma_div_plus_one(t.len() as int, n as int);
        lemma_mod_add_multiples_vanish(t.len() as int, n as int);
        assert(n + t.len() == s.len());
        let cs = chunks_of(s, n);
        assert(cs == seq![s.take(n as int)] + chunks_of(t, n));
        assert forall|i: int| 0 <= i < cs.len() implies (#[trigger] cs[i]).len() == n by {
            if i > 0 {
                assert(cs[i] == chunks_of(t, n)[i - 1]);
            }
        }
        lemma_concat_all_prepend(s.take(n as int), chunks_of(t, n));
        assert(s.take(n as int) + concat_all(chunks_of(t, n)) + rest_of(t, n) =~= s.take(n as int)
            + (concat_all(chunks_of(t, n)) + rest_of(t, n)));
        assert(s.take(n as int) + t =~= s);
    }
}

/// Chunking is additive: taking the chunks of `s + b` gives the chunks of
/// `s` followed by the chunks of what `s` left over with `b` after it, and
/// the same leftover.
pub proof fn lemma_chunks_additive<T>(s: Seq<T>, b: Seq<T>, n: nat)
    requires
        n > 0,
    ensures
        chunks_of(s + b, n) == chunks_of(s, n) + chunks_of(rest_of(s, n) + b, n),
        rest_of(s + b, n) == rest_of(rest_of(s, n) + b, n),
    decreases s.len(),
{
    if s.len() < n {
        assert(chunks_of(s, n) + chunks_of(rest_of(s, n) + b, n) =~= chunks_of(s + b, n));
    } else {
        let t = s.skip(n as int);
        lemma_chunks_additive(t, b, n);
        assert((s + b).take(n as int) =~= s.take(n as int));
        assert((s + b).skip(n as int) =~= t + b);
        assert(chunks_of(s + b, n) == seq![s.take(n as int)] + chunks_of(t + b, n));
        assert(seq![s.take(n as int)] + (chunks_of(t, n) + chunks_of(rest_of(t, n) + b, n))
            =~= (seq![s.take(n as int)] + chunks_of(t, n)) + chunks_of(rest_of(t, n) + b, n));
    }
}

/// Two blocks pushed one after the other yield, between them, exactly the
/// chunks that the two blocks pushed as one would yield, and leave the same
/// samples waiting.
pub proof fn lemma_push_split_equals_combined<T>(pending: Seq<T>, a: Seq<T>, b: Seq<T>, n: nat)
    requires
        n > 0,
    ensures
        chunks_of(pending + a, n) + chunks_of(rest_of(pending + a, n) + b, n) == chunks_of(
            pending + (a + b),
            n,
        ),
        (chunks_of(pending + a, n) + chunks_of(rest_of(pending + a, n) + b, n)).len() == chunks_of(
            pending + (a + b),
            n,
        ).len(),
        rest_of(rest_of(pending + a, n) + b, n) == rest_of(pending + (a + b), n),
{
    lemma_chunks_additive(pending + a, b, n);
    assert(pending + a + b =~= pending + (a + b));
}

/// Collects samples and hands them back in chunks of a fixed size.
pub struct Rechunker<T> {
    buf: Vec<T>,
    size: usize,
}

impl<T> Rechunker<T> {
    /// The samples waiting for a chunk to fill.
    pub closed spec fn pending(&self) -> Seq<T> {
        self.buf@
    }

    /// The chunk size.
    pub closed spec fn chunk_size(&self) -> nat {
        self.size as nat
    }

    /// Well-formed: the size is positive and less than one chunk is waiting.
    pub open spec fn wf(&self) -> bool {
        self.chunk_size() > 0 && self.pending().len() < self.chunk_size()
    }

    /// An empty re-chunker producing chunks of `size` samples.
    pub fn new(size: usize) -> (r: Self)
        requires
            size > 0,
        ensures
            r.wf(),
            r.pending() == Seq::<T>::empty(),
            r.chunk_size() == size,
    {
        Rechunker { buf: Vec::new(), size }
    }

    /// The chunk size.
    pub fn size(&self) -> (r: usize)
        ensures
            r == self.chunk_size(),
    {
        self.size
    }

    /// How many samples are waiting.
    pub fn pending_len(&self) -> (r: usize)
        ensures
            r == self.pending().len(),
    {
        self.buf.len()
    }

    /// Adds `samples` and returns every chunk that is now full, oldest first.
    pub fn push(&mut self, samples: Vec<T>) -> (chunks: Vec<Vec<T>>)
        requires
            old(self).wf(),
        ensures
            final(self).wf(),
            final(self).chunk_size() == old(self).chunk_size(),
            chunks@.map_values(|c: Vec<T>| c@) == chunks_of(
                old(self).pending() + samples@,
                old(self).chunk_size(),
            ),
            final(self).pending() == rest_of(old(self).pending() + samples@, old(self).chunk_size()),
            final(self).pending().len() == ((old(self).pending().len() + samples@.len()) as int) % (
            old(self).chunk_size() as int),
            chunks@.len() == ((old(self).pending().len() + samples@.len()) as int) / (old(
                self,
            ).chunk_size() as int),
            forall|i: int| 0 <= i < chunks@.len() ==> (#[trigger] chunks@[i])@.len() == old(
                self,
            ).chunk_size(),
    {
        let mut samples = samples;
        let ghost all = self.buf@ + samples@;
        let ghost n = self.size as nat;
        self.buf.append(&mut samples);
        let mut out: Vec<Vec<T>> = Vec::new();
        while self.buf.len() >= self.size
            invariant
                n == self.size,
                n > 0,
                chunks_of(all, n) == out@.map_values(|c: Vec<T>| c@) + chunks_of(self.buf@, n),
                rest_of(all, n) == rest_of(self.buf@, n),
            decreases self.buf@.len(),
        {
            let ghost before = self.buf@;
            let mut chunk = self.buf.split_off(self.size);
            std::mem::swap(&mut self.buf, &mut chunk);
            assert(chunk@ == before.take(n as int));
            assert(self.buf@ == before.skip(n as int));
            let ghost prev = out@;
            out.push(chunk);
            assert(out@.map_values(|c: Vec<T>| c@) =~= prev.map_values(|c: Vec<T>| c@).push(
                chunk@,
            ));
            assert(prev.map_values(|c: Vec<T>| c@) + chunks_of(before, n) =~= out@.map_values(
                |c: Vec<T>| c@,
            ) + chunks_of(self.buf@, n));
        }
        assert(out@.map_values(|c: Vec<T>| c@) + chunks_of(self.buf@, n) =~= out@.map_values(
            |c: Vec<T>| c@,
        ));
        proof {
            lemma_chunks_exact(all, n);
            assert forall|i: int| 0 <= i < out@.len() implies (#[trigger] out@[i])@.len() == n by {
                assert(out@.map_values(|c: Vec<T>| c@)[i] == out@[i]@);
            }
        }
        out
    }

    /// Hands back the samples that are waiting and empties the re-chunker.
    pub fn flush(&mut self) -> (r: Vec<T>)
        requires
            old(self).wf(),
        ensures
            final(self).wf(),
            final(self).chunk_size() == old(self).chunk_size(),
            final(self).pending() == Seq::<T>::empty(),
            r@ == old(self).pending(),
    {
        let mut r: Vec<T> = Vec::new();
        std::mem::swap(&mut self.buf, &mut r);
        r
    }

    /// Drops the samples that are waiting.
    pub fn clear(&mut self)
        requires
            old(self).wf(),
        ensures
            final(self).wf(),
            final(self).chunk_size() == old(self).chunk_size(),
            final(self).pending() == Seq::<T>::empty(),
    {
        self.buf.clear();
    }
}

/// Collects samples until a window of a fixed size is available and hands
/// back one window per call, oldest samples first.
pub struct WindowBuffer<T> {
    buf: Vec<T>,
    size: usize,
}

impl<T> WindowBuffer<T> {
    /// The samples waiting.
    pub closed spec fn pending(&self) -> Seq<T> {
        self.buf@
    }

    /// The window size.
    pub closed spec fn window_size(&self) -> nat {
        self.size as nat
    }

    /// An empty buffer handing out windows of `size` samples.
    pub fn new(size: usize) -> (r: Self)
        ensures
            r.pending() == Seq::<T>::empty(),
            r.window_size() == size,
    {
        WindowBuffer { buf: Vec::new(), size }
    }

    /// Adds `samples`; when a full window is waiting, takes it out and
    /// returns it, leaving the remainder for the next call.
    pub fn push(&mut self, samples: Vec<T>) -> (r: Option<Vec<T>>)
        ensures
            final(self).window_size() == old(self).window_size(),
            ({
                let all = old(self).pending() + samples@;
                let n = old(self).window_size() as int;
                if all.len() >= n {
                    &&& r matches Some(w) && w@ == all.take(n)
                    &&& final(self).pending() == all.skip(n)
                } else {
                    &&& r is None
                    &&& final(self).pending() == all
                }
            }),
    {
        let mut samples = samples;
        self.buf.append(&mut samples);
        if self.buf.len() >= self.size {
            let mut window = self.buf.split_off(self.size);
            std::mem::swap(&mut self.buf, &mut window);
            Some(window)
        } else {
            None
        }
    }
}

} // verus!
