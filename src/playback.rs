//! The playback queue: samples received from the network wait here until the
//! output device pulls them, oldest first. A pull from an empty queue gives
//! silence instead of waiting.

use std::collections::VecDeque;
use vstd::prelude::*;

verus! {

/// The bits of the float 0.0: silence.
pub const SILENCE: u32 = 0;

/// What `n` pulls from a queue holding `s` return: the first `n` samples, and
/// silence for each pull past the end.
pub open spec fn pulled(s: Seq<u32>, n: nat) -> Seq<u32> {
    if n <= s.len() {
        s.take(n as int)
    } else {
        s + Seq::new((n - s.len()) as nat, |i: int| SILENCE)
    }
}

/// What a queue holding `s` holds after `n` pulls.
pub open spec fn after_pulls(s: Seq<u32>, n: nat) -> Seq<u32> {
    if n <= s.len() {
        s.skip(n as int)
    } else {
        Seq::empty()
    }
}

/// One pull from a queue holding `s`: the sample and what remains.
pub open spec fn pull_one(s: Seq<u32>) -> (u32, Seq<u32>) {
    if s.len() == 0 {
        (SILENCE, s)
    } else {
        (s[0], s.drop_first())
    }
}

/// The samples that `n` single pulls return, one after another.
pub open spec fn pull_each(s: Seq<u32>, n: nat) -> Seq<u32>
    decreases n,
{
    if n == 0 {
        Seq::empty()
    } else {
        seq![pull_one(s).0] + pull_each(pull_one(s).1, (n - 1) as nat)
    }
}

/// A FIFO of samples, each given by the bits of its 32-bit float.
pub struct PlaybackBuffer {
    samples: VecDeque<u32>,
}

impl View for PlaybackBuffer {
    type V = Seq<u32>;

    closed spec fn view(&self) -> Seq<u32> {
        self.samples@
    }
}

impl PlaybackBuffer {
    /// An empty queue.
    pub fn new() -> (r: PlaybackBuffer)
        ensures
            r@ == Seq::<u32>::empty(),
    {
        PlaybackBuffer { samples: VecDeque::new() }
    }

    /// An empty queue with room reserved for `capacity` samples.
    pub fn with_capacity(capacity: usize) -> (r: PlaybackBuffer)
        ensures
            r@ == Seq::<u32>::empty(),
    {
        PlaybackBuffer { samples: VecDeque::with_capacity(capacity) }
    }

    /// Number of samples waiting.
    pub fn len(&self) -> (r: usize)
        ensures
            r == self@.len(),
    {
        self.samples.len()
    }

    /// Appends a batch behind the samples already waiting.
    pub fn push_samples(&mut self, batch: &[u32])
        ensures
            final(self)@ == old(self)@ + batch@,
    {
        let ghost start = self@;
        let mut i: usize = 0;
        while i < batch.len()
            invariant
                i <= batch@.len(),
                self@ == start + batch@.take(i as int),
            decreases batch@.len() - i,
        {
            self.samples.push_back(batch[i]);
            assert(batch@.take(i + 1) =~= batch@.take(i as int).push(batch@[i as int]));
            assert(self@ =~= start + batch@.take(i + 1));
            i += 1;
        }
        assert(batch@.take(batch@.len() as int) =~= batch@);
    }

    /// Takes the oldest sample, or gives silence where none is waiting.
    pub fn pop_sample(&mut self) -> (r: u32)
        ensures
            (r, final(self)@) == pull_one(old(self)@),
    {
        match self.samples.pop_front() {
            Some(s) => s,
            None => SILENCE,
        }
    }

    /// Takes `n` samples, oldest first, with silence for each one missing.
    pub fn pop_samples(&mut self, n: usize) -> (r: Vec<u32>)
        ensures
            r@ == pulled(old(self)@, n as nat),
            final(self)@ == after_pulls(old(self)@, n as nat),
    {
        let ghost start = self@;
        let mut out: Vec<u32> = Vec::new();
        let mut i: usize = 0;
        while i < n
            invariant
                i <= n,
                out@ == pulled(start, i as nat),
                self@ == after_pulls(start, i as nat),
            decreases n - i,
        {
            let s = self.pop_sample();
            out.push(s);
            proof {
                if i < start.len() {
                    assert(start.take(i + 1) =~= start.take(i as int).push(start[i as int]));
                    assert(start.skip(i as int).drop_first() =~= start.skip(i + 1));
                } else {
                    assert(pulled(start, (i + 1) as nat) =~= pulled(start, i as nat).push(SILENCE));
                }
            }
            i += 1;
        }
        out
    }
}

/// Pulling one sample at a time is pulling them together: `n` single pulls
/// return the oldest samples in insertion order, then silence once the queue
/// is empty, and leave the rest waiting.
pub proof fn lemma_pulls_in_order(s: Seq<u32>, n: nat)
    ensures
        pull_each(s, n) == pulled(s, n),
    decreases n,
{
    if n > 0 {
        let (v, rest) = pull_one(s);
        lemma_pulls_in_order(rest, (n - 1) as nat);
        if s.len() == 0 {
            assert(pulled(s, n) =~= seq![SILENCE] + pulled(rest, (n - 1) as nat));
        } else {
            assert(pulled(s, n) =~= seq![v] + pulled(rest, (n - 1) as nat));
        }
    }
}

/// Appends and pulls keep one order: after appending `batch` to a queue
/// holding `s`, pulling everything returns `s` then `batch`, each in the order
/// it was appended, and a further pull gives silence.
pub proof fn lemma_fifo(s: Seq<u32>, batch: Seq<u32>)
    ensures
        pull_each(s + batch, s.len() + batch.len()) == s + batch,
        after_pulls(s + batch, s.len() + batch.len()) == Seq::<u32>::empty(),
        pull_one(after_pulls(s + batch, s.len() + batch.len())).0 == SILENCE,
{
    lemma_pulls_in_order(s + batch, s.len() + batch.len());
    assert((s + batch).take((s.len() + batch.len()) as int) =~= s + batch);
    assert((s + batch).skip((s.len() + batch.len()) as int) =~= Seq::<u32>::empty());
}

} // verus!
