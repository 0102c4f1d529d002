//! Buffering of samples read in blocks: the block is loaded by the caller, which does the
//! reading, and handed out one sample at a time with a running sample index.

use vstd::prelude::*;

verus! {

/// The largest number of samples read at once.
pub const BUFFER_SIZE: usize = 2048;

/// The abstract state of a buffered source: the samples loaded but not yet handed out,
/// and the index of the next sample.
pub struct SourceState<T> {
    pub pending: Seq<T>,
    pub idx: nat,
}

/// One request for a sample: the state after it and the sample handed out with its index,
/// if one was pending.
pub open spec fn source_step<T>(s: SourceState<T>) -> (SourceState<T>, Option<(T, nat)>) {
    if s.pending.len() == 0 {
        (s, None)
    } else {
        (SourceState { pending: s.pending.drop_first(), idx: s.idx + 1 }, Some((s.pending[0], s.idx)))
    }
}

/// The state after `k` requests.
pub open spec fn source_after<T>(s: SourceState<T>, k: nat) -> SourceState<T>
    decreases k,
{
    if k == 0 { s } else { source_step(source_after(s, (k - 1) as nat)).0 }
}

/// Samples are handed out exactly once each, in the order loaded, numbered consecutively:
/// the request after `k` others hands out pending sample `k` with index `idx + k`, and once
/// all are handed out, nothing.
pub proof fn law_samples_in_order<T>(s: SourceState<T>, k: nat)
    ensures
        k < s.pending.len() ==> source_step(source_after(s, k)).1 == Some((s.pending[k as int], s.idx + k)),
        k >= s.pending.len() ==> source_step(source_after(s, k)).1 is None,
    decreases k,
{
    lemma_source_after(s, k);
}

proof fn lemma_source_after<T>(s: SourceState<T>, k: nat)
    ensures
        k <= s.pending.len() ==> source_after(s, k) == (SourceState { pending: s.pending.skip(k as int), idx: s.idx + k }),
        k > s.pending.len() ==> source_after(s, k) == (SourceState { pending: s.pending.skip(s.pending.len() as int), idx: s.idx + s.pending.len() }),
    decreases k,
{
    if k > 0 {
        lemma_source_after(s, (k - 1) as nat);
        if k <= s.pending.len() {
            assert(s.pending.skip(k - 1).drop_first() =~= s.pending.skip(k as int));
        }
    } else {
        assert(s.pending.skip(0) =~= s.pending);
    }
}

/// Loading a block: it becomes what is pending, and the numbering goes on from where it was.
pub open spec fn source_load<T>(s: SourceState<T>, block: Seq<T>) -> SourceState<T> {
    SourceState { pending: block, idx: s.idx }
}

/// The state once everything pending is handed out.
pub open spec fn source_drained<T>(s: SourceState<T>) -> SourceState<T> {
    source_after(s, s.pending.len())
}

/// The state after draining what is pending, then loading and draining each of `blocks`.
pub open spec fn source_blocks<T>(s: SourceState<T>, blocks: Seq<Seq<T>>) -> SourceState<T>
    decreases blocks.len(),
{
    if blocks.len() == 0 {
        source_drained(s)
    } else {
        source_drained(source_load(source_blocks(s, blocks.drop_last()), blocks.last()))
    }
}

/// The number of samples in all of `blocks`.
pub open spec fn total_len<T>(blocks: Seq<Seq<T>>) -> nat
    decreases blocks.len(),
{
    if blocks.len() == 0 { 0 } else { total_len(blocks.drop_last()) + blocks.last().len() }
}

/// Sample indices run on without a gap or a repeat across refills: after what was pending
/// and the blocks `blocks` have been handed out, sample `k` of the next block loaded gets
/// index `idx + (samples handed out before it)`.
pub proof fn law_indices_continue_across_loads<T>(s: SourceState<T>, blocks: Seq<Seq<T>>, block: Seq<T>, k: nat)
    requires
        k < block.len(),
    ensures
        source_blocks(s, blocks).pending.len() == 0,
        source_blocks(s, blocks).idx == s.idx + s.pending.len() + total_len(blocks),
        source_step(source_after(source_load(source_blocks(s, blocks), block), k)).1
            == Some((block[k as int], s.idx + s.pending.len() + total_len(blocks) + k)),
    decreases blocks.len(),
{
    lemma_blocks(s, blocks);
    law_samples_in_order(source_load(source_blocks(s, blocks), block), k);
}

proof fn lemma_blocks<T>(s: SourceState<T>, blocks: Seq<Seq<T>>)
    ensures
        source_blocks(s, blocks).pending.len() == 0,
        source_blocks(s, blocks).idx == s.idx + s.pending.len() + total_len(blocks),
    decreases blocks.len(),
{
    if blocks.len() == 0 {
        lemma_source_after(s, s.pending.len());
    } else {
        lemma_blocks(s, blocks.drop_last());
        let l = source_load(source_blocks(s, blocks.drop_last()), blocks.last());
        lemma_source_after(l, l.pending.len());
    }
}

/// A block of samples and the running index of the samples handed out.
pub struct BufferedSource<T: Copy> {
    idx: usize,
    buffer: Vec<T>,
    buffer_idx: usize,
}

impl<T: Copy> View for BufferedSource<T> {
    type V = SourceState<T>;

    closed spec fn view(&self) -> SourceState<T> {
        SourceState { pending: self.buffer@.subrange(self.buffer_idx as int, self.buffer@.len() as int), idx: self.idx as nat }
    }
}

impl<T: Copy> BufferedSource<T> {
    /// The read position lies inside the block.
    pub closed spec fn wf(&self) -> bool {
        &&& self.buffer_idx <= self.buffer@.len()
        &&& self.buffer@.len() <= BUFFER_SIZE
    }

    /// A source with nothing loaded, numbering samples from 0.
    pub fn new() -> (r: Result<Self, &'static str>)
        ensures
            r matches Ok(s) && s.wf() && s@.pending.len() == 0 && s@.idx == 0,
    {
        Ok(BufferedSource { idx: 0, buffer: Vec::new(), buffer_idx: 0 })
    }

    /// Every sample loaded has been handed out, so the next block has to be read.
    pub fn needs_samples(&self) -> (r: bool)
        requires
            self.wf(),
        ensures
            r == (self@.pending.len() == 0),
    {
        self.buffer_idx >= self.buffer.len()
    }

    /// Loads a block that was just read (at most `BUFFER_SIZE` samples; none means the
    /// source is exhausted), replacing what was pending.
    pub fn load(&mut self, samples: Vec<T>)
        requires
            old(self).wf(),
            samples@.len() <= BUFFER_SIZE,
        ensures
            final(self).wf(),
            final(self)@ == source_load(old(self)@, samples@),
    {
        self.buffer = samples;
        self.buffer_idx = 0;
        assert(self.buffer@.subrange(0, self.buffer@.len() as int) =~= samples@);
    }

    /// The next pending sample with its index, if any is pending.
    pub fn next_sample(&mut self) -> (r: Option<(T, usize)>)
        requires
            old(self).wf(),
            old(self)@.idx < usize::MAX,
        ensures
            final(self).wf(),
            final(self)@ == source_step(old(self)@).0,
            match source_step(old(self)@).1 {
                None => r is None,
                Some((x, i)) => r == Some((x, i as usize)),
            },
    {
        if self.buffer_idx >= self.buffer.len() {
            None
        } else {
            let ans = (self.buffer[self.buffer_idx], self.idx);
            self.idx = self.idx + 1;
            self.buffer_idx = self.buffer_idx + 1;
            assert(self@.pending =~= old(self)@.pending.drop_first());
            Some(ans)
        }
    }
}

} // verus!
