use vstd::prelude::*;
use crate::ring::{ring_from, ring_len, ring_max_len, ring_pop, ring_push, ring_samples, ring_capacity};

verus! {

/// An absolute frame index, counted from the start of the process.
pub type FrameInstant = u64;

/// How many frames the render thread may render ahead of playback.
pub const MAX_BUFFER_SPECULATE_SIZE: usize = 1024;

/// The look-ahead queue between the render thread and the audio callback.
pub struct RenderQueue {
    buffer: dasp::ring_buffer::Bounded<Vec<u32>>,
    tail_frame: u64,
    last_consumed_size: u64,
}

impl RenderQueue {
    /// The queued samples, oldest (next to be played) first.
    pub closed spec fn samples(&self) -> Seq<u32> {
        ring_samples(self.buffer)
    }

    /// The frame index of the oldest queued sample.
    pub closed spec fn tail_spec(&self) -> int {
        self.tail_frame as int
    }

    /// The frame index at which the next pushed sample will be played.
    pub open spec fn head_spec(&self) -> int {
        self.tail_spec() + self.samples().len()
    }

    /// The count consumed by the latest audio callback.
    pub closed spec fn last_consumed_spec(&self) -> u64 {
        self.last_consumed_size
    }

    pub closed spec fn wf(&self) -> bool {
        &&& ring_capacity(self.buffer) == MAX_BUFFER_SPECULATE_SIZE
        &&& self.samples().len() <= MAX_BUFFER_SPECULATE_SIZE
        &&& self.tail_frame + self.samples().len() <= u64::MAX
    }

    /// The producer end is always the consumer end plus the number of queued
    /// samples; every operation keeps the queue well formed, so this holds
    /// after any sequence of them.
    pub proof fn lemma_clock_identity(&self)
        requires
            self.wf(),
        ensures
            self.head_spec() - self.tail_spec() == self.samples().len(),
    {
    }

    /// The queue never holds more than its capacity.
    pub proof fn lemma_capacity_bound(&self)
        requires
            self.wf(),
        ensures
            self.samples().len() <= MAX_BUFFER_SPECULATE_SIZE,
            self.head_spec() <= u64::MAX,
    {
    }

    /// An empty queue whose clock starts at frame zero.
    pub fn new() -> (r: Self)
        ensures
            r.wf(),
            r.samples() == Seq::<u32>::empty(),
            r.tail_spec() == 0,
            r.last_consumed_spec() == 0,
    {
        let data: Vec<u32> = vec![0u32; MAX_BUFFER_SPECULATE_SIZE];
        RenderQueue { buffer: ring_from(data), last_consumed_size: 0, tail_frame: 0 }
    }

    fn plus_sample_time(&self, samples_elapsed: u64) -> (r: FrameInstant)
        requires
            self.tail_frame + samples_elapsed <= u64::MAX,
        ensures
            r == self.tail_frame + samples_elapsed,
    {
        self.tail_frame + samples_elapsed
    }

    /// The frame index at the producer end: where the next push lands.
    pub fn head_time(&self) -> (r: FrameInstant)
        requires
            self.wf(),
        ensures
            r == self.head_spec(),
    {
        let n = ring_len(&self.buffer);
        self.plus_sample_time(n as u64)
    }

    /// The frame index at the consumer end: the next frame to be played.
    pub fn tail_time(&self) -> (r: FrameInstant)
        requires
            self.wf(),
        ensures
            r == self.tail_spec(),
    {
        self.plus_sample_time(0)
    }

    /// The number of queued samples.
    pub fn len(&self) -> (r: usize)
        requires
            self.wf(),
        ensures
            r == self.samples().len(),
            r <= MAX_BUFFER_SPECULATE_SIZE,
    {
        ring_len(&self.buffer)
    }

    /// Whether the queue holds as many samples as it can.
    pub fn is_full(&self) -> (r: bool)
        requires
            self.wf(),
        ensures
            r == (self.samples().len() == MAX_BUFFER_SPECULATE_SIZE),
    {
        ring_len(&self.buffer) == ring_max_len(&self.buffer)
    }

    /// The count consumed by the latest audio callback (zero when it found too
    /// few samples).
    pub fn last_consumed_size(&self) -> (r: u64)
        ensures
            r == self.last_consumed_spec(),
    {
        self.last_consumed_size
    }

    /// Appends one sample at the head. Fails, changing nothing, iff the queue
    /// is full.
    pub fn push(&mut self, sample: u32) -> (r: Result<(), u32>)
        requires
            old(self).wf(),
            old(self).head_spec() < u64::MAX,
        ensures
            final(self).wf(),
            final(self).tail_spec() == old(self).tail_spec(),
            final(self).last_consumed_spec() == old(self).last_consumed_spec(),
            old(self).samples().len() == MAX_BUFFER_SPECULATE_SIZE ==> {
                &&& r == Err::<(), u32>(sample)
                &&& final(self).samples() == old(self).samples()
            },
            old(self).samples().len() < MAX_BUFFER_SPECULATE_SIZE ==> {
                &&& r is Ok
                &&& final(self).samples() == old(self).samples().push(sample)
                &&& final(self).head_spec() == old(self).head_spec() + 1
            },
            final(self).samples().len() <= MAX_BUFFER_SPECULATE_SIZE,
    {
        if ring_len(&self.buffer) == ring_max_len(&self.buffer) {
            return Err(sample);
        }
        let _ = ring_push(&mut self.buffer, sample);
        Ok(())
    }

    /// Removes the oldest sample, advancing the clock by one frame. Fails iff
    /// the queue is empty.
    pub fn pop(&mut self) -> (r: Option<u32>)
        requires
            old(self).wf(),
        ensures
            final(self).wf(),
            final(self).last_consumed_spec() == old(self).last_consumed_spec(),
            final(self).head_spec() == old(self).head_spec(),
            old(self).samples().len() == 0 ==> {
                &&& r.is_none()
                &&& final(self).samples() == old(self).samples()
                &&& final(self).tail_spec() == old(self).tail_spec()
            },
            old(self).samples().len() > 0 ==> {
                &&& r == Some(old(self).samples()[0])
                &&& final(self).samples() == old(self).samples().drop_first()
                &&& final(self).tail_spec() == old(self).tail_spec() + 1
            },
    {
        let r = ring_pop(&mut self.buffer);
        if r.is_some() {
            self.tail_frame = self.tail_frame + 1;
        }
        r
    }

    /// The audio callback's step: when at least `out.len()` samples are
    /// queued, moves that many (oldest first) into `out`, advances the clock
    /// by exactly that count and records it as consumed; otherwise records
    /// zero consumed and leaves `out` and the queue as they were.
    pub fn consume(&mut self, out: &mut Vec<u32>) -> (r: bool)
        requires
            old(self).wf(),
            old(out)@.len() <= crate::output::MAX_BUFFER_CONSUME_SIZE,
        ensures
            final(self).wf(),
            final(out)@.len() == old(out)@.len(),
            final(self).head_spec() == old(self).head_spec(),
            r == (old(self).samples().len() >= old(out)@.len()),
            r ==> {
                &&& final(out)@ == old(self).samples().take(old(out)@.len() as int)
                &&& final(self).samples() == old(self).samples().skip(old(out)@.len() as int)
                &&& final(self).tail_spec() == old(self).tail_spec() + old(out)@.len()
                &&& final(self).last_consumed_spec() == old(out)@.len()
            },
            !r ==> {
                &&& final(out)@ == old(out)@
                &&& final(self).samples() == old(self).samples()
                &&& final(self).tail_spec() == old(self).tail_spec()
                &&& final(self).last_consumed_spec() == 0
            },
    {
        let num_frames = out.len();
        if ring_len(&self.buffer) < num_frames {
            self.last_consumed_size = 0;
            return false;
        }
        let ghost start = self.samples();
        let ghost start_tail = self.tail_frame;
        let mut i: usize = 0;
        while i < num_frames
            invariant
                i <= num_frames,
                num_frames == out@.len(),
                num_frames <= start.len(),
                ring_capacity(self.buffer) == MAX_BUFFER_SPECULATE_SIZE,
                self.tail_frame == start_tail,
                self.tail_frame + start.len() <= u64::MAX,
                self.samples() == start.skip(i as int),
                out@.take(i as int) == start.take(i as int),
            decreases num_frames - i,
        {
            let s = ring_pop(&mut self.buffer);
            assert(s == Some(start[i as int]));
            out.set(i, s.unwrap());
            proof {
                assert(self.samples() =~= start.skip(i as int + 1));
                assert(out@.take(i as int + 1) =~= start.take(i as int + 1));
            }
            i = i + 1;
        }
        assert(out@ =~= out@.take(num_frames as int));
        self.tail_frame = self.tail_frame + num_frames as u64;
        self.last_consumed_size = num_frames as u64;
        true
    }
}

} // verus!
