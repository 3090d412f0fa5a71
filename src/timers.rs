use vstd::prelude::*;
use crate::config::KeyCallback;
use crate::render::FrameInstant;

verus! {

/// A scheduled callback: once at `deadline`, or every `period` frames from
/// `deadline` on.
#[derive(PartialEq, Eq, Structural, Clone, Copy, Debug)]
pub struct Timer {
    pub handle: u64,
    pub deadline: FrameInstant,
    pub period: Option<u64>,
    pub callback: KeyCallback,
}

/// Why a timer was not scheduled.
#[derive(PartialEq, Eq, Structural, Clone, Copy, Debug)]
pub enum TimerError {
    /// A periodic timer needs a period of at least one frame.
    ZeroPeriod,
    /// Every handle has been given out.
    Exhausted,
}

/// Whether a timer is due at frame `now`.
pub open spec fn is_due(t: Timer, now: FrameInstant) -> bool {
    t.deadline <= now
}

/// The frame `deadline + period`, saturating at the end of the clock.
pub open spec fn next_deadline(deadline: u64, period: u64) -> u64 {
    if deadline + period > u64::MAX {
        u64::MAX
    } else {
        (deadline + period) as u64
    }
}

/// The timers left after firing at `now`, in order: a due one-shot timer is
/// gone, a due periodic timer moves on by one period, the rest stay.
pub open spec fn after_firing(s: Seq<Timer>, now: FrameInstant) -> Seq<Timer>
    decreases s.len(),
{
    if s.len() == 0 {
        s
    } else {
        let rest = after_firing(s.drop_last(), now);
        let t = s.last();
        if !is_due(t, now) {
            rest.push(t)
        } else {
            match t.period {
                Some(p) => rest.push(Timer { deadline: next_deadline(t.deadline, p), ..t }),
                None => rest,
            }
        }
    }
}

/// The timers that fire at `now`, in order.
pub open spec fn firing(s: Seq<Timer>, now: FrameInstant) -> Seq<Timer>
    decreases s.len(),
{
    if s.len() == 0 {
        s
    } else if is_due(s.last(), now) {
        firing(s.drop_last(), now).push(s.last())
    } else {
        firing(s.drop_last(), now)
    }
}

/// Handles strictly increase along the sequence and stay below `bound`.
pub open spec fn handles_ordered(s: Seq<Timer>, bound: u64) -> bool {
    &&& forall|i: int, j: int| 0 <= i < j < s.len() ==> s[i].handle < s[j].handle
    &&& forall|i: int| 0 <= i < s.len() ==> (#[trigger] s[i]).handle < bound
}

proof fn lemma_after_firing_ordered(s: Seq<Timer>, now: FrameInstant, bound: u64)
    requires
        handles_ordered(s, bound),
    ensures
        handles_ordered(after_firing(s, now), bound),
        forall|j: int|
            0 <= j < after_firing(s, now).len() ==> exists|i: int|
                0 <= i < s.len() && s[i].handle == (#[trigger] after_firing(s, now)[j]).handle,
    decreases s.len(),
{
    if s.len() > 0 {
        let d = s.drop_last();
        lemma_after_firing_ordered(d, now, bound);
        let rest = after_firing(d, now);
        assert forall|j: int| 0 <= j < rest.len() implies rest[j].handle < s.last().handle by {
            let i = choose|i: int| 0 <= i < d.len() && d[i].handle == rest[j].handle;
            assert(s[i] == d[i]);
        }
        let r = after_firing(s, now);
        assert forall|j: int| 0 <= j < r.len() implies exists|i: int|
            0 <= i < s.len() && s[i].handle == (#[trigger] r[j]).handle by {
            if j < rest.len() {
                assert(r[j] == rest[j]);
                let i = choose|i: int| 0 <= i < d.len() && d[i].handle == rest[j].handle;
                assert(s[i] == d[i]);
            } else {
                assert(s[s.len() - 1].handle == r[j].handle);
            }
        }
    }
}

/// The tempo cell and the pending timers.
pub struct JamTimers {
    tempo: u32,
    next_handle: u64,
    pending: Vec<Timer>,
}

impl JamTimers {
    /// The tempo, in beats per minute, as a single bit pattern.
    pub closed spec fn tempo_spec(&self) -> u32 {
        self.tempo
    }

    /// The pending timers, oldest handle first.
    pub closed spec fn pending_spec(&self) -> Seq<Timer> {
        self.pending@
    }

    /// The handle the next timer gets.
    pub closed spec fn next_handle_spec(&self) -> u64 {
        self.next_handle
    }

    pub open spec fn wf(&self) -> bool {
        handles_ordered(self.pending_spec(), self.next_handle_spec())
    }

    /// No timers, at tempo `tempo`.
    pub fn new(tempo: u32) -> (r: JamTimers)
        ensures
            r.wf(),
            r.tempo_spec() == tempo,
            r.pending_spec() == Seq::<Timer>::empty(),
            r.next_handle_spec() == 0,
    {
        JamTimers { tempo, next_handle: 0, pending: Vec::new() }
    }

    pub fn native_set_tempo(&mut self, tempo: u32)
        ensures
            final(self).tempo_spec() == tempo,
            final(self).pending_spec() == old(self).pending_spec(),
            final(self).next_handle_spec() == old(self).next_handle_spec(),
    {
        self.tempo = tempo;
    }

    pub fn native_get_tempo(&self) -> (r: u32)
        ensures
            r == self.tempo_spec(),
    {
        self.tempo
    }

    /// The number of pending timers.
    pub fn pending_count(&self) -> (r: usize)
        ensures
            r == self.pending_spec().len(),
    {
        self.pending.len()
    }

    fn schedule(&mut self, deadline: FrameInstant, period: Option<u64>, callback: KeyCallback) -> (r: Result<
        u64,
        TimerError,
    >)
        requires
            old(self).wf(),
        ensures
            final(self).wf(),
            final(self).tempo_spec() == old(self).tempo_spec(),
            old(self).next_handle_spec() == u64::MAX ==> r == Err::<u64, TimerError>(
                TimerError::Exhausted,
            ) && final(self).pending_spec() == old(self).pending_spec()
                && final(self).next_handle_spec() == old(self).next_handle_spec(),
            old(self).next_handle_spec() < u64::MAX ==> r == Ok::<u64, TimerError>(
                old(self).next_handle_spec(),
            ) && final(self).next_handle_spec() == old(self).next_handle_spec() + 1
                && final(self).pending_spec() == old(self).pending_spec().push(
                Timer { handle: old(self).next_handle_spec(), deadline, period, callback },
            ),
    {
        if self.next_handle == u64::MAX {
            return Err(TimerError::Exhausted);
        }
        let handle = self.next_handle;
        self.pending.push(Timer { handle, deadline, period, callback });
        self.next_handle = handle + 1;
        Ok(handle)
    }

    /// Schedules `callback` once, `delay` frames after `now` (saturating).
    pub fn native_on_timeout(&mut self, now: FrameInstant, delay: u64, callback: KeyCallback) -> (r:
        Result<u64, TimerError>)
        requires
            old(self).wf(),
        ensures
            final(self).wf(),
            final(self).tempo_spec() == old(self).tempo_spec(),
            old(self).next_handle_spec() == u64::MAX ==> r == Err::<u64, TimerError>(
                TimerError::Exhausted,
            ) && final(self).pending_spec() == old(self).pending_spec(),
            old(self).next_handle_spec() < u64::MAX ==> r == Ok::<u64, TimerError>(
                old(self).next_handle_spec(),
            ) && final(self).pending_spec() == old(self).pending_spec().push(
                Timer {
                    handle: old(self).next_handle_spec(),
                    deadline: next_deadline(now, delay),
                    period: None,
                    callback,
                },
            ),
    {
        let deadline = now.saturating_add(delay);
        self.schedule(deadline, None, callback)
    }

    /// Schedules `callback` every `period` frames, first `period` frames
    /// after `now` (saturating).
    pub fn native_on_beat(&mut self, now: FrameInstant, period: u64, callback: KeyCallback) -> (r:
        Result<u64, TimerError>)
        requires
            old(self).wf(),
        ensures
            final(self).wf(),
            final(self).tempo_spec() == old(self).tempo_spec(),
            period == 0 ==> {
                &&& r == Err::<u64, TimerError>(TimerError::ZeroPeriod)
                &&& final(self).pending_spec() == old(self).pending_spec()
            },
            period > 0 && old(self).next_handle_spec() == u64::MAX ==> {
                &&& r == Err::<u64, TimerError>(TimerError::Exhausted)
                &&& final(self).pending_spec() == old(self).pending_spec()
            },
            period > 0 && old(self).next_handle_spec() < u64::MAX ==> {
                &&& r == Ok::<u64, TimerError>(old(self).next_handle_spec())
                &&& final(self).pending_spec() == old(self).pending_spec().push(
                    Timer {
                        handle: old(self).next_handle_spec(),
                        deadline: next_deadline(now, period),
                        period: Some(period),
                        callback,
                    },
                )
            },
    {
        if period == 0 {
            return Err(TimerError::ZeroPeriod);
        }
        let deadline = now.saturating_add(period);
        self.schedule(deadline, Some(period), callback)
    }

    /// Cancels the timer with `handle`; tells whether one was pending.
    pub fn native_cancel_timer(&mut self, handle: u64) -> (r: bool)
        requires
            old(self).wf(),
        ensures
            final(self).wf(),
            final(self).tempo_spec() == old(self).tempo_spec(),
            final(self).next_handle_spec() == old(self).next_handle_spec(),
            r == exists|i: int|
                0 <= i < old(self).pending_spec().len() && (#[trigger] old(self).pending_spec()[i]).handle
                    == handle,
            r ==> exists|i: int|
                0 <= i < old(self).pending_spec().len() && (#[trigger] old(self).pending_spec()[i]).handle
                    == handle && final(self).pending_spec() == old(self).pending_spec().remove(i),
            !r ==> final(self).pending_spec() == old(self).pending_spec(),
    {
        match self.find(handle) {
            None => false,
            Some(i) => {
                let ghost before = self.pending@;
                let _ = self.pending.remove(i);
                proof {
                    let s = self.pending@;
                    assert forall|a: int, b: int| 0 <= a < b < s.len() implies s[a].handle < s[b].handle by {
                        let a0 = if a < i { a } else { a + 1 };
                        let b0 = if b < i { b } else { b + 1 };
                        assert(s[a] == before[a0] && s[b] == before[b0]);
                    }
                    assert forall|a: int| 0 <= a < s.len() implies (#[trigger] s[a]).handle < self.next_handle by {
                        let a0 = if a < i { a } else { a + 1 };
                        assert(s[a] == before[a0]);
                    }
                }
                true
            },
        }
    }

    fn find(&self, handle: u64) -> (r: Option<usize>)
        ensures
            match r {
                Some(i) => i < self.pending@.len() && self.pending@[i as int].handle == handle,
                None => forall|j: int| 0 <= j < self.pending@.len() ==> (#[trigger] self.pending@[j]).handle != handle,
            },
    {
        let mut i: usize = 0;
        while i < self.pending.len()
            invariant
                i <= self.pending@.len(),
                forall|j: int| 0 <= j < i ==> (#[trigger] self.pending@[j]).handle != handle,
            decreases self.pending@.len() - i,
        {
            if self.pending[i].handle == handle {
                return Some(i);
            }
            i = i + 1;
        }
        None
    }

    /// Fires the timers due at frame `now`, in order: each one-shot timer is
    /// removed and each periodic one moves on by one period.
    pub fn fire_due(&mut self, now: FrameInstant) -> (r: Vec<Timer>)
        requires
            old(self).wf(),
        ensures
            final(self).wf(),
            final(self).tempo_spec() == old(self).tempo_spec(),
            final(self).next_handle_spec() == old(self).next_handle_spec(),
            r@ == firing(old(self).pending_spec(), now),
            final(self).pending_spec() == after_firing(old(self).pending_spec(), now),
    {
        let ghost s = self.pending@;
        let mut kept: Vec<Timer> = Vec::new();
        let mut fired: Vec<Timer> = Vec::new();
        let mut i: usize = 0;
        proof {
            assert(s.take(0) =~= Seq::<Timer>::empty());
        }
        while i < self.pending.len()
            invariant
                i <= s.len(),
                s == self.pending@,
                kept@ == after_firing(s.take(i as int), now),
                fired@ == firing(s.take(i as int), now),
            decreases s.len() - i,
        {
            let t = self.pending[i];
            proof {
                assert(s.take(i + 1).drop_last() =~= s.take(i as int));
                assert(s.take(i + 1).last() == t);
            }
            if t.deadline <= now {
                fired.push(t);
                match t.period {
                    Some(p) => {
                        kept.push(Timer { deadline: t.deadline.saturating_add(p), ..t });
                    },
                    None => {},
                }
            } else {
                kept.push(t);
            }
            i = i + 1;
        }
        proof {
            assert(s.take(s.len() as int) =~= s);
            lemma_after_firing_ordered(s, now, self.next_handle);
        }
        self.pending = kept;
        fired
    }
}

} // verus!
