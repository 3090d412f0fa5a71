use vstd::prelude::*;

verus! {

/// The most frames the audio callback is ever asked for at once.
pub const MAX_BUFFER_CONSUME_SIZE: usize = 256;

/// The one short sleep the audio callback may take, in nanoseconds.
pub const BACKOFF_SLEEP_NANOS: u64 = 1_000_000;

/// What the audio callback does next while waiting for samples.
#[derive(PartialEq, Eq, Structural, Clone, Copy, Debug)]
pub enum CallbackStep {
    /// Release the queue and sleep for one backoff period.
    Sleep,
    /// Take the queue and consume (or give up and emit nothing).
    Proceed,
}

/// Whether the callback may still sleep: it has not slept yet in this call,
/// and one backoff period from now is still before the first frame is heard.
pub open spec fn may_sleep(playback_nanos: u64, callback_nanos: u64, sleeps_taken: u32) -> bool {
    &&& sleeps_taken == 0
    &&& playback_nanos >= BACKOFF_SLEEP_NANOS
    &&& playback_nanos - BACKOFF_SLEEP_NANOS > callback_nanos
}

/// The wait decision, as a value: sleep only while too few samples are
/// queued and a sleep still fits before playback.
pub open spec fn step_spec(
    queued: usize,
    num_frames: usize,
    playback_nanos: u64,
    callback_nanos: u64,
    sleeps_taken: u32,
) -> CallbackStep {
    if queued < num_frames && may_sleep(playback_nanos, callback_nanos, sleeps_taken) {
        CallbackStep::Sleep
    } else {
        CallbackStep::Proceed
    }
}

/// The audio callback's wait decision: sleep only while too few samples are
/// queued and a sleep still fits before playback; proceed otherwise.
pub fn backoff_step(
    queued: usize,
    num_frames: usize,
    playback_nanos: u64,
    callback_nanos: u64,
    sleeps_taken: u32,
) -> (r: CallbackStep)
    ensures
        r == step_spec(queued, num_frames, playback_nanos, callback_nanos, sleeps_taken),
{
    if queued >= num_frames {
        CallbackStep::Proceed
    } else if sleeps_taken == 0 && playback_nanos >= BACKOFF_SLEEP_NANOS
        && playback_nanos - BACKOFF_SLEEP_NANOS > callback_nanos {
        CallbackStep::Sleep
    } else {
        CallbackStep::Proceed
    }
}

/// The callback sleeps at most once per call, and never while the producer
/// keeps at least the requested count queued.
pub proof fn lemma_bounded_wait(
    queued: usize,
    num_frames: usize,
    playback_nanos: u64,
    callback_nanos: u64,
    sleeps_taken: u32,
)
    ensures
        queued >= num_frames ==> step_spec(
            queued,
            num_frames,
            playback_nanos,
            callback_nanos,
            sleeps_taken,
        ) == CallbackStep::Proceed,
        sleeps_taken >= 1 ==> step_spec(
            queued,
            num_frames,
            playback_nanos,
            callback_nanos,
            sleeps_taken,
        ) == CallbackStep::Proceed,
{
}

} // verus!
