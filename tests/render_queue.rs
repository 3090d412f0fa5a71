use jam::output::{backoff_step, CallbackStep, BACKOFF_SLEEP_NANOS, MAX_BUFFER_CONSUME_SIZE};
use jam::render::{RenderQueue, MAX_BUFFER_SPECULATE_SIZE};

#[test]
fn new_queue_is_empty_at_frame_zero() {
    let q = RenderQueue::new();
    assert_eq!(q.len(), 0);
    assert_eq!(q.head_time(), 0);
    assert_eq!(q.tail_time(), 0);
    assert_eq!(q.last_consumed_size(), 0);
    assert!(!q.is_full());
}

#[test]
fn push_and_pop_keep_the_clock_identity() {
    let mut q = RenderQueue::new();
    for s in 1u32..=10 {
        assert!(q.push(s).is_ok());
        assert_eq!(q.head_time() - q.tail_time(), q.len() as u64);
    }
    assert_eq!(q.pop(), Some(1));
    assert_eq!(q.pop(), Some(2));
    assert_eq!(q.head_time(), 10);
    assert_eq!(q.tail_time(), 2);
    assert_eq!(q.head_time() - q.tail_time(), q.len() as u64);
    assert!(q.push(11).is_ok());
    assert_eq!(q.head_time(), 11);
    assert_eq!(q.len(), 9);
}

#[test]
fn pop_on_empty_fails_and_keeps_the_clock() {
    let mut q = RenderQueue::new();
    assert_eq!(q.pop(), None);
    assert_eq!(q.tail_time(), 0);
}

#[test]
fn push_fails_exactly_when_full() {
    let mut q = RenderQueue::new();
    for i in 0..MAX_BUFFER_SPECULATE_SIZE {
        assert!(q.push(i as u32).is_ok());
    }
    assert!(q.is_full());
    assert_eq!(q.push(7), Err(7));
    assert_eq!(q.len(), MAX_BUFFER_SPECULATE_SIZE);
    assert_eq!(q.pop(), Some(0));
    assert!(q.push(7).is_ok());
}

#[test]
fn silent_engine_fills_with_zeros_and_callback_gets_zeros() {
    let mut q = RenderQueue::new();
    let silence = 0.0f32.to_bits();
    while q.push(silence).is_ok() {}
    assert_eq!(q.len(), 1024);
    let mut out = vec![1u32; 256];
    assert!(q.consume(&mut out));
    assert!(out.iter().all(|s| f32::from_bits(*s) == 0.0));
    assert_eq!(q.tail_time(), 256);
    assert_eq!(q.head_time(), 1024);
    assert_eq!(q.last_consumed_size(), 256);
    assert_eq!(q.len(), 768);
}

#[test]
fn consume_takes_oldest_first_and_advances_by_count() {
    let mut q = RenderQueue::new();
    for s in 0u32..5 {
        q.push(s).unwrap();
    }
    let mut out = vec![99u32; 3];
    assert!(q.consume(&mut out));
    assert_eq!(out, vec![0, 1, 2]);
    assert_eq!(q.tail_time(), 3);
    assert_eq!(q.last_consumed_size(), 3);
    assert_eq!(q.pop(), Some(3));
}

#[test]
fn consume_with_too_few_samples_changes_nothing() {
    let mut q = RenderQueue::new();
    q.push(5).unwrap();
    let mut out = vec![42u32; 4];
    assert!(!q.consume(&mut out));
    assert_eq!(out, vec![42; 4]);
    assert_eq!(q.len(), 1);
    assert_eq!(q.tail_time(), 0);
    assert_eq!(q.last_consumed_size(), 0);
}

#[test]
fn consume_the_largest_request() {
    let mut q = RenderQueue::new();
    for s in 0..MAX_BUFFER_CONSUME_SIZE as u32 {
        q.push(s).unwrap();
    }
    let mut out = vec![0u32; MAX_BUFFER_CONSUME_SIZE];
    assert!(q.consume(&mut out));
    assert_eq!(out[255], 255);
    assert_eq!(q.len(), 0);
}

#[test]
fn callback_never_sleeps_with_enough_queued() {
    assert_eq!(backoff_step(256, 256, 10_000_000, 0, 0), CallbackStep::Proceed);
    assert_eq!(backoff_step(1024, 256, 10_000_000, 0, 0), CallbackStep::Proceed);
}

#[test]
fn callback_sleeps_once_when_short_and_time_allows() {
    assert_eq!(backoff_step(10, 256, 5_000_000, 1_000_000, 0), CallbackStep::Sleep);
    assert_eq!(backoff_step(10, 256, 5_000_000, 1_000_000, 1), CallbackStep::Proceed);
}

#[test]
fn callback_does_not_sleep_past_playback() {
    assert_eq!(
        backoff_step(10, 256, 1_000_000 + BACKOFF_SLEEP_NANOS, 1_000_000, 0),
        CallbackStep::Proceed
    );
    assert_eq!(backoff_step(10, 256, 500_000, 0, 0), CallbackStep::Proceed);
}
