use jam::config::{native_mute, native_play, DispatchError};
use jam::instrument::{HeldButtonInstrument, InstrumentEvent, InstrumentParam, NoteEvent};
use jam::params::NoteParam;
use jam::render::RenderQueue;
use jam::voices::{EventOutcome, FrameStep, LoopControl, Renderer};
use jam::{main_start, JamEvent};

const RATE: u32 = 44_100;

fn hit(instrument: u32, voice: u32) -> JamEvent {
    JamEvent::InstrumentEvent {
        instrument,
        event: InstrumentEvent::NoteEvent { voice, event: NoteEvent::Hit {} },
    }
}

fn mute(instrument: u32, voice: u32) -> JamEvent {
    JamEvent::InstrumentEvent {
        instrument,
        event: InstrumentEvent::NoteEvent { voice, event: NoteEvent::Mute {} },
    }
}

fn engine() -> Renderer {
    let (r, q) = main_start(vec![HeldButtonInstrument::new(RATE, 0)]);
    assert_eq!(q.len(), 0);
    assert_eq!(q.head_time(), 0);
    r
}

#[test]
fn start_has_no_voices() {
    let r = engine();
    assert_eq!(r.voice_count(), 0);
    assert_eq!(r.instrument_count(), 1);
}

#[test]
fn hit_creates_a_voice_at_now() {
    let mut r = engine();
    assert!(matches!(r.handle_event(hit(0, 2), 500), EventOutcome::Applied));
    assert_eq!(r.voice_count(), 1);
    let v = r.voice(0);
    assert_eq!((v.instrument, v.voice, v.start), (0, 2, 500));
}

#[test]
fn hit_on_occupied_slot_displaces_and_mutes_once() {
    let mut r = engine();
    r.handle_event(hit(0, 0), 10);
    match r.handle_event(hit(0, 0), 20) {
        EventOutcome::Displaced(old) => {
            assert!(old.mute_pending);
            assert_eq!(old.mute_at, None);
        }
        other => panic!("expected a displaced note, got {:?}", other),
    }
    assert_eq!(r.voice_count(), 1);
    assert_eq!(r.voice(0).start, 20);
    assert!(!r.voice(0).note.mute_pending);
    r.handle_event(hit(0, 1), 30);
    assert_eq!(r.voice_count(), 2);
}

#[test]
fn events_on_missing_targets_change_nothing() {
    let mut r = engine();
    assert!(matches!(r.handle_event(hit(5, 0), 0), EventOutcome::NoInstrument));
    assert!(matches!(r.handle_event(mute(0, 9), 0), EventOutcome::NoNote));
    let set = JamEvent::InstrumentEvent {
        instrument: 0,
        event: InstrumentEvent::NoteEvent {
            voice: 9,
            event: NoteEvent::SetParam { param: NoteParam::Pitch(1) },
        },
    };
    assert!(matches!(r.handle_event(set, 0), EventOutcome::NoNote));
    assert_eq!(r.voice_count(), 0);
}

#[test]
fn instrument_set_param_seeds_next_note() {
    let mut r = engine();
    let ev = JamEvent::InstrumentEvent {
        instrument: 0,
        event: InstrumentEvent::SetParam {
            param: InstrumentParam::NextNote(NoteParam::Pitch(880.0f32.to_bits())),
        },
    };
    assert!(matches!(r.handle_event(ev, 0), EventOutcome::Applied));
    r.handle_event(hit(0, 0), 0);
    assert_eq!(f32::from_bits(r.voice(0).note.params.pitch), 880.0);
}

#[test]
fn press_release_then_voice_is_retired_after_release() {
    let mut r = engine();
    r.handle_event(hit(0, 0), 0);
    for now in 0u64..4410 {
        let frames = r.render_voices(now);
        assert_eq!(frames.len(), 1);
    }
    r.handle_event(mute(0, 0), 4410);
    let frames = r.render_voices(4410);
    assert_eq!((frames[0].gain.num, frames[0].gain.den), (22050, 44100));
    assert_eq!(r.voice(0).note.mute_at, Some(4410));
    r.retire(4410 + 22050);
    assert_eq!(r.voice_count(), 1);
    r.retire(4410 + 22050 + 1);
    assert_eq!(r.voice_count(), 0);
}

#[test]
fn retire_keeps_unfinished_and_future_notes() {
    let mut r = engine();
    r.handle_event(hit(0, 0), 0);
    r.handle_event(hit(0, 1), 0);
    r.handle_event(mute(0, 1), 0);
    r.render_voices(0);
    r.handle_event(hit(0, 2), 200_000);
    r.retire(100_000);
    assert_eq!(r.voice_count(), 2);
    assert_eq!(r.voice(0).voice, 0);
    assert_eq!(r.voice(1).voice, 2);
}

#[test]
fn started_by_checks_every_voice() {
    let mut r = engine();
    r.handle_event(hit(0, 0), 50);
    assert!(r.all_started_by(50));
    assert!(!r.all_started_by(49));
}

#[test]
fn play_sends_pitch_then_hit() {
    let events = native_play(0, Some(440.0f32.to_bits()), None, None).ok().unwrap();
    assert_eq!(events.len(), 2);
    assert!(matches!(
        &events[0],
        JamEvent::InstrumentEvent {
            instrument: 0,
            event: InstrumentEvent::SetParam { param: InstrumentParam::NextNote(NoteParam::Pitch(p)) }
        } if f32::from_bits(*p) == 440.0
    ));
    assert!(matches!(
        &events[1],
        JamEvent::InstrumentEvent {
            instrument: 0,
            event: InstrumentEvent::NoteEvent { voice: 0, event: NoteEvent::Hit {} }
        }
    ));
    let events = native_play(3, None, Some(7), None).ok().unwrap();
    assert_eq!(events.len(), 1);
    assert!(matches!(
        &events[0],
        JamEvent::InstrumentEvent {
            instrument: 3,
            event: InstrumentEvent::NoteEvent { voice: 7, event: NoteEvent::Hit {} }
        }
    ));
}

#[test]
fn play_refuses_a_duration() {
    assert!(matches!(
        native_play(0, None, None, Some(1.0f32.to_bits())),
        Err(DispatchError::DurationUnsupported)
    ));
}

#[test]
fn mute_defaults_to_voice_zero() {
    assert!(matches!(
        native_mute(4, None),
        JamEvent::InstrumentEvent {
            instrument: 4,
            event: InstrumentEvent::NoteEvent { voice: 0, event: NoteEvent::Mute {} }
        }
    ));
}

#[test]
fn shutdown_message_stops_and_changes_nothing() {
    let mut r = engine();
    r.handle_event(hit(0, 0), 0);
    assert!(matches!(r.handle_message(None, 10), LoopControl::Stop));
    assert_eq!(r.voice_count(), 1);
    assert!(matches!(
        r.handle_message(Some(hit(0, 1)), 10),
        LoopControl::Continue(EventOutcome::Applied)
    ));
    assert_eq!(r.voice_count(), 2);
}

#[test]
fn silent_loop_fills_queue_then_stops_rendering() {
    let mut r = engine();
    let mut q = RenderQueue::new();
    loop {
        match r.produce_frame(&q) {
            FrameStep::Frames(frames) => {
                assert!(frames.is_empty());
                q.push(0.0f32.to_bits()).unwrap();
            }
            FrameStep::Full => break,
            FrameStep::Behind => panic!("no note can start after the head"),
        }
    }
    assert_eq!(q.len(), 1024);
    assert_eq!(q.head_time() - q.tail_time(), 1024);
}

#[test]
fn frame_step_retires_at_tail_and_renders_at_head() {
    let mut r = engine();
    let mut q = RenderQueue::new();
    r.handle_event(hit(0, 0), q.head_time());
    for _ in 0..4410 {
        if let FrameStep::Frames(_) = r.produce_frame(&q) {
            q.push(0).unwrap();
        }
        let mut out = vec![0u32; 1];
        q.consume(&mut out);
    }
    r.handle_event(mute(0, 0), q.head_time());
    let head = q.head_time();
    match r.produce_frame(&q) {
        FrameStep::Frames(frames) => assert_eq!(frames[0].time, head),
        _ => panic!("expected a frame"),
    }
    assert_eq!(r.voice(0).note.mute_at, Some(head));
    q.push(0).unwrap();
    let mut out = vec![0u32; 1];
    while q.tail_time() <= head + 22050 {
        q.consume(&mut out);
        if q.len() == 0 {
            q.push(0).unwrap();
        }
        if let FrameStep::Frames(_) = r.produce_frame(&q) {
            if q.tail_time() <= head + 22050 {
                assert_eq!(r.voice_count(), 1);
            }
        }
    }
    match r.produce_frame(&q) {
        FrameStep::Frames(frames) => assert!(frames.is_empty()),
        _ => panic!("expected a frame"),
    }
    assert_eq!(r.voice_count(), 0);
}

#[test]
fn frame_step_on_full_queue_changes_nothing() {
    let mut r = engine();
    let mut q = RenderQueue::new();
    while q.push(0).is_ok() {}
    r.handle_event(hit(0, 0), 0);
    assert!(matches!(r.produce_frame(&q), FrameStep::Full));
    assert!(!r.voice(0).note.mute_pending);
    assert_eq!(r.voice(0).note.mute_at, None);
}
