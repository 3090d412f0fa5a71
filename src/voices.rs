use vstd::prelude::*;
use crate::instrument::{
    finished_spec, HeldButtonInstrument, HeldButtonNote, InstrumentEvent, NoteEvent, NoteFrame,
};
use crate::render::{FrameInstant, RenderQueue, MAX_BUFFER_SPECULATE_SIZE};
use crate::event::JamEvent;

verus! {

/// One sounding note, keyed by instrument and voice.
#[derive(Debug)]
pub struct VoiceSlot {
    pub instrument: u32,
    pub voice: u32,
    /// The frame at which the note started.
    pub start: FrameInstant,
    pub note: HeldButtonNote,
}

/// The key of a voice slot.
pub open spec fn slot_key(slot: VoiceSlot) -> (u32, u32) {
    (slot.instrument, slot.voice)
}

/// At most one slot per key.
pub open spec fn keys_unique(s: Seq<VoiceSlot>) -> bool {
    forall|i: int, j: int| 0 <= i < j < s.len() ==> slot_key(s[i]) != slot_key(s[j])
}

/// The voice map: each key to its start frame and note.
pub open spec fn voice_map(s: Seq<VoiceSlot>) -> Map<(u32, u32), (FrameInstant, HeldButtonNote)>
    decreases s.len(),
{
    if s.len() == 0 {
        Map::empty()
    } else {
        voice_map(s.drop_last()).insert(slot_key(s.last()), (s.last().start, s.last().note))
    }
}

/// Whether a slot's note has finished its release by the retirement frame
/// `retired`; a note that starts after `retired` has not.
pub open spec fn slot_finished(slot: VoiceSlot, retired: FrameInstant) -> bool {
    retired >= slot.start && finished_spec(
        slot.note.mute_at,
        slot.note.sample_rate,
        retired - slot.start,
    )
}

/// The slots that outlive `retired`, in order.
pub open spec fn survivors(s: Seq<VoiceSlot>, retired: FrameInstant) -> Seq<VoiceSlot>
    decreases s.len(),
{
    if s.len() == 0 {
        s
    } else if slot_finished(s.last(), retired) {
        survivors(s.drop_last(), retired)
    } else {
        survivors(s.drop_last(), retired).push(s.last())
    }
}

proof fn lemma_map_absent(s: Seq<VoiceSlot>, k: (u32, u32))
    requires
        forall|i: int| 0 <= i < s.len() ==> slot_key(#[trigger] s[i]) != k,
    ensures
        !voice_map(s).contains_key(k),
    decreases s.len(),
{
    if s.len() > 0 {
        lemma_map_absent(s.drop_last(), k);
    }
}

proof fn lemma_map_at(s: Seq<VoiceSlot>, i: int)
    requires
        keys_unique(s),
        0 <= i < s.len(),
    ensures
        voice_map(s).contains_key(slot_key(s[i])),
        voice_map(s)[slot_key(s[i])] == (s[i].start, s[i].note),
    decreases s.len(),
{
    if i < s.len() - 1 {
        lemma_map_at(s.drop_last(), i);
    }
}

proof fn lemma_map_update(s: Seq<VoiceSlot>, i: int, e: VoiceSlot)
    requires
        keys_unique(s),
        0 <= i < s.len(),
        slot_key(s[i]) == slot_key(e),
    ensures
        voice_map(s.update(i, e)) == voice_map(s).insert(slot_key(e), (e.start, e.note)),
        keys_unique(s.update(i, e)),
    decreases s.len(),
{
    let t = s.update(i, e);
    if i == s.len() - 1 {
        assert(t.drop_last() =~= s.drop_last());
        assert(voice_map(t) =~= voice_map(s).insert(slot_key(e), (e.start, e.note)));
    } else {
        assert(t.drop_last() =~= s.drop_last().update(i, e));
        lemma_map_update(s.drop_last(), i, e);
        assert(slot_key(s.last()) != slot_key(e));
        assert(voice_map(t) =~= voice_map(s).insert(slot_key(e), (e.start, e.note)));
    }
}

proof fn lemma_survivors_unique(s: Seq<VoiceSlot>, retired: FrameInstant)
    requires
        keys_unique(s),
    ensures
        keys_unique(survivors(s, retired)),
        forall|j: int|
            0 <= j < survivors(s, retired).len() ==> exists|i: int|
                0 <= i < s.len() && s[i] == #[trigger] survivors(s, retired)[j],
    decreases s.len(),
{
    if s.len() > 0 {
        let d = s.drop_last();
        lemma_survivors_unique(d, retired);
        let t = survivors(d, retired);
        if !slot_finished(s.last(), retired) {
            assert forall|j: int| 0 <= j < t.len() implies slot_key(t[j]) != slot_key(s.last()) by {
                let i = choose|i: int| 0 <= i < d.len() && d[i] == t[j];
                assert(s[i] == d[i]);
            }
            let u = t.push(s.last());
            assert forall|j: int| 0 <= j < u.len() implies exists|i: int|
                0 <= i < s.len() && s[i] == #[trigger] u[j] by {
                if j < t.len() {
                    let i = choose|i: int| 0 <= i < d.len() && d[i] == t[j];
                    assert(s[i] == u[j]);
                } else {
                    assert(s[s.len() - 1] == u[j]);
                }
            }
        } else {
            assert forall|j: int| 0 <= j < t.len() implies exists|i: int|
                0 <= i < s.len() && s[i] == #[trigger] t[j] by {
                let i = choose|i: int| 0 <= i < d.len() && d[i] == t[j];
                assert(s[i] == t[j]);
            }
        }
    }
}

proof fn lemma_survivors_step(s: Seq<VoiceSlot>, j: int, retired: FrameInstant)
    requires
        0 <= j < s.len(),
    ensures
        survivors(s.take(j + 1), retired) == (if slot_finished(s[j], retired) {
            survivors(s.take(j), retired)
        } else {
            survivors(s.take(j), retired).push(s[j])
        }),
{
    assert(s.take(j + 1).drop_last() =~= s.take(j));
}

/// What became of an event handed to the render loop.
#[derive(Debug)]
pub enum EventOutcome {
    /// The event took effect.
    Applied,
    /// A hit replaced the note in an occupied slot; the displaced note, muted
    /// once, is handed back to be dropped.
    Displaced(HeldButtonNote),
    /// No instrument has the event's index; nothing changed.
    NoInstrument,
    /// The voice the event names holds no note; nothing changed.
    NoNote,
}

/// What the render loop does after taking one message.
pub enum LoopControl {
    /// Shutdown was asked for: leave the loop.
    Stop,
    /// The event was handled, with this outcome.
    Continue(EventOutcome),
}

/// What one frame step of the render loop found.
pub enum FrameStep {
    /// The queue is full; nothing was retired or rendered.
    Full,
    /// A note starts after the queue's head; nothing was retired or rendered.
    Behind,
    /// Finished notes were retired at the tail and every other note rendered
    /// at the head; one frame per note, in slot order, to be mixed and pushed.
    Frames(Vec<NoteFrame>),
}

/// The render loop's state: the instruments and the voice map.
pub struct Renderer {
    instruments: Vec<HeldButtonInstrument>,
    voices: Vec<VoiceSlot>,
}

impl Renderer {
    pub closed spec fn instruments_spec(&self) -> Seq<HeldButtonInstrument> {
        self.instruments@
    }

    /// The voice slots, in the order in which frames are reported.
    pub closed spec fn voices_spec(&self) -> Seq<VoiceSlot> {
        self.voices@
    }

    pub open spec fn voices_map(&self) -> Map<(u32, u32), (FrameInstant, HeldButtonNote)> {
        voice_map(self.voices_spec())
    }

    pub open spec fn wf(&self) -> bool {
        &&& keys_unique(self.voices_spec())
        &&& forall|i: int|
            0 <= i < self.instruments_spec().len() ==> (#[trigger] self.instruments_spec()[i]).wf()
        &&& forall|i: int| 0 <= i < self.voices_spec().len() ==> (#[trigger] self.voices_spec()[i]).note.wf()
    }

    /// Whether every note started at or before `now`.
    pub open spec fn started_by(&self, now: FrameInstant) -> bool {
        forall|i: int| 0 <= i < self.voices_spec().len() ==> (#[trigger] self.voices_spec()[i]).start <= now
    }

    /// A render loop over `instruments`, with no note sounding.
    pub fn new(instruments: Vec<HeldButtonInstrument>) -> (r: Self)
        requires
            forall|i: int| 0 <= i < instruments@.len() ==> (#[trigger] instruments@[i]).wf(),
        ensures
            r.wf(),
            r.instruments_spec() == instruments@,
            r.voices_spec() == Seq::<VoiceSlot>::empty(),
    {
        Renderer { instruments, voices: Vec::new() }
    }

    /// The number of sounding notes.
    pub fn voice_count(&self) -> (r: usize)
        ensures
            r == self.voices_spec().len(),
    {
        self.voices.len()
    }

    /// The number of instruments.
    pub fn instrument_count(&self) -> (r: usize)
        ensures
            r == self.instruments_spec().len(),
    {
        self.instruments.len()
    }

    /// The slot at `i`, in frame order.
    pub fn voice(&self, i: usize) -> (r: &VoiceSlot)
        requires
            i < self.voices_spec().len(),
        ensures
            *r == self.voices_spec()[i as int],
    {
        &self.voices[i]
    }

    fn find(&self, instrument: u32, voice: u32) -> (r: Option<usize>)
        ensures
            match r {
                Some(i) => i < self.voices_spec().len() && slot_key(self.voices_spec()[i as int]) == (
                instrument,
                voice,
            ),
                None => forall|i: int|
                    0 <= i < self.voices_spec().len() ==> slot_key(#[trigger] self.voices_spec()[i])
                        != (instrument, voice),
            },
    {
        let mut i: usize = 0;
        while i < self.voices.len()
            invariant
                i <= self.voices@.len(),
                forall|j: int| 0 <= j < i ==> slot_key(#[trigger] self.voices@[j]) != (instrument, voice),
            decreases self.voices@.len() - i,
        {
            if self.voices[i].instrument == instrument && self.voices[i].voice == voice {
                return Some(i);
            }
            i = i + 1;
        }
        None
    }

    /// Whether every note started at or before `now`.
    pub fn all_started_by(&self, now: FrameInstant) -> (r: bool)
        ensures
            r == self.started_by(now),
    {
        let mut i: usize = 0;
        while i < self.voices.len()
            invariant
                i <= self.voices@.len(),
                forall|j: int| 0 <= j < i ==> (#[trigger] self.voices@[j]).start <= now,
            decreases self.voices@.len() - i,
        {
            if self.voices[i].start > now {
                return false;
            }
            i = i + 1;
        }
        true
    }

    /// `self` is `before` after `handle_event(event, now)` returned `r`.
    pub open spec fn handled_from(&self, before: &Renderer, event: JamEvent, now: FrameInstant, r: EventOutcome) -> bool {
        match event {
            JamEvent::InstrumentEvent { instrument: iid, event: ev } => {
                let key = (iid, match ev {
                    InstrumentEvent::NoteEvent { voice, event: _ } => voice,
                    _ => 0,
                });
                if iid >= before.instruments_spec().len() {
                    &&& r is NoInstrument
                    &&& self.instruments_spec() == before.instruments_spec()
                    &&& self.voices_spec() == before.voices_spec()
                } else {
                    let inst = before.instruments_spec()[iid as int];
                    match ev {
                        InstrumentEvent::SetParam { param } => {
                            &&& r is Applied
                            &&& self.voices_spec() == before.voices_spec()
                            &&& self.instruments_spec().len() == before.instruments_spec().len()
                            &&& self.instruments_spec()[iid as int].param_set_from(&inst, param)
                            &&& forall|j: int|
                                0 <= j < before.instruments_spec().len() && j != iid
                                    ==> self.instruments_spec()[j]
                                    == before.instruments_spec()[j]
                        },
                        InstrumentEvent::NoteEvent { voice, event: NoteEvent::Hit {  } } => {
                            &&& self.instruments_spec() == before.instruments_spec()
                            &&& self.voices_map().contains_key(key)
                            &&& self.voices_map()[key].0 == now
                            &&& inst.seeds(self.voices_map()[key].1)
                            &&& self.voices_map() == before.voices_map().insert(
                                key,
                                self.voices_map()[key],
                            )
                            &&& if before.voices_map().contains_key(key) {
                                &&& r is Displaced
                                &&& (r->Displaced_0).muted_from(&before.voices_map()[key].1)
                            } else {
                                r is Applied
                            }
                        },
                        InstrumentEvent::NoteEvent { voice, event: NoteEvent::SetParam { param } } => {
                            &&& self.instruments_spec() == before.instruments_spec()
                            &&& if before.voices_map().contains_key(key) {
                                &&& r is Applied
                                &&& self.voices_map().contains_key(key)
                                &&& self.voices_map() == before.voices_map().insert(
                                    key,
                                    self.voices_map()[key],
                                )
                                &&& self.voices_map()[key].0 == before.voices_map()[key].0
                                &&& self.voices_map()[key].1.param_set_from(
                                    &before.voices_map()[key].1,
                                    param,
                                )
                            } else {
                                &&& r is NoNote
                                &&& self.voices_spec() == before.voices_spec()
                            }
                        },
                        InstrumentEvent::NoteEvent { voice, event: NoteEvent::Mute {  } } => {
                            &&& self.instruments_spec() == before.instruments_spec()
                            &&& if before.voices_map().contains_key(key) {
                                &&& r is Applied
                                &&& self.voices_map().contains_key(key)
                                &&& self.voices_map() == before.voices_map().insert(
                                    key,
                                    self.voices_map()[key],
                                )
                                &&& self.voices_map()[key].0 == before.voices_map()[key].0
                                &&& self.voices_map()[key].1.muted_from(
                                    &before.voices_map()[key].1,
                                )
                            } else {
                                &&& r is NoNote
                                &&& self.voices_spec() == before.voices_spec()
                            }
                        },
                    }
                }
            },
        }
    }

    /// Handles one event at frame `now` (the queue's head). An event on a
    /// missing instrument or an empty voice changes nothing. A hit puts a
    /// fresh note of the instrument at `(instrument, voice)`, starting at
    /// `now`; a note it displaces is muted once and handed back.
    pub fn handle_event(&mut self, event: JamEvent, now: FrameInstant) -> (r: EventOutcome)
        requires
            old(self).wf(),
        ensures
            final(self).wf(),
            final(self).handled_from(old(self), event, now, r),
    {
        let JamEvent::InstrumentEvent { instrument: iid, event: ev } = event;
        if iid as usize >= self.instruments.len() {
            return EventOutcome::NoInstrument;
        }
        let i = iid as usize;
        proof {
            assert(old(self).wf());
            assert(old(self).instruments_spec()[i as int].wf());
        }
        match ev {
            InstrumentEvent::SetParam { param } => {
                assert(old(self).wf());
                assert(old(self).instruments_spec()[i as int].wf());
                self.instruments[i].set_param(param);
                proof {
                    assert forall|j: int| 0 <= j < self.instruments@.len() implies (#[trigger] self.instruments@[j]).wf() by {
                        if j != i {
                            assert(old(self).instruments_spec()[j].wf());
                        }
                    }
                }
                EventOutcome::Applied
            },
            InstrumentEvent::NoteEvent { voice, event: nev } => {
                match nev {
                    NoteEvent::Hit {  } => {
                        let note = self.instruments[i].note(voice);
                        let slot = VoiceSlot { instrument: iid, voice, start: now, note };
                        match self.find(iid, voice) {
                            Some(j) => {
                                proof {
                                    lemma_map_at(self.voices@, j as int);
                                    lemma_map_update(self.voices@, j as int, slot);
                                }
                                let mut old_slot = slot;
                                std::mem::swap(&mut old_slot, &mut self.voices[j]);
                                let mut displaced = old_slot.note;
                                displaced.mute();
                                EventOutcome::Displaced(displaced)
                            },
                            None => {
                                proof {
                                    lemma_map_absent(self.voices@, (iid, voice));
                                    assert(self.voices@.push(slot).drop_last() =~= self.voices@);
                                }
                                self.voices.push(slot);
                                EventOutcome::Applied
                            },
                        }
                    },
                    NoteEvent::SetParam { param } => {
                        match self.find(iid, voice) {
                            Some(j) => {
                                proof {
                                    lemma_map_at(self.voices@, j as int);
                                }
                                let ghost before = self.voices@;
                                self.voices[j].note.set_param(param);
                                proof {
                                    assert(self.voices@ == before.update(j as int, self.voices@[j as int]));
                                    lemma_map_update(before, j as int, self.voices@[j as int]);
                                }
                                EventOutcome::Applied
                            },
                            None => {
                                proof {
                                    lemma_map_absent(self.voices@, (iid, voice));
                                }
                                EventOutcome::NoNote
                            },
                        }
                    },
                    NoteEvent::Mute {  } => {
                        match self.find(iid, voice) {
                            Some(j) => {
                                proof {
                                    lemma_map_at(self.voices@, j as int);
                                }
                                let ghost before = self.voices@;
                                self.voices[j].note.mute();
                                proof {
                                    assert(self.voices@ == before.update(j as int, self.voices@[j as int]));
                                    lemma_map_update(before, j as int, self.voices@[j as int]);
                                }
                                EventOutcome::Applied
                            },
                            None => {
                                proof {
                                    lemma_map_absent(self.voices@, (iid, voice));
                                }
                                EventOutcome::NoNote
                            },
                        }
                    },
                }
            },
        }
    }

    /// Drops every note whose release is over by the retirement frame
    /// `retired` (the queue's tail), keeping the others in order.
    pub fn retire(&mut self, retired: FrameInstant)
        requires
            old(self).wf(),
        ensures
            final(self).wf(),
            final(self).instruments_spec() == old(self).instruments_spec(),
            final(self).voices_spec() == survivors(old(self).voices_spec(), retired),
    {
        let ghost start = self.voices@;
        let ghost mut j: int = 0;
        let mut i: usize = 0;
        proof {
            assert(start.take(0) =~= Seq::<VoiceSlot>::empty());
            assert(self.voices@ =~= survivors(start.take(0), retired) + start.skip(0));
        }
        while i < self.voices.len()
            invariant
                0 <= j <= start.len(),
                i == survivors(start.take(j), retired).len(),
                self.voices@ == survivors(start.take(j), retired) + start.skip(j),
                self.instruments@ == old(self).instruments@,
                start == old(self).voices@,
            decreases start.len() - j,
        {
            proof {
                assert(self.voices@[i as int] == start[j]);
                lemma_survivors_step(start, j, retired);
            }
            let done = {
                let slot = &self.voices[i];
                retired >= slot.start && slot.note.finished(retired - slot.start)
            };
            if done {
                let _ = self.voices.remove(i);
                proof {
                    assert(self.voices@ =~= survivors(start.take(j + 1), retired) + start.skip(j + 1));
                }
            } else {
                proof {
                    assert(self.voices@ =~= survivors(start.take(j + 1), retired) + start.skip(j + 1));
                }
                i = i + 1;
            }
            proof {
                j = j + 1;
            }
        }
        proof {
            assert(j == start.len());
            assert(start.take(j) =~= start);
            assert(self.voices@ =~= survivors(start, retired));
            lemma_survivors_unique(start, retired);
            let sv = survivors(start, retired);
            assert forall|k: int| 0 <= k < sv.len() implies (#[trigger] sv[k]).note.wf() by {
                let m = choose|m: int| 0 <= m < start.len() && start[m] == sv[k];
                assert(start[m].note.wf());
            }
            assert(keys_unique(self.voices@));
            assert(self.instruments_spec() == old(self).instruments_spec());
            assert(old(self).wf());
        }
    }

    /// Renders one frame of every note at frame `now` (the queue's head),
    /// each at its time relative to its start. The frames come in slot order.
    pub fn render_voices(&mut self, now: FrameInstant) -> (r: Vec<NoteFrame>)
        requires
            old(self).wf(),
            old(self).started_by(now),
        ensures
            final(self).wf(),
            final(self).started_by(now),
            final(self).instruments_spec() == old(self).instruments_spec(),
            final(self).voices_spec().len() == old(self).voices_spec().len(),
            r@.len() == old(self).voices_spec().len(),
            forall|k: int|
                0 <= k < r@.len() ==> {
                    let before = #[trigger] old(self).voices_spec()[k];
                    let after = final(self).voices_spec()[k];
                    &&& slot_key(after) == slot_key(before)
                    &&& after.start == before.start
                    &&& after.note.rendered_from(&before.note, (now - before.start) as u64, r@[k])
                },
    {
        let ghost start = self.voices@;
        let mut frames: Vec<NoteFrame> = Vec::new();
        let mut i: usize = 0;
        while i < self.voices.len()
            invariant
                i <= self.voices@.len(),
                self.voices@.len() == start.len(),
                frames@.len() == i,
                start == old(self).voices@,
                self.instruments@ == old(self).instruments@,
                forall|k: int| i <= k < start.len() ==> self.voices@[k] == start[k],
                forall|k: int|
                    0 <= k < i ==> {
                        let before = #[trigger] start[k];
                        let after = self.voices@[k];
                        &&& slot_key(after) == slot_key(before)
                        &&& after.start == before.start
                        &&& after.note.rendered_from(&before.note, (now - before.start) as u64, frames@[k])
                    },
                forall|k: int| 0 <= k < start.len() ==> (#[trigger] start[k]).start <= now,
                forall|k: int| 0 <= k < start.len() ==> (#[trigger] start[k]).note.wf(),
            decreases start.len() - i,
        {
            assert(self.voices@[i as int] == start[i as int]);
            let t = now - self.voices[i].start;
            let frame = self.voices[i].note.render(t);
            frames.push(frame);
            i = i + 1;
        }
        proof {
            assert forall|a: int, b: int| 0 <= a < b < self.voices@.len() implies slot_key(self.voices@[a]) != slot_key(self.voices@[b]) by {
                assert(slot_key(start[a]) != slot_key(start[b]));
            }
            assert forall|k: int| 0 <= k < self.voices@.len() implies (#[trigger] self.voices@[k]).note.wf()
                && self.voices@[k].start <= now by {
                assert(start[k].start <= now);
            }
            assert(self.instruments_spec() == old(self).instruments_spec());
            assert(old(self).wf());
        }
        frames
    }

    /// Stores the phase that a hand-off reached in the note of slot `i`.
    pub fn set_voice_phase(&mut self, i: usize, phase: u32)
        requires
            old(self).wf(),
            i < old(self).voices_spec().len(),
        ensures
            final(self).wf(),
            final(self).instruments_spec() == old(self).instruments_spec(),
            final(self).voices_spec() == old(self).voices_spec().update(
                i as int,
                VoiceSlot {
                    note: HeldButtonNote { change_phase: phase, ..old(self).voices_spec()[i as int].note },
                    ..old(self).voices_spec()[i as int]
                },
            ),
    {
        self.voices[i].note.set_change_phase(phase);
        proof {
            assert forall|k: int| 0 <= k < self.voices@.len() implies (#[trigger] self.voices@[k]).note.wf() by {
                assert(old(self).voices@[k].note.wf());
            }
            assert(self.instruments_spec() == old(self).instruments_spec());
            assert(old(self).wf());
            assert forall|a: int, b: int| 0 <= a < b < self.voices@.len() implies slot_key(self.voices@[a]) != slot_key(self.voices@[b]) by {
                assert(slot_key(old(self).voices@[a]) != slot_key(old(self).voices@[b]));
            }
        }
    }

    /// Takes one message of the event channel at frame `now` (the queue's
    /// head): `None` asks for shutdown and changes nothing; an event is
    /// handled as by [`Renderer::handle_event`].
    pub fn handle_message(&mut self, message: Option<JamEvent>, now: FrameInstant) -> (r: LoopControl)
        requires
            old(self).wf(),
        ensures
            final(self).wf(),
            match message {
                None => r is Stop && final(self).instruments_spec() == old(self).instruments_spec()
                    && final(self).voices_spec() == old(self).voices_spec(),
                Some(e) => r is Continue && final(self).handled_from(old(self), e, now, r->Continue_0),
            },
    {
        match message {
            None => LoopControl::Stop,
            Some(e) => LoopControl::Continue(self.handle_event(e, now)),
        }
    }

    /// One frame step of the render loop against queue `q`: when `q` is full,
    /// nothing happens; otherwise the notes finished by `q`'s tail are
    /// retired and the rest rendered at `q`'s head, relative to their starts.
    pub fn produce_frame(&mut self, q: &RenderQueue) -> (r: FrameStep)
        requires
            old(self).wf(),
            q.wf(),
        ensures
            final(self).wf(),
            final(self).instruments_spec() == old(self).instruments_spec(),
            q.samples().len() == MAX_BUFFER_SPECULATE_SIZE ==> {
                &&& r is Full
                &&& final(self).voices_spec() == old(self).voices_spec()
            },
            q.samples().len() < MAX_BUFFER_SPECULATE_SIZE && !old(self).started_by(q.head_spec() as u64)
                ==> {
                &&& r is Behind
                &&& final(self).voices_spec() == old(self).voices_spec()
            },
            q.samples().len() < MAX_BUFFER_SPECULATE_SIZE && old(self).started_by(q.head_spec() as u64)
                ==> {
                let kept = survivors(old(self).voices_spec(), q.tail_spec() as u64);
                let now = q.head_spec() as u64;
                &&& r is Frames
                &&& final(self).voices_spec().len() == kept.len()
                &&& (r->Frames_0)@.len() == kept.len()
                &&& forall|k: int|
                    0 <= k < kept.len() ==> {
                        let before = #[trigger] kept[k];
                        let after = final(self).voices_spec()[k];
                        &&& slot_key(after) == slot_key(before)
                        &&& after.start == before.start
                        &&& after.note.rendered_from(
                            &before.note,
                            (now - before.start) as u64,
                            (r->Frames_0)@[k],
                        )
                    }
            },
    {
        proof {
            q.lemma_capacity_bound();
        }
        if q.is_full() {
            return FrameStep::Full;
        }
        let now = q.head_time();
        let retired = q.tail_time();
        if !self.all_started_by(now) {
            return FrameStep::Behind;
        }
        let ghost start = self.voices@;
        self.retire(retired);
        proof {
            lemma_survivors_unique(start, retired);
            assert forall|k: int| 0 <= k < self.voices_spec().len() implies (#[trigger] self.voices_spec()[k]).start
                <= now by {
                let i = choose|i: int| 0 <= i < start.len() && start[i] == survivors(start, retired)[k];
                assert(start[i].start <= now);
            }
        }
        FrameStep::Frames(self.render_voices(now))
    }
}

/// At most one note sounds for each instrument and voice.
pub proof fn lemma_voice_uniqueness(r: &Renderer, i: int, j: int)
    requires
        r.wf(),
        0 <= i < r.voices_spec().len(),
        0 <= j < r.voices_spec().len(),
        i != j,
    ensures
        slot_key(r.voices_spec()[i]) != slot_key(r.voices_spec()[j]),
{
    if i > j {
        assert(slot_key(r.voices_spec()[j]) != slot_key(r.voices_spec()[i]));
    }
}

/// A note muted at `mute_at` (relative to its start) stays while the tail
/// is at most `start + mute_at + release` frames, and is retired at any later
/// tail.
pub proof fn lemma_retired_after_release(slot: VoiceSlot, retired: FrameInstant)
    requires
        slot.note.mute_at is Some,
    ensures
        slot_finished(slot, retired) <==> retired > slot.start + slot.note.mute_at->0
            + crate::instrument::frames_of(slot.note.sample_rate, crate::instrument::RELEASE_MILLIS),
{
}

} // verus!
