use vstd::prelude::*;
use crate::params::{
    MiscValue, MiscView, NoteParam, NoteParams, DEFAULT_AMPLITUDE_BITS, DEFAULT_ARTICULATION_BITS,
    DEFAULT_PITCH_BITS,
};
use crate::render::FrameInstant;

verus! {

/// Length of the attack ramp, in milliseconds.
pub const ATTACK_MILLIS: u64 = 50;

/// Length of the decay ramp, in milliseconds.
pub const DECAY_MILLIS: u64 = 50;

/// Length of the release ramp, in milliseconds.
pub const RELEASE_MILLIS: u64 = 500;

/// The number of whole frames in `millis` milliseconds at `sample_rate`.
pub open spec fn frames_of(sample_rate: u32, millis: u64) -> int {
    sample_rate as int * millis as int / 1000
}

/// An envelope level as an exact ratio `num / den`.
#[derive(PartialEq, Eq, Structural, Clone, Copy, Debug)]
pub struct Gain {
    pub num: u64,
    pub den: u64,
}

/// The ADSR level at frame `t` of a note, as `(num, den)`: a linear attack
/// from 0 to 1, a linear decay from 1 to the sustain level 1/2, the sustain
/// level, and once muted at `r` (and `t >= r`) a linear release from 1/2 down
/// to 0, clamped at 0.
pub open spec fn envelope(t: int, mute_at: Option<u64>, sample_rate: u32) -> (int, int) {
    let a = frames_of(sample_rate, ATTACK_MILLIS);
    let d = frames_of(sample_rate, DECAY_MILLIS);
    let rel = frames_of(sample_rate, RELEASE_MILLIS);
    if mute_at is Some && t >= mute_at->0 {
        if rel == 0 {
            (0, 1)
        } else if t - mute_at->0 >= rel {
            (0, 2 * rel)
        } else {
            (rel - (t - mute_at->0), 2 * rel)
        }
    } else if t < a {
        (t, a)
    } else if t < a + d {
        (2 * d - (t - a), 2 * d)
    } else {
        (1, 2)
    }
}

/// Whether a note muted at `mute_at` has finished its release by `retired`.
pub open spec fn finished_spec(mute_at: Option<u64>, sample_rate: u32, retired: int) -> bool {
    mute_at is Some && mute_at->0 + frames_of(sample_rate, RELEASE_MILLIS) < retired
}

/// The number of whole frames in `millis` milliseconds at `sample_rate`.
pub fn from_duration(sample_rate: u32, millis: u64) -> (r: FrameInstant)
    requires
        millis <= 1000,
    ensures
        r == frames_of(sample_rate, millis),
{
    assert(sample_rate as u64 * millis <= 0xffff_ffff * 1000) by (nonlinear_arith)
        requires
            millis <= 1000,
            sample_rate <= 0xffff_ffff,
    ;
    sample_rate as u64 * millis / 1000
}

/// The envelope level at frame `time` of a note (see [`envelope`]).
pub fn adsr(time: FrameInstant, mute_at: Option<FrameInstant>, sample_rate: u32) -> (r: Gain)
    ensures
        r.num == envelope(time as int, mute_at, sample_rate).0,
        r.den == envelope(time as int, mute_at, sample_rate).1,
        r.den > 0,
        r.num <= r.den,
{
    let a = from_duration(sample_rate, ATTACK_MILLIS);
    let d = from_duration(sample_rate, DECAY_MILLIS);
    let rel = from_duration(sample_rate, RELEASE_MILLIS);
    match mute_at {
        Some(m) if time >= m => {
            if rel == 0 {
                Gain { num: 0, den: 1 }
            } else if time - m >= rel {
                Gain { num: 0, den: 2 * rel }
            } else {
                Gain { num: rel - (time - m), den: 2 * rel }
            }
        },
        _ => {
            if time < a {
                Gain { num: time, den: a }
            } else if time < a + d {
                Gain { num: 2 * d - (time - a), den: 2 * d }
            } else {
                Gain { num: 1, den: 2 }
            }
        },
    }
}

/// The envelope level never exceeds one: a note's output never exceeds its
/// amplitude, for any oscillator bounded by one.
pub proof fn lemma_envelope_at_most_one(t: int, mute_at: Option<u64>, sample_rate: u32)
    requires
        t >= 0,
    ensures
        envelope(t, mute_at, sample_rate).1 > 0,
        0 <= envelope(t, mute_at, sample_rate).0 <= envelope(t, mute_at, sample_rate).1,
{
}

/// Once a note reports finished at some retirement time, it reports finished
/// at every later one.
pub proof fn lemma_finished_monotone(
    mute_at: Option<u64>,
    sample_rate: u32,
    retired: int,
    later: int,
)
    requires
        finished_spec(mute_at, sample_rate, retired),
        retired <= later,
    ensures
        finished_spec(mute_at, sample_rate, later),
{
}

/// The parameter change that a render adopted: the phase anchor and pitch in
/// force before it, from which the phase at the change is continued.
#[derive(PartialEq, Eq, Structural, Clone, Copy, Debug)]
pub struct Handoff {
    /// The frame at which the previous parameters took effect.
    pub since: FrameInstant,
    /// The signal phase (radians, single bit pattern) at `since`.
    pub phase: u32,
    /// The pitch in force until now.
    pub pitch: u32,
}

/// What one frame of a note is made of.
#[derive(PartialEq, Eq, Structural, Clone, Copy, Debug)]
pub struct NoteFrame {
    /// The frame, relative to the note's start.
    pub time: FrameInstant,
    /// Present when a pending parameter change took effect at this frame.
    pub handoff: Option<Handoff>,
    /// The frame at which the current parameters took effect.
    pub change_at: FrameInstant,
    /// The pitch in force.
    pub pitch: u32,
    /// The amplitude in force.
    pub amplitude: u32,
    /// The envelope level.
    pub gain: Gain,
}

/// A sustained tone with an ADSR envelope.
#[derive(Debug)]
pub struct HeldButtonNote {
    pub params: NoteParams,
    pub change_params: NoteParams,
    pub change_at: FrameInstant,
    /// The signal phase at `change_at`, in radians, as a single bit pattern.
    pub change_phase: u32,
    pub change_pending: bool,
    pub mute_pending: bool,
    pub mute_at: Option<FrameInstant>,
    /// The oscillator the note sounds with.
    pub signal: u32,
    pub sample_rate: u32,
}

impl HeldButtonNote {
    pub open spec fn wf(&self) -> bool {
        self.params.wf() && self.change_params.wf()
    }

    /// `self` is `before` after `set_param(param)`.
    pub open spec fn param_set_from(&self, before: &HeldButtonNote, param: NoteParam) -> bool {
        &&& self.wf()
        &&& self.change_pending
        &&& self.change_params.applied_from(&before.change_params, param)
        &&& self.params == before.params
        &&& self.change_at == before.change_at
        &&& self.change_phase == before.change_phase
        &&& self.mute_pending == before.mute_pending
        &&& self.mute_at == before.mute_at
        &&& self.signal == before.signal
        &&& self.sample_rate == before.sample_rate
    }

    /// `self` is `before` after `render(time)` returned `frame`.
    pub open spec fn rendered_from(&self, before: &HeldButtonNote, time: FrameInstant, frame: NoteFrame) -> bool {
        &&& self.wf()
        &&& !self.change_pending
        &&& !self.mute_pending
        &&& self.change_params == before.change_params
        &&& self.change_phase == before.change_phase
        &&& self.signal == before.signal
        &&& self.sample_rate == before.sample_rate
        &&& before.change_pending ==> {
            &&& self.params.same(&before.change_params)
            &&& self.change_at == time
            &&& frame.handoff == Some(
                Handoff { since: before.change_at, phase: before.change_phase, pitch: before.params.pitch },
            )
        }
        &&& !before.change_pending ==> {
            &&& self.params == before.params
            &&& self.change_at == before.change_at
            &&& frame.handoff.is_none()
        }
        &&& self.mute_at == (if before.mute_pending {
            Some(time)
        } else {
            before.mute_at
        })
        &&& frame.time == time
        &&& frame.change_at == self.change_at
        &&& frame.pitch == self.params.pitch
        &&& frame.amplitude == self.params.amplitude
        &&& frame.gain.num == envelope(time as int, self.mute_at, self.sample_rate).0
        &&& frame.gain.den == envelope(time as int, self.mute_at, self.sample_rate).1
    }

    /// `self` is `before` after `mute()`.
    pub open spec fn muted_from(&self, before: &HeldButtonNote) -> bool {
        *self == (HeldButtonNote { mute_pending: true, ..*before })
    }

    /// Records a parameter change, to take effect at the next render.
    pub fn set_param(&mut self, param: NoteParam)
        requires
            old(self).wf(),
        ensures
            final(self).param_set_from(old(self), param),
    {
        self.change_pending = true;
        self.change_params.apply(param);
    }

    /// Records a mute, to take effect at the next render.
    pub fn mute(&mut self)
        ensures
            final(self).muted_from(old(self)),
    {
        self.mute_pending = true;
    }

    /// Stores the phase reached when a hand-off took effect.
    pub fn set_change_phase(&mut self, phase: u32)
        ensures
            *final(self) == (HeldButtonNote { change_phase: phase, ..*old(self) }),
    {
        self.change_phase = phase;
    }

    /// Renders frame `time` (relative to the note's start): first adopts a
    /// pending parameter change at `time`, handing over the old phase anchor,
    /// then a pending mute at `time`, then reports the envelope level.
    /// The phase anchor `change_phase` is left as it was: when a hand-off is
    /// reported, the caller computes the phase that the old pitch reached at
    /// `time` and stores it with [`HeldButtonNote::set_change_phase`] (for a
    /// note in the voice map, `Renderer::set_voice_phase`).
    pub fn render(&mut self, time: FrameInstant) -> (r: NoteFrame)
        requires
            old(self).wf(),
        ensures
            final(self).rendered_from(old(self), time, r),
    {
        let mut handoff: Option<Handoff> = None;
        if self.change_pending {
            handoff = Some(
                Handoff { since: self.change_at, phase: self.change_phase, pitch: self.params.pitch },
            );
            self.params = self.change_params.duplicate();
            self.change_at = time;
            self.change_pending = false;
        }
        if self.mute_pending {
            self.mute_at = Some(time);
            self.mute_pending = false;
        }
        let gain = adsr(time, self.mute_at, self.sample_rate);
        NoteFrame {
            time,
            handoff,
            change_at: self.change_at,
            pitch: self.params.pitch,
            amplitude: self.params.amplitude,
            gain,
        }
    }

    /// Whether the note has been muted and its release is over by `time`
    /// (relative to the note's start).
    pub fn finished(&self, time: FrameInstant) -> (r: bool)
        ensures
            r == finished_spec(self.mute_at, self.sample_rate, time as int),
    {
        match self.mute_at {
            Some(m) => time > m && time - m > from_duration(self.sample_rate, RELEASE_MILLIS),
            None => false,
        }
    }
}

/// What an instrument can be told.
#[derive(Debug)]
pub enum InstrumentParam {
    /// Changes the template for the next note.
    NextNote(NoteParam),
    /// A named instrument parameter.
    Other(String, MiscValue),
}

/// An event aimed at one instrument.
#[derive(Debug)]
pub enum InstrumentEvent {
    SetParam { param: InstrumentParam },
    NoteEvent { voice: u32, event: NoteEvent },
}

/// An event aimed at one voice of an instrument.
#[derive(Debug)]
pub enum NoteEvent {
    Hit {},
    SetParam { param: NoteParam },
    Mute {},
}

/// An instrument whose notes are sustained tones with an ADSR envelope.
#[derive(Debug)]
pub struct HeldButtonInstrument {
    pub next_note: NoteParams,
    pub signal: u32,
    pub sample_rate: u32,
}

impl HeldButtonInstrument {
    pub open spec fn wf(&self) -> bool {
        self.next_note.wf()
    }

    /// `self` is `before` after `set_param(param)`.
    pub open spec fn param_set_from(&self, before: &HeldButtonInstrument, param: InstrumentParam) -> bool {
        &&& self.wf()
        &&& self.signal == before.signal
        &&& self.sample_rate == before.sample_rate
        &&& match param {
            InstrumentParam::NextNote(p) => self.next_note.applied_from(&before.next_note, p),
            InstrumentParam::Other(k, v) => self.next_note.applied_from(
                &before.next_note,
                NoteParam::Other(k, v),
            ),
        }
    }

    /// `n` is a fresh note of this instrument.
    pub open spec fn seeds(&self, n: HeldButtonNote) -> bool {
        &&& n.wf()
        &&& n.params.same(&self.next_note)
        &&& n.change_params.same(&self.next_note)
        &&& n.change_at == 0
        &&& n.change_phase == 0
        &&& !n.change_pending
        &&& !n.mute_pending
        &&& n.mute_at.is_none()
        &&& n.signal == self.signal
        &&& n.sample_rate == self.sample_rate
    }

    /// An instrument with the default note template, sounding oscillator
    /// `signal`.
    pub fn new(sample_rate: u32, signal: u32) -> (r: Self)
        ensures
            r.wf(),
            r.sample_rate == sample_rate,
            r.signal == signal,
            r.next_note.pitch == DEFAULT_PITCH_BITS,
            r.next_note.amplitude == DEFAULT_AMPLITUDE_BITS,
            r.next_note.articulation == DEFAULT_ARTICULATION_BITS,
            r.next_note.other_spec() == Map::<Seq<char>, MiscView>::empty(),
    {
        HeldButtonInstrument { next_note: NoteParams::defaults(), signal, sample_rate }
    }

    /// Applies a template change; a named parameter is stored in the
    /// template's named extras.
    pub fn set_param(&mut self, param: InstrumentParam)
        requires
            old(self).wf(),
        ensures
            final(self).param_set_from(old(self), param),
    {
        match param {
            InstrumentParam::NextNote(p) => self.next_note.apply(p),
            InstrumentParam::Other(k, v) => self.next_note.apply(NoteParam::Other(k, v)),
        }
    }

    /// A new note seeded from the template, with no change or mute pending.
    pub fn note(&self, voice: u32) -> (r: HeldButtonNote)
        requires
            self.wf(),
        ensures
            self.seeds(r),
    {
        HeldButtonNote {
            params: self.next_note.duplicate(),
            change_params: self.next_note.duplicate(),
            change_at: 0,
            change_phase: 0,
            change_pending: false,
            mute_pending: false,
            mute_at: None,
            signal: self.signal,
            sample_rate: self.sample_rate,
        }
    }
}

} // verus!
