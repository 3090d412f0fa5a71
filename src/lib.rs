//! A keyboard-driven instrument engine: a frame-clocked render queue, per-note
//! envelope and parameter hand-off state machines, the voice map of the render
//! loop, and modal key dispatch with modifier precedence.
//!
//! Audio samples are carried as the bit patterns of IEEE-754 single-precision
//! values (`u32`); the floating-point arithmetic of synthesis happens outside
//! this library, which decides what is computed, when, and where it goes.
mod ring;
pub mod render;
pub mod output;
pub mod params;
pub mod instrument;
pub mod voices;
pub mod event;
pub mod keycode;
pub mod keyspec;
pub mod config;
pub mod timers;

pub use event::{JamEvent, JamParam};

use vstd::prelude::*;
use crate::instrument::HeldButtonInstrument;
use crate::render::RenderQueue;
use crate::voices::{Renderer, VoiceSlot};

verus! {

/// The engine's starting state: a render loop over `instruments` with no note
/// sounding, and an empty queue whose clock starts at frame zero.
pub fn main_start(instruments: Vec<HeldButtonInstrument>) -> (r: (Renderer, RenderQueue))
    requires
        forall|i: int| 0 <= i < instruments@.len() ==> (#[trigger] instruments@[i]).wf(),
    ensures
        r.0.wf(),
        r.0.instruments_spec() == instruments@,
        r.0.voices_spec() == Seq::<VoiceSlot>::empty(),
        r.1.wf(),
        r.1.samples() == Seq::<u32>::empty(),
        r.1.tail_spec() == 0,
{
    (Renderer::new(instruments), RenderQueue::new())
}

} // verus!
