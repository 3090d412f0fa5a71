use vstd::prelude::*;
use crate::instrument::InstrumentEvent;

verus! {

/// A global engine parameter. Floats are IEEE-754 double bit patterns.
#[non_exhaustive]
#[derive(Debug)]
pub enum JamParam {
    Tempo(u64),
    OtherFloat(String, u64),
    OtherString(String, String),
}

/// A message to the render loop.
#[derive(Debug)]
pub enum JamEvent {
    InstrumentEvent { instrument: u32, event: InstrumentEvent },
}

} // verus!
