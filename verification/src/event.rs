//! Events consumed by the engine and notifications it emits. Every
//! event carries a sample offset (`timing`) within the current output
//! block; the host owes the engine a stream sorted ascending by
//! timing.

use vstd::prelude::*;

use crate::fixed::ONE;

verus! {

/// A note or modulation event, timed within the current block.
///
/// `velocity`, `normalized_offset` and `normalized_value` are
/// fixed-point; velocities lie in `[0, ONE]`, the normalized fields in
/// `[-ONE, ONE]`.
#[derive(Clone, Copy, PartialEq, Eq, Debug)]
#[allow(inconsistent_fields)]
pub enum NoteEvent {
    NoteOn { timing: u32, voice_id: Option<i32>, channel: u8, note: u8, velocity: i64 },
    NoteOff { timing: u32, voice_id: Option<i32>, channel: u8, note: u8, velocity: i64 },
    Choke { timing: u32, voice_id: Option<i32>, channel: u8, note: u8 },
    PolyModulation { timing: u32, voice_id: i32, poly_modulation_id: u32, normalized_offset: i64 },
    MonoAutomation { timing: u32, poly_modulation_id: u32, normalized_value: i64 },
}

/// Emitted whenever a voice ends: stolen, choked, or decayed to
/// silence after release.
#[derive(Clone, Copy, PartialEq, Eq, Debug)]
pub struct VoiceTerminated {
    pub timing: u32,
    pub voice_id: i32,
    pub channel: u8,
    pub note: u8,
}

pub open spec fn event_timing(e: NoteEvent) -> int {
    match e {
        NoteEvent::NoteOn { timing, .. } => timing as int,
        NoteEvent::NoteOff { timing, .. } => timing as int,
        NoteEvent::Choke { timing, .. } => timing as int,
        NoteEvent::PolyModulation { timing, .. } => timing as int,
        NoteEvent::MonoAutomation { timing, .. } => timing as int,
    }
}

pub open spec fn wf_event_payload(e: NoteEvent) -> bool {
    match e {
        NoteEvent::NoteOn { note, velocity, .. } => note < 128 && 0 <= velocity <= ONE,
        NoteEvent::NoteOff { .. } => true,
        NoteEvent::Choke { .. } => true,
        NoteEvent::PolyModulation { normalized_offset, .. } => -ONE <= normalized_offset <= ONE,
        NoteEvent::MonoAutomation { normalized_value, .. } => -ONE <= normalized_value <= ONE,
    }
}

pub open spec fn wf_event(e: NoteEvent, num_samples: int) -> bool {
    &&& event_timing(e) < num_samples
    &&& wf_event_payload(e)
}

pub open spec fn wf_events(events: Seq<NoteEvent>, num_samples: int) -> bool {
    forall|j: int| 0 <= j < events.len() ==> wf_event(#[trigger] events[j], num_samples)
}

/// The external precondition on the stream: ascending by timing.
pub open spec fn sorted_by_timing(events: Seq<NoteEvent>) -> bool {
    forall|j: int, k: int|
        0 <= j <= k < events.len() ==> event_timing(#[trigger] events[j]) <= event_timing(
            #[trigger] events[k],
        )
}

impl NoteEvent {
    /// The sample offset of this event within its block.
    pub fn timing(&self) -> (r: u32)
        ensures
            r == event_timing(*self),
    {
        match self {
            NoteEvent::NoteOn { timing, .. } => *timing,
            NoteEvent::NoteOff { timing, .. } => *timing,
            NoteEvent::Choke { timing, .. } => *timing,
            NoteEvent::PolyModulation { timing, .. } => *timing,
            NoteEvent::MonoAutomation { timing, .. } => *timing,
        }
    }
}

} // verus!
