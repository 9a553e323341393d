//! One active sounding note: identity, oscillator state, amplitude
//! envelope, and an optional per-voice gain override captured from
//! polyphonic modulation.

use vstd::prelude::*;

use crate::fixed::ONE;
use crate::smoother::Smoother;
use crate::smoother::wf_smoother;

verus! {

/// A live voice. `voice_id` is the external correlation id supplied
/// by the host (or a fallback computed from channel and note);
/// `internal_voice_id` is the engine's own monotonically increasing
/// sequence number, used to pick the oldest voice when stealing.
#[derive(Clone, Copy, PartialEq, Eq, Debug)]
pub struct Voice {
    pub voice_id: i32,
    pub channel: u8,
    pub note: u8,
    pub internal_voice_id: u64,
    pub velocity_sqrt: i64,
    pub phase: i64,
    pub phase_delta: i64,
    pub releasing: bool,
    pub amp_envelope: Smoother,
    pub voice_gain: Option<(i64, Smoother)>,
}

/// A smoother confined to `[0, ONE]`: well formed with value, target
/// and last rendered sample all inside the unit range.
pub open spec fn wf_sm01(s: Smoother) -> bool {
    &&& wf_smoother(s)
    &&& 0 <= s.value <= ONE
    &&& 0 <= s.target <= ONE
    &&& 0 <= s.last <= ONE
}

pub open spec fn wf_voice(v: Voice) -> bool {
    &&& 0 <= v.velocity_sqrt <= ONE
    &&& 0 <= v.phase < ONE
    &&& 0 <= v.phase_delta < ONE
    &&& wf_sm01(v.amp_envelope)
    &&& v.releasing ==> v.amp_envelope.target == 0
    &&& match v.voice_gain {
        Option::Some((offset, sm)) => wf_sm01(sm) && -ONE <= offset <= ONE,
        Option::None => true,
    }
}

/// A voice that has decayed to silence: released with its envelope
/// resting on exactly zero.
pub open spec fn silent(v: Voice) -> bool {
    &&& v.releasing
    &&& v.amp_envelope.target == 0
    &&& v.amp_envelope.value == 0
}

/// A voice the pruning pass removes: released, and its most recently
/// rendered envelope sample was exactly zero.
pub open spec fn prunable(v: Voice) -> bool {
    v.releasing && v.amp_envelope.last == 0
}

} // verus!
