//! Verified core of a polyphonic synthesizer: sample-accurate event
//! scheduling, a bounded voice pool with stealing, and per-parameter
//! ramp smoothing.
//!
//! The host hands [`engine::PolyModSynth::process`] a time-ordered
//! stream of note and modulation events plus a block length, and gets
//! back the rendered samples and the voice-termination notifications.
//! `process` is proved equal to the functional model
//! [`model::model_run`]; the scheduler's central law — sub-block
//! splitting renders the same samples as a per-sample event check,
//! whatever the sub-block cap — is proved in [`equiv`], and the pool's
//! and smoother's stated laws in [`laws`] and [`smoother`].
//!
//! All audio-rate values are fixed-point: an `i64` holds a real number
//! scaled by [`fixed::ONE`] (65536, sixteen fractional bits). The host
//! converts to its own sample format at the edge, and may duplicate
//! the rendered channel across its outputs.

pub mod engine;
pub mod equiv;
pub mod event;
pub mod filter;
pub mod fixed;
pub mod laws;
pub mod model;
pub mod osc;
pub mod pcg;
pub mod smoother;
pub mod voice;
pub mod wf;

pub use engine::PolyModSynth;
pub use event::NoteEvent;
pub use event::VoiceTerminated;
pub use fixed::ONE;
pub use smoother::Smoother;
pub use smoother::SmoothingStyle;
pub use voice::Voice;
