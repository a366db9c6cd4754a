//! Voice-command assistant core: audio resampling and segmentation, the
//! command registry, intent resolution and the process-wide signals.

pub mod text;
pub mod model;
pub mod vad;
pub mod resample;
pub mod commander;
pub mod classifier;
pub mod signals;
pub mod errors;
pub mod recognizer;
pub mod executor;
pub mod feedback;
