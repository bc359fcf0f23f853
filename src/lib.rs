//! Turning an uploaded 3D model into a rotating preview animation: the file
//! names of a run's workspace, the frame plan, the encoder's arguments, the
//! per-attachment state machine and the batch summary.

pub mod names;
pub mod eligibility;
pub mod frames;
pub mod pipeline;
pub mod batch;
pub mod settings;
