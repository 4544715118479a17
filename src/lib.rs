//! Orchestration of hidden-parameter discovery against one target: calibration from a
//! baseline probe, the stability gate, adaptive batch sizing, the sweep over common
//! name/value pairs, and post-processing of the findings.

pub mod types;
pub mod runner;
pub mod sweep;
pub mod post;
