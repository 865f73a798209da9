//! Attachment manager: a registry of simulated bodies with exact affine
//! transforms, a filter that classifies contact events into qualifying
//! (driver, target) pairs, and a one-shot attach transition that grafts a
//! target body under a driver while preserving its world-space pose.

pub mod intent;
pub mod registry;
pub mod transform;
