//! The processors of a guest that runs in a plane of an Arm CCA realm.

pub mod exit;
pub mod exit_laws;
pub mod laws;
pub mod list_registers;
pub mod plane;
pub mod poll;
pub mod processor;
pub mod state_laws;
pub mod syndrome;
pub mod vp_state;
pub mod vtl;
