//! The target-acquisition controller: which phase each control tick runs,
//! when the laser locks on and when the run is over.

pub mod acquire;
pub mod yaw;
