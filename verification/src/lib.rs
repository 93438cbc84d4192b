//! Verified core of a laser-pointing turret: stepper-bus frames, the stepper
//! task's decisions, the vision serial protocol, the IMU frame decoder and the
//! target-acquisition controller.

pub mod controller;
pub mod imu;
pub mod step;
pub mod vision;
