//! The stepper motor on the serial bus: command frames, the driver handle and
//! the decisions of the stepper task.

pub mod command;
pub mod stepper;
pub mod task;
