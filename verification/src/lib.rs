//! Decision logic of an automatic fishing helper: screen-colour searches,
//! fishing statistics, timing and the control loop's state machines.

pub mod colors;
pub mod geometry;
pub mod platform;
pub mod screen;
pub mod search;
pub mod stats;
pub mod process;
pub mod timing;
pub mod control;
