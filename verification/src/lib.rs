//! Core logic of a browser game frontend: the canvas lifecycle state
//! machine that coordinates tearing down and rebuilding the graphics
//! surface across animation-frame ticks, the range-mapping utility that
//! turns score counters into progress ratios, route selection, and the
//! coordinate formatting used by the status overlay.

pub mod lifecycle;
pub mod position;
pub mod range;
pub mod route;
