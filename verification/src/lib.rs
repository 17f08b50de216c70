//! An impulse-based rigid-body solver on fixed-point numbers.
//!
//! The solver advances a collection of rigid bodies in substeps of fixed
//! length. Each substep predicts the pose of every body, collects a
//! corrective impulse from every contact between the predicted poses,
//! applies the mean of what each body collected, and derives the velocities
//! from the corrected poses.
//!
//! All numbers are [`fixed::Fixed`]: integers that count billionths, with
//! rounding and behaviour at the ends of the range defined for every
//! operation. The same bodies, parameters and contacts therefore give the
//! same trajectory on every machine, bit for bit, and every function here
//! states its result exactly.
//!
//! The solver does not intersect shapes. The host hands a narrow phase of
//! its choice to [`tick::Pipeline::tick`] as a function, which is asked about
//! every pair of bodies at their predicted poses.

pub mod body;
pub mod collider;
pub mod fixed;
pub mod impulse;
pub mod laws;
pub mod motion;
pub mod parameters;
pub mod pipeline;
pub mod quat;
pub mod tick;
pub mod vector;
