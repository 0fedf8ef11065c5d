//! An evolutionary simulation of simple agents ("blobs") with a tiny
//! fixed-topology neural network.
//!
//! All continuous quantities are held in fixed-point form so that every part
//! of the update rule is plain integer arithmetic: positions live on a
//! 1/64-unit grid inside [-1, 1], and signal values are scaled by `SCALE`
//! (so `SCALE` stands for 1.0).

pub mod fixed;
pub mod rng;
pub mod neurons;
pub mod genome;
pub mod blob;
pub mod step;
pub mod simulate;
