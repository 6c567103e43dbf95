//! The audio pipeline of the core: cutting captured samples into frames,
//! queueing them for subscribers, and watching noise and silence.
//!
//! Samples and levels are type parameters: the code here moves and counts them
//! and never looks inside.
pub mod frames;
pub mod noise;
pub mod pipeline;
pub mod subscriber;
