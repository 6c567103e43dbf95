//! The logic of Flowwisper, a voice input assistant: cutting and watching sound,
//! transcribing it in real time with a local and a cloud engine, keeping the
//! history, and the desktop shell around it.
//!
//! Engines, channels, clocks, files, devices and floating-point arithmetic belong
//! to the caller. Times are passed in as whole nanoseconds or milliseconds,
//! samples and levels as values of any type. Where a number of samples comes of a
//! floating-point product or quotient, `rounding` computes it in whole numbers.
pub mod audio;
pub mod bounded;
mod clock;
pub mod desktop;
pub mod dirs_compat;
pub mod orchestrator;
pub mod persistence;
pub mod rounding;
pub mod text;
